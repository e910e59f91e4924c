use refresher::utils::binSearch::{find_in_chunks, find_subsequence, find_text_in_chunks, Chunks};

#[test]
fn find_subsequence_test() {
    assert_eq!(find_subsequence(b"qwertyuiop", b"tyu"), Some(4));
    assert_eq!(find_subsequence(b"qwertyuiop", b"asd"), None);
}

#[test]
fn find_subsequence_gives_first_occurrence() {
    assert_eq!(find_subsequence(b"abcabc", b"bc"), Some(1));
    assert_eq!(find_subsequence(b"ab", b"abc"), None);
    assert_eq!(find_subsequence(b"abc", b"abc"), Some(0));
}

#[test]
fn chunk_search_finds_text_in_a_chunk() {
    let chunks = vec![b"xxRE7_".to_vec(), b"RE7_TDByy".to_vec()];
    assert!(find_text_in_chunks(&chunks, "RE7_TDB"));
    assert!(find_in_chunks(&chunks, b"TDB"));
    assert!(!find_in_chunks(&chunks, b"RE8"));
}

#[test]
fn chunks_keep_reader_and_size() {
    let c = Chunks::new(vec![1u8, 2, 3], 1024);
    assert_eq!(c.size(), 1024);
    assert_eq!(c.size_hint(), (0, None));
    assert_eq!(c.into_inner(), vec![1u8, 2, 3]);
    let d = Chunks::with_remaining(0u8, 10, 25);
    assert_eq!(d.size_hint(), (3, None));
}

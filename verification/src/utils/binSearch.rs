//! Searching for a byte string in a file read in fixed-size chunks.
#![allow(non_snake_case)]
use vstd::prelude::*;

verus! {

/// `needle` occurs in `hay` at index `i`.
pub open spec fn bytes_occur_at(hay: Seq<u8>, needle: Seq<u8>, i: int) -> bool {
    0 <= i && i + needle.len() <= hay.len() && hay.subrange(i, i + needle.len()) == needle
}

/// `needle` occurs somewhere in `hay`.
pub open spec fn bytes_contain(hay: Seq<u8>, needle: Seq<u8>) -> bool {
    exists|i: int| bytes_occur_at(hay, needle, i)
}

/// `i` is the first position of `needle` in `hay`.
pub open spec fn is_first_occurrence(hay: Seq<u8>, needle: Seq<u8>, i: int) -> bool {
    bytes_occur_at(hay, needle, i) && forall|j: int| 0 <= j < i ==> !bytes_occur_at(hay, needle, j)
}

/// Reads `read` in pieces of `size` bytes; `hint` is the iterator size hint
/// (the least number of pieces, and no upper bound).
pub struct Chunks<R> {
    read: R,
    size: usize,
    hint: (usize, Option<usize>),
}

impl<R> Chunks<R> {
    pub closed spec fn spec_read(&self) -> R {
        self.read
    }

    pub closed spec fn spec_size(&self) -> usize {
        self.size
    }

    pub closed spec fn spec_hint(&self) -> (usize, Option<usize>) {
        self.hint
    }

    /// Chunks of `size` bytes with no size hint.
    pub fn new(read: R, size: usize) -> (r: Self)
        ensures
            r.spec_read() == read,
            r.spec_size() == size,
            r.spec_hint() == (0usize, None::<usize>),
    {
        Self { read, size, hint: (0, None) }
    }

    /// Chunks of `size` bytes over a reader with `rest` bytes left: the hint
    /// is the number of pieces, `rest / size` rounded up.
    pub fn with_remaining(read: R, size: usize, rest: usize) -> (r: Self)
        requires
            size > 0,
        ensures
            r.spec_read() == read,
            r.spec_size() == size,
            r.spec_hint() == ((rest / size + if rest % size != 0 {
                1int
            } else {
                0int
            }) as usize, None::<usize>),
    {
        let extra: usize = if rest % size != 0 {
            1
        } else {
            0
        };
        assert(rest / size < rest || rest / size == 0 || size == 1) by (nonlinear_arith)
            requires
                size > 0,
        ;
        assert(rest / size <= rest) by (nonlinear_arith)
            requires
                size > 0,
        ;
        assert(rest / size + extra <= usize::MAX) by (nonlinear_arith)
            requires
                size > 0,
                extra <= 1,
                extra == 1 ==> rest % size != 0,
                rest <= usize::MAX,
        ;
        let min = rest / size + extra;
        Self { read, size, hint: (min, None) }
    }

    /// The piece size.
    pub fn size(&self) -> (s: usize)
        ensures
            s == self.spec_size(),
    {
        self.size
    }

    /// The size hint.
    pub fn size_hint(&self) -> (h: (usize, Option<usize>))
        ensures
            h == self.spec_hint(),
    {
        self.hint
    }

    /// Gives back the reader, for instance to recover from a read error.
    pub fn into_inner(self) -> (r: R)
        ensures
            r == self.spec_read(),
    {
        self.read
    }
}

/// Whether `needle` occurs in `hay` at `i`.
fn occurs_at(hay: &[u8], needle: &[u8], i: usize) -> (r: bool)
    requires
        i + needle@.len() <= hay@.len(),
    ensures
        r == bytes_occur_at(hay@, needle@, i as int),
{
    let n = hay.len();
    let mut k: usize = 0;
    while k < needle.len()
        invariant
            n == hay@.len(),
            i + needle@.len() <= hay@.len(),
            k <= needle@.len(),
            forall|m: int| 0 <= m < k ==> hay@[i + m] == needle@[m],
        decreases needle@.len() - k,
    {
        if hay[i + k] != needle[k] {
            assert(hay@.subrange(i as int, i + needle@.len())[k as int] != needle@[k as int]);
            return false;
        }
        k += 1;
    }
    assert(hay@.subrange(i as int, i + needle@.len()) =~= needle@);
    true
}

/// The first position of `needle` in `haystack` (the first window of the
/// needle's length that equals it), or `None` when there is none.
pub fn find_subsequence(haystack: &[u8], needle: &[u8]) -> (r: Option<usize>)
    requires
        needle@.len() > 0,
    ensures
        match r {
            Some(i) => is_first_occurrence(haystack@, needle@, i as int),
            None => !bytes_contain(haystack@, needle@),
        },
{
    if needle.len() > haystack.len() {
        return None;
    }
    let last = haystack.len() - needle.len();
    let mut i: usize = 0;
    loop
        invariant
            last == haystack@.len() - needle@.len(),
            i <= last,
            forall|j: int| 0 <= j < i ==> !bytes_occur_at(haystack@, needle@, j),
        decreases last - i,
    {
        if occurs_at(haystack, needle, i) {
            return Some(i);
        }
        if i == last {
            return None;
        }
        i += 1;
    }
}

/// Whether `needle` occurs inside one of the chunks (a hit that straddles
/// two chunks is not seen).
pub fn find_in_chunks(chunks: &Vec<Vec<u8>>, needle: &[u8]) -> (found: bool)
    requires
        needle@.len() > 0,
    ensures
        found == exists|k: int| 0 <= k < chunks@.len() && bytes_contain(#[trigger] chunks@[k]@, needle@),
{
    let mut index: usize = 0;
    while index < chunks.len()
        invariant
            index <= chunks@.len(),
            needle@.len() > 0,
            forall|k: int| 0 <= k < index ==> !bytes_contain(#[trigger] chunks@[k]@, needle@),
        decreases chunks@.len() - index,
    {
        let found = find_subsequence(chunks[index].as_slice(), needle);
        if found.is_some() {
            return true;
        }
        index += 1;
    }
    false
}

/// Whether the UTF-8 bytes of `text` occur inside one of the chunks.
pub fn find_text_in_chunks(chunks: &Vec<Vec<u8>>, text: &str) -> (found: bool)
    requires
        vstd::string::StringSliceAdditionalSpecFns::spec_bytes(text).len() > 0,
    ensures
        found == exists|k: int|
            0 <= k < chunks@.len() && bytes_contain(#[trigger] chunks@[k]@, vstd::string::StringSliceAdditionalSpecFns::spec_bytes(text)),
{
    find_in_chunks(chunks, text.as_bytes())
}

proof fn lemma_occurrence_in_flatten(chunks: Seq<Seq<u8>>, needle: Seq<u8>, k: int, i: int)
    requires
        0 <= k < chunks.len(),
        bytes_occur_at(chunks[k], needle, i),
    ensures
        bytes_contain(chunks.flatten(), needle),
    decreases k,
{
    let flat = chunks.flatten();
    assert(flat == chunks.first() + chunks.drop_first().flatten());
    if k == 0 {
        assert(flat.subrange(i, i + needle.len()) =~= chunks[0].subrange(i, i + needle.len()));
        assert(bytes_occur_at(flat, needle, i));
    } else {
        let rest = chunks.drop_first();
        assert(rest[k - 1] == chunks[k]);
        lemma_occurrence_in_flatten(rest, needle, k - 1, i);
        let j = choose|j: int| bytes_occur_at(rest.flatten(), needle, j);
        let off = chunks.first().len();
        assert(flat.subrange(off + j, off + j + needle.len()) =~= rest.flatten().subrange(
            j,
            j + needle.len(),
        ));
        assert(bytes_occur_at(flat, needle, off + j));
    }
}

/// A hit in one chunk is a hit in the whole file: when the search over the
/// chunks finds the needle, the concatenated chunks contain it.
pub proof fn lemma_chunk_hit_is_file_hit(chunks: Seq<Seq<u8>>, needle: Seq<u8>)
    requires
        exists|k: int| 0 <= k < chunks.len() && bytes_contain(#[trigger] chunks[k], needle),
    ensures
        bytes_contain(chunks.flatten(), needle),
{
    let k = choose|k: int| 0 <= k < chunks.len() && bytes_contain(#[trigger] chunks[k], needle);
    let i = choose|i: int| bytes_occur_at(chunks[k], needle, i);
    lemma_occurrence_in_flatten(chunks, needle, k, i);
}

} // verus!

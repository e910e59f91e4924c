//! Association lists: vectors of `(name, value)` pairs in which each name
//! occurs at most once. They stand for maps from names to values.
use vstd::prelude::*;
use crate::seq_util::{first_index, lemma_first_index, lemma_first_index_at};

verus! {

/// The names, in order.
pub open spec fn assoc_keys<V>(s: Seq<(String, V)>) -> Seq<Seq<char>> {
    s.map_values(|e: (String, V)| e.0@)
}

/// No name occurs twice.
pub open spec fn assoc_wf<V>(s: Seq<(String, V)>) -> bool {
    forall|i: int, j: int| 0 <= i < s.len() && 0 <= j < s.len() && i != j ==> s[i].0@ != s[j].0@
}

/// The map from names to the views of their values.
pub open spec fn assoc_map<V: View>(s: Seq<(String, V)>) -> Map<Seq<char>, V::V>
    decreases s.len(),
{
    if s.len() == 0 {
        Map::empty()
    } else {
        assoc_map(s.drop_last()).insert(s.last().0@, s.last().1@)
    }
}

/// The index of a name.
pub open spec fn assoc_index<V>(s: Seq<(String, V)>, key: Seq<char>) -> Option<int> {
    first_index(assoc_keys(s), key)
}

/// In a list without repeated names, the map holds exactly the listed names,
/// each with the value listed for it.
pub proof fn lemma_assoc_map<V: View>(s: Seq<(String, V)>)
    requires
        assoc_wf(s),
    ensures
        forall|k: Seq<char>| #[trigger] assoc_map(s).contains_key(k) <==> assoc_keys(s).contains(k),
        forall|i: int| 0 <= i < s.len() ==> assoc_map(s)[#[trigger] s[i].0@] == s[i].1@,
    decreases s.len(),
{
    if s.len() > 0 {
        let p = s.drop_last();
        assert(assoc_wf(p));
        lemma_assoc_map(p);
        assert forall|k: Seq<char>| #[trigger] assoc_map(s).contains_key(k) <==> assoc_keys(s).contains(k) by {
            if assoc_keys(s).contains(k) {
                let j = choose|j: int| 0 <= j < assoc_keys(s).len() && assoc_keys(s)[j] == k;
                if j < p.len() {
                    assert(assoc_keys(p)[j] == k);
                }
            }
            if assoc_map(s).contains_key(k) && k != s.last().0@ {
                assert(assoc_map(p).contains_key(k));
                let j = choose|j: int| 0 <= j < assoc_keys(p).len() && assoc_keys(p)[j] == k;
                assert(assoc_keys(s)[j] == k);
            }
            if k == s.last().0@ {
                assert(assoc_keys(s)[s.len() - 1] == k);
            }
        }
        assert forall|i: int| 0 <= i < s.len() implies assoc_map(s)[#[trigger] s[i].0@] == s[i].1@ by {
            if i < s.len() - 1 {
                assert(s[i] == p[i]);
                assert(s[i].0@ != s.last().0@);
            }
        }
    }
}

/// The position of `key` in the list, if it is there.
pub fn assoc_find<V>(s: &Vec<(String, V)>, key: &str) -> (r: Option<usize>)
    ensures
        match r {
            Some(i) => assoc_index(s@, key@) == Some(i as int),
            None => assoc_index(s@, key@) is None,
        },
        r is Some <==> assoc_keys(s@).contains(key@),
{
    let mut i: usize = 0;
    while i < s.len()
        invariant
            i <= s@.len(),
            forall|j: int| 0 <= j < i ==> s@[j].0@ != key@,
        decreases s@.len() - i,
    {
        if crate::text::str_eq(s[i].0.as_str(), key) {
            proof {
                assert forall|j: int| 0 <= j < i implies assoc_keys(s@)[j] != key@ by {
                    assert(assoc_keys(s@)[j] == s@[j].0@);
                }
                lemma_first_index_at(assoc_keys(s@), key@, i as int);
                lemma_first_index(assoc_keys(s@), key@);
            }
            return Some(i);
        }
        i += 1;
    }
    proof {
        lemma_first_index(assoc_keys(s@), key@);
        if assoc_index(s@, key@) is Some {
            let k = assoc_index(s@, key@).unwrap();
            assert(assoc_keys(s@)[k] == s@[k].0@);
        }
    }
    None
}

/// Replacing the value at position `i` keeps the names, and maps the name
/// at `i` to the new value.
pub proof fn lemma_assoc_update<V: View>(s: Seq<(String, V)>, i: int, v: V)
    requires
        assoc_wf(s),
        0 <= i < s.len(),
    ensures
        assoc_wf(s.update(i, (s[i].0, v))),
        assoc_keys(s.update(i, (s[i].0, v))) == assoc_keys(s),
        assoc_map(s.update(i, (s[i].0, v))) == assoc_map(s).insert(s[i].0@, v@),
{
    let t = s.update(i, (s[i].0, v));
    assert(assoc_keys(t) =~= assoc_keys(s));
    assert(assoc_wf(t));
    lemma_assoc_map(s);
    lemma_assoc_map(t);
    assert(assoc_map(t) =~= assoc_map(s).insert(s[i].0@, v@)) by {
        assert forall|k: Seq<char>| assoc_map(t).contains_key(k) <==> assoc_map(s).insert(
            s[i].0@,
            v@,
        ).contains_key(k) by {
            if k == s[i].0@ {
                assert(assoc_keys(s)[i] == k);
            }
        }
        assert forall|k: Seq<char>| #[trigger] assoc_map(t).contains_key(k) implies assoc_map(t)[k]
            == assoc_map(s).insert(s[i].0@, v@)[k] by {
            let j = choose|j: int| 0 <= j < assoc_keys(t).len() && assoc_keys(t)[j] == k;
            assert(t[j].0@ == k);
            if j != i {
                assert(t[j] == s[j]);
            }
        }
    }
}

/// Appending a new name keeps the list free of repeats and adds the name to the map.
pub proof fn lemma_assoc_push<V: View>(s: Seq<(String, V)>, k: String, v: V)
    requires
        assoc_wf(s),
        !assoc_keys(s).contains(k@),
    ensures
        assoc_wf(s.push((k, v))),
        assoc_keys(s.push((k, v))) == assoc_keys(s).push(k@),
        assoc_map(s.push((k, v))) == assoc_map(s).insert(k@, v@),
{
    let t = s.push((k, v));
    assert(t.drop_last() =~= s);
    assert(assoc_keys(t) =~= assoc_keys(s).push(k@));
    assert forall|i: int, j: int| 0 <= i < t.len() && 0 <= j < t.len() && i != j implies t[i].0@
        != t[j].0@ by {
        if i < s.len() && j < s.len() {
            assert(t[i] == s[i] && t[j] == s[j]);
        } else if i < s.len() {
            assert(assoc_keys(s)[i] == t[i].0@);
        } else {
            assert(assoc_keys(s)[j] == t[j].0@);
        }
    }
}

} // verus!

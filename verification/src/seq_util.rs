//! Small facts about sequences and copies of owned text collections.
use vstd::prelude::*;

verus! {

/// The first index at or after `from` where `x` stands.
pub open spec fn index_from<A>(s: Seq<A>, x: A, from: int) -> Option<int>
    decreases s.len() - from,
{
    if from < 0 || from >= s.len() {
        None
    } else if s[from] == x {
        Some(from)
    } else {
        index_from(s, x, from + 1)
    }
}

/// The first index where `x` stands.
pub open spec fn first_index<A>(s: Seq<A>, x: A) -> Option<int> {
    index_from(s, x, 0)
}

pub proof fn lemma_index_from<A>(s: Seq<A>, x: A, from: int)
    requires
        0 <= from,
    ensures
        match index_from(s, x, from) {
            Some(i) => from <= i < s.len() && s[i] == x && forall|j: int| from <= j < i ==> s[j] != x,
            None => forall|j: int| from <= j < s.len() ==> s[j] != x,
        },
    decreases s.len() - from,
{
    if from < s.len() && s[from] != x {
        lemma_index_from(s, x, from + 1);
    }
}

/// `first_index` gives the least index holding `x`, and `None` exactly when
/// no index holds it.
pub proof fn lemma_first_index<A>(s: Seq<A>, x: A)
    ensures
        match first_index(s, x) {
            Some(i) => 0 <= i < s.len() && s[i] == x && forall|j: int| 0 <= j < i ==> s[j] != x,
            None => forall|j: int| 0 <= j < s.len() ==> s[j] != x,
        },
        first_index(s, x) is Some <==> s.contains(x),
{
    lemma_index_from(s, x, 0);
    if first_index(s, x) is None {
        if s.contains(x) {
            let j = choose|j: int| 0 <= j < s.len() && s[j] == x;
            assert(s[j] != x);
        }
    }
}

/// The least index holding `x` is what `first_index` gives.
pub proof fn lemma_first_index_at<A>(s: Seq<A>, x: A, i: int)
    requires
        0 <= i < s.len(),
        s[i] == x,
        forall|j: int| 0 <= j < i ==> s[j] != x,
    ensures
        first_index(s, x) == Some(i),
{
    lemma_first_index(s, x);
    match first_index(s, x) {
        Some(k) => {
            if k < i {
            } else if k > i {
            }
        },
        None => {},
    }
}

/// The character views of a vector of strings.
pub open spec fn strs_view(v: Seq<String>) -> Seq<Seq<char>> {
    v.map_values(|s: String| s@)
}

/// The character views of an optional string.
pub open spec fn opt_str_view(o: Option<String>) -> Option<Seq<char>> {
    match o {
        Some(s) => Some(s@),
        None => None,
    }
}

/// The character views of a list of string lists.
pub open spec fn nested_strs_view(v: Seq<Vec<String>>) -> Seq<Seq<Seq<char>>> {
    v.map_values(|w: Vec<String>| strs_view(w@))
}

/// A copy of a string.
pub fn copy_string(s: &String) -> (r: String)
    ensures
        r@ == s@,
{
    s.clone()
}

/// A copy of an optional string.
pub fn copy_opt_string(o: &Option<String>) -> (r: Option<String>)
    ensures
        opt_str_view(r) == opt_str_view(*o),
{
    match o {
        Some(s) => Some(s.clone()),
        None => None,
    }
}

/// A copy of a list of strings.
pub fn copy_strings(v: &Vec<String>) -> (r: Vec<String>)
    ensures
        strs_view(r@) == strs_view(v@),
{
    let mut r: Vec<String> = Vec::new();
    let mut i: usize = 0;
    while i < v.len()
        invariant
            i <= v@.len(),
            r@.len() == i,
            forall|k: int| 0 <= k < i ==> (#[trigger] r@[k])@ == v@[k]@,
        decreases v@.len() - i,
    {
        r.push(v[i].clone());
        i += 1;
    }
    assert(strs_view(r@) =~= strs_view(v@));
    r
}

/// A copy of a list of string lists.
pub fn copy_nested_strings(v: &Vec<Vec<String>>) -> (r: Vec<Vec<String>>)
    ensures
        nested_strs_view(r@) == nested_strs_view(v@),
{
    let mut r: Vec<Vec<String>> = Vec::new();
    let mut i: usize = 0;
    while i < v.len()
        invariant
            i <= v@.len(),
            r@.len() == i,
            forall|k: int| 0 <= k < i ==> strs_view((#[trigger] r@[k])@) == strs_view(v@[k]@),
        decreases v@.len() - i,
    {
        let c = copy_strings(&v[i]);
        r.push(c);
        i += 1;
    }
    assert(nested_strs_view(r@) =~= nested_strs_view(v@));
    r
}

/// Whether `name` is in `names` (on the character views).
pub fn contains_string(names: &Vec<String>, name: &str) -> (r: bool)
    ensures
        r == strs_view(names@).contains(name@),
{
    let mut i: usize = 0;
    while i < names.len()
        invariant
            i <= names@.len(),
            forall|j: int| 0 <= j < i ==> names@[j]@ != name@,
        decreases names@.len() - i,
    {
        if crate::text::str_eq(names[i].as_str(), name) {
            assert(strs_view(names@)[i as int] == name@);
            return true;
        }
        i += 1;
    }
    assert forall|j: int| 0 <= j < strs_view(names@).len() implies strs_view(names@)[j] != name@ by {
        assert(strs_view(names@)[j] == names@[j]@);
    }
    false
}

} // verus!

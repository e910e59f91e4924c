//! Ordering text the way `str`'s `Ord` does (character by character, a
//! proper prefix first) and sorting lists of names by it.
use vstd::prelude::*;
use vstd::relations::{sorted_by, total_ordering};
use crate::assoc::assoc_keys;

verus! {

/// `a <= b` in the order of `str`: the first differing character decides,
/// and a proper prefix comes first.
pub open spec fn lex_le(a: Seq<char>, b: Seq<char>) -> bool
    decreases a.len(),
{
    if a.len() == 0 {
        true
    } else if b.len() == 0 {
        false
    } else if a[0] != b[0] {
        (a[0] as u32) < (b[0] as u32)
    } else {
        lex_le(a.drop_first(), b.drop_first())
    }
}

/// `lex_le` as a relation.
pub open spec fn lex_order() -> spec_fn(Seq<char>, Seq<char>) -> bool {
    |a: Seq<char>, b: Seq<char>| lex_le(a, b)
}

pub proof fn lemma_lex_refl(a: Seq<char>)
    ensures
        lex_le(a, a),
    decreases a.len(),
{
    if a.len() > 0 {
        lemma_lex_refl(a.drop_first());
    }
}

pub proof fn lemma_lex_antisym(a: Seq<char>, b: Seq<char>)
    requires
        lex_le(a, b),
        lex_le(b, a),
    ensures
        a == b,
    decreases a.len(),
{
    if a.len() > 0 && b.len() > 0 {
        lemma_lex_antisym(a.drop_first(), b.drop_first());
        assert(a =~= seq![a[0]] + a.drop_first());
        assert(b =~= seq![b[0]] + b.drop_first());
    } else {
        assert(a.len() == 0 && b.len() == 0);
        assert(a =~= b);
    }
}

pub proof fn lemma_lex_trans(a: Seq<char>, b: Seq<char>, c: Seq<char>)
    requires
        lex_le(a, b),
        lex_le(b, c),
    ensures
        lex_le(a, c),
    decreases a.len(),
{
    if a.len() > 0 && b.len() > 0 && c.len() > 0 {
        if a[0] == b[0] && b[0] == c[0] {
            lemma_lex_trans(a.drop_first(), b.drop_first(), c.drop_first());
        }
    }
}

pub proof fn lemma_lex_total(a: Seq<char>, b: Seq<char>)
    ensures
        lex_le(a, b) || lex_le(b, a),
    decreases a.len(),
{
    if a.len() > 0 && b.len() > 0 {
        if a[0] == b[0] {
            lemma_lex_total(a.drop_first(), b.drop_first());
        } else {
            if (a[0] as u32) == (b[0] as u32) {
                vstd::utf8::char_u32_cast(a[0], a[0] as u32);
                vstd::utf8::char_u32_cast(b[0], b[0] as u32);
            }
        }
    }
}

/// `lex_le` is a total order.
pub proof fn lemma_lex_total_ordering()
    ensures
        total_ordering(lex_order()),
{
    let r = lex_order();
    assert forall|x: Seq<char>| #[trigger] r(x, x) by {
        lemma_lex_refl(x);
    }
    assert forall|x: Seq<char>, y: Seq<char>| #[trigger] r(x, y) && #[trigger] r(y, x) implies x == y by {
        lemma_lex_antisym(x, y);
    }
    assert forall|x: Seq<char>, y: Seq<char>, z: Seq<char>| #[trigger] r(x, y) && #[trigger] r(y, z) implies r(x, z) by {
        lemma_lex_trans(x, y, z);
    }
    assert forall|x: Seq<char>, y: Seq<char>| #[trigger] r(x, y) || #[trigger] r(y, x) by {
        lemma_lex_total(x, y);
    }
}

/// `a <= b` in the order of `str`.
pub fn str_le(a: &str, b: &str) -> (r: bool)
    ensures
        r == lex_le(a@, b@),
{
    let ac = crate::text::to_chars(a);
    let bc = crate::text::to_chars(b);
    let mut i: usize = 0;
    assert(a@.skip(0) =~= a@);
    assert(b@.skip(0) =~= b@);
    while i < ac.len() && i < bc.len()
        invariant
            ac@ == a@,
            bc@ == b@,
            i <= ac@.len(),
            i <= bc@.len(),
            lex_le(a@, b@) == lex_le(a@.skip(i as int), b@.skip(i as int)),
        decreases ac@.len() - i,
    {
        let x = ac[i];
        let y = bc[i];
        if x != y {
            assert(a@.skip(i as int)[0] == x);
            assert(b@.skip(i as int)[0] == y);
            return (x as u32) < (y as u32);
        }
        assert(a@.skip(i as int).drop_first() =~= a@.skip(i + 1));
        assert(b@.skip(i as int).drop_first() =~= b@.skip(i + 1));
        i += 1;
    }
    i == ac.len()
}

/// The multiset of `s.insert(k, x)` is that of `s` with `x` added.
proof fn lemma_insert_multiset<A>(s: Seq<A>, k: int, x: A)
    requires
        0 <= k <= s.len(),
    ensures
        s.insert(k, x).to_multiset() =~= s.to_multiset().insert(x),
{
    broadcast use vstd::seq_lib::group_to_multiset_ensures;
    let left = s.subrange(0, k);
    let right = s.subrange(k, s.len() as int);
    assert(s =~= left + right);
    assert(s.insert(k, x) =~= left.push(x) + right);
    vstd::seq_lib::lemma_multiset_commutative(left, right);
    vstd::seq_lib::lemma_multiset_commutative(left.push(x), right);
}

/// Sorts the names in the order of `str` (equal names keep their order).
pub fn sort_strings(v: &mut Vec<String>)
    ensures
        sorted_by(final(v)@.map_values(|s: String| s@), lex_order()),
        final(v)@.to_multiset() == old(v)@.to_multiset(),
{
    broadcast use vstd::seq_lib::group_to_multiset_ensures, vstd::multiset::group_multiset_axioms;
    proof {
        lemma_lex_total_ordering();
    }
    let mut src: Vec<String> = Vec::new();
    std::mem::swap(&mut src, v);
    let ghost total = src@.to_multiset();
    let mut out: Vec<String> = Vec::new();
    while src.len() > 0
        invariant
            total == old(v)@.to_multiset(),
            out@.to_multiset().add(src@.to_multiset()) == total,
            sorted_by(out@.map_values(|s: String| s@), lex_order()),
            total_ordering(lex_order()),
        decreases src@.len(),
    {
        let ghost src_before = src@;
        let x = src.remove(0);
        proof {
            assert(src_before[0] == x);
            vstd::seq_lib::to_multiset_remove(src_before, 0);
            vstd::seq_lib::lemma_seq_contains(src_before, x);
        }
        let mut k: usize = 0;
        while k < out.len() && str_le(out[k].as_str(), x.as_str())
            invariant
                k <= out@.len(),
                forall|j: int| 0 <= j < k ==> lex_le(#[trigger] out@[j]@, x@),
            decreases out@.len() - k,
        {
            k += 1;
        }
        let ghost before = out@;
        proof {
            lemma_insert_multiset(before, k as int, x);
        }
        out.insert(k, x);
        proof {
            let r = lex_order();
            let vs = out@.map_values(|s: String| s@);
            let bs = before.map_values(|s: String| s@);
            assert forall|i: int, j: int| 0 <= i < j < vs.len() implies #[trigger] r(vs[i], vs[j]) by {
                if j < k {
                    assert(vs[i] == bs[i] && vs[j] == bs[j]);
                } else if j == k {
                    assert(vs[j] == x@ && vs[i] == bs[i]);
                    assert(lex_le(before[i]@, x@));
                } else if i == k {
                    assert(vs[i] == x@ && vs[j] == bs[j - 1]);
                    assert(!lex_le(before[k as int]@, x@));
                    lemma_lex_total(before[k as int]@, x@);
                    if j - 1 > k {
                        assert(r(bs[k as int], bs[j - 1]));
                        lemma_lex_trans(x@, bs[k as int], bs[j - 1]);
                    }
                } else if i < k {
                    assert(vs[i] == bs[i] && vs[j] == bs[j - 1]);
                } else {
                    assert(vs[i] == bs[i - 1] && vs[j] == bs[j - 1]);
                }
            }
            assert(src@ == src_before.remove(0));
            assert(src_before.contains(x));
            src_before.to_multiset_ensures();
            assert(src_before.to_multiset().count(x) > 0);
            assert(src@.to_multiset() == src_before.to_multiset().remove(x));
            assert(out@.to_multiset() == before.to_multiset().insert(x));
            assert(out@.to_multiset().add(src@.to_multiset()) =~= before.to_multiset().add(
                src_before.to_multiset(),
            ));
        }
    }
    *v = out;
}

/// Sorts the pairs by their names in the order of `str` (pairs with equal
/// names keep their order).
pub fn sort_by_name<V>(v: &mut Vec<(String, V)>)
    ensures
        sorted_by(assoc_keys(final(v)@), lex_order()),
        final(v)@.to_multiset() == old(v)@.to_multiset(),
{
    broadcast use vstd::seq_lib::group_to_multiset_ensures, vstd::multiset::group_multiset_axioms;
    proof {
        lemma_lex_total_ordering();
    }
    let mut src: Vec<(String, V)> = Vec::new();
    std::mem::swap(&mut src, v);
    let ghost total = src@.to_multiset();
    let mut out: Vec<(String, V)> = Vec::new();
    while src.len() > 0
        invariant
            total == old(v)@.to_multiset(),
            out@.to_multiset().add(src@.to_multiset()) == total,
            sorted_by(assoc_keys(out@), lex_order()),
            total_ordering(lex_order()),
        decreases src@.len(),
    {
        let ghost src_before = src@;
        let x = src.remove(0);
        proof {
            assert(src_before[0] == x);
            vstd::seq_lib::to_multiset_remove(src_before, 0);
            vstd::seq_lib::lemma_seq_contains(src_before, x);
        }
        let mut k: usize = 0;
        while k < out.len() && str_le(out[k].0.as_str(), x.0.as_str())
            invariant
                k <= out@.len(),
                forall|j: int| 0 <= j < k ==> lex_le(#[trigger] out@[j].0@, x.0@),
            decreases out@.len() - k,
        {
            k += 1;
        }
        let ghost before = out@;
        let ghost key = x.0@;
        proof {
            lemma_insert_multiset(before, k as int, x);
        }
        out.insert(k, x);
        proof {
            let r = lex_order();
            let vs = assoc_keys(out@);
            let bs = assoc_keys(before);
            assert forall|i: int, j: int| 0 <= i < j < vs.len() implies #[trigger] r(vs[i], vs[j]) by {
                if j < k {
                    assert(vs[i] == bs[i] && vs[j] == bs[j]);
                } else if j == k {
                    assert(vs[j] == key && vs[i] == bs[i]);
                    assert(lex_le(before[i].0@, key));
                } else if i == k {
                    assert(vs[i] == key && vs[j] == bs[j - 1]);
                    assert(!lex_le(before[k as int].0@, key));
                    lemma_lex_total(before[k as int].0@, key);
                    if j - 1 > k {
                        assert(r(bs[k as int], bs[j - 1]));
                        lemma_lex_trans(key, bs[k as int], bs[j - 1]);
                    }
                } else if i < k {
                    assert(vs[i] == bs[i] && vs[j] == bs[j - 1]);
                } else {
                    assert(vs[i] == bs[i - 1] && vs[j] == bs[j - 1]);
                }
            }
            assert(src@ == src_before.remove(0));
            assert(src_before.contains(x));
            src_before.to_multiset_ensures();
            assert(src_before.to_multiset().count(x) > 0);
            assert(src@.to_multiset() == src_before.to_multiset().remove(x));
            assert(out@.to_multiset() == before.to_multiset().insert(x));
            assert(out@.to_multiset().add(src@.to_multiset()) =~= before.to_multiset().add(
                src_before.to_multiset(),
            ));
        }
    }
    *v = out;
}

/// The labels that do not hold `pat`, in order.
pub open spec fn labels_without(s: Seq<String>, pat: Seq<char>) -> Seq<String>
    decreases s.len(),
{
    if s.len() == 0 {
        Seq::empty()
    } else {
        labels_without(s.drop_last(), pat) + if crate::text::contains(s.last()@, pat) {
            Seq::empty()
        } else {
            seq![s.last()]
        }
    }
}

/// The labels that hold `pat`, in order.
pub open spec fn labels_with(s: Seq<String>, pat: Seq<char>) -> Seq<String>
    decreases s.len(),
{
    if s.len() == 0 {
        Seq::empty()
    } else {
        labels_with(s.drop_last(), pat) + if crate::text::contains(s.last()@, pat) {
            seq![s.last()]
        } else {
            Seq::empty()
        }
    }
}

/// Moves the labels that hold `pat` after the others; both groups keep
/// their order.
pub fn move_labels_with_last(v: &mut Vec<String>, pat: &str)
    ensures
        final(v)@ == labels_without(old(v)@, pat@) + labels_with(old(v)@, pat@),
{
    let mut plain: Vec<String> = Vec::new();
    let mut marked: Vec<String> = Vec::new();
    let mut i: usize = 0;
    while i < v.len()
        invariant
            i <= v@.len(),
            v@ == old(v)@,
            plain@ == labels_without(v@.subrange(0, i as int), pat@),
            marked@ == labels_with(v@.subrange(0, i as int), pat@),
        decreases v@.len() - i,
    {
        proof {
            assert(v@.subrange(0, i + 1).drop_last() =~= v@.subrange(0, i as int));
        }
        if crate::text::contains_str(v[i].as_str(), pat) {
            marked.push(v[i].clone());
        } else {
            plain.push(v[i].clone());
        }
        i += 1;
    }
    assert(v@.subrange(0, v@.len() as int) =~= v@);
    plain.append(&mut marked);
    *v = plain;
}

} // verus!

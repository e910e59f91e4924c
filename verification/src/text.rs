//! Character-level text operations with exact specifications.
//!
//! Every function here works on the `char` view (`Seq<char>`) of its
//! arguments and states its result in terms of the spec functions below,
//! which follow the meaning of the corresponding `str` methods of std.
use vstd::prelude::*;

verus! {

/// `pat` occurs in `s` starting at index `i`.
pub open spec fn occurs_at(s: Seq<char>, pat: Seq<char>, i: int) -> bool {
    0 <= i && i + pat.len() <= s.len() && s.subrange(i, i + pat.len()) == pat
}

/// `pat` occurs somewhere in `s` (`str::contains`).
pub open spec fn contains(s: Seq<char>, pat: Seq<char>) -> bool {
    exists|i: int| occurs_at(s, pat, i)
}

/// The first index at or after `from` where `pat` occurs.
pub open spec fn find_from(s: Seq<char>, pat: Seq<char>, from: int) -> Option<int>
    decreases s.len() + 1 - from,
{
    if from < 0 || from > s.len() || from + pat.len() > s.len() {
        None
    } else if occurs_at(s, pat, from) {
        Some(from)
    } else {
        find_from(s, pat, from + 1)
    }
}

/// The first index where `pat` occurs (`str::find`).
pub open spec fn find(s: Seq<char>, pat: Seq<char>) -> Option<int> {
    find_from(s, pat, 0)
}

/// `str::split_once`: the text before and after the first occurrence of `delim`.
pub open spec fn split_once(s: Seq<char>, delim: Seq<char>) -> Option<(Seq<char>, Seq<char>)> {
    match find(s, delim) {
        Some(i) => Some((s.subrange(0, i), s.subrange(i + delim.len(), s.len() as int))),
        None => None,
    }
}

/// `str::splitn(n, delim)` for a non-empty `delim` and `n >= 1`.
pub open spec fn splitn(s: Seq<char>, n: nat, delim: Seq<char>) -> Seq<Seq<char>>
    decreases n,
{
    if n <= 1 {
        seq![s]
    } else {
        match split_once(s, delim) {
            Some((head, rest)) => seq![head] + splitn(rest, (n - 1) as nat, delim),
            None => seq![s],
        }
    }
}

/// `str::starts_with`.
pub open spec fn starts_with(s: Seq<char>, pat: Seq<char>) -> bool {
    pat.len() <= s.len() && s.subrange(0, pat.len() as int) == pat
}

/// `str::ends_with`.
pub open spec fn ends_with(s: Seq<char>, pat: Seq<char>) -> bool {
    pat.len() <= s.len() && s.subrange(s.len() - pat.len(), s.len() as int) == pat
}

/// `str::trim_start_matches` with a single `char` pattern.
pub open spec fn trim_start_char(s: Seq<char>, c: char) -> Seq<char>
    decreases s.len(),
{
    if s.len() > 0 && s[0] == c {
        trim_start_char(s.drop_first(), c)
    } else {
        s
    }
}

pub proof fn lemma_find_from(s: Seq<char>, pat: Seq<char>, from: int)
    requires
        0 <= from,
    ensures
        match find_from(s, pat, from) {
            Some(i) => from <= i && occurs_at(s, pat, i) && forall|j: int|
                from <= j < i ==> !occurs_at(s, pat, j),
            None => forall|j: int| from <= j ==> !occurs_at(s, pat, j),
        },
    decreases s.len() + 1 - from,
{
    if from > s.len() || from + pat.len() > s.len() {
    } else if occurs_at(s, pat, from) {
    } else {
        lemma_find_from(s, pat, from + 1);
    }
}

/// `find` gives the least index where the pattern occurs, and `None`
/// exactly when it occurs nowhere.
pub proof fn lemma_find(s: Seq<char>, pat: Seq<char>)
    ensures
        find(s, pat) is Some <==> contains(s, pat),
        match find(s, pat) {
            Some(i) => occurs_at(s, pat, i) && forall|j: int| 0 <= j < i ==> !occurs_at(s, pat, j),
            None => forall|j: int| !occurs_at(s, pat, j),
        },
{
    lemma_find_from(s, pat, 0);
    match find(s, pat) {
        Some(i) => {
            assert(occurs_at(s, pat, i));
        },
        None => {
            assert forall|j: int| !occurs_at(s, pat, j) by {
                if j >= 0 {
                }
            }
        },
    }
}

/// An occurrence with none before it is the one `find` gives.
pub proof fn lemma_find_at(s: Seq<char>, pat: Seq<char>, i: int)
    requires
        occurs_at(s, pat, i),
        forall|j: int| 0 <= j < i ==> !occurs_at(s, pat, j),
    ensures
        find(s, pat) == Some(i),
{
    lemma_find(s, pat);
    match find(s, pat) {
        Some(k) => {
            if k < i {
            } else if k > i {
                assert(!occurs_at(s, pat, i));
            }
        },
        None => {
            assert(!occurs_at(s, pat, i));
        },
    }
}

/// A single-character pattern occurs at `i` exactly when `s[i]` is that character.
pub proof fn lemma_occurs_char(s: Seq<char>, c: char, i: int)
    ensures
        occurs_at(s, seq![c], i) <==> (0 <= i < s.len() && s[i] == c),
{
    if 0 <= i < s.len() && s[i] == c {
        assert(s.subrange(i, i + 1) =~= seq![c]);
    }
    if occurs_at(s, seq![c], i) {
        assert(s.subrange(i, i + 1)[0] == s[i]);
    }
}

/// Splitting `x + c + y` at the first `c`, where `x` has no `c`, gives `x` and `y`.
pub proof fn lemma_split_at_first_char(x: Seq<char>, c: char, y: Seq<char>)
    requires
        forall|j: int| 0 <= j < x.len() ==> x[j] != c,
    ensures
        split_once(x + seq![c] + y, seq![c]) == Some((x, y)),
{
    let t = x + seq![c] + y;
    lemma_occurs_char(t, c, x.len() as int);
    assert forall|j: int| 0 <= j < x.len() implies !occurs_at(t, seq![c], j) by {
        lemma_occurs_char(t, c, j);
        assert(t[j] == x[j]);
    }
    lemma_find_at(t, seq![c], x.len() as int);
    assert(t.subrange(0, x.len() as int) =~= x);
    assert(t.subrange(x.len() as int + 1, t.len() as int) =~= y);
}

/// A string without `c` has no occurrence of it.
pub proof fn lemma_no_char(s: Seq<char>, c: char)
    requires
        !contains(s, seq![c]),
    ensures
        forall|j: int| 0 <= j < s.len() ==> s[j] != c,
{
    assert forall|j: int| 0 <= j < s.len() implies s[j] != c by {
        lemma_occurs_char(s, c, j);
    }
}

/// The characters of `s`, in order.
pub fn to_chars(s: &str) -> (v: Vec<char>)
    ensures
        v@ == s@,
{
    let n = s.unicode_len();
    let mut v: Vec<char> = Vec::new();
    let mut i: usize = 0;
    while i < n
        invariant
            n == s@.len(),
            i <= n,
            v@ == s@.subrange(0, i as int),
        decreases n - i,
    {
        v.push(s.get_char(i));
        i += 1;
    }
    assert(v@ == s@);
    v
}

/// Whether `pat` occurs in `s` at index `i` (character positions).
pub fn occurs_at_exec(s: &Vec<char>, pat: &Vec<char>, i: usize) -> (r: bool)
    ensures
        r == occurs_at(s@, pat@, i as int),
{
    if i > s.len() || pat.len() > s.len() - i {
        return false;
    }
    let mut k: usize = 0;
    while k < pat.len()
        invariant
            i + pat.len() <= s.len(),
            k <= pat.len(),
            forall|m: int| 0 <= m < k ==> s@[i + m] == pat@[m],
        decreases pat.len() - k,
    {
        if s[i + k] != pat[k] {
            assert(s@.subrange(i as int, i + pat.len())[k as int] != pat@[k as int]);
            return false;
        }
        k += 1;
    }
    assert(s@.subrange(i as int, i + pat.len()) =~= pat@);
    true
}

/// The first character index where `pat` occurs in `s`.
pub fn find_chars(s: &Vec<char>, pat: &Vec<char>) -> (r: Option<usize>)
    ensures
        match r {
            Some(i) => find(s@, pat@) == Some(i as int),
            None => find(s@, pat@) is None,
        },
{
    if pat.len() > s.len() {
        return None;
    }
    let last = s.len() - pat.len();
    let mut i: usize = 0;
    loop
        invariant
            last == s@.len() - pat@.len(),
            i <= last,
            find(s@, pat@) == find_from(s@, pat@, i as int),
        decreases last - i,
    {
        if occurs_at_exec(s, pat, i) {
            return Some(i);
        }
        if i == last {
            assert(find_from(s@, pat@, i + 1) is None);
            return None;
        }
        i += 1;
    }
}

/// `str::find`, in character positions.
pub fn find_str(s: &str, pat: &str) -> (r: Option<usize>)
    ensures
        match r {
            Some(i) => find(s@, pat@) == Some(i as int),
            None => find(s@, pat@) is None,
        },
{
    let sc = to_chars(s);
    let pc = to_chars(pat);
    find_chars(&sc, &pc)
}

/// `str::contains`.
pub fn contains_str(s: &str, pat: &str) -> (r: bool)
    ensures
        r == contains(s@, pat@),
{
    proof {
        lemma_find(s@, pat@);
    }
    find_str(s, pat).is_some()
}

/// String equality on the `char` view.
pub fn str_eq(a: &str, b: &str) -> (r: bool)
    ensures
        r == (a@ == b@),
{
    let n = a.unicode_len();
    let m = b.unicode_len();
    if n != m {
        return false;
    }
    let mut i: usize = 0;
    while i < n
        invariant
            n == a@.len(),
            n == b@.len(),
            i <= n,
            forall|k: int| 0 <= k < i ==> a@[k] == b@[k],
        decreases n - i,
    {
        if a.get_char(i) != b.get_char(i) {
            return false;
        }
        i += 1;
    }
    assert(a@ =~= b@);
    true
}

/// An owned copy of `s`.
pub fn owned(s: &str) -> (r: String)
    ensures
        r@ == s@,
{
    s.to_owned()
}

/// `str::split_once`, producing owned parts.
pub fn split_once_str(s: &str, delim: &str) -> (r: Option<(String, String)>)
    ensures
        match r {
            Some((a, b)) => split_once(s@, delim@) == Some((a@, b@)),
            None => split_once(s@, delim@) is None,
        },
{
    let n = s.unicode_len();
    let dn = delim.unicode_len();
    match find_str(s, delim) {
        Some(i) => {
            proof {
                lemma_find(s@, delim@);
            }
            let head = owned(s.substring_char(0, i));
            let tail = owned(s.substring_char(i + dn, n));
            Some((head, tail))
        },
        None => None,
    }
}

/// `str::split_once` with a single `char` delimiter.
pub fn split_once_char(s: &str, delim: char) -> (r: Option<(String, String)>)
    ensures
        match r {
            Some((a, b)) => split_once(s@, seq![delim]) == Some((a@, b@)),
            None => split_once(s@, seq![delim]) is None,
        },
{
    let n = s.unicode_len();
    let sc = to_chars(s);
    let pc: Vec<char> = vec![delim];
    assert(pc@ =~= seq![delim]);
    match find_chars(&sc, &pc) {
        Some(i) => {
            proof {
                lemma_find(s@, seq![delim]);
            }
            let head = owned(s.substring_char(0, i));
            let tail = owned(s.substring_char(i + 1, n));
            Some((head, tail))
        },
        None => None,
    }
}

/// `str::contains` with a single `char` pattern.
pub fn contains_char(s: &str, c: char) -> (r: bool)
    ensures
        r == contains(s@, seq![c]),
{
    let sc = to_chars(s);
    let pc: Vec<char> = vec![c];
    assert(pc@ =~= seq![c]);
    proof {
        lemma_find(s@, seq![c]);
    }
    find_chars(&sc, &pc).is_some()
}

/// `str::splitn(n, delim)` collected into owned parts.
pub fn splitn_str(s: &str, n: usize, delim: &str) -> (r: Vec<String>)
    requires
        n >= 1,
    ensures
        r@.map_values(|p: String| p@) == splitn(s@, n as nat, delim@),
{
    let mut parts: Vec<String> = Vec::new();
    let mut rest: String = owned(s);
    let mut k: usize = n;
    while k > 1
        invariant
            1 <= k <= n,
            parts@.map_values(|p: String| p@) + splitn(rest@, k as nat, delim@) == splitn(
                s@,
                n as nat,
                delim@,
            ),
        ensures
            parts@.map_values(|p: String| p@) + splitn(rest@, k as nat, delim@) == splitn(
                s@,
                n as nat,
                delim@,
            ),
            k == 1 || split_once(rest@, delim@) is None,
        decreases k,
    {
        match split_once_str(rest.as_str(), delim) {
            Some((head, tail)) => {
                let ghost old_parts = parts@.map_values(|p: String| p@);
                parts.push(head);
                assert(parts@.map_values(|p: String| p@) =~= old_parts.push(head@));
                assert(splitn(rest@, k as nat, delim@) == seq![head@] + splitn(
                    tail@,
                    (k - 1) as nat,
                    delim@,
                ));
                assert(old_parts + (seq![head@] + splitn(tail@, (k - 1) as nat, delim@))
                    =~= old_parts.push(head@) + splitn(tail@, (k - 1) as nat, delim@));
                rest = tail;
                k -= 1;
            },
            None => {
                break;
            },
        }
    }
    proof {
        assert(splitn(rest@, k as nat, delim@) == seq![rest@]);
    }
    let ghost old_parts = parts@.map_values(|p: String| p@);
    parts.push(rest);
    assert(parts@.map_values(|p: String| p@) =~= old_parts.push(rest@));
    assert(old_parts + seq![rest@] =~= old_parts.push(rest@));
    parts
}


/// `str::starts_with`.
pub fn starts_with_str(s: &str, pat: &str) -> (r: bool)
    ensures
        r == starts_with(s@, pat@),
{
    let n = s.unicode_len();
    let m = pat.unicode_len();
    if m > n {
        return false;
    }
    str_eq(s.substring_char(0, m), pat)
}

/// `str::ends_with`.
pub fn ends_with_str(s: &str, pat: &str) -> (r: bool)
    ensures
        r == ends_with(s@, pat@),
{
    let n = s.unicode_len();
    let m = pat.unicode_len();
    if m > n {
        return false;
    }
    str_eq(s.substring_char(n - m, n), pat)
}

/// `str::trim_start_matches` with a single `char` pattern.
pub fn trim_start_char_str(s: &str, c: char) -> (r: String)
    ensures
        r@ == trim_start_char(s@, c),
{
    let n = s.unicode_len();
    let mut i: usize = 0;
    assert(s@.subrange(0, n as int) =~= s@);
    while i < n && s.get_char(i) == c
        invariant
            n == s@.len(),
            i <= n,
            trim_start_char(s@.subrange(i as int, n as int), c) == trim_start_char(s@, c),
        decreases n - i,
    {
        assert(s@.subrange(i as int, n as int).drop_first() =~= s@.subrange(i + 1, n as int));
        i += 1;
    }
    owned(s.substring_char(i, n))
}

/// A decimal digit.
pub open spec fn is_digit(c: char) -> bool {
    '0' <= c <= '9'
}

pub open spec fn all_digits(d: Seq<char>) -> bool {
    forall|i: int| 0 <= i < d.len() ==> is_digit(#[trigger] d[i])
}

/// The value of a string of decimal digits.
pub open spec fn digits_value(d: Seq<char>) -> int
    decreases d.len(),
{
    if d.len() == 0 {
        0
    } else {
        digits_value(d.drop_last()) * 10 + (d.last() as int - '0' as int)
    }
}

/// `str::parse` for an unsigned integer type whose largest value is `max`:
/// one optional leading `+`, then at least one decimal digit, and a value
/// that fits.
pub open spec fn parse_unsigned(s: Seq<char>, max: int) -> Option<int> {
    let d = if s.len() > 1 && s[0] == '+' {
        s.drop_first()
    } else {
        s
    };
    if d.len() > 0 && all_digits(d) && digits_value(d) <= max {
        Some(digits_value(d))
    } else {
        None
    }
}

proof fn lemma_digits_value_nonneg(d: Seq<char>)
    requires
        all_digits(d),
    ensures
        digits_value(d) >= 0,
    decreases d.len(),
{
    if d.len() > 0 {
        lemma_digits_value_nonneg(d.drop_last());
    }
}

/// Appending digits never makes the value smaller.
proof fn lemma_digits_value_monotone(d: Seq<char>, k: int)
    requires
        all_digits(d),
        0 <= k <= d.len(),
    ensures
        digits_value(d.subrange(0, k)) <= digits_value(d),
    decreases d.len(),
{
    if k < d.len() {
        let p = d.drop_last();
        assert(p.subrange(0, k) =~= d.subrange(0, k));
        lemma_digits_value_monotone(p, k);
        lemma_digits_value_nonneg(p);
        assert(digits_value(p) <= digits_value(p) * 10) by (nonlinear_arith)
            requires
                digits_value(p) >= 0,
        ;
    } else {
        assert(d.subrange(0, k) =~= d);
    }
}

/// Parses an unsigned decimal number no larger than `max`.
fn parse_unsigned_exec(s: &str, max: u64) -> (r: Option<u64>)
    requires
        max <= u32::MAX,
    ensures
        match r {
            Some(v) => parse_unsigned(s@, max as int) == Some(v as int),
            None => parse_unsigned(s@, max as int) is None,
        },
{
    let n = s.unicode_len();
    let start: usize = if n > 1 && s.get_char(0) == '+' {
        1
    } else {
        0
    };
    let ghost d = if s@.len() > 1 && s@[0] == '+' {
        s@.drop_first()
    } else {
        s@
    };
    assert(d =~= s@.subrange(start as int, n as int));
    if start >= n {
        return None;
    }
    let mut acc: u64 = 0;
    let mut i: usize = start;
    while i < n
        invariant
            n == s@.len(),
            start <= i <= n,
            d == s@.subrange(start as int, n as int),
            d == (if s@.len() > 1 && s@[0] == '+' {
                s@.drop_first()
            } else {
                s@
            }),
            max <= u32::MAX,
            acc <= max,
            all_digits(d.subrange(0, i - start)),
            acc == digits_value(d.subrange(0, i - start)),
        decreases n - i,
    {
        let c = s.get_char(i);
        if c < '0' || c > '9' {
            assert(d[i - start] == c);
            assert(!all_digits(d));
            assert(parse_unsigned(s@, max as int) is None);
            return None;
        }
        let ghost pre = d.subrange(0, i - start);
        let ghost next = d.subrange(0, i + 1 - start);
        assert(next.drop_last() =~= pre);
        let dv: u64 = (c as u32 - '0' as u32) as u64;
        let v = acc * 10 + dv;
        assert(all_digits(next));
        assert(v == digits_value(next));
        if v > max {
            proof {
                if all_digits(d) {
                    lemma_digits_value_monotone(d, i + 1 - start);
                }
                assert(parse_unsigned(s@, max as int) is None);
            }
            return None;
        }
        acc = v;
        i += 1;
    }
    assert(d.subrange(0, n - start) =~= d);
    Some(acc)
}

/// `str::parse::<u16>`.
pub fn parse_u16(s: &str) -> (r: Option<u16>)
    ensures
        match r {
            Some(v) => parse_unsigned(s@, u16::MAX as int) == Some(v as int),
            None => parse_unsigned(s@, u16::MAX as int) is None,
        },
{
    match parse_unsigned_exec(s, 0xffff) {
        Some(v) => Some(v as u16),
        None => None,
    }
}

/// `str::parse::<u8>`.
pub fn parse_u8(s: &str) -> (r: Option<u8>)
    ensures
        match r {
            Some(v) => parse_unsigned(s@, u8::MAX as int) == Some(v as int),
            None => parse_unsigned(s@, u8::MAX as int) is None,
        },
{
    match parse_unsigned_exec(s, 0xff) {
        Some(v) => Some(v as u8),
        None => None,
    }
}

} // verus!

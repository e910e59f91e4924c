//! Comparison of a local mod version with the version published in the
//! repository. Versions look like `v<major>.<minor>-<hash>`; a local version
//! may also be a bare hash.
use vstd::prelude::*;
use crate::text::{contains, contains_char, parse_u8, parse_unsigned, split_once, split_once_char, owned};

verus! {

/// The first character is a single UTF-8 byte, so slicing off one byte
/// (`&text[1..]`) is valid.
pub open spec fn first_char_is_single_byte(t: Seq<char>) -> bool {
    t.len() >= 1 && (t[0] as int) < 0x80
}

/// `(major, minor, hash)` of `v<major>.<minor>-<hash>`: the first character is
/// dropped, the rest is split at its first `.`, and what follows at its first `-`.
pub open spec fn version_tuple(t: Seq<char>) -> Option<(Seq<char>, Seq<char>, Seq<char>)> {
    match split_once(t.drop_first(), seq!['.']) {
        Some((major, minor_a_hash)) => match split_once(minor_a_hash, seq!['-']) {
            Some((minor, hash)) => Some((major, minor, hash)),
            None => None,
        },
        None => None,
    }
}

/// Whether the repository version is newer than the local one, where the
/// numeric parts are parsed as integers no larger than `max`:
/// `None` when a version cannot be parsed; for a local bare hash (no `.`),
/// whether the hashes differ; otherwise a greater repository major, then a
/// greater repository minor, then differing hashes make it newer.
pub open spec fn repo_version_newer(local: Seq<char>, repo: Seq<char>, max: int) -> Option<bool> {
    match version_tuple(repo) {
        None => None,
        Some((r_major, r_minor, r_hash)) => if !contains(local, seq!['.']) {
            Some(r_hash != local)
        } else {
            match version_tuple(local) {
                None => None,
                Some((l_major, l_minor, l_hash)) => match (
                    parse_unsigned(r_major, max),
                    parse_unsigned(l_major, max),
                ) {
                    (Some(rm), Some(lm)) => if rm > lm {
                        Some(true)
                    } else {
                        match (parse_unsigned(r_minor, max), parse_unsigned(l_minor, max)) {
                            (Some(rn), Some(ln)) => Some(rn > ln || r_hash != l_hash),
                            _ => None,
                        }
                    },
                    _ => None,
                },
            }
        },
    }
}

/// The inputs on which the comparison does not panic: the repository
/// version must start with a one-byte character, and so must a local
/// version with a `.` when the repository version parses (otherwise the
/// local text is not read).
pub open spec fn version_inputs_ok(local: Seq<char>, repo: Seq<char>) -> bool {
    &&& first_char_is_single_byte(repo)
    &&& (version_tuple(repo) is Some && contains(local, seq!['.']) ==> first_char_is_single_byte(local))
}

/// `first_char_is_single_byte` on a value.
pub fn first_char_single_byte(t: &str) -> (r: bool)
    ensures
        r == first_char_is_single_byte(t@),
{
    if t.unicode_len() == 0 {
        return false;
    }
    let c = t.get_char(0);
    (c as u32) < 0x80
}

/// `version_inputs_ok` on values.
pub fn version_inputs_check(local: &str, repo: &str) -> (r: bool)
    ensures
        r == version_inputs_ok(local@, repo@),
{
    if !first_char_single_byte(repo) {
        return false;
    }
    get_version_tuple(repo).is_none() || !contains_char(local, '.') || first_char_single_byte(local)
}

/// Splits `v<major>.<minor>-<hash>` into its three parts.
pub fn get_version_tuple(text: &str) -> (r: Option<(String, String, String)>)
    requires
        first_char_is_single_byte(text@),
    ensures
        match r {
            Some((a, b, c)) => version_tuple(text@) == Some((a@, b@, c@)),
            None => version_tuple(text@) is None,
        },
{
    let n = text.unicode_len();
    let rest = owned(text.substring_char(1, n));
    assert(rest@ =~= text@.drop_first());
    match split_once_char(rest.as_str(), '.') {
        Some((major, minor_a_hash)) => match split_once_char(minor_a_hash.as_str(), '-') {
            Some((minor, hash)) => Some((major, minor, hash)),
            None => None,
        },
        None => None,
    }
}

/// Whether `repo` is a newer version than `local` (numeric parts as `u8`).
#[allow(non_snake_case)]
pub fn isRepoVersionNewer(local: &str, repo: &str) -> (r: Option<bool>)
    requires
        version_inputs_ok(local@, repo@),
    ensures
        r == repo_version_newer(local@, repo@, u8::MAX as int),
{
    let repo_version = match get_version_tuple(repo) {
        Some(t) => t,
        None => return None,
    };
    if !contains_char(local, '.') {
        return Some(!crate::text::str_eq(repo_version.2.as_str(), local));
    }
    let local_version = match get_version_tuple(local) {
        Some(t) => t,
        None => return None,
    };
    let r_major = match parse_u8(repo_version.0.as_str()) {
        Some(v) => v,
        None => return None,
    };
    let l_major = match parse_u8(local_version.0.as_str()) {
        Some(v) => v,
        None => return None,
    };
    if r_major > l_major {
        return Some(true);
    }
    let r_minor = match parse_u8(repo_version.1.as_str()) {
        Some(v) => v,
        None => return None,
    };
    let l_minor = match parse_u8(local_version.1.as_str()) {
        Some(v) => v,
        None => return None,
    };
    if r_minor > l_minor {
        Some(true)
    } else if !crate::text::str_eq(repo_version.2.as_str(), local_version.2.as_str()) {
        Some(true)
    } else {
        Some(false)
    }
}

/// A version is never newer than itself: comparing a parsable version with
/// itself gives `Some(false)`, for any bound on the numeric parts.
pub proof fn lemma_same_version_is_not_newer(v: Seq<char>, max: int)
    requires
        first_char_is_single_byte(v),
        version_tuple(v) matches Some((major, minor, _hash)) && parse_unsigned(major, max) is Some
            && parse_unsigned(minor, max) is Some,
    ensures
        repo_version_newer(v, v, max) == Some(false),
{
    let (major, minor_a_hash) = split_once(v.drop_first(), seq!['.']).unwrap();
    crate::text::lemma_find(v.drop_first(), seq!['.']);
    let i = crate::text::find(v.drop_first(), seq!['.']).unwrap();
    assert(v[i + 1] == v.drop_first().subrange(i, i + 1)[0]);
    assert(crate::text::occurs_at(v, seq!['.'], i + 1)) by {
        assert(v.subrange(i + 1, i + 2) =~= v.drop_first().subrange(i, i + 1));
    }
}

/// A bare-hash local version is out of date exactly when it differs from
/// the repository hash.
pub proof fn lemma_bare_hash_compares_hashes(local: Seq<char>, repo: Seq<char>, max: int)
    requires
        !contains(local, seq!['.']),
        version_tuple(repo) is Some,
    ensures
        repo_version_newer(local, repo, max) == Some(version_tuple(repo).unwrap().2 != local),
{
}

} // verus!

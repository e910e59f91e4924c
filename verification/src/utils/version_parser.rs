//! Version comparison used by the updater (numeric parts as `u16`).
use vstd::prelude::*;
use crate::text::{contains_char, parse_u16, str_eq};
use crate::version_parser::{get_version_tuple, repo_version_newer, version_inputs_ok};

verus! {

/// Separates the minor number from the hash in `v<major>.<minor>-<hash>`.
pub const HASH_DELIMITER: char = '-';

/// Whether `repo` is a newer version than `local` (numeric parts as `u16`).
#[allow(non_snake_case)]
pub fn isRepoVersionNewer(local: &str, repo: &str) -> (r: Option<bool>)
    requires
        version_inputs_ok(local@, repo@),
    ensures
        r == repo_version_newer(local@, repo@, u16::MAX as int),
{
    let repo_version = match get_version_tuple(repo) {
        Some(t) => t,
        None => return None,
    };
    if !contains_char(local, '.') {
        return Some(!str_eq(repo_version.2.as_str(), local));
    }
    let local_version = match get_version_tuple(local) {
        Some(t) => t,
        None => return None,
    };
    let r_major = match parse_u16(repo_version.0.as_str()) {
        Some(v) => v,
        None => return None,
    };
    let l_major = match parse_u16(local_version.0.as_str()) {
        Some(v) => v,
        None => return None,
    };
    if r_major > l_major {
        return Some(true);
    }
    let r_minor = match parse_u16(repo_version.1.as_str()) {
        Some(v) => v,
        None => return None,
    };
    let l_minor = match parse_u16(local_version.1.as_str()) {
        Some(v) => v,
        None => return None,
    };
    if r_minor > l_minor {
        Some(true)
    } else if !str_eq(repo_version.2.as_str(), local_version.2.as_str()) {
        Some(true)
    } else {
        Some(false)
    }
}

} // verus!

//! Which cached archive goes when a version record is dropped.
use vstd::prelude::*;
use crate::rManager::rManager_header::{REvilManagerError, ResultManagerErr};
use crate::utils::get_local_path_to_cache::{cache_folder, get_local_path_to_cache_folder};

verus! {

/// A cached archive to delete, and its folder, removed afterwards when it
/// is empty.
#[derive(PartialEq, Eq, Debug)]
pub struct CacheCleanup {
    pub folder: String,
    pub file_name: String,
}

/// What to delete from the cache for a dropped version record
/// `[version, archive, ...]`: its first archive in the version's cache
/// folder; nothing for a record without archives.
pub fn cleanup_cache(last_ver: &Vec<String>, game_short_name: &str) -> (r: ResultManagerErr<Option<CacheCleanup>>)
    ensures
        last_ver@.len() < 2 ==> r matches Ok(None),
        last_ver@.len() >= 2 ==> (r matches Ok(Some(c)) && c.folder@ == cache_folder(last_ver@[0]@)
            && c.file_name@ == last_ver@[1]@),
{
    if last_ver.len() < 2 {
        return Ok(None);
    }
    let folder = match get_local_path_to_cache_folder(None, Some(last_ver[0].as_str())) {
        Ok(f) => f,
        Err(_) => return Err(REvilManagerError::ReleaseManagerIsNotInitialized),
    };
    Ok(Some(CacheCleanup { folder, file_name: last_ver[1].clone() }))
}

} // verus!

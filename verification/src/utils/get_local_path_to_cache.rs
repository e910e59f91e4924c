//! Where the archives of a mod version are cached.
use vstd::prelude::*;
use crate::reframework_github::refr_github::REFRGithubError;
use crate::reframework_github::release::Release;

verus! {

/// The cache folder of mod version `version`.
pub open spec fn cache_folder(version: Seq<char>) -> Seq<char> {
    "refr_cache/"@ + version
}

/// The cache folder of version `ver`, or of the release's version when
/// `ver` is `None`; an error when both are missing.
pub fn get_local_path_to_cache_folder(release: Option<&Release>, ver: Option<&str>) -> (r: Result<
    String,
    REFRGithubError,
>)
    ensures
        match ver {
            Some(v) => r matches Ok(p) && p@ == cache_folder(v@),
            None => match release {
                Some(rel) => r matches Ok(p) && p@ == cache_folder(rel.name@),
                None => r == Err::<String, REFRGithubError>(
                    REFRGithubError::VersionIsNoneAndReleaseIsNone,
                ),
            },
        },
{
    let version: &str = match ver {
        Some(v) => v,
        None => match release {
            Some(rel) => rel.name.as_str(),
            None => return Err(REFRGithubError::VersionIsNoneAndReleaseIsNone),
        },
    };
    Ok(String::from_str("refr_cache/").concat(version))
}

} // verus!

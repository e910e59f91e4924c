//! What is installed in a game folder: mod version, runtime and build type.
use vstd::prelude::*;
use crate::tomlConf::configStruct::Runtime;
use crate::{nextgen_games, supports_nextgen};

verus! {

/// Name of the file in the game folder that holds the installed mod version.
pub const VERSION_FILENAME: &'static str = "reframework_revision.txt";

/// Reads local game folders (the reading itself is done around the library).
pub struct LocalProvider;

/// What a game folder says about the installed mod.
#[derive(Debug)]
pub struct LocalGameConfig {
    pub version: Option<String>,
    pub runtime: Option<Runtime>,
    pub nextgen: Option<bool>,
}

impl Default for LocalGameConfig {
    fn default() -> (r: LocalGameConfig)
        ensures
            r.version is None,
            r.runtime is None,
            r.nextgen is None,
    {
        LocalGameConfig { version: None, runtime: None, nextgen: None }
    }
}

#[derive(Debug)]
pub struct LocalError;

impl LocalError {
    /// The message of the error.
    pub fn message(&self) -> (r: &'static str)
        ensures
            r@ == "Local error"@,
    {
        "Local error"
    }
}

/// The text searched for in the mod library of a standard build: the short
/// name followed by `_TDB`.
pub fn create_tdb_string(game_short_name: &str) -> (r: String)
    ensures
        r@ == game_short_name@ + crate::STANDARD_TYPE_QUALIFIER@,
{
    String::from_str(game_short_name).concat(crate::STANDARD_TYPE_QUALIFIER)
}

/// The build type of a two-build game from the search of its mod library
/// for `create_tdb_string`: `found_standard` is the search result (`None` when
/// the library could not be read). A found marker means the standard build,
/// so the result is `Some(!found)`; games with one build give `None`.
pub fn map_to_nextgen(game_short_name: &str, found_standard: Option<bool>) -> (r: Option<bool>)
    ensures
        r == if nextgen_games().contains(game_short_name@) {
            match found_standard {
                Some(found) => Some(!found),
                None => None::<bool>,
            }
        } else {
            None::<bool>
        },
{
    if supports_nextgen(game_short_name) {
        match found_standard {
            Some(found) => Some(!found),
            None => None,
        }
    } else {
        None
    }
}

/// The runtime whose library file is in the game folder, OpenVR first.
pub fn map_to_runtime(open_vr_exists: bool, open_xr_exists: bool) -> (r: Option<Runtime>)
    ensures
        r == if open_vr_exists {
            Some(Runtime::OpenVR)
        } else if open_xr_exists {
            Some(Runtime::OpenXR)
        } else {
            None::<Runtime>
        },
{
    if open_vr_exists {
        Some(Runtime::OpenVR)
    } else if open_xr_exists {
        Some(Runtime::OpenXR)
    } else {
        None
    }
}

/// The installed mod version from the content of the version file: its
/// first seven bytes, or `None` when the file is shorter (or unreadable).
pub fn map_to_version(content: Option<&str>) -> (r: Option<String>)
    requires
        match content {
            Some(c) => c.len() >= 7 ==> c.is_char_boundary(7),
            None => true,
        },
    ensures
        match content {
            Some(c) => if c.len() < 7 {
                r is None
            } else {
                r matches Some(v) && vstd::utf8::encode_utf8(v@)
                    == vstd::string::StringSliceAdditionalSpecFns::spec_bytes(c).subrange(0, 7)
            },
            None => r is None,
        },
{
    match content {
        None => None,
        Some(c) => {
            if c.len() < 7 {
                return None;
            }
            let (head, _) = c.split_at(7);
            let v = head.to_owned();
            Some(v)
        },
    }
}

} // verus!

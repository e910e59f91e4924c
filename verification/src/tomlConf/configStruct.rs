//! The tool's configuration: general settings and one record per game.
#![allow(non_snake_case, non_camel_case_types)]
use vstd::prelude::*;
use crate::seq_util::{copy_nested_strings, copy_opt_string, nested_strs_view, opt_str_view};

verus! {

pub type ConfigResult<T> = Result<T, ConfigError>;

pub type ShortGameName = String;

pub type SteamId = String;

#[derive(Debug, Clone, Copy, PartialEq, Eq, Structural)]
pub enum ConfigError {
    ConfigFileError,
    DeserializerError,
    SerializerError,
}

impl ConfigError {
    /// The message of the error.
    pub fn message(&self) -> (r: &'static str)
        ensures
            r@ == "ConfigError"@,
    {
        "ConfigError"
    }
}

#[derive(Debug, Clone, Copy, PartialEq, Eq, Structural)]
pub enum ErrorLevel {
    info,
    debug,
    warn,
    error,
    trace,
    none,
}

impl ErrorLevel {
    /// The level's name, as it is written in the configuration and passed to the logger.
    pub fn name(&self) -> (r: &'static str)
        ensures
            r@ == match self {
                ErrorLevel::info => "info"@,
                ErrorLevel::debug => "debug"@,
                ErrorLevel::warn => "warn"@,
                ErrorLevel::error => "error"@,
                ErrorLevel::trace => "trace"@,
                ErrorLevel::none => "none"@,
            },
    {
        match self {
            ErrorLevel::info => "info",
            ErrorLevel::debug => "debug",
            ErrorLevel::warn => "warn",
            ErrorLevel::error => "error",
            ErrorLevel::trace => "trace",
            ErrorLevel::none => "none",
        }
    }
}

/// The VR runtime a mod is set up for.
#[derive(Debug, Clone, Copy, PartialEq, Eq, Structural)]
pub enum Runtime {
    OpenVR,
    OpenXR,
}

/// The library file of a runtime.
pub open spec fn runtime_dll(r: Runtime) -> Seq<char> {
    match r {
        Runtime::OpenVR => "openvr_api.dll"@,
        Runtime::OpenXR => "openxr_loader.dll"@,
    }
}

/// The other runtime.
pub open spec fn opposite_runtime(r: Runtime) -> Runtime {
    match r {
        Runtime::OpenVR => Runtime::OpenXR,
        Runtime::OpenXR => Runtime::OpenVR,
    }
}

impl Runtime {
    /// The name of the runtime's library file in the game folder.
    pub fn as_local_dll(&self) -> (r: String)
        ensures
            r@ == runtime_dll(*self),
    {
        match self {
            Runtime::OpenVR => String::from_str("openvr_api.dll"),
            Runtime::OpenXR => String::from_str("openxr_loader.dll"),
        }
    }

    /// The name of the other runtime's library file.
    pub fn as_opposite_local_dll(&self) -> (r: String)
        ensures
            r@ == runtime_dll(opposite_runtime(*self)),
    {
        match self {
            Runtime::OpenVR => Runtime::OpenXR.as_local_dll(),
            Runtime::OpenXR => Runtime::OpenVR.as_local_dll(),
        }
    }

    /// The other runtime.
    pub fn as_opposite(&self) -> (r: Runtime)
        ensures
            r == opposite_runtime(*self),
    {
        match self {
            Runtime::OpenVR => Runtime::OpenXR,
            Runtime::OpenXR => Runtime::OpenVR,
        }
    }

    /// The runtime's name as the dialogs show it.
    pub fn name(&self) -> (r: &'static str)
        ensures
            r@ == runtime_name(*self),
    {
        match self {
            Runtime::OpenVR => "OpenVR",
            Runtime::OpenXR => "OpenXR",
        }
    }
}

/// The runtime's name as the dialogs show it.
pub open spec fn runtime_name(r: Runtime) -> Seq<char> {
    match r {
        Runtime::OpenVR => "OpenVR"@,
        Runtime::OpenXR => "OpenXR"@,
    }
}

/// The settings of one game.
///
/// `versions` lists the mod versions known for the game, newest first; each
/// entry is the version name followed by the names of the cached archives of
/// that version. `version_in_use` is the version unpacked in the game folder.
#[derive(Debug, PartialEq, Clone)]
pub struct GameConfig {
    pub location: Option<String>,
    pub steamId: Option<SteamId>,
    pub versions: Option<Vec<Vec<String>>>,
    pub version_in_use: Option<String>,
    pub nextgen: Option<bool>,
    pub runtime: Option<Runtime>,
    pub runArgs: Option<String>,
}

/// A game's settings with texts as character sequences.
pub struct GameConfigView {
    pub location: Option<Seq<char>>,
    pub steam_id: Option<Seq<char>>,
    pub versions: Option<Seq<Seq<Seq<char>>>>,
    pub version_in_use: Option<Seq<char>>,
    pub nextgen: Option<bool>,
    pub runtime: Option<Runtime>,
    pub run_args: Option<Seq<char>>,
}

pub open spec fn opt_versions_view(v: Option<Vec<Vec<String>>>) -> Option<Seq<Seq<Seq<char>>>> {
    match v {
        Some(w) => Some(nested_strs_view(w@)),
        None => None,
    }
}

impl View for GameConfig {
    type V = GameConfigView;

    open spec fn view(&self) -> GameConfigView {
        GameConfigView {
            location: opt_str_view(self.location),
            steam_id: opt_str_view(self.steamId),
            versions: opt_versions_view(self.versions),
            version_in_use: opt_str_view(self.version_in_use),
            nextgen: self.nextgen,
            runtime: self.runtime,
            run_args: opt_str_view(self.runArgs),
        }
    }
}

/// A copy of optional version lists.
pub fn copy_versions(v: &Option<Vec<Vec<String>>>) -> (r: Option<Vec<Vec<String>>>)
    ensures
        opt_versions_view(r) == opt_versions_view(*v),
{
    match v {
        Some(w) => Some(copy_nested_strings(w)),
        None => None,
    }
}

impl GameConfig {
    /// A record with no settings.
    pub fn empty() -> (r: GameConfig)
        ensures
            r@ == empty_game_view(),
    {
        GameConfig {
            location: None,
            steamId: None,
            versions: None,
            version_in_use: None,
            nextgen: None,
            runtime: None,
            runArgs: None,
        }
    }

    /// A copy of the record.
    pub fn duplicate(&self) -> (r: GameConfig)
        ensures
            r@ == self@,
    {
        GameConfig {
            location: copy_opt_string(&self.location),
            steamId: copy_opt_string(&self.steamId),
            versions: copy_versions(&self.versions),
            version_in_use: copy_opt_string(&self.version_in_use),
            nextgen: self.nextgen,
            runtime: self.runtime,
            runArgs: copy_opt_string(&self.runArgs),
        }
    }
}

/// A game record with no settings.
pub open spec fn empty_game_view() -> GameConfigView {
    GameConfigView {
        location: None,
        steam_id: None,
        versions: None,
        version_in_use: None,
        nextgen: None,
        runtime: None,
        run_args: None,
    }
}

impl Default for GameConfig {
    fn default() -> (r: GameConfig)
        ensures
            r@ == empty_game_view(),
    {
        GameConfig::empty()
    }
}

/// The general settings (the `[main]` section).
#[derive(Debug, PartialEq)]
pub struct Main {
    pub sources: Option<Vec<String>>,
    pub repo_owner: Option<String>,
    pub chosen_source: Option<String>,
    pub autoupdate: Option<bool>,
    pub steamExePath: Option<String>,
    pub steamGamesIdToSearchFor: Option<Vec<String>>,
    pub errorLevel: Option<ErrorLevel>,
    pub max_cache_versions_per_game: Option<u8>,
}

impl Main {
    /// General settings with nothing set.
    pub fn empty() -> (r: Main)
        ensures
            r.sources is None,
            r.repo_owner is None,
            r.chosen_source is None,
            r.autoupdate is None,
            r.steamExePath is None,
            r.steamGamesIdToSearchFor is None,
            r.errorLevel is None,
            r.max_cache_versions_per_game is None,
    {
        Main {
            sources: None,
            repo_owner: None,
            chosen_source: None,
            autoupdate: None,
            steamExePath: None,
            steamGamesIdToSearchFor: None,
            errorLevel: None,
            max_cache_versions_per_game: None,
        }
    }
}

impl Default for Main {
    fn default() -> (r: Main)
        ensures
            r.sources is None,
            r.repo_owner is None,
            r.chosen_source is None,
            r.autoupdate is None,
            r.steamExePath is None,
            r.steamGamesIdToSearchFor is None,
            r.errorLevel is None,
            r.max_cache_versions_per_game is None,
    {
        Main::empty()
    }
}

/// The whole configuration: general settings and the games by short name.
///
/// `games` holds each short name at most once (`assoc_wf`); it stands for
/// a map from short name to settings (`assoc_map`).
#[derive(Debug)]
pub struct REvilConfig {
    pub main: Main,
    pub games: Vec<(ShortGameName, GameConfig)>,
}

/// General settings with nothing set.
pub open spec fn main_is_empty(m: Main) -> bool {
    &&& m.sources is None
    &&& m.repo_owner is None
    &&& m.chosen_source is None
    &&& m.autoupdate is None
    &&& m.steamExePath is None
    &&& m.steamGamesIdToSearchFor is None
    &&& m.errorLevel is None
    &&& m.max_cache_versions_per_game is None
}

impl REvilConfig {
    /// An empty configuration: no games and no general settings.
    pub fn empty() -> (r: REvilConfig)
        ensures
            r.games@.len() == 0,
            main_is_empty(r.main),
    {
        REvilConfig { main: Main::empty(), games: Vec::new() }
    }
}

impl Default for REvilConfig {
    fn default() -> (r: REvilConfig)
        ensures
            r.games@.len() == 0,
            main_is_empty(r.main),
    {
        REvilConfig::empty()
    }
}

} // verus!

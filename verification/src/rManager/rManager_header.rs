//! The updater's state, errors and options.
use vstd::prelude::*;
use crate::dialogs::dialogs_label::LabelOptions;
use crate::reframework_github::refr_github::REFRGithub;
use crate::reframework_github::release::ReleaseAsset;
use crate::tomlConf::configStruct::{REvilConfig, ShortGameName, SteamId};

verus! {

pub type ResultManagerErr<T> = Result<T, REvilManagerError>;

/// Labels holding this text are sorted last.
pub const SORT_DETERMINER: &'static str = "info";

#[derive(Clone, Copy, PartialEq, Eq, Structural, Debug)]
pub enum AfterUnzipOption {
    SkipSettingVersion,
    SkipRemovingFromRequiredUpdates,
}

#[derive(Debug, Default, PartialEq, Clone)]
pub enum REvilManagerError {
    ReleaseIsEmpty,
    CheckingNewReleaseErr,
    GameNotFoundForGivenShortName(String),
    GameNotFoundForGivenSteamId(String),
    CannotDeductShortNameFromAssetName(String),
    RemoveFileFailed(String),
    RemoveZipAssetFromCacheErr(String),
    CacheNotFoundForGivenVersion(String),
    FailedToCreateMsLink(String),
    ReleaseManagerIsNotInitialized,
    GameLocationMissing,
    ModRuntimeIsNone(String),
    GetLocalPathToCacheErr,
    UnzipError(String),
    DownloadAssetError(String),
    ModIsNotInstalled(String),
    ErrorRestartingProgram,
    SaveConfigError,
    LoadConfigError,
    #[default]
    Other,
}

impl REvilManagerError {
    /// The message of the error.
    pub fn message(&self) -> (r: String)
        ensures
            r@ == match self {
                REvilManagerError::ReleaseIsEmpty => "ReleaseIsEmpty"@,
                REvilManagerError::CheckingNewReleaseErr => "CheckingNewReleaseErr"@,
                REvilManagerError::GameNotFoundForGivenShortName(i) => "GameNotFoundForGivenShortName "@ + i@,
                REvilManagerError::CannotDeductShortNameFromAssetName(i) => "CannotDeductShortNameFromAssetName "@ + i@,
                REvilManagerError::RemoveZipAssetFromCacheErr(i) => "RemoveZipAssetFromCacheErr "@ + i@,
                REvilManagerError::ReleaseManagerIsNotInitialized => "ReleaseManagerIsNotInitialized"@,
                REvilManagerError::GameLocationMissing => "GameLocationMissing"@,
                REvilManagerError::UnzipError(i) => "UnzipError "@ + i@,
                REvilManagerError::SaveConfigError => "SaveConfigError"@,
                REvilManagerError::LoadConfigError => "LoadConfigError"@,
                REvilManagerError::Other => "Other"@,
                REvilManagerError::RemoveFileFailed(i) => "RemoveFileFiled "@ + i@,
                REvilManagerError::GameNotFoundForGivenSteamId(i) => "GameNotFoundForGivenSteamId "@ + i@,
                REvilManagerError::CacheNotFoundForGivenVersion(i) => "CacheNotFoundForGivenVersion "@ + i@,
                REvilManagerError::FailedToCreateMsLink(i) => "FailedToCreateMsLink "@ + i@,
                REvilManagerError::GetLocalPathToCacheErr => "GetLocalPathToCacheErr"@,
                REvilManagerError::ModRuntimeIsNone(g) => "ModRuntimeIsNone for "@ + g@,
                REvilManagerError::ErrorRestartingProgram => "ErrorRestartingProgram"@,
                REvilManagerError::DownloadAssetError(a) => "During downloading "@ + a@ + " asset there was an error"@,
                REvilManagerError::ModIsNotInstalled(s) => "Mod is not installed for "@ + s@,
            },
    {
        match self {
            REvilManagerError::ReleaseIsEmpty => String::from_str("ReleaseIsEmpty"),
            REvilManagerError::CheckingNewReleaseErr => String::from_str("CheckingNewReleaseErr"),
            REvilManagerError::GameNotFoundForGivenShortName(i) => String::from_str(
                "GameNotFoundForGivenShortName ",
            ).concat(i.as_str()),
            REvilManagerError::CannotDeductShortNameFromAssetName(i) => String::from_str(
                "CannotDeductShortNameFromAssetName ",
            ).concat(i.as_str()),
            REvilManagerError::RemoveZipAssetFromCacheErr(i) => String::from_str("RemoveZipAssetFromCacheErr ").concat(
                i.as_str(),
            ),
            REvilManagerError::ReleaseManagerIsNotInitialized => String::from_str("ReleaseManagerIsNotInitialized"),
            REvilManagerError::GameLocationMissing => String::from_str("GameLocationMissing"),
            REvilManagerError::UnzipError(i) => String::from_str("UnzipError ").concat(i.as_str()),
            REvilManagerError::SaveConfigError => String::from_str("SaveConfigError"),
            REvilManagerError::LoadConfigError => String::from_str("LoadConfigError"),
            REvilManagerError::Other => String::from_str("Other"),
            REvilManagerError::RemoveFileFailed(i) => String::from_str("RemoveFileFiled ").concat(i.as_str()),
            REvilManagerError::GameNotFoundForGivenSteamId(i) => String::from_str("GameNotFoundForGivenSteamId ").concat(
                i.as_str(),
            ),
            REvilManagerError::CacheNotFoundForGivenVersion(i) => String::from_str(
                "CacheNotFoundForGivenVersion ",
            ).concat(i.as_str()),
            REvilManagerError::FailedToCreateMsLink(i) => String::from_str("FailedToCreateMsLink ").concat(i.as_str()),
            REvilManagerError::GetLocalPathToCacheErr => String::from_str("GetLocalPathToCacheErr"),
            REvilManagerError::ModRuntimeIsNone(g) => String::from_str("ModRuntimeIsNone for ").concat(g.as_str()),
            REvilManagerError::ErrorRestartingProgram => String::from_str("ErrorRestartingProgram"),
            REvilManagerError::DownloadAssetError(a) => String::from_str("During downloading ").concat(a.as_str()).concat(
                " asset there was an error",
            ),
            REvilManagerError::ModIsNotInstalled(s) => String::from_str("Mod is not installed for ").concat(s.as_str()),
        }
    }
}

/// What the updater has decided so far in a run.
#[derive(Debug)]
pub struct REvilManagerState {
    pub skip_next: bool,
    pub games_that_require_update: Vec<ShortGameName>,
    pub selected_assets: Vec<ReleaseAsset>,
    pub selected_game_to_launch: Option<SteamId>,
    pub config_loading_error_ocurred: bool,
    pub new_steam_game_found: bool,
    pub selected_option: Option<LabelOptions>,
}

impl REvilManagerState {
    /// The state at the start of a run.
    pub fn empty() -> (r: REvilManagerState)
        ensures
            !r.skip_next,
            r.games_that_require_update@.len() == 0,
            r.selected_assets@.len() == 0,
            r.selected_game_to_launch is None,
            !r.config_loading_error_ocurred,
            !r.new_steam_game_found,
            r.selected_option is None,
    {
        REvilManagerState {
            skip_next: false,
            games_that_require_update: Vec::new(),
            selected_assets: Vec::new(),
            selected_game_to_launch: None,
            config_loading_error_ocurred: false,
            new_steam_game_found: false,
            selected_option: None,
        }
    }
}

impl Default for REvilManagerState {
    fn default() -> (r: REvilManagerState)
        ensures
            !r.skip_next,
            r.games_that_require_update@.len() == 0,
            r.selected_assets@.len() == 0,
            r.selected_game_to_launch is None,
            !r.config_loading_error_ocurred,
            !r.new_steam_game_found,
            r.selected_option is None,
    {
        REvilManagerState::empty()
    }
}

/// The updater: the configuration, the run's state, and the release manager
/// once a release has been asked for. The work with files, Steam, the
/// network and the user is done around it; it makes the decisions.
pub struct REvilManager {
    pub config: REvilConfig,
    pub state: REvilManagerState,
    pub github_release_manager: Option<REFRGithub>,
}

} // verus!

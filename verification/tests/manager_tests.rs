use std::cmp::Ordering;
use refresher::args::RunAfter;
use refresher::dialogs::dialogs::SwitchActionReport;
use refresher::rManager::cleanup_cache::{cleanup_cache, CacheCleanup};
use refresher::rManager::rManager::{
    add_asset_ver_to_game_conf_ver, get_game_short_name_from_asset, remove_game_from_update_needed_ones, SwitchStep,
    UnzipPlan, UnzipSkip,
};
use refresher::rManager::rManager_header::{AfterUnzipOption, REvilManager, REvilManagerError};
use refresher::reframework_github::refr_github::REFRGithub;
use refresher::reframework_github::release::{Release, ReleaseAsset};
use refresher::tomlConf::configStruct::{GameConfig, Runtime};

fn s(v: &str) -> String {
    v.to_string()
}

fn sets(v: &[&[&str]]) -> Vec<Vec<String>> {
    v.iter().map(|set| set.iter().map(|x| x.to_string()).collect()).collect()
}

fn asset(name: &str) -> ReleaseAsset {
    ReleaseAsset { download_url: s("url"), name: s(name) }
}

fn game(versions: Option<Vec<Vec<String>>>, in_use: Option<&str>, nextgen: Option<bool>, runtime: Option<Runtime>, id: &str) -> GameConfig {
    GameConfig {
        location: Some(format!("D:/games/{}", id)),
        steamId: Some(s(id)),
        versions,
        version_in_use: in_use.map(s),
        nextgen,
        runtime,
        runArgs: None,
    }
}

fn manager_with(games: Vec<(String, GameConfig)>, release: Option<&str>) -> REvilManager {
    let mut m = REvilManager::new();
    m.config.games = games;
    if let Some(name) = release {
        let mut gh = REFRGithub::new("praydog", "REFramework-nightly");
        let rel = Release {
            name: s(name),
            version: s(name),
            date: s("2023"),
            body: None,
            assets: vec![asset("RE2.zip"), asset("RE2_TDB.zip"), asset("RE8.zip")],
        };
        gh.set_release(rel).unwrap();
        m.github_release_manager = Some(gh);
    }
    m
}

#[test]
fn short_name_from_asset_names() {
    assert_eq!(get_game_short_name_from_asset(&asset("RE2_TDB.zip")), Ok(s("RE2")));
    assert_eq!(get_game_short_name_from_asset(&asset("RE8.zip")), Ok(s("RE8")));
    assert_eq!(
        get_game_short_name_from_asset(&asset("readme.txt")),
        Err(REvilManagerError::CannotDeductShortNameFromAssetName(s("readme.txt")))
    );
}

#[test]
fn removes_first_listed_game_only() {
    let mut v = vec![s("RE2"), s("RE8"), s("RE2")];
    remove_game_from_update_needed_ones(&mut v, "RE2");
    assert_eq!(v, vec![s("RE8"), s("RE2")]);
    remove_game_from_update_needed_ones(&mut v, "RE7");
    assert_eq!(v, vec![s("RE8"), s("RE2")]);
}

#[test]
fn recording_a_version_puts_it_first() {
    let mut g = game(Some(sets(&[&["v1.1-a", "RE2.zip"]])), Some("v1.1-a"), Some(true), Some(Runtime::OpenXR), "883710");
    add_asset_ver_to_game_conf_ver(&mut g, "v1.2-b", &asset("RE2.zip"));
    assert_eq!(g.versions, Some(sets(&[&["v1.2-b", "RE2.zip"], &["v1.1-a", "RE2.zip"]])));
    assert_eq!(g.version_in_use, Some(s("v1.2-b")));

    let mut sw = game(Some(sets(&[&["switch", "RE2_TDB.zip"], &["v1.1-a"]])), None, Some(true), None, "883710");
    add_asset_ver_to_game_conf_ver(&mut sw, "v1.2-b", &asset("RE2.zip"));
    assert_eq!(sw.versions, Some(sets(&[&["v1.2-b", "RE2.zip", "RE2_TDB.zip"], &["v1.1-a"]])));

    let mut none = game(None, None, None, None, "1");
    add_asset_ver_to_game_conf_ver(&mut none, "v1.2-b", &asset("RE8.zip"));
    assert_eq!(none.versions, Some(sets(&[&["v1.2-b", "RE8.zip"]])));
}

#[test]
fn games_that_require_update_are_found() {
    let mut m = manager_with(
        vec![
            (s("RE2"), game(Some(sets(&[&["v1.300-aaaaaaa", "RE2.zip"]])), None, Some(true), Some(Runtime::OpenXR), "883710")),
            (s("RE8"), game(Some(sets(&[&["v1.333-07ab146", "RE8.zip"]])), None, None, Some(Runtime::OpenVR), "1196590")),
            (s("RE7"), game(None, None, None, None, "418370")),
        ],
        Some("v1.333-07ab146"),
    );
    assert_eq!(m.set_games_that_require_update(), Ok(()));
    assert_eq!(m.state.games_that_require_update, vec![s("RE2"), s("RE7")]);
}

#[test]
fn update_check_without_release_manager_fails() {
    let mut m = manager_with(vec![(s("RE7"), game(None, None, None, None, "418370"))], None);
    assert_eq!(m.set_games_that_require_update(), Err(REvilManagerError::ReleaseManagerIsNotInitialized));
}

#[test]
fn one_game_pick_selects_matching_build() {
    let mut m = manager_with(
        vec![(s("RE2"), game(Some(sets(&[&["v1.300-aaaaaaa", "RE2.zip"]])), None, Some(false), Some(Runtime::OpenXR), "883710"))],
        Some("v1.333-07ab146"),
    );
    m.set_games_that_require_update().unwrap();
    assert_eq!(m.pick_one_game_from_report("RE2", RunAfter::yes), Ok(()));
    assert_eq!(m.state.selected_game_to_launch, Some(s("883710")));
    let names: Vec<&str> = m.state.selected_assets.iter().map(|a| a.name.as_str()).collect();
    assert_eq!(names, vec!["RE2_TDB.zip"]);
}

#[test]
fn after_unzip_records_asset() {
    let mut m = manager_with(
        vec![(s("RE2"), game(Some(sets(&[&["v1.300-aaaaaaa", "RE2.zip"]])), None, Some(true), Some(Runtime::OpenXR), "883710"))],
        Some("v1.333-07ab146"),
    );
    m.state.games_that_require_update.push(s("RE2"));
    let version = m.after_unzip_version().unwrap();
    assert_eq!(version, "v1.333-07ab146");
    let (short, second) = m.after_unzip_asset(&asset("RE2_TDB.zip"), &version, &None).unwrap();
    assert_eq!(short, "RE2");
    assert_eq!(second.game_folder, "D:/games/883710");
    assert_eq!(second.file_name, "openvr_api.dll");
    assert!(m.state.games_that_require_update.is_empty());
    let g = &m.config.games[0].1;
    assert_eq!(g.nextgen, Some(false));
    assert_eq!(g.version_in_use, Some(s("v1.333-07ab146")));
    assert_eq!(g.versions.as_ref().unwrap()[0], vec![s("v1.333-07ab146"), s("RE2_TDB.zip")]);
}

#[test]
fn after_unzip_respects_options_and_errors() {
    let mut m = manager_with(
        vec![(s("RE2"), game(Some(sets(&[&["v1.300-aaaaaaa", "RE2.zip"]])), None, Some(true), None, "883710"))],
        Some("v1.333-07ab146"),
    );
    m.state.games_that_require_update.push(s("RE2"));
    let opts = Some(vec![AfterUnzipOption::SkipSettingVersion, AfterUnzipOption::SkipRemovingFromRequiredUpdates]);
    let r = m.after_unzip_asset(&asset("RE2.zip"), "v9.9-x", &opts);
    assert_eq!(r, Err(REvilManagerError::ModRuntimeIsNone(String::new())));
    assert_eq!(m.state.games_that_require_update, vec![s("RE2")]);
    assert_eq!(m.config.games[0].1.versions, Some(sets(&[&["v1.300-aaaaaaa", "RE2.zip"]])));
    let missing = m.after_unzip_asset(&asset("RE3.zip"), "v9.9-x", &None);
    assert_eq!(missing, Err(REvilManagerError::GameNotFoundForGivenShortName(s("RE3"))));
}

#[test]
fn cache_overflow_drops_oldest() {
    let mut m = manager_with(
        vec![(s("RE8"), game(Some(sets(&[&["v5", "a"], &["v4", "b"], &["v3"], &["v2"], &["v1", "e.zip"]])), None, None, None, "1196590"))],
        None,
    );
    assert_eq!(m.cache_overflow("RE8"), Some(vec![s("v1"), s("e.zip")]));
    m.drop_oldest_version("RE8");
    assert_eq!(m.config.games[0].1.versions.as_ref().unwrap().len(), 4);
    assert_eq!(m.cache_overflow("RE8"), None);
}

#[test]
fn cache_cleanup_targets_first_archive() {
    assert_eq!(cleanup_cache(&vec![s("v1")], "RE8"), Ok(None));
    assert_eq!(
        cleanup_cache(&vec![s("v1"), s("RE8.zip")], "RE8"),
        Ok(Some(CacheCleanup { folder: s("refr_cache/v1"), file_name: s("RE8.zip") }))
    );
}

#[test]
fn unzip_plan_skips_other_runtime() {
    let m = manager_with(
        vec![(s("RE2"), game(None, None, Some(true), Some(Runtime::OpenXR), "883710"))],
        Some("v1.333-07ab146"),
    );
    assert_eq!(
        m.unzip_plan("RE2", "RE2.zip", None, None),
        Ok(UnzipPlan {
            cache_folder: s("refr_cache/v1.333-07ab146"),
            file_name: s("RE2.zip"),
            destination: s("D:/games/883710"),
            skip: UnzipSkip::SkipFile(s("openvr_api.dll")),
        })
    );
    assert_eq!(
        m.unzip_plan("RE2", "RE2.zip", Some("v1"), Some("openxr_loader.dll")).unwrap().skip,
        UnzipSkip::OnlyFile(s("openxr_loader.dll"))
    );
    assert_eq!(m.unzip_plan("RE9", "x", None, None), Err(REvilManagerError::GameNotFoundForGivenShortName(s("RE9"))));
    let no_manager = manager_with(vec![(s("RE2"), game(None, None, None, None, "883710"))], None);
    assert_eq!(no_manager.unzip_plan("RE2", "x", None, None), Err(REvilManagerError::ReleaseManagerIsNotInitialized));
}

#[test]
fn launch_plan_uses_version_in_use() {
    let m = manager_with(
        vec![
            (s("RE2"), game(Some(sets(&[&["v2", "RE2.zip", "RE2_TDB.zip"], &["v1", "RE2.zip"]])), Some("v2"), Some(false), Some(Runtime::OpenXR), "883710")),
            (s("RE8"), game(Some(sets(&[&["v2"]])), Some("v2"), None, Some(Runtime::OpenVR), "1196590")),
        ],
        None,
    );
    let p = m.before_launch_plan("883710").unwrap().unwrap();
    assert_eq!(p.short_name, "RE2");
    assert_eq!(p.runtime_file, "openxr_loader.dll");
    assert_eq!(p.version, "v2");
    assert_eq!(p.archive, Some(s("RE2_TDB.zip")));
    assert_eq!(p.second_runtime.file_name, "openvr_api.dll");
    assert_eq!(m.before_launch_plan("1196590"), Ok(None));
    assert_eq!(m.before_launch_plan("1"), Err(REvilManagerError::GameNotFoundForGivenSteamId(s("1"))));
}

#[test]
fn launch_plan_reads_only_the_records_it_needs() {
    let m = manager_with(
        vec![
            (s("RE2"), game(Some(sets(&[&[], &["v1", "RE2.zip"]])), None, Some(true), None, "883710")),
            (s("RE8"), game(Some(sets(&[&["v2", "RE8.zip"], &[]])), Some("v2"), None, Some(Runtime::OpenVR), "1196590")),
        ],
        None,
    );
    assert_eq!(m.before_launch_plan("883710"), Ok(None));
    let p = m.before_launch_plan("1196590").unwrap().unwrap();
    assert_eq!(p.version, "v2");
    assert_eq!(p.archive, Some(s("RE8.zip")));
    assert_eq!(p.runtime_file, "openvr_api.dll");
}

#[test]
fn type_switch_steps() {
    let mut m = manager_with(
        vec![(s("RE2"), game(Some(sets(&[&["v2", "RE2.zip", "RE2_TDB.zip"]])), Some("v2"), Some(true), Some(Runtime::OpenXR), "883710"))],
        None,
    );
    let step = m.switch_first_step(SwitchActionReport::ToggleNUnzipSave(s("RE2"), s("RE2_TDB.zip")));
    assert_eq!(step, SwitchStep::Unzip(s("RE2"), s("RE2_TDB.zip")));
    assert_eq!(m.config.games[0].1.nextgen, Some(false));
    let step = m.switch_first_step(SwitchActionReport::UnsetNonExistentToggleNRestart(s("RE2"), s("RE2_TDB.zip")));
    assert_eq!(step, SwitchStep::SaveAndRestart(s("RE2")));
    assert_eq!(m.config.games[0].1.nextgen, Some(true));
    // the archive's index among the archives (1) is used in the whole record
    assert_eq!(m.config.games[0].1.versions, Some(sets(&[&["switch", "RE2_TDB.zip"]])));
    assert_eq!(m.switch_first_step(SwitchActionReport::Early), SwitchStep::Done);
}

#[test]
fn label_comparator_puts_info_last() {
    assert_eq!(REvilManager::sort("info x", "a"), Ordering::Greater);
    assert_eq!(REvilManager::sort("a", "b"), Ordering::Equal);
    assert_eq!(REvilManager::sort("a", "info"), Ordering::Less);
}

#[test]
fn error_messages() {
    assert_eq!(REvilManagerError::GameLocationMissing.message(), "GameLocationMissing");
    assert_eq!(REvilManagerError::ModRuntimeIsNone(s("RE2")).message(), "ModRuntimeIsNone for RE2");
    assert_eq!(
        REvilManagerError::DownloadAssetError(s("RE2.zip")).message(),
        "During downloading RE2.zip asset there was an error"
    );
}

#[test]
fn ms_links_per_game() {
    let m = manager_with(vec![(s("RE2"), game(None, None, None, None, "883710"))], None);
    let links = m.ms_links();
    assert_eq!(links[0].file_name, "REFR_RE2.lnk");
    assert_eq!(links[0].arguments, "--one RE2");
}

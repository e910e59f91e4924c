use refresher::rManager::rManager::{add_asset_ver_to_game_conf_ver, remove_game_from_update_needed_ones};
use refresher::rManager::rManager_header::REvilManager;
use refresher::reframework_github::refr_github::REFRGithub;
use refresher::reframework_github::release::{Release, ReleaseAsset};
use refresher::rManager::rManager::UnzipSkip;
use refresher::tomlConf::configStruct::{GameConfig, Runtime};
use refresher::version_parser::isRepoVersionNewer;

fn s(v: &str) -> String {
    v.to_string()
}

fn asset(name: &str) -> ReleaseAsset {
    ReleaseAsset { download_url: s("url"), name: s(name) }
}

fn re2(versions: Vec<Vec<String>>, nextgen: bool) -> GameConfig {
    GameConfig {
        location: Some(s("D:/RE2")),
        steamId: Some(s("883710")),
        versions: Some(versions),
        version_in_use: None,
        nextgen: Some(nextgen),
        runtime: Some(Runtime::OpenXR),
        runArgs: None,
    }
}

fn manager(g: GameConfig, release: &str) -> REvilManager {
    let mut m = REvilManager::new();
    m.config.games = vec![(s("RE2"), g)];
    let mut gh = REFRGithub::new("praydog", "REFramework-nightly");
    gh.set_release(Release {
        name: s(release),
        version: s(release),
        date: s("d"),
        body: None,
        assets: vec![asset("RE2.zip"), asset("RE2_TDB.zip")],
    })
    .unwrap();
    m.github_release_manager = Some(gh);
    m
}

#[test]
fn updated_game_no_longer_needs_the_release() {
    let mut m = manager(re2(vec![vec![s("v1.300-aaaaaaa"), s("RE2.zip")]], true), "v1.333-07ab146");
    m.set_games_that_require_update().unwrap();
    assert_eq!(m.state.games_that_require_update, vec![s("RE2")]);
    m.state.selected_assets.push(asset("RE2.zip"));
    let v = m.after_unzip_version().unwrap();
    m.after_unzip_asset(&asset("RE2.zip"), &v, &None).unwrap();
    assert!(m.state.games_that_require_update.is_empty());
    m.set_games_that_require_update().unwrap();
    assert!(m.state.games_that_require_update.is_empty());
}

#[test]
fn same_version_is_not_newer() {
    assert_eq!(isRepoVersionNewer("v1.71-abd3145", "v1.71-abd3145"), Some(false));
}

#[test]
fn toggling_build_type_twice_restores_it() {
    let mut m = manager(re2(vec![vec![s("v1")]], true), "v1.333-07ab146");
    m.toggle_nextgen("RE2");
    assert_eq!(m.config.games[0].1.nextgen, Some(false));
    m.toggle_nextgen("RE2");
    assert_eq!(m.config.games[0].1.nextgen, Some(true));
}

#[test]
fn runtime_switch_twice_restores_it() {
    assert_eq!(Runtime::OpenXR.as_opposite().as_opposite(), Runtime::OpenXR);
    assert_ne!(Runtime::OpenXR.as_local_dll(), Runtime::OpenXR.as_opposite_local_dll());
}

#[test]
fn unpacking_keeps_the_runtime_in_use() {
    let m = manager(re2(vec![vec![s("v1")]], true), "v1.333-07ab146");
    let plan = m.unzip_plan("RE2", "RE2.zip", None, None).unwrap();
    assert_eq!(plan.skip, UnzipSkip::SkipFile(Runtime::OpenXR.as_opposite_local_dll()));
}

#[test]
fn fetched_asset_keeps_build_type() {
    let mut m = manager(re2(vec![vec![s("v1.300-aaaaaaa")]], false), "v1.333-07ab146");
    m.set_games_that_require_update().unwrap();
    m.pick_one_game_from_report("RE2", refresher::args::RunAfter::no).unwrap();
    let picked = m.state.selected_assets[0].duplicate();
    assert_eq!(picked.name, "RE2_TDB.zip");
    let v = m.after_unzip_version().unwrap();
    m.after_unzip_asset(&picked, &v, &None).unwrap();
    assert_eq!(m.config.games[0].1.nextgen, Some(false));
}

#[test]
fn cache_keeps_at_most_four_versions() {
    let mut g = re2(
        vec![vec![s("v4"), s("a")], vec![s("v3")], vec![s("v2")], vec![s("v1"), s("z")]],
        true,
    );
    add_asset_ver_to_game_conf_ver(&mut g, "v5", &asset("RE2.zip"));
    let mut m = manager(g, "v5");
    assert_eq!(m.cache_overflow("RE2"), Some(vec![s("v1"), s("z")]));
    m.drop_oldest_version("RE2");
    assert_eq!(m.config.games[0].1.versions.as_ref().unwrap().len(), 4);
}

#[test]
fn removed_game_is_no_longer_listed() {
    let mut v = vec![s("RE2"), s("RE8")];
    remove_game_from_update_needed_ones(&mut v, "RE2");
    assert!(!v.contains(&s("RE2")));
}

use refresher::dialogs::dialogs::{
    apply_runtime_decision, get_selections_for_runtime_switch, runtime_switch_selections, DialogsErrors, Dialogs,
};
use refresher::rManager::rManager_header::REvilManagerState;
use refresher::reframework_github::release::ReleaseAsset;
use refresher::tomlConf::configStruct::{GameConfig, Main, REvilConfig, Runtime};

fn s(v: &str) -> String {
    v.to_string()
}

fn sets(v: &[&[&str]]) -> Vec<Vec<String>> {
    v.iter().map(|set| set.iter().map(|x| x.to_string()).collect()).collect()
}

fn mock_config() -> REvilConfig {
    let re2 = GameConfig {
        location: Some(s("D:/steam/old_location_games/RE2")),
        steamId: Some(s("883710")),
        versions: Some(sets(&[&["v1.71-abd3145"], &["v1.70-rbd3145", "RE2.zip"], &["v1.61-zbd3145"], &["v1.60-zbd3145"]])),
        version_in_use: Some(s("v1.70-rbd3145")),
        nextgen: Some(true),
        runtime: Some(Runtime::OpenXR),
        runArgs: None,
    };
    let re3 = GameConfig {
        location: Some(s("D:/steam/games/RE3")),
        steamId: Some(s("952060")),
        versions: Some(sets(&[&["v1.71-abd3145"]])),
        version_in_use: Some(s("v1.71-abd3145")),
        nextgen: Some(false),
        runtime: Some(Runtime::OpenXR),
        runArgs: None,
    };
    let re8 = GameConfig {
        location: Some(s("D:/steam/games/RE8")),
        steamId: None,
        versions: Some(sets(&[&["v1.71-abd3145", "RE8.zip"]])),
        version_in_use: Some(s("some123")),
        nextgen: None,
        runtime: Some(Runtime::OpenVR),
        runArgs: None,
    };
    let re7 = GameConfig {
        location: Some(s("D:/steam/games/RE7")),
        steamId: None,
        versions: None,
        version_in_use: None,
        nextgen: None,
        runtime: None,
        runArgs: None,
    };
    let mut main = Main::empty();
    main.sources = Some(vec![s("normal"), s("nightly")]);
    main.autoupdate = Some(true);
    main.steamExePath = Some(s("C:\\Program Files (x86)\\Steam\\steam.exe"));
    REvilConfig { main, games: vec![(s("RE2"), re2), (s("RE3"), re3), (s("RE8"), re8), (s("RE7"), re7)] }
}

fn asset(name: &str) -> ReleaseAsset {
    ReleaseAsset { download_url: s("dupa_url"), name: s(name) }
}

fn mock_report() -> Vec<(String, Vec<ReleaseAsset>)> {
    vec![
        (s("RE7"), vec![asset("RE7.zip"), asset("RE7_TDBXXX.zip")]),
        (s("RE2"), vec![asset("RE2.zip"), asset("RE2_TDBXXX.zip")]),
        (s("RE3"), vec![asset("RE3.zip"), asset("RE3_TDBXXX.zip")]),
        (s("RE8"), vec![asset("RE8.zip")]),
    ]
}

#[test]
fn should_get_correct_selections_for_runtime_switch() {
    let config = mock_config();
    let mut selections = get_selections_for_runtime_switch(&config);
    selections.sort();
    assert_eq!(selections.len(), 2);
    // RE8 is missing steamId and RE7 has only location that's why only 2 records
    let expected = [
        ("Switch runtime to <OpenVR> for RE2".to_string(), "883710"),
        ("Switch runtime to <OpenVR> for RE3".to_string(), "952060"),
    ]
    .to_vec();
    assert_eq!(expected[0].0, selections[0].0);
    assert_eq!(expected[0].1, selections[0].1);
    assert_eq!(expected[1].0, selections[1].0);
    assert_eq!(expected[1].1, selections[1].1);
}

#[test]
fn ask_for_runtime_decision_and_change_it_test() {
    let vec = ["RE2", "RE3", "RE8"].to_vec();
    let mut config = mock_config();
    let mut state = REvilManagerState::default();
    config.games[2].1.steamId = Some("1196590".to_string());

    vec.iter().for_each(|short_name| {
        let sels = get_selections_for_runtime_switch(&config);
        let selections = runtime_switch_selections(&sels);
        let pos = selections.iter().position(|label| label.contains(short_name)).unwrap();
        let selected = selections[pos].clone();

        let version_pos_and_game_short_name = apply_runtime_decision(&mut config, &mut state, &selected, &sels);

        if *short_name == "RE2" {
            let (pos, game_short_name) = version_pos_and_game_short_name.as_ref().unwrap().as_ref().unwrap();
            assert_eq!(pos, &1);
            assert_eq!(game_short_name, short_name);
        }
        // should also return an error as version_set doesn't have any assets
        if *short_name == "RE3" {
            let err = version_pos_and_game_short_name.as_ref().expect_err("Should return error with short_name");
            assert_eq!(err, &DialogsErrors::NoCacheFile("RE3".to_string()));
        }
        if *short_name == "RE8" {
            let err = version_pos_and_game_short_name.as_ref().expect_err("Should return error with short_name");
            assert_eq!(err, &DialogsErrors::NoCacheFile("RE8".to_string()));
        }
    })
}

#[test]
fn runtime_decision_flips_runtime_and_marks_download() {
    let mut config = mock_config();
    let mut state = REvilManagerState::default();
    config.games[2].1.steamId = Some("1196590".to_string());
    let sels = get_selections_for_runtime_switch(&config);
    let r = apply_runtime_decision(&mut config, &mut state, "Switch runtime to <OpenXR> for RE8", &sels);
    assert_eq!(r, Err(DialogsErrors::NoCacheFile("RE8".to_string())));
    assert_eq!(config.games[2].1.runtime, Some(Runtime::OpenXR));
    assert_eq!(config.games[2].1.versions, Some(sets(&[&["update", "RE8.zip"]])));
    let back = apply_runtime_decision(&mut config, &mut state, "Back", &sels);
    assert_eq!(back, Ok(None));
}

#[test]
fn for_2_games() {
    println!("Given 2 games to update, one can support nextgen second not");
    let config = mock_config();
    let assets_report = mock_report();
    let mut state = REvilManagerState::default();
    let dialogs = Dialogs;

    state.games_that_require_update.push("RE8".to_string());
    state.games_that_require_update.push("RE2".to_string());

    let (different_found, any_not_installed_mods_with_both_ver_supporting, game_decisions) =
        dialogs.prepare_decision_report(&config, &state, &assets_report);
    assert!(different_found);
    assert!(!any_not_installed_mods_with_both_ver_supporting);
    assert_eq!(game_decisions.len(), 3);
}

#[test]
fn for_1_game() {
    println!("Given 1 game to update not supporting nextgen version");
    let config = mock_config();
    let assets_report = mock_report();
    let mut state = REvilManagerState::default();
    let dialogs = Dialogs;

    state.games_that_require_update.push("RE8".to_string());

    let (different_found, any_not_installed_mods_with_both_ver_supporting, game_decisions) =
        dialogs.prepare_decision_report(&config, &state, &assets_report);
    assert!(!different_found);
    assert!(!any_not_installed_mods_with_both_ver_supporting);
    assert_eq!(game_decisions.len(), 1);
}

#[test]
fn decision_report_labels_and_switch_notes() {
    let mut config = mock_config();
    config.games[3].1.nextgen = None;
    let assets_report = mock_report();
    let mut state = REvilManagerState::default();
    state.games_that_require_update.push("RE7".to_string());
    state.games_that_require_update.push("RE2".to_string());
    let (different_found, not_installed, decisions) = Dialogs.prepare_decision_report(&config, &state, &assets_report);
    assert!(different_found);
    assert!(not_installed);
    let labels: Vec<&str> = decisions.iter().map(|(l, _)| l.as_str()).collect();
    assert_eq!(
        labels,
        vec![
            "RE7",
            "RE2 Nextgen version",
            "RE2 Standard version      info(your current version of mod is nextgen -> it will switch to standard)",
        ]
    );
    assert_eq!(decisions[0].1.for_all, None);
    assert_eq!(decisions[0].1.asset.name, "RE7_TDBXXX.zip");
    assert_eq!(decisions[1].1.for_all, Some(true));
    assert_eq!(decisions[2].1.for_all, Some(false));
    assert_eq!(decisions[1].1.steam_id, Some("883710".to_string()));
}

#[test]
fn for_3_games() {
    println!("Given 3 games to update, different types of, should pass assertions");
    let config = mock_config();
    let assets_report = mock_report();
    let mut state = REvilManagerState::default();
    let dialogs = Dialogs;

    state.games_that_require_update.push("RE8".to_string());
    state.games_that_require_update.push("RE7".to_string());
    state.games_that_require_update.push("RE2".to_string());

    let (different_found, any_not_installed_mods_with_both_ver_supporting, game_decisions) =
        dialogs.prepare_decision_report(&config, &state, &assets_report);
    assert!(different_found);
    assert!(any_not_installed_mods_with_both_ver_supporting);
    assert_eq!(game_decisions.len(), 4);
}

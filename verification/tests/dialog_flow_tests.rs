use refresher::dialogs::dialogs::{
    apply_decision_selection, apply_main_section, cache_selections, decision_selections, get_cache_candidates,
    main_section_entries, main_section_selections, populate_selected_assets_base_on_general_option,
    populate_selections_with_general_options, set_label_for_download_switch, sorted_then_back, switch_type_candidates,
    switch_type_decision, Dialogs, GameDecision, SwitchActionReport, SwitchDecision,
};
use refresher::dialogs::dialogs_label::LabelOptions;
use refresher::rManager::rManager_header::REvilManagerState;
use refresher::reframework_github::release::ReleaseAsset;
use refresher::scrapper::scrapper::scrape_latest_data;
use refresher::tomlConf::configStruct::{GameConfig, REvilConfig, Runtime};

fn s(v: &str) -> String {
    v.to_string()
}

fn asset(name: &str) -> ReleaseAsset {
    ReleaseAsset { download_url: s("u"), name: s(name) }
}

fn decision(name: &str, for_all: Option<bool>) -> GameDecision {
    GameDecision { asset: asset(name), for_all, steam_id: None }
}

fn game(versions: &[&[&str]], in_use: &str, nextgen: Option<bool>, id: &str) -> GameConfig {
    GameConfig {
        location: Some(s("D:/g")),
        steamId: Some(s(id)),
        versions: Some(versions.iter().map(|set| set.iter().map(|x| s(x)).collect()).collect()),
        version_in_use: Some(s(in_use)),
        nextgen,
        runtime: Some(Runtime::OpenVR),
        runArgs: None,
    }
}

#[test]
fn general_options_depend_on_build_types() {
    let ds = vec![(s("RE8"), decision("RE8.zip", Some(true)))];
    let mut sel = vec![];
    assert_eq!(populate_selections_with_general_options(&ds, &mut sel, &true, &true), Some(()));
    assert_eq!(sel, vec![s("Update all games - prefer nextgen"), s("Update all games - prefer standard")]);
    let mut sel = vec![];
    populate_selections_with_general_options(&ds, &mut sel, &true, &false);
    assert_eq!(sel, vec![s("Update all games - autodetect")]);
    let mut sel = vec![];
    assert_eq!(populate_selections_with_general_options(&vec![], &mut sel, &true, &false), None);
    assert!(sel.is_empty());
}

#[test]
fn general_option_picks_assets() {
    let ds = vec![
        (s("RE8"), decision("RE8.zip", Some(true))),
        (s("RE2 x"), decision("RE2.zip", Some(false))),
        (s("RE7 Standard version"), decision("RE7_TDB.zip", None)),
        (s("RE7 Nextgen version"), decision("RE7.zip", None)),
    ];
    let mut state = REvilManagerState::default();
    assert_eq!(
        populate_selected_assets_base_on_general_option(LabelOptions::UpdateAllGamesPreferStandard, &ds, &mut state, &true, &true),
        Some(())
    );
    let names: Vec<&str> = state.selected_assets.iter().map(|a| a.name.as_str()).collect();
    assert_eq!(names, vec!["RE8.zip", "RE7_TDB.zip"]);
    assert_eq!(populate_selected_assets_base_on_general_option(LabelOptions::Skip, &ds, &mut state, &true, &true), None);
}

#[test]
fn download_choices_and_pick() {
    let ds = vec![
        (s("RE2 Standard version      info(your current version of mod is nextgen -> it will switch to standard)"), decision("RE2_TDB.zip", Some(false))),
        (s("RE8"), decision("RE8.zip", Some(true))),
    ];
    let sel = decision_selections(&ds, false, false).unwrap();
    assert_eq!(sel[0], "Update all games");
    assert_eq!(sel[1], "RE8");
    assert_eq!(sel[3], "Skip");
    let mut state = REvilManagerState::default();
    apply_decision_selection(&mut state, "RE8", &ds, false, false);
    assert_eq!(state.selected_assets.len(), 1);
    apply_decision_selection(&mut state, "Skip", &ds, false, false);
    assert_eq!(state.selected_assets.len(), 1);
    assert!(decision_selections(&vec![], false, false).is_none());
}

#[test]
fn switch_note_label() {
    let mut t = s("RE2 Standard version");
    set_label_for_download_switch(&mut t, "nextgen", "standard");
    assert_eq!(t, "RE2 Standard version      info(your current version of mod is nextgen -> it will switch to standard)");
}

#[test]
fn run_options_and_main_choice() {
    let config = REvilConfig {
        main: refresher::tomlConf::configStruct::Main::empty(),
        games: vec![
            (s("RE2"), game(&[&["v2", "RE2.zip"], &["v1", "RE2.zip"]], "v1", Some(true), "883710")),
            (s("RE8"), game(&[&["v3"]], "v3", None, "1196590")),
        ],
    };
    let (entries, two) = main_section_entries(&config);
    assert!(two);
    assert_eq!(entries[0].0, "Run RE2 <Nextgen> - <OpenVR> v1 <no_latest_cache>");
    assert_eq!(entries[1].0, "Run RE8 - <OpenVR> v3");
    let sel = main_section_selections(&entries, two);
    assert_eq!(sel.len(), 8);
    assert_eq!(sel[2], "Switch runtime...");
    assert_eq!(sel[4], "Switch type...");
    let mut state = REvilManagerState::default();
    apply_main_section(&mut state, "Run RE8 - <OpenVR> v3", &entries);
    assert_eq!(state.selected_game_to_launch, Some(s("1196590")));
    apply_main_section(&mut state, "Exit", &entries);
    assert_eq!(state.selected_option, Some(LabelOptions::Exit));
}

#[test]
fn cache_options() {
    let config = REvilConfig {
        main: refresher::tomlConf::configStruct::Main::empty(),
        games: vec![(s("RE2"), game(&[&["v2", "RE2.zip", "RE2_TDB.zip"], &["v1"]], "v2", Some(true), "883710"))],
    };
    let c = get_cache_candidates(&config);
    assert_eq!(c.len(), 2);
    assert_eq!(c[0].label, "info this is your current version - Load mod from cache |RE2|RE2.zip|v2");
    assert_eq!(c[0].folder, "refr_cache/v2");
    assert_eq!(c[1].file_name, "RE2_TDB.zip");
    let sel = cache_selections(vec![s("b"), s("info z"), s("a")]);
    assert_eq!(sel, vec![s("Back"), s("a"), s("b"), s("info z")]);
}

#[test]
fn type_switch_options_and_decision() {
    let config = REvilConfig {
        main: refresher::tomlConf::configStruct::Main::empty(),
        games: vec![
            (s("RE2"), game(&[&["v2", "RE2.zip", "RE2_TDB.zip"]], "v2", Some(true), "883710")),
            (s("RE8"), game(&[&["v3"]], "v3", None, "1196590")),
        ],
    };
    let candidates = switch_type_candidates(&config);
    assert_eq!(candidates, vec![s("Switch type to |standard| - RE2")]);
    let sel = sorted_then_back(candidates);
    assert_eq!(sel.last().unwrap(), "Back");
    let mut state = REvilManagerState::default();
    assert_eq!(switch_type_decision(&config, &state, "Back"), SwitchDecision::Report(SwitchActionReport::Early));
    assert_eq!(
        switch_type_decision(&config, &state, "Switch type to |nextgen| - RE2"),
        SwitchDecision::CheckArchive(s("RE2"), s("RE2_TDB.zip"), s("refr_cache/v2"))
    );
    state.games_that_require_update.push(s("RE2"));
    assert_eq!(
        switch_type_decision(&config, &state, "Switch type to |nextgen| - RE2"),
        SwitchDecision::Report(SwitchActionReport::ToggleNSaveRestart(s("RE2")))
    );
}

#[test]
fn decision_report_of_empty_list() {
    let config = REvilConfig::empty();
    let state = REvilManagerState::default();
    let (a, b, d) = Dialogs.prepare_decision_report(&config, &state, &vec![]);
    assert!(!a && !b && d.is_empty());
}

#[test]
fn release_page_is_scraped() {
    let html = "<html><body><span class=\"Link--primary\">v1.167-d96992f</span>\
        <a href=\"/praydog/REFramework-nightly/releases/latest/download/RE2.zip\">RE2</a>\
        <a href=\"/praydog\">home</a></body></html>";
    let (links, version) = scrape_latest_data(html, "v1.165-d96992f").unwrap().unwrap();
    assert_eq!(links, vec![s("https://github.com/praydog/REFramework-nightly/releases/latest/download/RE2.zip")]);
    assert_eq!(version, "v1.167-d96992f");
    assert_eq!(
        scrape_latest_data(html, "v1.167-d96992f"),
        Some(Err(refresher::scrapper::ScrapperError::ScrapperError::NothingToUpdate))
    );
    assert_eq!(
        scrape_latest_data("<html></html>", "v1"),
        Some(Err(refresher::scrapper::ScrapperError::ScrapperError::GetRepoVersion))
    );
}

use refresher::args::{logger_level, restart_args, RunAfter};
use refresher::rManager::rManager::UnzipSkip;
use refresher::rManager::rManager_header::REvilManager;
use refresher::scrapper::scrapper::scrape_from_parts;
use refresher::scrapper::ScrapperError::ScrapperError;
use refresher::sorting::{move_labels_with_last, sort_strings};
use refresher::steam::filter_detected_games;
use refresher::strategy::StrategyFactory::{Route, StrategyFactory};
use refresher::tomlConf::configStruct::ErrorLevel;
use refresher::unzip::unzip::{should_skip, unzip_entry_action, EntryAction};
use refresher::unzip::UnzipError::UnzipError;

fn s(v: &str) -> String {
    v.to_string()
}

#[test]
fn strings_sort_like_str() {
    let mut v = vec![s("b"), s("ab"), s("a"), s("B")];
    sort_strings(&mut v);
    assert_eq!(v, vec![s("B"), s("a"), s("ab"), s("b")]);
}

#[test]
fn info_labels_move_last() {
    let mut v = vec![s("info 1"), s("x"), s("info 2"), s("y")];
    move_labels_with_last(&mut v, "info");
    assert_eq!(v, vec![s("x"), s("y"), s("info 1"), s("info 2")]);
}

#[test]
fn scrape_parts() {
    let hrefs = vec![Some(s("/x")), Some(s("/praydog/REFramework-nightly/releases/latest/download/RE2.zip"))];
    let (links, v) = scrape_from_parts(Some(s("v1.167-d96992f")), hrefs.clone(), "v1.165-d96992f").unwrap();
    assert_eq!(links, vec![s("https://github.com/praydog/REFramework-nightly/releases/latest/download/RE2.zip")]);
    assert_eq!(v, "v1.167-d96992f");
    assert_eq!(
        scrape_from_parts(Some(s("v1.167-d96992f")), hrefs.clone(), "v1.167-d96992f"),
        Err(ScrapperError::NothingToUpdate)
    );
    assert_eq!(scrape_from_parts(None, hrefs, "v1"), Err(ScrapperError::GetRepoVersion));
    assert_eq!(
        scrape_from_parts(Some(s("v1.167-d96992f")), vec![Some(s("/x")), None], "a1"),
        Err(ScrapperError::NoHrefAttribute)
    );
    assert_eq!(scrape_from_parts(Some(s("v1.167-d96992f")), vec![], "a1"), Err(ScrapperError::NotFoundAnyLinks));
}

#[test]
fn steam_detection_is_filtered() {
    let r = filter_detected_games(
        &vec![s("883710"), s("418370")],
        &vec![(s("883710"), Some(s("D:/RE2"))), (s("1"), Some(s("D:/x"))), (s("418370"), None)],
    );
    assert_eq!(r, vec![(s("883710"), s("D:/RE2"))]);
}

#[test]
fn route_choice() {
    let mut m = REvilManager::new();
    assert_eq!(StrategyFactory::get_strategy(&mut m, "none"), Route::DefaultRoute);
    assert_eq!(StrategyFactory::get_strategy(&mut m, "RE2"), Route::CheckUpdateAndRunTheGame);
}

#[test]
fn unzip_entry_actions() {
    let skip = vec![s("openvr_api.dll")];
    assert_eq!(unzip_entry_action("dir/", true, None, &skip, false), Ok(EntryAction::CreateDir));
    assert_eq!(unzip_entry_action("../x", false, None, &skip, false), Ok(EntryAction::Skip));
    assert_eq!(unzip_entry_action("a.dll", true, Some("openvr_api.dll"), &skip, false), Ok(EntryAction::Skip));
    assert_eq!(unzip_entry_action("a.dll", true, Some("a.dll"), &skip, false), Ok(EntryAction::Extract));
    assert_eq!(unzip_entry_action("a.dll", true, Some("a.dll"), &skip, true), Ok(EntryAction::Skip));
    assert_eq!(unzip_entry_action("a", true, None, &skip, false), Err(UnzipError::OutpathFileName));
    assert!(should_skip(&UnzipSkip::SkipFile(s("x")), "x"));
    assert!(should_skip(&UnzipSkip::OnlyFile(s("x")), "y"));
}

#[test]
fn restart_and_logger_choices() {
    assert_eq!(restart_args(RunAfter::no, "RE2"), vec![s("-r"), s("no"), s("--one"), s("RE2")]);
    assert_eq!(logger_level(ErrorLevel::none, Some(ErrorLevel::debug)), ErrorLevel::debug);
    assert_eq!(logger_level(ErrorLevel::none, None), ErrorLevel::info);
    assert_eq!(logger_level(ErrorLevel::warn, Some(ErrorLevel::debug)), ErrorLevel::warn);
}

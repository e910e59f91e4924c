use refresher::dialogs::dialogs_label::LabelOptions;
use refresher::utils::version_parser::isRepoVersionNewer as is_repo_version_newer_u16;
use refresher::version_parser::{get_version_tuple, isRepoVersionNewer};

fn s(v: &str) -> String {
    v.to_string()
}

#[test]
fn fixed_labels_read_back() {
    for o in [
        LabelOptions::SwitchType,
        LabelOptions::LoadDifferentVersionFromCache,
        LabelOptions::Skip,
        LabelOptions::Exit,
        LabelOptions::UpdateAllGames,
        LabelOptions::UpdateAllGamesPreferStandard,
        LabelOptions::UpdateAllGamesPreferNextgen,
        LabelOptions::UpdateAllGamesAutoDetect,
        LabelOptions::Back,
        LabelOptions::GoTop,
        LabelOptions::SwitchRuntimeSection,
        LabelOptions::RescanLocal,
    ] {
        let label = o.to_label();
        assert_eq!(LabelOptions::from(&label), o);
    }
}

#[test]
fn cache_label_round_trip() {
    let o = LabelOptions::LoadFromCache(s("RE2"), s("RE2_TDB.zip"), s("v1.2-abc"));
    assert_eq!(o.to_label(), "Load mod from cache |RE2|RE2_TDB.zip|v1.2-abc");
    assert_eq!(LabelOptions::from(&o.to_label()), o);
    assert_eq!(LabelOptions::from("Load from cache |x"), LabelOptions::Other);
}

#[test]
fn switch_labels_read_back() {
    assert_eq!(LabelOptions::from("Switch type to |nextgen| - RE3"), LabelOptions::SwitchToNextgen(s("RE3")));
    // the part between the bars is compared with all that follows the first bar
    assert_eq!(LabelOptions::from("Switch type to |standard| - RE3"), LabelOptions::SwitchToNextgen(s("RE3")));
    assert_eq!(LabelOptions::from("Switch runtime to <OpenVR> for RE2"), LabelOptions::SwitchRuntime);
    assert_eq!(LabelOptions::from("Run RE2"), LabelOptions::Other);
}

#[test]
fn version_tuple_parts() {
    assert_eq!(get_version_tuple("v1.167-d96992f"), Some((s("1"), s("167"), s("d96992f"))));
    assert_eq!(get_version_tuple("v1167"), None);
}

#[test]
fn repo_version_comparisons() {
    assert_eq!(isRepoVersionNewer("v1.165-d96992f", "v1.167-d96992f"), Some(true));
    assert_eq!(isRepoVersionNewer("a96992f", "v1.167-d96992f"), Some(true));
    assert_eq!(isRepoVersionNewer("v1.167-a96xxcf", "v1.167-d96992f"), Some(true));
    assert_eq!(isRepoVersionNewer("v1.167-d96992f", "v1.167-d96992f"), Some(false));
    assert_eq!(isRepoVersionNewer("d96992f", "v1.167-d96992f"), Some(false));
    assert_eq!(isRepoVersionNewer("v1.x-d", "v1.167-d96992f"), None);
    assert_eq!(isRepoVersionNewer("v1.1-d", "v1.300-d"), None);
    assert_eq!(is_repo_version_newer_u16("v1.1-d", "v1.300-d"), Some(true));
}

#[test]
fn unparsable_versions_give_none() {
    assert_eq!(isRepoVersionNewer("v1.0-a", "latest"), None);
    assert_eq!(isRepoVersionNewer("v1.0", "v1.1-a"), None);
    assert_eq!(isRepoVersionNewer("\u{e9}1.0-a", "latest"), None);
}

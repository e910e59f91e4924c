use refresher::tomlConf::config::REvilConfigProvider;
use refresher::tomlConf::configStruct::{ConfigError, ErrorLevel, GameConfig, Main};
use refresher::tomlConf::utils::{default_main, deserialize, serialize};

fn s(v: &str) -> String {
    v.to_string()
}

fn located(l: &str) -> GameConfig {
    GameConfig {
        location: Some(s(l)),
        steamId: None,
        versions: None,
        version_in_use: None,
        nextgen: None,
        runtime: None,
        runArgs: None,
    }
}

#[test]
fn serialize_frames_sorted_sections() {
    let out = serialize("a = 1\n", vec![(s("RE7"), s("x = 2\n")), (s("RE2"), s("y = 3\n"))]).unwrap();
    assert_eq!(out, "[main]\na = 1\n\n[RE2]\ny = 3\n\n[RE7]\nx = 2\n\n");
}

#[test]
fn deserialize_assembles_sections() {
    let mut main = Main::empty();
    main.autoupdate = Some(true);
    let c = deserialize(
        Some(Some(main)),
        vec![(s("RE2"), Some(located("D:/a"))), (s("RE12"), None), (s("RE2"), Some(located("D:/b")))],
    )
    .unwrap();
    assert_eq!(c.main.autoupdate, Some(true));
    assert_eq!(c.games.len(), 1);
    assert_eq!(c.games[0].0, "RE2");
    assert_eq!(c.games[0].1.location, Some(s("D:/b")));
}

#[test]
fn deserialize_without_main_fails_and_unreadable_main_defaults() {
    assert_eq!(deserialize(None, vec![]).err(), Some(ConfigError::DeserializerError));
    let c = deserialize(Some(None), vec![]).unwrap();
    assert_eq!(c.main.errorLevel, Some(ErrorLevel::info));
    assert_eq!(c.main.max_cache_versions_per_game, Some(4));
    assert_eq!(default_main().max_cache_versions_per_game, Some(4));
}

#[test]
fn provider_keeps_file_name() {
    assert_eq!(REvilConfigProvider::new("config.toml").filename, "config.toml");
}

#[test]
fn deserialize_leaves_main_out_of_games() {
    let c = deserialize(Some(Some(Main::empty())), vec![(s("main"), Some(located("x"))), (s("RE7"), Some(located("D:/RE7")))])
        .unwrap();
    assert_eq!(c.games.len(), 1);
    assert_eq!(c.games[0].0, "RE7");
}

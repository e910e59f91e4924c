//! REFramework mod updater: configuration, version and release bookkeeping,
//! and the decisions of the update and launch workflow.
#![allow(non_snake_case)]
use vstd::prelude::*;

pub mod text;
pub mod seq_util;
pub mod assoc;
pub mod version_parser;
pub mod utils;
pub mod dialogs;
pub mod tomlConf;
pub mod reframework_github;
pub mod rManager;
pub mod args;
pub mod sorting;
pub mod scrapper;
pub mod steam;
pub mod strategy;
pub mod unzip;

verus! {

/// Release channel used when the configuration names none.
pub const NIGHTLY_RELEASE: &'static str = "REFramework-nightly";

/// Repository owner used when the configuration names none.
pub const REPO_OWNER: &'static str = "praydog";

/// Marks archives of the standard (non-nextgen) mod build.
pub const STANDARD_TYPE_QUALIFIER: &'static str = "_TDB";

/// How many mod versions are kept per game.
pub const MAX_ZIP_FILES_PER_GAME_CACHE: u8 = 4;

/// Seconds the console window stays open at the end.
pub const TIME_TO_CLOSE: u16 = 10;

/// The supported games: Steam id and short name.
pub open spec fn games_table() -> Seq<(Seq<char>, Seq<char>)> {
    seq![
        ("601150"@, "DMC5"@),
        ("1446780"@, "MHRISE"@),
        ("883710"@, "RE2"@),
        ("952060"@, "RE3"@),
        ("418370"@, "RE7"@),
        ("1196590"@, "RE8"@),
    ]
}

/// The games with both a standard and a nextgen mod build.
pub open spec fn nextgen_games() -> Seq<Seq<char>> {
    seq!["RE2"@, "RE3"@, "RE7"@]
}

/// The Steam ids of the supported games, in table order.
pub fn game_steam_ids() -> (r: Vec<&'static str>)
    ensures
        r@.map_values(|s: &str| s@) == games_table().map_values(|e: (Seq<char>, Seq<char>)| e.0),
{
    let r = vec!["601150", "1446780", "883710", "952060", "418370", "1196590"];
    assert(r@.map_values(|s: &str| s@) =~= games_table().map_values(
        |e: (Seq<char>, Seq<char>)| e.0,
    ));
    r
}

/// The Steam ids of the supported games.
pub open spec fn table_ids() -> Seq<Seq<char>> {
    games_table().map_values(|e: (Seq<char>, Seq<char>)| e.0)
}

/// The short name of the game with Steam id `id`, if it is supported.
pub open spec fn table_short_name(id: Seq<char>) -> Option<Seq<char>> {
    match crate::seq_util::first_index(table_ids(), id) {
        Some(i) => Some(games_table()[i].1),
        None => None,
    }
}

/// The short name of the game with Steam id `id`.
pub fn short_name_for_steam_id(id: &str) -> (r: Option<&'static str>)
    ensures
        match r {
            Some(n) => table_short_name(id@) == Some(n@),
            None => table_short_name(id@) is None,
        },
{
    let ids = vec!["601150", "1446780", "883710", "952060", "418370", "1196590"];
    let names = vec!["DMC5", "MHRISE", "RE2", "RE3", "RE7", "RE8"];
    let mut i: usize = 0;
    while i < 6
        invariant
            ids@.len() == 6,
            names@.len() == 6,
            forall|k: int| 0 <= k < 6 ==> (#[trigger] games_table()[k]) == (ids@[k]@, names@[k]@),
            i <= 6,
            forall|k: int| 0 <= k < i ==> table_ids()[k] != id@,
        decreases 6 - i,
    {
        assert(table_ids()[i as int] == games_table()[i as int].0);
        if crate::text::str_eq(ids[i], id) {
            proof {
                crate::seq_util::lemma_first_index_at(table_ids(), id@, i as int);
            }
            return Some(names[i]);
        }
        i += 1;
    }
    proof {
        crate::seq_util::lemma_first_index(table_ids(), id@);
    }
    None
}

/// Whether the game has both a standard and a nextgen mod build.
pub fn supports_nextgen(short_name: &str) -> (r: bool)
    ensures
        r == nextgen_games().contains(short_name@),
{
    let names = vec!["RE2", "RE3", "RE7"];
    assert(names@.map_values(|s: &str| s@) =~= nextgen_games());
    let mut i: usize = 0;
    while i < 3
        invariant
            names@.len() == 3,
            names@.map_values(|s: &str| s@) == nextgen_games(),
            i <= 3,
            forall|k: int| 0 <= k < i ==> nextgen_games()[k] != short_name@,
        decreases 3 - i,
    {
        if crate::text::str_eq(names[i], short_name) {
            assert(nextgen_games()[i as int] == names@[i as int]@);
            return true;
        }
        assert(nextgen_games()[i as int] == names@[i as int]@);
        i += 1;
    }
    false
}

} // verus!

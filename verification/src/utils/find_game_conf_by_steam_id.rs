//! Finding a game record by its Steam id.
use vstd::prelude::*;
use crate::rManager::rManager_header::{REvilManagerError, ResultManagerErr};
use crate::seq_util::{first_index, lemma_first_index, lemma_first_index_at};
use crate::tomlConf::configStruct::{GameConfig, REvilConfig, ShortGameName};

verus! {

/// For each game, whether its Steam id is `steam_id`.
pub open spec fn steam_id_flags(gs: Seq<(ShortGameName, GameConfig)>, steam_id: Seq<char>) -> Seq<bool> {
    Seq::new(gs.len(), |i: int| gs[i].1.steamId matches Some(s) && s@ == steam_id)
}

/// The position of the first game with Steam id `steam_id`.
pub open spec fn steam_id_index(gs: Seq<(ShortGameName, GameConfig)>, steam_id: Seq<char>) -> Option<int> {
    first_index(steam_id_flags(gs, steam_id), true)
}

/// Every game record up to the first one with Steam id `steam_id` (all of
/// them when there is none) has a Steam id.
pub open spec fn steam_ids_readable(gs: Seq<(ShortGameName, GameConfig)>, steam_id: Seq<char>) -> bool {
    forall|i: int|
        0 <= i < gs.len() && (forall|m: int| 0 <= m < i ==> !(#[trigger] steam_id_flags(gs, steam_id)[m]))
            ==> (#[trigger] gs[i]).1.steamId is Some
}

/// The position of the first game with Steam id `steam_id`;
/// `GameNotFoundForGivenSteamId` when no game has it.
pub fn find_game_index_by_steam_id(games: &Vec<(ShortGameName, GameConfig)>, steam_id: &str) -> (r: ResultManagerErr<usize>)
    requires
        steam_ids_readable(games@, steam_id@),
    ensures
        match steam_id_index(games@, steam_id@) {
            Some(i) => r matches Ok(j) && j as int == i,
            None => r matches Err(REvilManagerError::GameNotFoundForGivenSteamId(s)) && s@ == steam_id@,
        },
{
    let ghost flags = steam_id_flags(games@, steam_id@);
    let mut i: usize = 0;
    while i < games.len()
        invariant
            i <= games@.len(),
            steam_ids_readable(games@, steam_id@),
            flags == steam_id_flags(games@, steam_id@),
            forall|j: int| 0 <= j < i ==> !(#[trigger] flags[j]),
        decreases games@.len() - i,
    {
        let id = match &games[i].1.steamId {
            Some(s) => s,
            None => {
                assert(games@[i as int].1.steamId is Some);
                return Err(REvilManagerError::Other);
            },
        };
        if crate::text::str_eq(id.as_str(), steam_id) {
            proof {
                assert(flags[i as int]);
                lemma_first_index_at(flags, true, i as int);
            }
            return Ok(i);
        }
        assert(!flags[i as int]);
        i += 1;
    }
    proof {
        lemma_first_index(flags, true);
    }
    Err(REvilManagerError::GameNotFoundForGivenSteamId(crate::text::owned(steam_id)))
}

/// The short name and record of the game with Steam id `steam_id`;
/// `GameNotFoundForGivenSteamId` when no game has it.
pub fn find_game_conf_by_steam_id<'a>(config: &'a REvilConfig, steam_id: &str) -> (r: ResultManagerErr<
    (&'a String, &'a GameConfig),
>)
    requires
        steam_ids_readable(config.games@, steam_id@),
    ensures
        match steam_id_index(config.games@, steam_id@) {
            Some(i) => r matches Ok((n, g)) && *n == config.games@[i].0 && *g == config.games@[i].1,
            None => r matches Err(REvilManagerError::GameNotFoundForGivenSteamId(s)) && s@ == steam_id@,
        },
{
    match find_game_index_by_steam_id(&config.games, steam_id) {
        Ok(i) => {
            proof {
                lemma_first_index(steam_id_flags(config.games@, steam_id@), true);
            }
            Ok((&config.games[i].0, &config.games[i].1))
        },
        Err(e) => Err(e),
    }
}

} // verus!

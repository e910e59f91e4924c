//! The games Steam reports, narrowed to the supported ones.
use vstd::prelude::*;
use crate::seq_util::{opt_str_view, strs_view};

verus! {

/// Asks Steam for installed games and launches them.
pub struct SteamManager;

/// Steam could not be asked or could not launch a game.
#[derive(Debug, Clone, Copy, PartialEq, Eq, Structural)]
pub struct SteamError;

impl SteamError {
    /// The message of the error.
    pub fn message(&self) -> (r: &'static str)
        ensures
            r@ == "Steam error"@,
    {
        "Steam error"
    }
}

/// The detected games whose Steam id is asked for and whose folder is
/// known, as `(id, folder)`, in the order Steam reports them.
pub open spec fn wanted_games(ids: Seq<Seq<char>>, games: Seq<(Seq<char>, Option<Seq<char>>)>) -> Seq<(Seq<char>, Seq<char>)>
    decreases games.len(),
{
    if games.len() == 0 {
        Seq::empty()
    } else {
        let g = games.last();
        wanted_games(ids, games.drop_last()) + if ids.contains(g.0) && g.1 is Some {
            seq![(g.0, g.1.unwrap())]
        } else {
            Seq::empty()
        }
    }
}

/// The views of detected games.
pub open spec fn detected_view(games: Seq<(String, Option<String>)>) -> Seq<(Seq<char>, Option<Seq<char>>)> {
    games.map_values(|g: (String, Option<String>)| (g.0@, opt_str_view(g.1)))
}

/// Keeps the detected games that are asked for and have a folder (see
/// `wanted_games`).
pub fn filter_detected_games(game_ids: &Vec<String>, games: &Vec<(String, Option<String>)>) -> (r: Vec<(String, String)>)
    ensures
        r@.map_values(|e: (String, String)| (e.0@, e.1@)) == wanted_games(strs_view(game_ids@), detected_view(games@)),
{
    let ghost dv = detected_view(games@);
    let mut r: Vec<(String, String)> = Vec::new();
    let mut i: usize = 0;
    assert(r@.map_values(|e: (String, String)| (e.0@, e.1@)) =~= wanted_games(strs_view(game_ids@), dv.subrange(0, 0)));
    while i < games.len()
        invariant
            i <= games@.len(),
            dv == detected_view(games@),
            r@.map_values(|e: (String, String)| (e.0@, e.1@)) == wanted_games(strs_view(game_ids@), dv.subrange(0, i as int)),
        decreases games@.len() - i,
    {
        proof {
            assert(dv.subrange(0, i + 1).drop_last() =~= dv.subrange(0, i as int));
            assert(dv.subrange(0, i + 1).last() == dv[i as int]);
        }
        let ghost before = r@.map_values(|e: (String, String)| (e.0@, e.1@));
        let id = &games[i].0;
        if crate::seq_util::contains_string(game_ids, id.as_str()) {
            match &games[i].1 {
                Some(path) => {
                    r.push((id.clone(), path.clone()));
                    assert(r@.map_values(|e: (String, String)| (e.0@, e.1@)) =~= before.push((id@, path@)));
                },
                None => {},
            }
        }
        i += 1;
    }
    assert(dv.subrange(0, dv.len() as int) =~= dv);
    r
}

} // verus!

//! Whether a release asset is the standard build of a two-build game.
use vstd::prelude::*;
use crate::reframework_github::release::ReleaseAsset;
use crate::text::{contains, contains_str};
use crate::{nextgen_games, supports_nextgen, STANDARD_TYPE_QUALIFIER};

verus! {

/// For a game with a standard and a nextgen build, whether the asset named
/// `name` is the standard build (its name holds `_TDB`); `None` for other games.
pub open spec fn asset_tdb(short_name: Seq<char>, name: Seq<char>) -> Option<bool> {
    if nextgen_games().contains(short_name) {
        Some(contains(name, "_TDB"@))
    } else {
        None
    }
}

/// `asset_tdb` on an asset name.
pub fn is_asset_name_tdb(game_short_name: &str, name: &str) -> (r: Option<bool>)
    ensures
        r == asset_tdb(game_short_name@, name@),
{
    if supports_nextgen(game_short_name) {
        Some(contains_str(name, STANDARD_TYPE_QUALIFIER))
    } else {
        None
    }
}

/// Whether the asset is the standard build of the game (`None` when the
/// game has only one build).
pub fn is_asset_tdb(game_short_name: &str, asset: &ReleaseAsset) -> (r: Option<bool>)
    ensures
        r == asset_tdb(game_short_name@, asset.name@),
{
    is_asset_name_tdb(game_short_name, asset.name.as_str())
}

} // verus!

//! Which workflow a run follows, and the decisions taken while loading.
use vstd::prelude::*;
use crate::dialogs::dialogs_label::LabelOptions;
use crate::rManager::rManager_header::{REvilManager, REvilManagerState};

verus! {

/// Chooses the workflow of a run.
pub struct StrategyFactory;

/// The workflows.
#[derive(Debug, Clone, Copy, PartialEq, Eq, Structural)]
pub enum Route {
    /// Check for an update, ask what to do, launch.
    DefaultRoute,
    /// Update one game and run it.
    CheckUpdateAndRunTheGame,
}

impl StrategyFactory {
    /// The workflow for the `--one` argument `one` (`none` when the tool
    /// runs for all games); the dialogs start at the top.
    pub fn get_strategy(manager: &mut REvilManager, one: &str) -> (r: Route)
        ensures
            final(manager).state.selected_option matches Some(o) && o is GoTop,
            final(manager).config == old(manager).config,
            final(manager).github_release_manager == old(manager).github_release_manager,
            final(manager).state.games_that_require_update == old(manager).state.games_that_require_update,
            final(manager).state.selected_assets == old(manager).state.selected_assets,
            final(manager).state.selected_game_to_launch == old(manager).state.selected_game_to_launch,
            r == if one@ == "none"@ {
                Route::DefaultRoute
            } else {
                Route::CheckUpdateAndRunTheGame
            },
    {
        manager.state.selected_option = Some(LabelOptions::GoTop);
        if crate::text::str_eq(one, "none") {
            Route::DefaultRoute
        } else {
            Route::CheckUpdateAndRunTheGame
        }
    }
}

/// The games' folders are read again only when the configuration could
/// not be loaded or Steam found a new game.
pub fn should_read_local_settings(state: &REvilManagerState) -> (r: bool)
    ensures
        r == (state.config_loading_error_ocurred || state.new_steam_game_found),
{
    state.config_loading_error_ocurred || state.new_steam_game_found
}

/// A failed Steam detection ends the run when the configuration could not
/// be loaded either.
pub fn steam_failure_is_fatal(state: &REvilManagerState) -> (r: bool)
    ensures
        r == state.config_loading_error_ocurred,
{
    state.config_loading_error_ocurred
}

} // verus!

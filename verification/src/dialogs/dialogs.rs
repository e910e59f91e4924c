//! The choices offered in the dialogs and what a choice changes. Showing a
//! list and reading the user's pick is done around this module; here the
//! lists are built and the picks applied.
use vstd::prelude::*;
use crate::assoc::{assoc_find, assoc_index, assoc_keys, assoc_map, assoc_wf, lemma_assoc_push, lemma_assoc_update};
use crate::dialogs::dialogs_label::{LabelOptions, LabelView, label_of_text, label_text};
use crate::reframework_github::refr_github::AssetsReport;
use crate::reframework_github::release::ReleaseAsset;
use crate::rManager::rManager::game_index;
use crate::rManager::rManager_header::{REvilManagerState, SORT_DETERMINER};
use crate::seq_util::{lemma_first_index, opt_str_view, strs_view};
use crate::text::owned;
use crate::tomlConf::configStruct::{opposite_runtime, runtime_name, GameConfig, GameConfigView, REvilConfig, Runtime, ShortGameName, SteamId};
use crate::rManager::rManager::{newest_record_present, newest_renamed, record_replaced, UPDATE_IDENTIFIER};
use crate::seq_util::nested_strs_view;
use crate::utils::find_game_conf_by_steam_id::{find_game_index_by_steam_id, steam_id_index, steam_ids_readable};
use crate::utils::is_asset_tdb::{asset_tdb, is_asset_tdb};

verus! {

#[derive(PartialEq, Debug, Default)]
pub enum DialogsErrors {
    #[default]
    Other,
    GameNotFoundForGivenSteamId(String),
    NoGamesToUpdate,
    OpenDialogError,
    NoCacheFile(ShortGameName),
}

impl DialogsErrors {
    /// The message of the error.
    pub fn message(&self) -> (r: &'static str)
        ensures
            r@ == "DialogsErrors"@,
    {
        "DialogsErrors"
    }
}

/// The dialogs of the tool.
pub struct Dialogs;

/// What a type switch asks for, with the archive of the other build where
/// one is involved.
#[derive(PartialEq, Debug)]
pub enum SwitchActionReport {
    ToggleNSaveRestart(ShortGameName),
    ToggleNUnzipSave(ShortGameName, String),
    UnsetNonExistentToggleNRestart(ShortGameName, String),
    ToggleNSetSwitchSaveRestart(ShortGameName),
    Early,
}

/// An asset offered for download: whether the "update all" options take it
/// (`None`: only when a build type is preferred), and the game's Steam id.
pub struct GameDecision {
    pub asset: ReleaseAsset,
    pub for_all: Option<bool>,
    pub steam_id: Option<SteamId>,
}

pub struct GameDecisionView {
    pub asset: ReleaseAsset,
    pub for_all: Option<bool>,
    pub steam_id: Option<Seq<char>>,
}

impl View for GameDecision {
    type V = GameDecisionView;

    open spec fn view(&self) -> GameDecisionView {
        GameDecisionView { asset: self.asset, for_all: self.for_all, steam_id: opt_str_view(self.steam_id) }
    }
}

/// The note added to the label of an asset of the other build.
pub open spec fn switch_note(text: Seq<char>, current: Seq<char>, next: Seq<char>) -> Seq<char> {
    text + "      "@ + SORT_DETERMINER@ + "(your current version of mod is "@ + current + " -> it will switch to "@
        + next + ")"@
}

/// Adds the note of a build switch to a label.
pub fn set_label_for_download_switch(text: &mut String, next_or_std: &str, next_or_std_sec: &str)
    ensures
        final(text)@ == switch_note(old(text)@, next_or_std@, next_or_std_sec@),
{
    let t = text.clone().concat("      ").concat(SORT_DETERMINER).concat("(your current version of mod is ").concat(
        next_or_std,
    ).concat(" -> it will switch to ").concat(next_or_std_sec).concat(")");
    *text = t;
}

/// How an asset is offered: its label, whether "update all" takes it,
/// whether the mod is probably not installed (a two-build game without a
/// build type), and whether the game has two builds. While the build type
/// of a two-build game is unknown, its builds share one entry labelled with
/// the short name, so the report offers a single archive for it.
pub open spec fn asset_choice(short: Seq<char>, nextgen: Option<bool>, name: Seq<char>) -> (Seq<char>, Option<bool>, bool, bool) {
    match asset_tdb(short, name) {
        None => (short, Some(true), false, false),
        Some(tdb) => match nextgen {
            None => (short, None, true, true),
            Some(ng) => if !tdb {
                if ng {
                    (short + " Nextgen version"@, Some(true), false, true)
                } else {
                    (switch_note(short + " Nextgen version"@, "standard"@, "nextgen"@), Some(false), false, true)
                }
            } else {
                if !ng {
                    (short + " Standard version"@, Some(true), false, true)
                } else {
                    (switch_note(short + " Standard version"@, "nextgen"@, "standard"@), Some(false), false, true)
                }
            },
        },
    }
}

/// For a two-build game whose build type is recorded, "update all" takes
/// exactly the assets of the installed build, offered under their plain
/// label; an asset of the other build is left to an explicit pick, and its
/// label notes the installed build as the current one and the asset's build
/// as the one switched to.
pub proof fn lemma_offer_follows_installed_build(short: Seq<char>, nextgen: bool, name: Seq<char>, tdb: bool)
    requires
        asset_tdb(short, name) == Some(tdb),
    ensures
        ({
            let c = asset_choice(short, Some(nextgen), name);
            let plain = short + if tdb {
                " Standard version"@
            } else {
                " Nextgen version"@
            };
            let installed = if nextgen {
                "nextgen"@
            } else {
                "standard"@
            };
            let offered = if tdb {
                "standard"@
            } else {
                "nextgen"@
            };
            &&& c.1 == Some(tdb != nextgen)
            &&& tdb != nextgen ==> c.0 == plain
            &&& tdb == nextgen ==> c.0 == switch_note(plain, installed, offered)
            &&& !c.2
            &&& c.3
        }),
{
}

/// While the build type of a two-build game is unknown, both of its builds
/// are offered under the game's short name alone, left to an explicit pick,
/// and the mod is taken as probably not installed.
pub proof fn lemma_unknown_build_shares_one_label(short: Seq<char>, a: Seq<char>, b: Seq<char>)
    requires
        asset_tdb(short, a) is Some,
        asset_tdb(short, b) is Some,
    ensures
        asset_choice(short, None, a).0 == short,
        asset_choice(short, None, a).0 == asset_choice(short, None, b).0,
        asset_choice(short, None, a).1 is None,
        asset_choice(short, None, a).2,
{
}

/// An asset of a one-build game is offered under the game's short name and
/// taken by "update all".
pub proof fn lemma_one_build_offer(short: Seq<char>, nextgen: Option<bool>, name: Seq<char>)
    requires
        asset_tdb(short, name) is None,
    ensures
        asset_choice(short, nextgen, name) == (short, Some(true), false, false),
{
}

/// `asset_choice` on values.
fn asset_choice_exec(short: &str, nextgen: Option<bool>, asset: &ReleaseAsset) -> (r: (String, Option<bool>, bool, bool))
    ensures
        (r.0@, r.1, r.2, r.3) == asset_choice(short@, nextgen, asset.name@),
{
    match is_asset_tdb(short, asset) {
        None => (owned(short), Some(true), false, false),
        Some(tdb) => match nextgen {
            None => (owned(short), None, true, true),
            Some(ng) => if !tdb {
                let mut text = owned(short).concat(" Nextgen version");
                if ng {
                    (text, Some(true), false, true)
                } else {
                    set_label_for_download_switch(&mut text, "standard", "nextgen");
                    (text, Some(false), false, true)
                }
            } else {
                let mut text = owned(short).concat(" Standard version");
                if !ng {
                    (text, Some(true), false, true)
                } else {
                    set_label_for_download_switch(&mut text, "nextgen", "standard");
                    (text, Some(false), false, true)
                }
            },
        },
    }
}

/// The record of a known game.
pub open spec fn game_view(gs: Seq<(ShortGameName, GameConfig)>, short: Seq<char>) -> GameConfigView {
    gs[game_index(gs, short)].1@
}

/// The (game, asset) pairs the report offers for the games that need the
/// update, in report order.
pub open spec fn offered(report: Seq<(String, Vec<ReleaseAsset>)>, req: Seq<Seq<char>>) -> Seq<(Seq<char>, ReleaseAsset)>
    decreases report.len(),
{
    if report.len() == 0 {
        Seq::empty()
    } else {
        offered(report.drop_last(), req) + if req.contains(report.last().0@) {
            report.last().1@.map_values(|a: ReleaseAsset| (report.last().0@, a))
        } else {
            Seq::empty()
        }
    }
}

/// The choice made for an offered pair.
pub open spec fn pair_choice(gs: Seq<(ShortGameName, GameConfig)>, p: (Seq<char>, ReleaseAsset)) -> (Seq<char>, Option<bool>, bool, bool) {
    asset_choice(p.0, game_view(gs, p.0).nextgen, p.1.name@)
}

/// Some offered game has two builds.
pub open spec fn any_two_builds(gs: Seq<(ShortGameName, GameConfig)>, items: Seq<(Seq<char>, ReleaseAsset)>) -> bool {
    exists|i: int| 0 <= i < items.len() && (#[trigger] pair_choice(gs, items[i])).3
}

/// Some offered two-build game has no build type.
pub open spec fn any_not_installed(gs: Seq<(ShortGameName, GameConfig)>, items: Seq<(Seq<char>, ReleaseAsset)>) -> bool {
    exists|i: int| 0 <= i < items.len() && (#[trigger] pair_choice(gs, items[i])).2
}

/// The offered assets by label (a later asset with the same label wins).
pub open spec fn decisions_of(gs: Seq<(ShortGameName, GameConfig)>, items: Seq<(Seq<char>, ReleaseAsset)>) -> Map<
    Seq<char>,
    GameDecisionView,
>
    decreases items.len(),
{
    if items.len() == 0 {
        Map::empty()
    } else {
        let p = items.last();
        let c = pair_choice(gs, p);
        decisions_of(gs, items.drop_last()).insert(
            c.0,
            GameDecisionView { asset: p.1, for_all: c.1, steam_id: game_view(gs, p.0).steam_id },
        )
    }
}

/// Every game the report offers is in the configuration.
pub open spec fn offered_games_known(gs: Seq<(ShortGameName, GameConfig)>, items: Seq<(Seq<char>, ReleaseAsset)>) -> bool {
    forall|i: int| 0 <= i < items.len() ==> assoc_keys(gs).contains(#[trigger] items[i].0)
}

impl Dialogs {
    /// The assets offered for the games that need the update, by label;
    /// whether one of these games has two builds; whether one of these
    /// two-build games has no build type set.
    pub fn prepare_decision_report(
        &self,
        config: &REvilConfig,
        state: &REvilManagerState,
        assets_report: &AssetsReport,
    ) -> (r: (bool, bool, Vec<(String, GameDecision)>))
        requires
            offered_games_known(config.games@, offered(assets_report@, strs_view(state.games_that_require_update@))),
        ensures
            ({
                let items = offered(assets_report@, strs_view(state.games_that_require_update@));
                &&& r.0 == any_two_builds(config.games@, items)
                &&& r.1 == any_not_installed(config.games@, items)
                &&& assoc_wf(r.2@)
                &&& assoc_map(r.2@) == decisions_of(config.games@, items)
            }),
    {
        let gs = &config.games;
        let ghost req = strs_view(state.games_that_require_update@);
        let ghost all = offered(assets_report@, req);
        let mut different_found = false;
        let mut not_installed = false;
        let mut games: Vec<(String, GameDecision)> = Vec::new();
        let ghost mut done: Seq<(Seq<char>, ReleaseAsset)> = Seq::empty();
        let mut i: usize = 0;
        while i < assets_report.len()
            invariant
                i <= assets_report@.len(),
                *gs == config.games,
                req == strs_view(state.games_that_require_update@),
                all == offered(assets_report@, req),
                offered_games_known(config.games@, all),
                done == offered(assets_report@.subrange(0, i as int), req),
                different_found == any_two_builds(config.games@, done),
                not_installed == any_not_installed(config.games@, done),
                assoc_wf(games@),
                assoc_map(games@) == decisions_of(config.games@, done),
            decreases assets_report@.len() - i,
        {
            proof {
                assert(assets_report@.subrange(0, i + 1).drop_last() =~= assets_report@.subrange(0, i as int));
            }
            let short = &assets_report[i].0;
            let assets = &assets_report[i].1;
            if crate::seq_util::contains_string(&state.games_that_require_update, short.as_str()) {
                let ghost start = done;
                proof {
                    if assets@.len() > 0 {
                        lemma_offered_known(assets_report@, req, config.games@, i as int);
                    }
                }
                let mut j: usize = 0;
                while j < assets.len()
                    invariant
                        j <= assets@.len(),
                        *gs == config.games,
                        assets@.len() > 0 ==> assoc_keys(config.games@).contains(short@),
                        done == start + assets@.subrange(0, j as int).map_values(|a: ReleaseAsset| (short@, a)),
                        different_found == any_two_builds(config.games@, done),
                        not_installed == any_not_installed(config.games@, done),
                        assoc_wf(games@),
                        assoc_map(games@) == decisions_of(config.games@, done),
                    decreases assets@.len() - j,
                {
                    let asset = &assets[j];
                    let ghost item = (short@, *asset);
                    let ghost next = done.push(item);
                    proof {
                        assert(start + assets@.subrange(0, j + 1).map_values(|a: ReleaseAsset| (short@, a)) =~= next);
                        assert(assoc_keys(config.games@).contains(short@));
                    }
                    let k = assoc_find(gs, short.as_str()).unwrap();
                    proof {
                        lemma_first_index(assoc_keys(config.games@), short@);
                    }
                    let game_config = &gs[k].1;
                    let (text, for_all, not_inst, two) = asset_choice_exec(short.as_str(), game_config.nextgen, asset);
                    if not_inst {
                        not_installed = true;
                    }
                    if two {
                        different_found = true;
                    }
                    let decision = GameDecision {
                        asset: asset.duplicate(),
                        for_all,
                        steam_id: crate::seq_util::copy_opt_string(&game_config.steamId),
                    };
                    proof {
                        assert(pair_choice(config.games@, item) == (text@, for_all, not_inst, two));
                        assert(next.drop_last() =~= done);
                        assert(next.last() == item);
                        lemma_any_push(config.games@, done, item);
                    }
                    match assoc_find(&games, text.as_str()) {
                        Some(p) => {
                            proof {
                                lemma_first_index(assoc_keys(games@), text@);
                                lemma_assoc_update(games@, p as int, decision);
                            }
                            let key = games[p].0.clone();
                            games.set(p, (key, decision));
                        },
                        None => {
                            proof {
                                lemma_assoc_push(games@, text, decision);
                            }
                            games.push((text, decision));
                        },
                    }
                    proof {
                        done = next;
                    }
                    j += 1;
                }
                proof {
                    assert(assets@.subrange(0, assets@.len() as int) =~= assets@);
                }
            }
            i += 1;
        }
        proof {
            assert(assets_report@.subrange(0, assets_report@.len() as int) =~= assets_report@);
        }
        (different_found, not_installed, games)
    }
}

/// The general options offered above the assets: "update all", which with
/// two-build games becomes "autodetect", or, when some two-build game has
/// no build type, "prefer nextgen" and "prefer standard". The first entry of
/// the list is the one replaced.
pub open spec fn general_options(sel: Seq<Seq<char>>, different_found: bool, any_not_installed: bool) -> Seq<Seq<char>> {
    let s1 = sel.push(label_text(LabelView::UpdateAllGames));
    if different_found && !any_not_installed {
        s1.update(0, label_text(LabelView::UpdateAllGamesAutoDetect))
    } else if different_found && any_not_installed {
        s1.push(label_text(LabelView::UpdateAllGamesPreferStandard)).update(
            0,
            label_text(LabelView::UpdateAllGamesPreferNextgen),
        )
    } else {
        s1
    }
}

/// Adds the general options (see `general_options`) when there is an asset
/// to offer; `None` when there is none.
pub fn populate_selections_with_general_options(
    game_decisions: &Vec<(String, GameDecision)>,
    selections: &mut Vec<String>,
    different_found: &bool,
    any_not_installed_mods_with_both_ver_supporting: &bool,
) -> (r: Option<()>)
    ensures
        game_decisions@.len() == 0 ==> r is None && final(selections)@ == old(selections)@,
        game_decisions@.len() > 0 ==> r is Some && strs_view(final(selections)@) == general_options(
            strs_view(old(selections)@),
            *different_found,
            *any_not_installed_mods_with_both_ver_supporting,
        ),
{
    if game_decisions.len() == 0 {
        return None;
    }
    let ghost before = strs_view(selections@);
    selections.push(LabelOptions::UpdateAllGames.to_label());
    if *different_found && !*any_not_installed_mods_with_both_ver_supporting {
        selections.set(0, LabelOptions::UpdateAllGamesAutoDetect.to_label());
    } else if *different_found && *any_not_installed_mods_with_both_ver_supporting {
        selections.push(LabelOptions::UpdateAllGamesPreferStandard.to_label());
        selections.set(0, LabelOptions::UpdateAllGamesPreferNextgen.to_label());
    }
    assert(strs_view(selections@) =~= general_options(
        before,
        *different_found,
        *any_not_installed_mods_with_both_ver_supporting,
    ));
    Some(())
}

/// Whether a general option takes an offered asset: one marked for it, or,
/// when some two-build game has no build type, an asset of the preferred
/// build.
pub open spec fn general_pick(sel: LabelView, d: GameDecisionView, different_found: bool, any_not_installed: bool) -> bool {
    match d.for_all {
        Some(b) => b,
        None => different_found && any_not_installed && if crate::text::contains(
            d.asset.name@,
            crate::STANDARD_TYPE_QUALIFIER@,
        ) {
            sel is UpdateAllGamesPreferStandard
        } else {
            sel is UpdateAllGamesPreferNextgen
        },
    }
}

/// The assets a general option takes, in the order of the decisions.
pub open spec fn general_picks(
    ds: Seq<(String, GameDecision)>,
    sel: LabelView,
    different_found: bool,
    any_not_installed: bool,
) -> Seq<ReleaseAsset>
    decreases ds.len(),
{
    if ds.len() == 0 {
        Seq::empty()
    } else {
        general_picks(ds.drop_last(), sel, different_found, any_not_installed) + if general_pick(
            sel,
            ds.last().1@,
            different_found,
            any_not_installed,
        ) {
            seq![ds.last().1.asset]
        } else {
            Seq::empty()
        }
    }
}

/// For a general option (anything but `Skip` and `Other`), selects the
/// assets it takes (see `general_pick`); `None` for the others.
pub fn populate_selected_assets_base_on_general_option(
    sel: LabelOptions,
    game_decisions: &Vec<(String, GameDecision)>,
    state: &mut REvilManagerState,
    different_found: &bool,
    any_not_installed_mods_with_both_ver_supporting: &bool,
) -> (r: Option<()>)
    ensures
        final(state).games_that_require_update == old(state).games_that_require_update,
        final(state).selected_game_to_launch == old(state).selected_game_to_launch,
        final(state).selected_option == old(state).selected_option,
        (sel is Skip || sel is Other) ==> r is None && final(state).selected_assets@ == old(state).selected_assets@,
        !(sel is Skip || sel is Other) ==> r is Some && final(state).selected_assets@ == old(state).selected_assets@
            + general_picks(game_decisions@, sel@, *different_found, *any_not_installed_mods_with_both_ver_supporting),
{
    match sel {
        LabelOptions::Skip | LabelOptions::Other => return None,
        _ => {},
    }
    let ghost start = state.selected_assets@;
    let mut i: usize = 0;
    while i < game_decisions.len()
        invariant
            i <= game_decisions@.len(),
            state.games_that_require_update == old(state).games_that_require_update,
            state.selected_game_to_launch == old(state).selected_game_to_launch,
            state.selected_option == old(state).selected_option,
            state.selected_assets@ == start + general_picks(
                game_decisions@.subrange(0, i as int),
                sel@,
                *different_found,
                *any_not_installed_mods_with_both_ver_supporting,
            ),
        decreases game_decisions@.len() - i,
    {
        proof {
            assert(game_decisions@.subrange(0, i + 1).drop_last() =~= game_decisions@.subrange(0, i as int));
        }
        let d = &game_decisions[i].1;
        let take = match d.for_all {
            Some(b) => b,
            None => if !*different_found || !*any_not_installed_mods_with_both_ver_supporting {
                false
            } else if crate::text::contains_str(d.asset.name.as_str(), crate::STANDARD_TYPE_QUALIFIER) {
                match sel {
                    LabelOptions::UpdateAllGamesPreferStandard => true,
                    _ => false,
                }
            } else {
                match sel {
                    LabelOptions::UpdateAllGamesPreferNextgen => true,
                    _ => false,
                }
            },
        };
        assert(take == general_pick(sel@, d@, *different_found, *any_not_installed_mods_with_both_ver_supporting));
        if take {
            state.selected_assets.push(d.asset.duplicate());
        }
        proof {
            assert(state.selected_assets@ =~= start + general_picks(
                game_decisions@.subrange(0, i + 1),
                sel@,
                *different_found,
                *any_not_installed_mods_with_both_ver_supporting,
            ));
        }
        i += 1;
    }
    assert(game_decisions@.subrange(0, game_decisions@.len() as int) =~= game_decisions@);
    Some(())
}

/// The labels of the offered assets, in the order of the decisions.
pub open spec fn decision_labels(ds: Seq<(String, GameDecision)>) -> Seq<String> {
    ds.map_values(|e: (String, GameDecision)| e.0)
}

/// The download choices: the general options, the asset labels (those with
/// a switch note last), then `Skip`; `None` when there is nothing to offer.
pub fn decision_selections(
    game_decisions: &Vec<(String, GameDecision)>,
    different_found: bool,
    any_not_installed_mods_with_both_ver_supporting: bool,
) -> (r: Option<Vec<String>>)
    ensures
        game_decisions@.len() == 0 ==> r is None,
        game_decisions@.len() > 0 ==> (r matches Some(sel) && strs_view(sel@) == general_options(
            Seq::empty(),
            different_found,
            any_not_installed_mods_with_both_ver_supporting,
        ) + strs_view(
            crate::sorting::labels_without(decision_labels(game_decisions@), SORT_DETERMINER@)
                + crate::sorting::labels_with(decision_labels(game_decisions@), SORT_DETERMINER@),
        ) + seq![label_text(LabelView::Skip)]),
{
    let mut selections: Vec<String> = Vec::new();
    if populate_selections_with_general_options(
        game_decisions,
        &mut selections,
        &different_found,
        &any_not_installed_mods_with_both_ver_supporting,
    ).is_none() {
        return None;
    }
    assert(strs_view(Seq::<String>::empty()) =~= Seq::<Seq<char>>::empty());
    let mut texts: Vec<String> = Vec::new();
    let mut i: usize = 0;
    while i < game_decisions.len()
        invariant
            i <= game_decisions@.len(),
            texts@ == decision_labels(game_decisions@).subrange(0, i as int),
        decreases game_decisions@.len() - i,
    {
        texts.push(game_decisions[i].0.clone());
        i += 1;
        assert(texts@ =~= decision_labels(game_decisions@).subrange(0, i as int));
    }
    assert(texts@ =~= decision_labels(game_decisions@));
    crate::sorting::move_labels_with_last(&mut texts, SORT_DETERMINER);
    let ghost before = selections@;
    let ghost moved = texts@;
    selections.append(&mut texts);
    selections.push(LabelOptions::Skip.to_label());
    assert(strs_view(selections@) =~= strs_view(before) + strs_view(moved) + seq![label_text(LabelView::Skip)]);
    Some(selections)
}

/// Applies the download choice with label `selected_text`: `Skip` selects
/// nothing, a general option the assets it takes, an asset label that
/// asset.
pub fn apply_decision_selection(
    state: &mut REvilManagerState,
    selected_text: &str,
    game_decisions: &Vec<(String, GameDecision)>,
    different_found: bool,
    any_not_installed_mods_with_both_ver_supporting: bool,
)
    ensures
        final(state).games_that_require_update == old(state).games_that_require_update,
        final(state).selected_game_to_launch == old(state).selected_game_to_launch,
        final(state).selected_option == old(state).selected_option,
        ({
            let v = label_of_text(selected_text@);
            if v is Skip {
                final(state).selected_assets@ == old(state).selected_assets@
            } else if !(v is Other) {
                final(state).selected_assets@ == old(state).selected_assets@ + general_picks(
                    game_decisions@,
                    v,
                    different_found,
                    any_not_installed_mods_with_both_ver_supporting,
                )
            } else {
                match assoc_index(game_decisions@, selected_text@) {
                    Some(k) => final(state).selected_assets@ == old(state).selected_assets@.push(
                        game_decisions@[k].1.asset,
                    ),
                    None => final(state).selected_assets@ == old(state).selected_assets@,
                }
            }
        }),
{
    let sel = LabelOptions::from(selected_text);
    if let LabelOptions::Skip = sel {
        return;
    }
    if populate_selected_assets_base_on_general_option(
        sel,
        game_decisions,
        state,
        &different_found,
        &any_not_installed_mods_with_both_ver_supporting,
    ).is_some() {
        return;
    }
    match assoc_find(game_decisions, selected_text) {
        Some(k) => {
            proof {
                lemma_first_index(assoc_keys(game_decisions@), selected_text@);
            }
            state.selected_assets.push(game_decisions[k].1.asset.duplicate());
        },
        None => {},
    }
}

/// The label of the runtime switch of a game.
pub open spec fn runtime_switch_label(short: Seq<char>, rt: Runtime) -> Seq<char> {
    crate::dialogs::dialogs_label::SWITCH_RUNTIME_PART@ + " <"@ + runtime_name(opposite_runtime(rt)) + "> for "@ + short
}

/// The runtime switch options: for each game with versions, a runtime and a
/// Steam id, its label and Steam id, in order.
pub open spec fn runtime_switch_entries(gs: Seq<(ShortGameName, GameConfig)>) -> Seq<(Seq<char>, Seq<char>)>
    decreases gs.len(),
{
    if gs.len() == 0 {
        Seq::empty()
    } else {
        let e = gs.last();
        runtime_switch_entries(gs.drop_last()) + if e.1.versions is Some && e.1.runtime is Some && e.1.steamId is Some {
            seq![(runtime_switch_label(e.0@, e.1.runtime.unwrap()), e.1.steamId.unwrap()@)]
        } else {
            Seq::empty()
        }
    }
}

/// The views of (label, Steam id) pairs.
pub open spec fn pairs_view(v: Seq<(String, String)>) -> Seq<(Seq<char>, Seq<char>)> {
    v.map_values(|e: (String, String)| (e.0@, e.1@))
}

/// The runtime switch options (see `runtime_switch_entries`).
pub fn get_selections_for_runtime_switch(config: &REvilConfig) -> (r: Vec<(String, String)>)
    ensures
        pairs_view(r@) == runtime_switch_entries(config.games@),
{
    let gs = &config.games;
    let mut r: Vec<(String, String)> = Vec::new();
    let mut i: usize = 0;
    while i < gs.len()
        invariant
            i <= gs@.len(),
            pairs_view(r@) == runtime_switch_entries(gs@.subrange(0, i as int)),
        decreases gs@.len() - i,
    {
        proof {
            assert(gs@.subrange(0, i + 1).drop_last() =~= gs@.subrange(0, i as int));
        }
        let short = &gs[i].0;
        let g = &gs[i].1;
        let ghost before = r@;
        match (&g.versions, &g.runtime, &g.steamId) {
            (Some(_), Some(rt), Some(id)) => {
                let label = String::from_str(crate::dialogs::dialogs_label::SWITCH_RUNTIME_PART).concat(" <").concat(
                    rt.as_opposite().name(),
                ).concat("> for ").concat(short.as_str());
                r.push((label, id.clone()));
                assert(pairs_view(r@) =~= pairs_view(before).push((label@, id@)));
            },
            _ => {},
        }
        assert(pairs_view(r@) =~= runtime_switch_entries(gs@.subrange(0, i + 1)));
        i += 1;
    }
    assert(gs@.subrange(0, gs@.len() as int) =~= gs@);
    r
}

/// The runtime switch labels, sorted, then `Back`.
pub fn runtime_switch_selections(sels: &Vec<(String, String)>) -> (r: Vec<String>)
    ensures
        r@.len() == sels@.len() + 1,
        vstd::relations::sorted_by(r@.subrange(0, sels@.len() as int).map_values(|s: String| s@), crate::sorting::lex_order()),
        r@.subrange(0, sels@.len() as int).to_multiset() == sels@.map_values(|e: (String, String)| e.0).to_multiset(),
        r@[sels@.len() as int]@ == label_text(LabelView::Back),
{
    let mut labels: Vec<String> = Vec::new();
    let mut i: usize = 0;
    while i < sels.len()
        invariant
            i <= sels@.len(),
            labels@ == sels@.map_values(|e: (String, String)| e.0).subrange(0, i as int),
        decreases sels@.len() - i,
    {
        labels.push(sels[i].0.clone());
        i += 1;
        assert(labels@ =~= sels@.map_values(|e: (String, String)| e.0).subrange(0, i as int));
    }
    assert(labels@ =~= sels@.map_values(|e: (String, String)| e.0));
    crate::sorting::sort_strings(&mut labels);
    proof {
        labels@.to_multiset_ensures();
        sels@.map_values(|e: (String, String)| e.0).to_multiset_ensures();
    }
    let ghost sorted = labels@;
    labels.push(LabelOptions::Back.to_label());
    assert(labels@.subrange(0, sels@.len() as int) =~= sorted);
    labels
}

/// The game with Steam id `steam_id` can have its runtime switched without
/// failing on a missing value: the games up to it have Steam ids, it has
/// versions, and a version in use unless no record has a name.
pub open spec fn runtime_choice_ok(gs: Seq<(ShortGameName, GameConfig)>, steam_id: Seq<char>) -> bool {
    &&& steam_ids_readable(gs, steam_id)
    &&& steam_id_index(gs, steam_id) matches Some(k) ==> ({
        let g = gs[k].1@;
        &&& g.versions is Some
        &&& (g.version_in_use is Some || forall|m: int|
            0 <= m < g.versions.unwrap().len() ==> (#[trigger] g.versions.unwrap()[m]).len() == 0)
    })
}

/// For each version record, whether it is the record of `version` and has
/// an archive.
pub open spec fn cached_version_flags(vs: Seq<Seq<Seq<char>>>, version: Option<Seq<char>>) -> Seq<bool> {
    vs.map_values(|set: Seq<Seq<char>>| set.len() > 1 && Some(set[0]) == version)
}

/// The versions with the newest record marked for download, when there is
/// a record with a name.
pub open spec fn marked_for_download(vs: Seq<Seq<Seq<char>>>) -> Seq<Seq<Seq<char>>> {
    if vs.len() > 0 && vs[0].len() > 0 {
        newest_renamed(vs, UPDATE_IDENTIFIER@)
    } else {
        vs
    }
}

proof fn lemma_entry_has_game(gs: Seq<(ShortGameName, GameConfig)>, j: int)
    requires
        0 <= j < runtime_switch_entries(gs).len(),
    ensures
        steam_id_index(gs, runtime_switch_entries(gs)[j].1) is Some,
    decreases gs.len(),
{
    let e = runtime_switch_entries(gs);
    let p = runtime_switch_entries(gs.drop_last());
    let id = e[j].1;
    let flags = crate::utils::find_game_conf_by_steam_id::steam_id_flags(gs, id);
    if j < p.len() {
        assert(e[j] == p[j]);
        lemma_entry_has_game(gs.drop_last(), j);
        let fp = crate::utils::find_game_conf_by_steam_id::steam_id_flags(gs.drop_last(), id);
        lemma_first_index(fp, true);
        let k = steam_id_index(gs.drop_last(), id).unwrap();
        assert(fp[k]);
        assert(gs.drop_last()[k] == gs[k]);
        assert(flags[k]);
    } else {
        let k = gs.len() - 1;
        assert(flags[k]);
    }
    lemma_first_index(flags, true);
}

/// Applies the runtime switch option with label `selected_text`: `Back`
/// only goes back; for a game it flips the runtime and goes back, and gives
/// the position of the version record in use when that record has an
/// archive to unpack; otherwise the newest record is marked for download
/// and the result is `NoCacheFile`.
pub fn apply_runtime_decision(
    config: &mut REvilConfig,
    state: &mut REvilManagerState,
    selected_text: &str,
    sels: &Vec<(String, String)>,
) -> (r: Result<Option<(usize, ShortGameName)>, DialogsErrors>)
    requires
        pairs_view(sels@) == runtime_switch_entries(old(config).games@),
        label_of_text(selected_text@) is Back || exists|i: int|
            0 <= i < sels@.len() && (#[trigger] sels@[i]).0@ == selected_text@,
        forall|i: int|
            0 <= i < sels@.len() && (#[trigger] sels@[i]).0@ == selected_text@ ==> runtime_choice_ok(
                old(config).games@,
                sels@[i].1@,
            ),
    ensures
        final(config).main == old(config).main,
        final(state).selected_assets == old(state).selected_assets,
        final(state).games_that_require_update == old(state).games_that_require_update,
        final(state).selected_game_to_launch == old(state).selected_game_to_launch,
        final(state).selected_option matches Some(o) && o is Back,
        label_of_text(selected_text@) is Back ==> (r matches Ok(None) && final(config).games == old(config).games),
        !(label_of_text(selected_text@) is Back) ==> ({
            let gs = old(config).games@;
            let j = crate::seq_util::first_index(
                pairs_view(sels@).map_values(|e: (Seq<char>, Seq<char>)| e.0),
                selected_text@,
            ).unwrap();
            let k = steam_id_index(gs, sels@[j].1@).unwrap();
            let g = gs[k].1@;
            let g1 = GameConfigView {
                runtime: match g.runtime {
                    Some(rt) => Some(opposite_runtime(rt)),
                    None => None,
                },
                ..g
            };
            match crate::seq_util::first_index(cached_version_flags(g.versions.unwrap(), g.version_in_use), true) {
                Some(p) => r matches Ok(Some((q, n))) && q == p && n == gs[k].0 && record_replaced(
                    gs,
                    final(config).games@,
                    k,
                    g1,
                ),
                None => r matches Err(DialogsErrors::NoCacheFile(n)) && n == gs[k].0 && record_replaced(
                    gs,
                    final(config).games@,
                    k,
                    GameConfigView { versions: Some(marked_for_download(g.versions.unwrap())), ..g1 },
                ),
            }
        }),
{
    let sel = LabelOptions::from(selected_text);
    if let LabelOptions::Back = sel {
        state.selected_option = Some(LabelOptions::Back);
        return Ok(None);
    }
    let ghost labels = pairs_view(sels@).map_values(|e: (Seq<char>, Seq<char>)| e.0);
    let mut j: usize = 0;
    proof {
        let w = choose|i: int| 0 <= i < sels@.len() && (#[trigger] sels@[i]).0@ == selected_text@;
        assert(labels[w] == selected_text@);
        lemma_first_index(labels, selected_text@);
    }
    while j < sels.len() && !crate::text::str_eq(sels[j].0.as_str(), selected_text)
        invariant
            j <= sels@.len(),
            labels == pairs_view(sels@).map_values(|e: (Seq<char>, Seq<char>)| e.0),
            crate::seq_util::first_index(labels, selected_text@) is Some,
            forall|m: int| 0 <= m < j ==> labels[m] != selected_text@,
        decreases sels@.len() - j,
    {
        assert(labels[j as int] == sels@[j as int].0@);
        j += 1;
    }
    proof {
        lemma_first_index(labels, selected_text@);
        if j == sels@.len() {
            let w = crate::seq_util::first_index(labels, selected_text@).unwrap();
            assert(labels[w] == selected_text@);
            assert(false);
        }
        assert(labels[j as int] == sels@[j as int].0@);
        crate::seq_util::lemma_first_index_at(labels, selected_text@, j as int);
        assert(pairs_view(sels@)[j as int] == runtime_switch_entries(config.games@)[j as int]);
        lemma_entry_has_game(config.games@, j as int);
    }
    let steam_id = sels[j].1.clone();
    let k = match find_game_index_by_steam_id(&config.games, steam_id.as_str()) {
        Ok(k) => k,
        Err(_) => return Err(DialogsErrors::GameNotFoundForGivenSteamId(steam_id)),
    };
    proof {
        lemma_first_index(crate::utils::find_game_conf_by_steam_id::steam_id_flags(config.games@, steam_id@), true);
    }
    proof {
        assert(sels@[j as int].0@ == selected_text@);
        assert(runtime_choice_ok(config.games@, steam_id@));
        assert(steam_id_index(config.games@, steam_id@) == Some(k as int));
    }
    let short = config.games[k].0.clone();
    state.selected_option = Some(LabelOptions::Back);
    let ghost gs = config.games@;
    let ghost g = gs[k as int].1@;
    match config.games[k].1.runtime {
        Some(rt) => {
            config.games[k].1.runtime = Some(rt.as_opposite());
        },
        None => {},
    }
    let ghost after_runtime = config.games@;
    let in_use: Option<String> = crate::seq_util::copy_opt_string(&config.games[k].1.version_in_use);
    proof {
        assert(after_runtime[k as int].1@ == GameConfigView {
            runtime: match g.runtime {
                Some(rt) => Some(opposite_runtime(rt)),
                None => None,
            },
            ..g
        });
        assert(record_replaced(gs, after_runtime, k as int, after_runtime[k as int].1@));
    }
    match &mut config.games[k].1.versions {
        Some(vs) => {
            let ghost vsv = nested_strs_view(vs@);
            let ghost vs0 = vs@;
            assert(g.versions == Some(vsv));
            let ghost flags = cached_version_flags(vsv, g.version_in_use);
            let mut p: usize = 0;
            let mut found = false;
            while p < vs.len()
                invariant_except_break
                    !found,
                invariant
                    vs@ == vs0,
                    vsv == nested_strs_view(vs@),
                    flags == cached_version_flags(vsv, g.version_in_use),
                    opt_str_view(in_use) == g.version_in_use,
                    g.version_in_use is Some || forall|m: int| 0 <= m < vsv.len() ==> (#[trigger] vsv[m]).len() == 0,
                    p <= vs@.len(),
                    forall|m: int| 0 <= m < p ==> !(#[trigger] flags[m]),
                ensures
                    found ==> p < vs@.len() && flags[p as int],
                    !found ==> p == vs@.len(),
                decreases vs@.len() - p,
            {
                assert(vsv[p as int] == strs_view(vs@[p as int]@));
                let hit = if vs[p].len() > 1 {
                    match &in_use {
                        Some(u) => {
                            assert(vsv[p as int][0] == vs@[p as int]@[0]@);
                            crate::text::str_eq(vs[p][0].as_str(), u.as_str())
                        },
                        None => false,
                    }
                } else {
                    false
                };
                assert(hit == flags[p as int]);
                if hit {
                    found = true;
                    break;
                }
                p += 1;
            }
            proof {
                if found {
                    crate::seq_util::lemma_first_index_at(flags, true, p as int);
                } else {
                    lemma_first_index(flags, true);
                }
            }
            if found {
                return Ok(Some((p, short)));
            }
            if vs.len() > 0 && vs[0].len() > 0 {
                assert(vsv[0] == strs_view(vs@[0]@));
                vs[0][0] = String::from_str(UPDATE_IDENTIFIER);
                proof {
                    assert(strs_view(vs@[0]@) =~= vsv[0].update(0, UPDATE_IDENTIFIER@));
                    assert(nested_strs_view(vs@) =~= marked_for_download(vsv));
                }
            } else {
                assert(vsv.len() == 0 || vsv[0].len() == 0);
            }
            Err(DialogsErrors::NoCacheFile(short))
        },
        None => {
            assert(false);
            Err(DialogsErrors::Other)
        },
    }
}

/// The build type as the run options show it.
pub open spec fn build_suffix(nextgen: Option<bool>) -> Seq<char> {
    match nextgen {
        Some(true) => " <Nextgen>"@,
        Some(false) => " <Standard>"@,
        None => ""@,
    }
}

/// Whether an older version record (not the newest) is the one in use and
/// has an archive.
pub open spec fn in_use_not_latest(vs: Seq<Seq<Seq<char>>>, in_use: Option<Seq<char>>) -> bool {
    exists|i: int| 1 <= i < vs.len() && (#[trigger] vs[i]).len() > 1 && Some(vs[i][0]) == in_use
}

/// The label of the run option of a game.
pub open spec fn run_label(short: Seq<char>, g: GameConfigView) -> Seq<char> {
    let in_use = match g.version_in_use {
        Some(v) => v,
        None => ""@,
    };
    "Run "@ + short + build_suffix(g.nextgen) + " - <"@ + runtime_name(g.runtime.unwrap()) + "> "@ + in_use + if in_use_not_latest(
        g.versions.unwrap(),
        g.version_in_use,
    ) {
        " <no_latest_cache>"@
    } else {
        ""@
    }
}

/// The run options of the games: label and Steam id, in order.
pub open spec fn run_entries(gs: Seq<(ShortGameName, GameConfig)>) -> Seq<(Seq<char>, Seq<char>)> {
    gs.map_values(|e: (ShortGameName, GameConfig)| (run_label(e.0@, e.1@), e.1@.steam_id.unwrap()))
}

/// Every game can be shown as a run option: it has versions, a runtime and
/// a Steam id, and a version in use when an older record has a name.
pub open spec fn run_ready(gs: Seq<(ShortGameName, GameConfig)>) -> bool {
    forall|i: int|
        0 <= i < gs.len() ==> {
            let g = (#[trigger] gs[i]).1@;
            &&& g.versions is Some
            &&& g.runtime is Some
            &&& g.steam_id is Some
            &&& (g.version_in_use is Some || forall|m: int|
                1 <= m < g.versions.unwrap().len() ==> (#[trigger] g.versions.unwrap()[m]).len() == 0)
        }
}

/// Whether the list names a game with two builds.
pub open spec fn any_two_build_game(gs: Seq<(ShortGameName, GameConfig)>) -> bool {
    exists|i: int| 0 <= i < gs.len() && crate::nextgen_games().contains((#[trigger] gs[i]).0@)
}

/// The options after the run options.
pub open spec fn main_section_tail(two_builds: bool) -> Seq<Seq<char>> {
    seq![label_text(LabelView::SwitchRuntimeSection), label_text(LabelView::LoadDifferentVersionFromCache)] + if two_builds {
        seq![label_text(LabelView::SwitchType)]
    } else {
        Seq::empty()
    } + seq![label_text(LabelView::RescanLocal), label_text(LabelView::GoTop), label_text(LabelView::Exit)]
}

fn in_use_not_latest_exec(vs: &Vec<Vec<String>>, in_use: &Option<String>) -> (r: bool)
    requires
        in_use is Some || forall|m: int| 1 <= m < vs@.len() ==> (#[trigger] nested_strs_view(vs@)[m]).len() == 0,
    ensures
        r == in_use_not_latest(nested_strs_view(vs@), opt_str_view(*in_use)),
{
    let ghost vv = nested_strs_view(vs@);
    let mut i: usize = 1;
    while i < vs.len()
        invariant
            1 <= i,
            i <= vs@.len() || vs@.len() == 0,
            vv == nested_strs_view(vs@),
            in_use is Some || forall|m: int| 1 <= m < vs@.len() ==> (#[trigger] vv[m]).len() == 0,
            forall|m: int| 1 <= m < i && m < vv.len() ==> !((#[trigger] vv[m]).len() > 1 && Some(vv[m][0]) == opt_str_view(*in_use)),
        decreases vs@.len() - i,
    {
        assert(vv[i as int] == strs_view(vs@[i as int]@));
        if vs[i].len() > 1 {
            let u = match in_use {
                Some(u) => u,
                None => {
                    assert(vv[i as int].len() == 0);
                    return false;
                },
            };
            assert(vv[i as int][0] == vs@[i as int]@[0]@);
            if crate::text::str_eq(vs[i][0].as_str(), u.as_str()) {
                return true;
            }
        }
        i += 1;
    }
    false
}

/// The run options (see `run_entries`), and whether a game with two builds
/// is known.
pub fn main_section_entries(config: &REvilConfig) -> (r: (Vec<(String, String)>, bool))
    requires
        run_ready(config.games@),
    ensures
        pairs_view(r.0@) == run_entries(config.games@),
        r.1 == any_two_build_game(config.games@),
{
    let gs = &config.games;
    let mut entries: Vec<(String, String)> = Vec::new();
    let mut two = false;
    let mut i: usize = 0;
    while i < gs.len()
        invariant
            i <= gs@.len(),
            run_ready(gs@),
            pairs_view(entries@) == run_entries(gs@).subrange(0, i as int),
            two == exists|m: int| 0 <= m < i && crate::nextgen_games().contains((#[trigger] gs@[m]).0@),
        decreases gs@.len() - i,
    {
        let short = &gs[i].0;
        let g = &gs[i].1;
        let ghost gv = g@;
        assert(gs@[i as int].1@ == gv);
        if crate::supports_nextgen(short.as_str()) {
            two = true;
        }
        let vs = g.versions.as_ref().unwrap();
        let rt = g.runtime.unwrap();
        let id = g.steamId.as_ref().unwrap();
        let in_use = match &g.version_in_use {
            Some(v) => v.clone(),
            None => String::new(),
        };
        proof {
            reveal_strlit("");
            assert(in_use@ == match gv.version_in_use {
                Some(v) => v,
                None => ""@,
            });
        }
        let suffix = match g.nextgen {
            Some(true) => " <Nextgen>",
            Some(false) => " <Standard>",
            None => "",
        };
        proof {
            let gg = gs@[i as int].1@;
            assert(gg.versions.unwrap() == nested_strs_view(vs@));
            if g.version_in_use is None {
                assert forall|m: int| 1 <= m < vs@.len() implies (#[trigger] nested_strs_view(vs@)[m]).len() == 0 by {
                    assert(gg.versions.unwrap()[m] == nested_strs_view(vs@)[m]);
                }
            }
        }
        let note = if in_use_not_latest_exec(vs, &g.version_in_use) {
            " <no_latest_cache>"
        } else {
            ""
        };
        let label = String::from_str("Run ").concat(short.as_str()).concat(suffix).concat(" - <").concat(
            rt.name(),
        ).concat("> ").concat(in_use.as_str()).concat(note);
        let ghost before = entries@;
        entries.push((label, id.clone()));
        proof {
            assert(label@ == run_label(short@, gv));
            assert(pairs_view(entries@) =~= pairs_view(before).push((label@, id@)));
            assert(pairs_view(entries@) =~= run_entries(gs@).subrange(0, i + 1));
            if two {
                if !crate::nextgen_games().contains(short@) {
                    let m = choose|m: int| 0 <= m < i && crate::nextgen_games().contains((#[trigger] gs@[m]).0@);
                }
            }
        }
        i += 1;
    }
    assert(run_entries(gs@).subrange(0, gs@.len() as int) =~= run_entries(gs@));
    (entries, two)
}

/// The main section: the run options sorted, then the other options (see
/// `main_section_tail`).
pub fn main_section_selections(entries: &Vec<(String, String)>, any_two_builds: bool) -> (r: Vec<String>)
    ensures
        r@.len() == entries@.len() + main_section_tail(any_two_builds).len(),
        vstd::relations::sorted_by(r@.subrange(0, entries@.len() as int).map_values(|s: String| s@), crate::sorting::lex_order()),
        r@.subrange(0, entries@.len() as int).to_multiset() == entries@.map_values(|e: (String, String)| e.0).to_multiset(),
        strs_view(r@.subrange(entries@.len() as int, r@.len() as int)) == main_section_tail(any_two_builds),
{
    let mut labels: Vec<String> = Vec::new();
    let mut i: usize = 0;
    while i < entries.len()
        invariant
            i <= entries@.len(),
            labels@ == entries@.map_values(|e: (String, String)| e.0).subrange(0, i as int),
        decreases entries@.len() - i,
    {
        labels.push(entries[i].0.clone());
        i += 1;
        assert(labels@ =~= entries@.map_values(|e: (String, String)| e.0).subrange(0, i as int));
    }
    assert(labels@ =~= entries@.map_values(|e: (String, String)| e.0));
    crate::sorting::sort_strings(&mut labels);
    proof {
        labels@.to_multiset_ensures();
        entries@.map_values(|e: (String, String)| e.0).to_multiset_ensures();
    }
    let ghost sorted = labels@;
    labels.push(LabelOptions::SwitchRuntimeSection.to_label());
    labels.push(LabelOptions::LoadDifferentVersionFromCache.to_label());
    if any_two_builds {
        labels.push(LabelOptions::SwitchType.to_label());
    }
    labels.push(LabelOptions::RescanLocal.to_label());
    labels.push(LabelOptions::GoTop.to_label());
    labels.push(LabelOptions::Exit.to_label());
    assert(labels@.subrange(0, entries@.len() as int) =~= sorted);
    assert(strs_view(labels@.subrange(entries@.len() as int, labels@.len() as int)) =~= main_section_tail(any_two_builds));
    labels
}

/// Whether an option of the main section is one that leads elsewhere.
pub open spec fn main_section_option(v: LabelView) -> bool {
    v is SwitchRuntimeSection || v is Exit || v is SwitchType || v is LoadDifferentVersionFromCache || v is GoTop
        || v is RescanLocal
}

/// Applies the main section's option with label `selected_text`: an option
/// leading elsewhere is remembered; a run option selects its game to launch.
pub fn apply_main_section(state: &mut REvilManagerState, selected_text: &str, entries: &Vec<(String, String)>)
    requires
        main_section_option(label_of_text(selected_text@)) || exists|i: int|
            0 <= i < entries@.len() && (#[trigger] entries@[i]).0@ == selected_text@,
    ensures
        final(state).selected_assets == old(state).selected_assets,
        final(state).games_that_require_update == old(state).games_that_require_update,
        main_section_option(label_of_text(selected_text@)) ==> (final(state).selected_option matches Some(o) && o@
            == label_of_text(selected_text@) && final(state).selected_game_to_launch == old(state).selected_game_to_launch),
        !main_section_option(label_of_text(selected_text@)) ==> (final(state).selected_option == old(state).selected_option
            && (final(state).selected_game_to_launch matches Some(id) && id@ == pairs_view(entries@)[crate::seq_util::first_index(
            pairs_view(entries@).map_values(|e: (Seq<char>, Seq<char>)| e.0),
            selected_text@,
        ).unwrap()].1)),
{
    let sel = LabelOptions::from(selected_text);
    match sel {
        LabelOptions::SwitchRuntimeSection | LabelOptions::Exit | LabelOptions::SwitchType
        | LabelOptions::LoadDifferentVersionFromCache | LabelOptions::GoTop | LabelOptions::RescanLocal => {
            state.selected_option = Some(sel);
            return;
        },
        _ => {},
    }
    let ghost labels = pairs_view(entries@).map_values(|e: (Seq<char>, Seq<char>)| e.0);
    proof {
        let w = choose|i: int| 0 <= i < entries@.len() && (#[trigger] entries@[i]).0@ == selected_text@;
        assert(labels[w] == selected_text@);
        lemma_first_index(labels, selected_text@);
    }
    let mut j: usize = 0;
    while j < entries.len() && !crate::text::str_eq(entries[j].0.as_str(), selected_text)
        invariant
            j <= entries@.len(),
            labels == pairs_view(entries@).map_values(|e: (Seq<char>, Seq<char>)| e.0),
            crate::seq_util::first_index(labels, selected_text@) is Some,
            forall|m: int| 0 <= m < j ==> labels[m] != selected_text@,
        decreases entries@.len() - j,
    {
        assert(labels[j as int] == entries@[j as int].0@);
        j += 1;
    }
    proof {
        lemma_first_index(labels, selected_text@);
        if j == entries@.len() {
            let w = crate::seq_util::first_index(labels, selected_text@).unwrap();
            assert(labels[w] == selected_text@);
            assert(false);
        }
        assert(labels[j as int] == entries@[j as int].0@);
        crate::seq_util::lemma_first_index_at(labels, selected_text@, j as int);
    }
    state.selected_game_to_launch = Some(entries[j].1.clone());
}

/// The note in front of the cache options of the version in use.
pub open spec fn current_version_note() -> Seq<char> {
    SORT_DETERMINER@ + " this is your current version - "@
}

/// A cache option: its label, and the cached archive it unpacks (offered
/// only when the archive is there).
pub struct CacheCandidate {
    pub label: String,
    pub folder: String,
    pub file_name: String,
}

impl View for CacheCandidate {
    type V = (Seq<char>, Seq<char>, Seq<char>);

    open spec fn view(&self) -> (Seq<char>, Seq<char>, Seq<char>) {
        (self.label@, self.folder@, self.file_name@)
    }
}

/// The cache options of one version record `[version, archive, ...]`.
pub open spec fn set_candidates(short: Seq<char>, in_use: Option<Seq<char>>, set: Seq<Seq<char>>) -> Seq<
    (Seq<char>, Seq<char>, Seq<char>),
> {
    if set.len() < 2 {
        Seq::empty()
    } else {
        let note = if in_use == Some(set[0]) {
            current_version_note()
        } else {
            ""@
        };
        set.skip(1).map_values(
            |a: Seq<char>|
                (
                    note + label_text(LabelView::LoadFromCache(short, a, set[0])),
                    crate::utils::get_local_path_to_cache::cache_folder(set[0]),
                    a,
                ),
        )
    }
}

/// The cache options of one game, record by record.
pub open spec fn game_candidates(short: Seq<char>, in_use: Option<Seq<char>>, vs: Seq<Seq<Seq<char>>>) -> Seq<
    (Seq<char>, Seq<char>, Seq<char>),
>
    decreases vs.len(),
{
    if vs.len() == 0 {
        Seq::empty()
    } else {
        game_candidates(short, in_use, vs.drop_last()) + set_candidates(short, in_use, vs.last())
    }
}

/// The cache options of all games with versions, in order.
pub open spec fn cache_candidates(gs: Seq<(ShortGameName, GameConfig)>) -> Seq<(Seq<char>, Seq<char>, Seq<char>)>
    decreases gs.len(),
{
    if gs.len() == 0 {
        Seq::empty()
    } else {
        let e = gs.last();
        cache_candidates(gs.drop_last()) + match e.1@.versions {
            Some(vs) => game_candidates(e.0@, e.1@.version_in_use, vs),
            None => Seq::empty(),
        }
    }
}

fn push_set_candidates(short: &String, in_use: &Option<String>, set: &Vec<String>, out: &mut Vec<CacheCandidate>)
    ensures
        final(out)@.map_values(|c: CacheCandidate| c@) == old(out)@.map_values(|c: CacheCandidate| c@)
            + set_candidates(short@, opt_str_view(*in_use), strs_view(set@)),
{
    let ghost start = out@.map_values(|c: CacheCandidate| c@);
    let ghost sv = strs_view(set@);
    if set.len() < 2 {
        assert(out@.map_values(|c: CacheCandidate| c@) =~= start + set_candidates(short@, opt_str_view(*in_use), sv));
        return;
    }
    let ver = &set[0];
    assert(sv[0] == ver@);
    let current = match in_use {
        Some(u) => crate::text::str_eq(u.as_str(), ver.as_str()),
        None => false,
    };
    let note: String = if current {
        String::from_str(SORT_DETERMINER).concat(" this is your current version - ")
    } else {
        String::new()
    };
    proof {
        reveal_strlit("");
        assert(note@ == if opt_str_view(*in_use) == Some(sv[0]) {
            current_version_note()
        } else {
            ""@
        });
    }
    let folder_path = crate::utils::get_local_path_to_cache::get_local_path_to_cache_folder(None, Some(ver.as_str()));
    let folder = match folder_path {
        Ok(f) => f,
        Err(_) => {
            assert(false);
            String::new()
        },
    };
    let ghost full = set_candidates(short@, opt_str_view(*in_use), sv);
    let mut j: usize = 1;
    while j < set.len()
        invariant
            1 <= j <= set@.len(),
            set@.len() >= 2,
            sv == strs_view(set@),
            full == set_candidates(short@, opt_str_view(*in_use), sv),
            folder@ == crate::utils::get_local_path_to_cache::cache_folder(sv[0]),
            note@ == if opt_str_view(*in_use) == Some(sv[0]) {
                current_version_note()
            } else {
                ""@
            },
            ver@ == sv[0],
            out@.map_values(|c: CacheCandidate| c@) == start + full.subrange(0, j - 1),
        decreases set@.len() - j,
    {
        let asset = &set[j];
        let option = LabelOptions::LoadFromCache(short.clone(), asset.clone(), ver.clone());
        let label = note.clone().concat(option.to_label().as_str());
        let ghost before = out@.map_values(|c: CacheCandidate| c@);
        out.push(CacheCandidate { label, folder: folder.clone(), file_name: asset.clone() });
        proof {
            assert(sv.skip(1)[j - 1] == asset@);
            assert(full[j - 1] == (label@, folder@, asset@));
            assert(out@.map_values(|c: CacheCandidate| c@) =~= before.push((label@, folder@, asset@)));
            assert(full.subrange(0, j as int) =~= full.subrange(0, j - 1).push(full[j - 1]));
        }
        j += 1;
    }
    assert(full.subrange(0, set@.len() - 1) =~= full);
}

/// The cache options (see `cache_candidates`).
pub fn get_cache_candidates(config: &REvilConfig) -> (r: Vec<CacheCandidate>)
    ensures
        r@.map_values(|c: CacheCandidate| c@) == cache_candidates(config.games@),
{
    let gs = &config.games;
    let mut out: Vec<CacheCandidate> = Vec::new();
    let mut i: usize = 0;
    assert(out@.map_values(|c: CacheCandidate| c@) =~= cache_candidates(gs@.subrange(0, 0)));
    while i < gs.len()
        invariant
            i <= gs@.len(),
            out@.map_values(|c: CacheCandidate| c@) == cache_candidates(gs@.subrange(0, i as int)),
        decreases gs@.len() - i,
    {
        proof {
            assert(gs@.subrange(0, i + 1).drop_last() =~= gs@.subrange(0, i as int));
        }
        let short = &gs[i].0;
        let g = &gs[i].1;
        match &g.versions {
            Some(vs) => {
                let ghost vv = nested_strs_view(vs@);
                let ghost base = out@.map_values(|c: CacheCandidate| c@);
                let mut k: usize = 0;
                assert(base =~= base + game_candidates(short@, opt_str_view(g.version_in_use), vv.subrange(0, 0)));
                while k < vs.len()
                    invariant
                        k <= vs@.len(),
                        vv == nested_strs_view(vs@),
                        out@.map_values(|c: CacheCandidate| c@) == base + game_candidates(
                            short@,
                            opt_str_view(g.version_in_use),
                            vv.subrange(0, k as int),
                        ),
                    decreases vs@.len() - k,
                {
                    proof {
                        assert(vv.subrange(0, k + 1).drop_last() =~= vv.subrange(0, k as int));
                        assert(vv[k as int] == strs_view(vs@[k as int]@));
                    }
                    push_set_candidates(short, &g.version_in_use, &vs[k], &mut out);
                    k += 1;
                }
                assert(vv.subrange(0, vs@.len() as int) =~= vv);
            },
            None => {},
        }
        assert(out@.map_values(|c: CacheCandidate| c@) =~= cache_candidates(gs@.subrange(0, i + 1)));
        i += 1;
    }
    assert(gs@.subrange(0, gs@.len() as int) =~= gs@);
    out
}

/// The cache dialog: `Back`, then the labels of the options whose archive
/// is there, sorted, with those of the version in use last.
pub fn cache_selections(labels: Vec<String>) -> (r: Vec<String>)
    ensures
        r@.len() == labels@.len() + 1,
        r@[0]@ == label_text(LabelView::Back),
        exists|t: Seq<String>|
            vstd::relations::sorted_by(#[trigger] strs_view(t), crate::sorting::lex_order())
                && t.to_multiset() == labels@.to_multiset() && r@.skip(1) == crate::sorting::labels_without(
                t,
                SORT_DETERMINER@,
            ) + crate::sorting::labels_with(t, SORT_DETERMINER@),
{
    let mut v = labels;
    crate::sorting::sort_strings(&mut v);
    let ghost t = v@;
    crate::sorting::move_labels_with_last(&mut v, SORT_DETERMINER);
    let ghost moved = v@;
    proof {
        lemma_partition_len(t, SORT_DETERMINER@);
        t.to_multiset_ensures();
        labels@.to_multiset_ensures();
    }
    v.insert(0, LabelOptions::Back.to_label());
    assert(v@.skip(1) =~= moved);
    assert(strs_view(t) =~= t.map_values(|s: String| s@));
    assert(vstd::relations::sorted_by(strs_view(t), crate::sorting::lex_order()));
    v
}

proof fn lemma_partition_len(s: Seq<String>, pat: Seq<char>)
    ensures
        crate::sorting::labels_without(s, pat).len() + crate::sorting::labels_with(s, pat).len() == s.len(),
    decreases s.len(),
{
    if s.len() > 0 {
        lemma_partition_len(s.drop_last(), pat);
    }
}

/// Whether a game is offered a type switch: it has two builds, a version
/// in use that is its newest version, and a build type.
pub open spec fn switch_offered(short: Seq<char>, g: GameConfigView) -> bool {
    &&& crate::nextgen_games().contains(short)
    &&& g.versions is Some
    &&& g.version_in_use is Some
    &&& g.versions.unwrap()[0][0] == g.version_in_use.unwrap()
    &&& g.nextgen is Some
}

/// The type switch label of a game: to the other build.
pub open spec fn switch_label(short: Seq<char>, nextgen: bool) -> Seq<char> {
    if nextgen {
        label_text(LabelView::SwitchToStandard(short))
    } else {
        label_text(LabelView::SwitchToNextgen(short))
    }
}

/// The type switch options, in order.
pub open spec fn switch_candidates(gs: Seq<(ShortGameName, GameConfig)>) -> Seq<Seq<char>>
    decreases gs.len(),
{
    if gs.len() == 0 {
        Seq::empty()
    } else {
        let e = gs.last();
        switch_candidates(gs.drop_last()) + if switch_offered(e.0@, e.1@) {
            seq![switch_label(e.0@, e.1@.nextgen.unwrap())]
        } else {
            Seq::empty()
        }
    }
}

/// The newest record of every two-build game with versions and a version
/// in use can be read.
pub open spec fn switch_ready(gs: Seq<(ShortGameName, GameConfig)>) -> bool {
    forall|i: int|
        0 <= i < gs.len() && crate::nextgen_games().contains((#[trigger] gs[i]).0@) && gs[i].1.versions is Some
            && gs[i].1.version_in_use is Some ==> newest_record_present(gs[i].1@.versions)
}

/// The type switch options (see `switch_candidates`).
pub fn switch_type_candidates(config: &REvilConfig) -> (r: Vec<String>)
    requires
        switch_ready(config.games@),
    ensures
        strs_view(r@) == switch_candidates(config.games@),
{
    let gs = &config.games;
    let mut out: Vec<String> = Vec::new();
    let mut i: usize = 0;
    while i < gs.len()
        invariant
            i <= gs@.len(),
            switch_ready(gs@),
            strs_view(out@) == switch_candidates(gs@.subrange(0, i as int)),
        decreases gs@.len() - i,
    {
        proof {
            assert(gs@.subrange(0, i + 1).drop_last() =~= gs@.subrange(0, i as int));
        }
        let short = &gs[i].0;
        let g = &gs[i].1;
        let ghost before = out@;
        if crate::supports_nextgen(short.as_str()) {
            match (&g.versions, &g.version_in_use, g.nextgen) {
                (Some(vs), Some(u), Some(ng)) => {
                    proof {
                        assert(newest_record_present(gs@[i as int].1@.versions));
                        assert(nested_strs_view(vs@)[0] == strs_view(vs@[0]@));
                        assert(strs_view(vs@[0]@)[0] == vs@[0]@[0]@);
                    }
                    if crate::text::str_eq(vs[0][0].as_str(), u.as_str()) {
                        let label = if ng {
                            LabelOptions::SwitchToStandard(short.clone()).to_label()
                        } else {
                            LabelOptions::SwitchToNextgen(short.clone()).to_label()
                        };
                        out.push(label);
                        assert(strs_view(out@) =~= strs_view(before).push(label@));
                    }
                },
                _ => {},
            }
        }
        assert(strs_view(out@) =~= switch_candidates(gs@.subrange(0, i + 1)));
        i += 1;
    }
    assert(gs@.subrange(0, gs@.len() as int) =~= gs@);
    out
}

/// What a type switch choice leads to: a report, or an archive whose
/// presence in the cache decides between unpacking it
/// (`ToggleNUnzipSave`) and dropping it from the record
/// (`UnsetNonExistentToggleNRestart`).
#[derive(PartialEq, Debug)]
pub enum SwitchDecision {
    Report(SwitchActionReport),
    CheckArchive(ShortGameName, String, String),
}

/// Whether an archive is of the other build than `nextgen`.
pub open spec fn other_build(short: Seq<char>, nextgen: bool, name: Seq<char>) -> bool {
    asset_tdb(short, name) matches Some(tdb) && ((tdb && nextgen) || (!tdb && !nextgen))
}

/// The first archive of a version record (after its name) of the other build.
pub open spec fn other_build_archive(short: Seq<char>, nextgen: bool, set: Seq<Seq<char>>) -> Option<Seq<char>> {
    match crate::seq_util::first_index(set.skip(1).map_values(|a: Seq<char>| other_build(short, nextgen, a)), true) {
        Some(i) => Some(set[i + 1]),
        None => None,
    }
}

/// The archive a type switch unpacks is of the other build than the recorded
/// one (a `_TDB` archive for a nextgen install, a plain one for a standard
/// install), taken from the record's archives (never its version name): the
/// first such, and none only when the record has no archive of that build.
pub proof fn lemma_switch_archive_is_of_other_build(short: Seq<char>, nextgen: bool, set: Seq<Seq<char>>)
    requires
        set.len() > 0,
    ensures
        match other_build_archive(short, nextgen, set) {
            Some(a) => exists|i: int|
                1 <= i < set.len() && set[i] == a && asset_tdb(short, a) == Some(nextgen) && forall|j: int|
                    1 <= j < i ==> asset_tdb(short, #[trigger] set[j]) != Some(nextgen),
            None => forall|j: int| 1 <= j < set.len() ==> asset_tdb(short, #[trigger] set[j]) != Some(nextgen),
        },
{
    let flags = set.skip(1).map_values(|a: Seq<char>| other_build(short, nextgen, a));
    lemma_first_index(flags, true);
    match crate::seq_util::first_index(flags, true) {
        Some(i) => {
            assert(set[i + 1] == set.skip(1)[i]);
            assert(flags[i]);
            assert forall|j: int| 1 <= j < i + 1 implies asset_tdb(short, #[trigger] set[j]) != Some(nextgen) by {
                assert(!flags[j - 1]);
                assert(set.skip(1)[j - 1] == set[j]);
            }
            assert(1 <= i + 1 < set.len() && set[i + 1] == set[i + 1]);
        },
        None => {
            assert forall|j: int| 1 <= j < set.len() implies asset_tdb(short, #[trigger] set[j]) != Some(nextgen) by {
                assert(!flags[j - 1]);
                assert(set.skip(1)[j - 1] == set[j]);
            }
        },
    }
}

/// The game a type switch label names.
pub open spec fn switch_target(v: LabelView) -> Option<Seq<char>> {
    match v {
        LabelView::SwitchToStandard(s) => Some(s),
        LabelView::SwitchToNextgen(s) => Some(s),
        _ => None,
    }
}

/// Decides a type switch choice with label `selected_text`: `Back` (or any
/// other label) ends early; a game that needs the update anyway is only
/// switched; otherwise the newest record's archive of the other build is
/// checked for in the cache, and without one the switch is left pending.
pub fn switch_type_decision(config: &REvilConfig, state: &REvilManagerState, selected_text: &str) -> (r: SwitchDecision)
    requires
        match switch_target(label_of_text(selected_text@)) {
            Some(s) => if strs_view(state.games_that_require_update@).contains(s) {
                assoc_keys(config.games@).contains(s)
            } else {
                crate::rManager::rManager::has_build_type(config.games@, s)
                    && crate::rManager::rManager::has_newest_record(config.games@, s)
            },
            None => true,
        },
    ensures
        match switch_target(label_of_text(selected_text@)) {
            None => r == SwitchDecision::Report(SwitchActionReport::Early),
            Some(s) => if strs_view(state.games_that_require_update@).contains(s) {
                r matches SwitchDecision::Report(SwitchActionReport::ToggleNSaveRestart(n)) && n@ == s
            } else {
                let g = game_view(config.games@, s);
                let set = g.versions.unwrap()[0];
                match other_build_archive(s, g.nextgen.unwrap(), set) {
                    Some(a) => r matches SwitchDecision::CheckArchive(n, archive, folder) && n@ == s && archive@ == a
                        && folder@ == crate::utils::get_local_path_to_cache::cache_folder(set[0]),
                    None => r matches SwitchDecision::Report(SwitchActionReport::ToggleNSetSwitchSaveRestart(n)) && n@
                        == s,
                }
            },
        },
{
    let short = match LabelOptions::from(selected_text) {
        LabelOptions::SwitchToStandard(s) => s,
        LabelOptions::SwitchToNextgen(s) => s,
        _ => return SwitchDecision::Report(SwitchActionReport::Early),
    };
    if crate::seq_util::contains_string(&state.games_that_require_update, short.as_str()) {
        return SwitchDecision::Report(SwitchActionReport::ToggleNSaveRestart(short));
    }
    let k = assoc_find(&config.games, short.as_str()).unwrap();
    proof {
        lemma_first_index(assoc_keys(config.games@), short@);
    }
    let g = &config.games[k].1;
    let ng = g.nextgen.unwrap();
    let vs = g.versions.as_ref().unwrap();
    let first_set = &vs[0];
    let ghost sv = strs_view(first_set@);
    proof {
        assert(nested_strs_view(vs@)[0] == sv);
        assert(sv[0] == first_set@[0]@);
    }
    let ghost flags = sv.skip(1).map_values(|a: Seq<char>| other_build(short@, ng, a));
    assert(game_view(config.games@, short@) == g@);
    let mut j: usize = 1;
    while j < first_set.len()
        invariant
            1 <= j <= first_set@.len(),
            sv == strs_view(first_set@),
            switch_target(label_of_text(selected_text@)) == Some(short@),
            !strs_view(state.games_that_require_update@).contains(short@),
            Some(ng) == game_view(config.games@, short@).nextgen,
            sv == game_view(config.games@, short@).versions.unwrap()[0],
            flags == sv.skip(1).map_values(|a: Seq<char>| other_build(short@, ng, a)),
            forall|m: int| 0 <= m < j - 1 ==> !(#[trigger] flags[m]),
        decreases first_set@.len() - j,
    {
        assert(flags[j - 1] == other_build(short@, ng, first_set@[j as int]@));
        let hit = match is_asset_tdb(short.as_str(), &ReleaseAsset { download_url: String::new(), name: first_set[j].clone() }) {
            Some(tdb) => (tdb && ng) || (!tdb && !ng),
            None => false,
        };
        if hit {
            proof {
                crate::seq_util::lemma_first_index_at(flags, true, j - 1);
                assert(sv[j as int] == first_set@[j as int]@);
            }
            let folder = match crate::utils::get_local_path_to_cache::get_local_path_to_cache_folder(
                None,
                Some(first_set[0].as_str()),
            ) {
                Ok(f) => f,
                Err(_) => {
                    assert(false);
                    String::new()
                },
            };
            return SwitchDecision::CheckArchive(short, first_set[j].clone(), folder);
        }
        j += 1;
    }
    proof {
        lemma_first_index(flags, true);
    }
    SwitchDecision::Report(SwitchActionReport::ToggleNSetSwitchSaveRestart(short))
}

/// The labels sorted, then `Back`.
pub fn sorted_then_back(labels: Vec<String>) -> (r: Vec<String>)
    ensures
        r@.len() == labels@.len() + 1,
        vstd::relations::sorted_by(strs_view(r@.subrange(0, labels@.len() as int)), crate::sorting::lex_order()),
        r@.subrange(0, labels@.len() as int).to_multiset() == labels@.to_multiset(),
        r@[labels@.len() as int]@ == label_text(LabelView::Back),
{
    let mut v = labels;
    crate::sorting::sort_strings(&mut v);
    proof {
        v@.to_multiset_ensures();
        labels@.to_multiset_ensures();
    }
    let ghost sorted = v@;
    v.push(LabelOptions::Back.to_label());
    assert(v@.subrange(0, labels@.len() as int) =~= sorted);
    assert(strs_view(sorted) =~= sorted.map_values(|s: String| s@));
    v
}

proof fn lemma_offered_known(
    report: Seq<(String, Vec<ReleaseAsset>)>,
    req: Seq<Seq<char>>,
    gs: Seq<(ShortGameName, GameConfig)>,
    i: int,
)
    requires
        offered_games_known(gs, offered(report, req)),
        0 <= i < report.len(),
        req.contains(report[i].0@),
        report[i].1@.len() > 0,
    ensures
        assoc_keys(gs).contains(report[i].0@),
    decreases report.len(),
{
    let p = report.drop_last();
    let o = offered(report, req);
    let po = offered(p, req);
    if i == report.len() - 1 {
        let chunk = report.last().1@.map_values(|a: ReleaseAsset| (report.last().0@, a));
        assert(o == po + chunk);
        assert(o[po.len() as int] == chunk[0]);
        assert(chunk[0].0 == report[i].0@);
        assert(assoc_keys(gs).contains(o[po.len() as int].0));
    } else {
        assert forall|k: int| 0 <= k < po.len() implies assoc_keys(gs).contains(#[trigger] po[k].0) by {
            assert(o[k] == po[k]);
        }
        assert(p[i] == report[i]);
        lemma_offered_known(p, req, gs, i);
    }
}

proof fn lemma_any_push(gs: Seq<(ShortGameName, GameConfig)>, done: Seq<(Seq<char>, ReleaseAsset)>, item: (Seq<char>, ReleaseAsset))
    ensures
        any_two_builds(gs, done.push(item)) == (any_two_builds(gs, done) || pair_choice(gs, item).3),
        any_not_installed(gs, done.push(item)) == (any_not_installed(gs, done) || pair_choice(gs, item).2),
{
    let n = done.push(item);
    assert(n[done.len() as int] == item);
    if any_two_builds(gs, done) {
        let i = choose|i: int| 0 <= i < done.len() && (#[trigger] pair_choice(gs, done[i])).3;
        assert(n[i] == done[i]);
    }
    if any_two_builds(gs, n) {
        let i = choose|i: int| 0 <= i < n.len() && (#[trigger] pair_choice(gs, n[i])).3;
        if i < done.len() {
            assert(n[i] == done[i]);
        }
    }
    if any_not_installed(gs, done) {
        let i = choose|i: int| 0 <= i < done.len() && (#[trigger] pair_choice(gs, done[i])).2;
        assert(n[i] == done[i]);
    }
    if any_not_installed(gs, n) {
        let i = choose|i: int| 0 <= i < n.len() && (#[trigger] pair_choice(gs, n[i])).2;
        if i < done.len() {
            assert(n[i] == done[i]);
        }
    }
}

} // verus!

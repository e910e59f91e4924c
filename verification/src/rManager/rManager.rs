//! The updater's decisions: which games need an update, which assets to
//! fetch, how the version records change after unpacking, what to prepare
//! before a launch.
use vstd::prelude::*;
use core::cmp::Ordering;
use crate::assoc::{assoc_find, assoc_index, assoc_keys, assoc_map, assoc_wf, lemma_assoc_map, lemma_assoc_push, lemma_assoc_update};
use crate::rManager::rManager_header::{AfterUnzipOption, REvilManager, REvilManagerError, REvilManagerState, ResultManagerErr, SORT_DETERMINER};
use crate::reframework_github::release::ReleaseAsset;
use crate::seq_util::{first_index, lemma_first_index, nested_strs_view, opt_str_view, strs_view};
use crate::text::{contains, contains_str, owned, split_once, split_once_str, str_eq};
use crate::tomlConf::configStruct::{copy_versions, opposite_runtime, runtime_dll, GameConfig, GameConfigView, REvilConfig, Runtime, ShortGameName};
use crate::seq_util::copy_opt_string;
use crate::{short_name_for_steam_id, table_short_name};
use crate::args::RunAfter;
use crate::reframework_github::refr_github::REFRGithub;
use crate::utils::is_asset_tdb::{asset_tdb, is_asset_tdb};
use crate::utils::local_version::LocalGameConfig;
use crate::version_parser::{repo_version_newer, version_inputs_ok};
use crate::tomlConf::configStruct::Main;
use crate::seq_util::contains_string;
use crate::dialogs::dialogs_label::LabelOptions;
use crate::tomlConf::configStruct::ErrorLevel;
use crate::dialogs::dialogs::SwitchActionReport;
use crate::sorting::{labels_with, labels_without};
use crate::utils::find_game_conf_by_steam_id::{steam_ids_readable, find_game_conf_by_steam_id, steam_id_index};

verus! {

/// The first version name of a version record that marks a pending type switch.
pub const SWITCH_IDENTIFIER: &'static str = "switch";

/// The first version name of a version record that marks a pending download.
pub const UPDATE_IDENTIFIER: &'static str = "update";

/// The short name a release asset is for: the name before `_TDB`, or else
/// before `.zip`.
pub open spec fn asset_short_name(name: Seq<char>) -> Option<Seq<char>> {
    match split_once(name, "_TDB"@) {
        Some((head, _)) => Some(head),
        None => match split_once(name, ".zip"@) {
            Some((head, _)) => Some(head),
            None => None,
        },
    }
}

/// The short name of the game an asset is for.
pub fn get_game_short_name_from_asset(asset: &ReleaseAsset) -> (r: ResultManagerErr<String>)
    ensures
        match asset_short_name(asset.name@) {
            Some(n) => r matches Ok(s) && s@ == n,
            None => r matches Err(e) && e == REvilManagerError::CannotDeductShortNameFromAssetName(
                asset.name,
            ),
        },
{
    match split_once_str(asset.name.as_str(), crate::STANDARD_TYPE_QUALIFIER) {
        Some((head, _)) => Ok(head),
        None => match split_once_str(asset.name.as_str(), ".zip") {
            Some((head, _)) => Ok(head),
            None => Err(REvilManagerError::CannotDeductShortNameFromAssetName(asset.name.clone())),
        },
    }
}

/// Removes the first occurrence of `game_short_name` from the list.
pub fn remove_game_from_update_needed_ones(req_update_games: &mut Vec<String>, game_short_name: &str)
    ensures
        match first_index(strs_view(old(req_update_games)@), game_short_name@) {
            Some(i) => final(req_update_games)@ == old(req_update_games)@.remove(i),
            None => final(req_update_games)@ == old(req_update_games)@,
        },
{
    let mut i: usize = 0;
    while i < req_update_games.len()
        invariant
            i <= req_update_games@.len(),
            req_update_games@ == old(req_update_games)@,
            forall|j: int| 0 <= j < i ==> req_update_games@[j]@ != game_short_name@,
        decreases req_update_games@.len() - i,
    {
        if str_eq(req_update_games[i].as_str(), game_short_name) {
            proof {
                assert forall|j: int| 0 <= j < i implies strs_view(req_update_games@)[j]
                    != game_short_name@ by {
                    assert(strs_view(req_update_games@)[j] == req_update_games@[j]@);
                }
                crate::seq_util::lemma_first_index_at(
                    strs_view(req_update_games@),
                    game_short_name@,
                    i as int,
                );
            }
            req_update_games.remove(i);
            return;
        }
        i += 1;
    }
    proof {
        lemma_first_index(strs_view(req_update_games@), game_short_name@);
        if first_index(strs_view(req_update_games@), game_short_name@) is Some {
            let k = first_index(strs_view(req_update_games@), game_short_name@).unwrap();
            assert(strs_view(req_update_games@)[k] == req_update_games@[k]@);
        }
    }
}

/// The version record after unpacking `asset` of version `version`: when the
/// newest record marks a pending switch it is replaced (keeping its first
/// archive after the new one), otherwise the new record is put first.
pub open spec fn versions_after_unzip(
    versions: Option<Seq<Seq<Seq<char>>>>,
    version: Seq<char>,
    asset: Seq<char>,
) -> Seq<Seq<Seq<char>>> {
    match versions {
        None => seq![seq![version, asset]],
        Some(vs) => {
            let first_set = vs[0];
            if first_set[0] == "switch"@ {
                if first_set.len() > 1 {
                    vs.update(0, seq![version, asset, first_set[1]])
                } else {
                    vs.update(0, seq![version, asset])
                }
            } else {
                vs.insert(0, seq![version, asset])
            }
        },
    }
}

/// The version records can be read at their newest entry.
pub open spec fn newest_record_present(versions: Option<Seq<Seq<Seq<char>>>>) -> bool {
    versions matches Some(vs) ==> vs.len() > 0 && vs[0].len() > 0
}

/// Records version `version` with archive `asset` as the newest one and as the
/// version in use.
pub fn add_asset_ver_to_game_conf_ver(game_config: &mut GameConfig, version: &str, asset: &ReleaseAsset)
    requires
        newest_record_present(old(game_config)@.versions),
    ensures
        final(game_config)@ == (GameConfigView {
            versions: Some(versions_after_unzip(old(game_config)@.versions, version@, asset.name@)),
            version_in_use: Some(version@),
            ..old(game_config)@
        }),
{
    let new_versions: Vec<Vec<String>> = match &game_config.versions {
        None => {
            let v = vec![vec![owned(version), asset.name.clone()]];
            assert(nested_strs_view(v@) =~= seq![seq![version@, asset.name@]]) by {
                assert(strs_view(v@[0]@) =~= seq![version@, asset.name@]);
            }
            v
        },
        Some(vs) => {
            let ghost old_view = nested_strs_view(vs@);
            assert(old_view[0] == strs_view(vs@[0]@));
            assert(strs_view(vs@[0]@)[0] == vs@[0]@[0]@);
            let first_set = &vs[0];
            let mut c = crate::seq_util::copy_nested_strings(vs);
            if str_eq(first_set[0].as_str(), SWITCH_IDENTIFIER) {
                let new_set = if first_set.len() > 1 {
                    assert(strs_view(vs@[0]@)[1] == vs@[0]@[1]@);
                    let s = vec![owned(version), asset.name.clone(), first_set[1].clone()];
                    assert(strs_view(s@) =~= seq![version@, asset.name@, old_view[0][1]]);
                    s
                } else {
                    let s = vec![owned(version), asset.name.clone()];
                    assert(strs_view(s@) =~= seq![version@, asset.name@]);
                    s
                };
                let ghost before = c@;
                c.set(0, new_set);
                assert(nested_strs_view(c@) =~= nested_strs_view(before).update(0, strs_view(new_set@)));
            } else {
                let new_set = vec![owned(version), asset.name.clone()];
                assert(strs_view(new_set@) =~= seq![version@, asset.name@]);
                let ghost before = c@;
                c.insert(0, new_set);
                assert(nested_strs_view(c@) =~= nested_strs_view(before).insert(0, strs_view(new_set@)));
            }
            c
        },
    };
    game_config.versions = Some(new_versions);
    game_config.version_in_use = Some(owned(version));
}

/// The record a Steam detection gives a new game: location and id from
/// Steam, the OpenVR runtime, nothing else.
pub open spec fn detected_game(id: Seq<char>, path: Seq<char>) -> GameConfigView {
    GameConfigView {
        location: Some(path),
        steam_id: Some(id),
        versions: None,
        version_in_use: None,
        nextgen: None,
        runtime: Some(Runtime::OpenVR),
        run_args: None,
    }
}

/// A known game after a Steam detection: location and id from Steam, its
/// runtime kept (OpenVR when unset), everything else kept.
pub open spec fn merge_detected(old: GameConfigView, id: Seq<char>, path: Seq<char>) -> GameConfigView {
    GameConfigView {
        location: Some(path),
        steam_id: Some(id),
        runtime: Some(
            match old.runtime {
                Some(r) => r,
                None => Runtime::OpenVR,
            },
        ),
        ..old
    }
}

/// The games after one detection `(id, path)`.
pub open spec fn steam_step(m: Map<Seq<char>, GameConfigView>, id: Seq<char>, path: Seq<char>) -> Map<
    Seq<char>,
    GameConfigView,
> {
    let short = table_short_name(id).unwrap();
    if m.contains_key(short) {
        m.insert(short, merge_detected(m[short], id, path))
    } else {
        m.insert(short, detected_game(id, path))
    }
}

/// The games after the detections, in order.
pub open spec fn steam_fold(m: Map<Seq<char>, GameConfigView>, d: Seq<(Seq<char>, Seq<char>)>) -> Map<
    Seq<char>,
    GameConfigView,
>
    decreases d.len(),
{
    if d.len() == 0 {
        m
    } else {
        steam_step(steam_fold(m, d.drop_last()), d.last().0, d.last().1)
    }
}

/// The detections as character sequences.
pub open spec fn detections_view(d: Seq<(String, String)>) -> Seq<(Seq<char>, Seq<char>)> {
    d.map_values(|e: (String, String)| (e.0@, e.1@))
}

/// A game record after reading its folder: runtime and build type from the
/// folder, and the installed version recorded when no versions were known.
pub open spec fn amended_with_local(
    g: GameConfigView,
    version: Option<Seq<char>>,
    runtime: Option<Runtime>,
    nextgen: Option<bool>,
) -> GameConfigView {
    GameConfigView {
        runtime: runtime,
        nextgen: nextgen,
        versions: if version is Some && g.versions is None {
            Some(seq![seq![version.unwrap()]])
        } else {
            g.versions
        },
        ..g
    }
}

/// The newest known version of a game with versions.
pub open spec fn newest_version(g: GameConfigView) -> Seq<char> {
    g.versions.unwrap()[0][0]
}

/// A game needs the release named `release_name` when it has no version
/// yet, or when the release is newer than its newest version.
pub open spec fn needs_update(g: GameConfigView, release_name: Seq<char>) -> bool {
    match g.versions {
        None => true,
        Some(_) => repo_version_newer(newest_version(g), release_name, u16::MAX as int) == Some(true),
    }
}

/// The short names of the games that need the release, in order.
pub open spec fn names_needing_update(gs: Seq<(ShortGameName, GameConfig)>, release_name: Seq<char>) -> Seq<
    Seq<char>,
>
    decreases gs.len(),
{
    if gs.len() == 0 {
        Seq::empty()
    } else {
        names_needing_update(gs.drop_last(), release_name) + if needs_update(
            gs.last().1@,
            release_name,
        ) {
            seq![gs.last().0@]
        } else {
            Seq::empty()
        }
    }
}

/// Which games have versions.
pub open spec fn versioned_flags(gs: Seq<(ShortGameName, GameConfig)>) -> Seq<bool> {
    Seq::new(gs.len(), |i: int| gs[i].1.versions is Some)
}

/// The index of the first game that has versions.
pub open spec fn first_versioned(gs: Seq<(ShortGameName, GameConfig)>) -> Option<int> {
    first_index(versioned_flags(gs), true)
}

/// Whether an asset of the release is fetched for a game when one game is
/// updated: assets of one-build games always; for a two-build game the
/// build that matches the game's type (standard when the type is unknown).
pub open spec fn include_asset(short_name: Seq<char>, g: GameConfigView, a: ReleaseAsset) -> bool {
    match asset_tdb(short_name, a.name@) {
        None => true,
        Some(tdb) => {
            let nextgen = match g.nextgen {
                Some(n) => n,
                None => false,
            };
            (tdb && !nextgen) || (!tdb && nextgen)
        },
    }
}

/// The assets fetched for a game, in order.
pub open spec fn assets_for_game(assets: Seq<ReleaseAsset>, short_name: Seq<char>, g: GameConfigView) -> Seq<
    ReleaseAsset,
>
    decreases assets.len(),
{
    if assets.len() == 0 {
        Seq::empty()
    } else {
        assets_for_game(assets.drop_last(), short_name, g) + if include_asset(
            short_name,
            g,
            assets.last(),
        ) {
            seq![assets.last()]
        } else {
            Seq::empty()
        }
    }
}

/// Adds the release assets for one game to `selected_assets` (see
/// `include_asset`); nothing when the report has no entry for the game.
pub fn set_game_from_report_as_selected_to_download(
    github_release_manager: Option<&REFRGithub>,
    selected_assets: &mut Vec<ReleaseAsset>,
    game_config: &GameConfig,
    game_short_name: &str,
) -> (r: ResultManagerErr<()>)
    ensures
        match github_release_manager {
            None => r == Err::<(), REvilManagerError>(REvilManagerError::ReleaseManagerIsNotInitialized)
                && final(selected_assets)@ == old(selected_assets)@,
            Some(m) => r is Ok && match assoc_index(m.report@, game_short_name@) {
                Some(i) => final(selected_assets)@ == old(selected_assets)@ + assets_for_game(
                    m.report@[i].1@,
                    game_short_name@,
                    game_config@,
                ),
                None => final(selected_assets)@ == old(selected_assets)@,
            },
        },
{
    let rel_manager = match github_release_manager {
        Some(m) => m,
        None => return Err(REvilManagerError::ReleaseManagerIsNotInitialized),
    };
    let report = rel_manager.getAssetsReport();
    match assoc_find(report, game_short_name) {
        None => Ok(()),
        Some(k) => {
            proof {
                lemma_first_index(assoc_keys(report@), game_short_name@);
            }
            let assets = &report[k].1;
            let ghost start = selected_assets@;
            let mut i: usize = 0;
            while i < assets.len()
                invariant
                    i <= assets@.len(),
                    selected_assets@ == start + assets_for_game(
                        assets@.subrange(0, i as int),
                        game_short_name@,
                        game_config@,
                    ),
                decreases assets@.len() - i,
            {
                let asset = &assets[i];
                proof {
                    assert(assets@.subrange(0, i + 1).drop_last() =~= assets@.subrange(0, i as int));
                }
                let wanted = match is_asset_tdb(game_short_name, asset) {
                    None => true,
                    Some(tdb) => {
                        let nextgen = match game_config.nextgen {
                            Some(n) => n,
                            None => false,
                        };
                        (tdb && !nextgen) || (!tdb && nextgen)
                    },
                };
                if wanted {
                    selected_assets.push(asset.duplicate());
                }
                proof {
                    assert(selected_assets@ =~= start + assets_for_game(
                        assets@.subrange(0, i + 1),
                        game_short_name@,
                        game_config@,
                    ));
                }
                i += 1;
            }
            assert(assets@.subrange(0, assets@.len() as int) =~= assets@);
            Ok(())
        },
    }
}

/// The repository owner and release channel to ask: the configured ones,
/// or `praydog` and `REFramework-nightly`.
pub fn release_source(main: &Main) -> (r: (String, String))
    ensures
        r.0@ == match main.repo_owner {
            Some(o) => o@,
            None => crate::REPO_OWNER@,
        },
        r.1@ == match main.chosen_source {
            Some(c) => c@,
            None => crate::NIGHTLY_RELEASE@,
        },
{
    let repo_owner = match &main.repo_owner {
        Some(o) => o.clone(),
        None => String::from_str(crate::REPO_OWNER),
    };
    let source = match &main.chosen_source {
        Some(c) => c.clone(),
        None => String::from_str(crate::NIGHTLY_RELEASE),
    };
    (repo_owner, source)
}

/// The Steam id of a known game.
pub fn get_steam_id_by_short_name<'a>(games: &'a Vec<(ShortGameName, GameConfig)>, game_short_name: &str) -> (r: &'a String)
    requires
        assoc_keys(games@).contains(game_short_name@),
        games@[assoc_index(games@, game_short_name@).unwrap()].1.steamId is Some,
    ensures
        *r == games@[assoc_index(games@, game_short_name@).unwrap()].1.steamId.unwrap(),
{
    let k = assoc_find(games, game_short_name).unwrap();
    proof {
        lemma_first_index(assoc_keys(games@), game_short_name@);
    }
    match &games[k].1.steamId {
        Some(id) => id,
        None => {
            proof {
                assert(false);
            }
            &games[k].0
        },
    }
}

impl REvilManager {
    /// An updater with an empty configuration and a fresh state.
    pub fn new() -> (r: REvilManager)
        ensures
            r.config.games@.len() == 0,
            crate::tomlConf::configStruct::main_is_empty(r.config.main),
            r.github_release_manager is None,
            r.state.games_that_require_update@.len() == 0,
            r.state.selected_assets@.len() == 0,
            r.state.selected_game_to_launch is None,
            r.state.selected_option is None,
            !r.state.config_loading_error_ocurred,
            !r.state.new_steam_game_found,
            !r.state.skip_next,
    {
        REvilManager {
            config: REvilConfig::empty(),
            state: REvilManagerState::empty(),
            github_release_manager: None,
        }
    }

    /// Takes in the games Steam found, as `(Steam id, install folder)`: each is
    /// added, or merged into the known record of its short name (see
    /// `steam_step`). Notes whether a game was new.
    pub fn load_games_from_steam(&mut self, detected: &Vec<(String, String)>)
        requires
            assoc_wf(old(self).config.games@),
            forall|i: int| 0 <= i < detected@.len() ==> table_short_name(#[trigger] detected@[i].0@) is Some,
        ensures
            assoc_wf(final(self).config.games@),
            assoc_map(final(self).config.games@) == steam_fold(
                assoc_map(old(self).config.games@),
                detections_view(detected@),
            ),
            final(self).state.new_steam_game_found == (old(self).state.new_steam_game_found || exists|i: int|
                0 <= i < detected@.len() && !assoc_map(old(self).config.games@).contains_key(
                    table_short_name(#[trigger] detected@[i].0@).unwrap(),
                )),
            final(self).config.main == old(self).config.main,
            final(self).state.games_that_require_update == old(self).state.games_that_require_update,
            final(self).state.selected_assets == old(self).state.selected_assets,
            final(self).state.selected_game_to_launch == old(self).state.selected_game_to_launch,
            final(self).state.selected_option == old(self).state.selected_option,
            final(self).github_release_manager == old(self).github_release_manager,
    {
        let ghost m0 = assoc_map(self.config.games@);
        let ghost dv = detections_view(detected@);
        let mut i: usize = 0;
        while i < detected.len()
            invariant
                i <= detected@.len(),
                dv == detections_view(detected@),
                forall|j: int| 0 <= j < detected@.len() ==> table_short_name(#[trigger] detected@[j].0@) is Some,
                assoc_wf(self.config.games@),
                assoc_map(self.config.games@) == steam_fold(m0, dv.subrange(0, i as int)),
                forall|k: Seq<char>| #[trigger] assoc_map(self.config.games@).contains_key(k) <==> (
                    m0.contains_key(k) || exists|j: int|
                        0 <= j < i && table_short_name(#[trigger] detected@[j].0@).unwrap() == k),
                self.state.new_steam_game_found == (old(self).state.new_steam_game_found || exists|j: int|
                    0 <= j < i && !m0.contains_key(table_short_name(#[trigger] detected@[j].0@).unwrap())),
                self.config.main == old(self).config.main,
                self.state.games_that_require_update == old(self).state.games_that_require_update,
                self.state.selected_assets == old(self).state.selected_assets,
                self.state.selected_game_to_launch == old(self).state.selected_game_to_launch,
                self.state.selected_option == old(self).state.selected_option,
                self.github_release_manager == old(self).github_release_manager,
            decreases detected@.len() - i,
        {
            let id = &detected[i].0;
            let path = &detected[i].1;
            let short = short_name_for_steam_id(id.as_str()).unwrap();
            let ghost before = self.config.games@;
            let ghost short_v = table_short_name(id@).unwrap();
            proof {
                assert(dv[i as int] == (id@, path@));
                assert(dv.subrange(0, i + 1).drop_last() =~= dv.subrange(0, i as int));
                assert(dv.subrange(0, i + 1).last() == (id@, path@));
                lemma_assoc_map(before);
            }
            match assoc_find(&self.config.games, short) {
                Some(k) => {
                    proof {
                        lemma_first_index(assoc_keys(before), short@);
                        assert(assoc_keys(before)[k as int] == before[k as int].0@);
                    }
                    let old_cfg = &self.config.games[k].1;
                    let merged = GameConfig {
                        location: Some(owned(path.as_str())),
                        steamId: Some(owned(id.as_str())),
                        versions: copy_versions(&old_cfg.versions),
                        version_in_use: copy_opt_string(&old_cfg.version_in_use),
                        nextgen: old_cfg.nextgen,
                        runtime: Some(
                            match old_cfg.runtime {
                                Some(r) => r,
                                None => Runtime::OpenVR,
                            },
                        ),
                        runArgs: copy_opt_string(&old_cfg.runArgs),
                    };
                    let key = self.config.games[k].0.clone();
                    proof {
                        lemma_assoc_update(before, k as int, merged);
                        assert(merged@ == merge_detected(before[k as int].1@, id@, path@));
                    }
                    self.config.games.set(k, (key, merged));
                    proof {
                        assert(self.config.games@ == before.update(k as int, (before[k as int].0, merged)));
                        assert(assoc_map(self.config.games@) =~= steam_step(assoc_map(before), id@, path@));
                        assert forall|kk: Seq<char>| #[trigger] assoc_map(self.config.games@).contains_key(kk) <==> (
                            m0.contains_key(kk) || exists|j: int|
                                0 <= j < i + 1 && table_short_name(#[trigger] detected@[j].0@).unwrap() == kk) by {
                            if kk == short_v {
                                assert(table_short_name(detected@[i as int].0@).unwrap() == kk);
                            }
                        }
                        if !m0.contains_key(short_v) {
                            let j = choose|j: int|
                                0 <= j < i && table_short_name(#[trigger] detected@[j].0@).unwrap() == short_v;
                            assert(!m0.contains_key(table_short_name(detected@[j].0@).unwrap()));
                        }
                    }
                },
                None => {
                    let cfg = GameConfig {
                        location: Some(owned(path.as_str())),
                        steamId: Some(owned(id.as_str())),
                        versions: None,
                        version_in_use: None,
                        nextgen: None,
                        runtime: Some(Runtime::OpenVR),
                        runArgs: None,
                    };
                    let key = owned(short);
                    proof {
                        lemma_assoc_push(before, key, cfg);
                    }
                    self.config.games.push((key, cfg));
                    self.state.new_steam_game_found = true;
                    proof {
                        assert(assoc_map(self.config.games@) =~= steam_step(assoc_map(before), id@, path@));
                        assert(!m0.contains_key(short_v));
                        assert(table_short_name(detected@[i as int].0@).unwrap() == short_v);
                        assert forall|kk: Seq<char>| #[trigger] assoc_map(self.config.games@).contains_key(kk) <==> (
                            m0.contains_key(kk) || exists|j: int|
                                0 <= j < i + 1 && table_short_name(#[trigger] detected@[j].0@).unwrap() == kk) by {
                            if kk == short_v {
                                assert(table_short_name(detected@[i as int].0@).unwrap() == kk);
                            }
                        }
                    }
                },
            }
            i += 1;
        }
        assert(dv.subrange(0, detected@.len() as int) =~= dv);
    }

    /// Records what the game folder of the game at `index` says (see
    /// `amended_with_local`).
    pub fn amend_game_with_local(&mut self, index: usize, local: LocalGameConfig)
        requires
            assoc_wf(old(self).config.games@),
            index < old(self).config.games@.len(),
        ensures
            assoc_wf(final(self).config.games@),
            assoc_keys(final(self).config.games@) == assoc_keys(old(self).config.games@),
            assoc_map(final(self).config.games@) == assoc_map(old(self).config.games@).insert(
                old(self).config.games@[index as int].0@,
                amended_with_local(
                    old(self).config.games@[index as int].1@,
                    opt_str_view(local.version),
                    local.runtime,
                    local.nextgen,
                ),
            ),
            final(self).config.main == old(self).config.main,
            final(self).state == old(self).state,
            final(self).github_release_manager == old(self).github_release_manager,
    {
        let ghost before = self.config.games@;
        let old_cfg = &self.config.games[index].1;
        let versions = match (&local.version, &old_cfg.versions) {
            (Some(v), None) => {
                let vs = vec![vec![v.clone()]];
                assert(nested_strs_view(vs@) =~= seq![seq![v@]]) by {
                    assert(strs_view(vs@[0]@) =~= seq![v@]);
                }
                Some(vs)
            },
            _ => copy_versions(&old_cfg.versions),
        };
        let cfg = GameConfig {
            location: copy_opt_string(&old_cfg.location),
            steamId: copy_opt_string(&old_cfg.steamId),
            versions,
            version_in_use: copy_opt_string(&old_cfg.version_in_use),
            nextgen: local.nextgen,
            runtime: local.runtime,
            runArgs: copy_opt_string(&old_cfg.runArgs),
        };
        let key = self.config.games[index].0.clone();
        proof {
            lemma_assoc_update(before, index as int, cfg);
            assert(cfg@ == amended_with_local(before[index as int].1@, opt_str_view(local.version), local.runtime, local.nextgen));
        }
        self.config.games.set(index, (key, cfg));
    }

    /// Adds the games that need the newest release to
    /// `games_that_require_update` (see `needs_update`). Without a release,
    /// the games before the first one with versions are added and the result
    /// is `ReleaseIsEmpty` if there is such a game.
    pub fn set_games_that_require_update(&mut self) -> (r: ResultManagerErr<()>)
        requires
            forall|i: int|
                0 <= i < old(self).config.games@.len() && (#[trigger] old(self).config.games@[i]).1.versions is Some
                    ==> old(self).config.games@[i].1@.versions.unwrap().len() > 0,
            old(self).github_release_manager matches Some(m) && m.release matches Some(rel)
                ==> forall|i: int|
                0 <= i < old(self).config.games@.len() && (#[trigger] old(self).config.games@[i]).1.versions is Some
                    ==> old(self).config.games@[i].1@.versions.unwrap()[0].len() > 0 && version_inputs_ok(
                    newest_version(old(self).config.games@[i].1@),
                    rel.name@,
                ),
        ensures
            final(self).config == old(self).config,
            final(self).github_release_manager == old(self).github_release_manager,
            final(self).state.selected_assets == old(self).state.selected_assets,
            final(self).state.selected_game_to_launch == old(self).state.selected_game_to_launch,
            final(self).state.selected_option == old(self).state.selected_option,
            match old(self).github_release_manager {
                None => r == Err::<(), REvilManagerError>(REvilManagerError::ReleaseManagerIsNotInitialized)
                    && final(self).state.games_that_require_update == old(self).state.games_that_require_update,
                Some(m) => match m.release {
                    Some(rel) => r is Ok && strs_view(final(self).state.games_that_require_update@)
                        == strs_view(old(self).state.games_that_require_update@) + names_needing_update(
                        old(self).config.games@,
                        rel.name@,
                    ),
                    None => match first_versioned(old(self).config.games@) {
                        Some(p) => r == Err::<(), REvilManagerError>(REvilManagerError::ReleaseIsEmpty)
                            && strs_view(final(self).state.games_that_require_update@)
                            == strs_view(old(self).state.games_that_require_update@) + assoc_keys(
                            old(self).config.games@.subrange(0, p),
                        ),
                        None => r is Ok && strs_view(final(self).state.games_that_require_update@)
                            == strs_view(old(self).state.games_that_require_update@) + assoc_keys(
                            old(self).config.games@,
                        ),
                    },
                },
            },
    {
        let manager = match &self.github_release_manager {
            Some(m) => m,
            None => return Err(REvilManagerError::ReleaseManagerIsNotInitialized),
        };
        let release: Option<&crate::reframework_github::release::Release> = match &manager.release {
            Some(rel) => Some(rel),
            None => None,
        };
        let games = &self.config.games;
        let ghost gs = games@;
        let ghost flags = versioned_flags(gs);
        let ghost start = strs_view(self.state.games_that_require_update@);
        let mut i: usize = 0;
        while i < games.len()
            invariant
                i <= gs.len(),
                gs == games@,
                self.config == old(self).config,
                *games == self.config.games,
                self.github_release_manager == old(self).github_release_manager,
                self.github_release_manager == Some(*manager),
                release matches Some(rel) ==> manager.release == Some(*rel),
                release is None <==> manager.release is None,
                self.state.selected_assets == old(self).state.selected_assets,
                self.state.selected_game_to_launch == old(self).state.selected_game_to_launch,
                self.state.selected_option == old(self).state.selected_option,
                flags == versioned_flags(gs),
                start == strs_view(old(self).state.games_that_require_update@),
                forall|j: int|
                    0 <= j < gs.len() && (#[trigger] gs[j]).1.versions is Some ==> gs[j].1@.versions.unwrap().len() > 0,
                release matches Some(rel) ==> forall|j: int|
                    0 <= j < gs.len() && (#[trigger] gs[j]).1.versions is Some ==> gs[j].1@.versions.unwrap()[0].len()
                        > 0 && version_inputs_ok(newest_version(gs[j].1@), rel.name@),
                release is None ==> forall|j: int| 0 <= j < i ==> !(#[trigger] flags[j]),
                match release {
                    Some(rel) => strs_view(self.state.games_that_require_update@) == start
                        + names_needing_update(gs.subrange(0, i as int), rel.name@),
                    None => strs_view(self.state.games_that_require_update@) == start + assoc_keys(
                        gs.subrange(0, i as int),
                    ),
                },
            decreases gs.len() - i,
        {
            let short_name = &games[i].0;
            let game = &games[i].1;
            let ghost sub_next = gs.subrange(0, i + 1);
            proof {
                assert(sub_next.drop_last() =~= gs.subrange(0, i as int));
                assert(sub_next.last() == gs[i as int]);
                assert(flags[i as int] == (gs[i as int].1.versions is Some));
            }
            let ghost before = self.state.games_that_require_update@;
            match &game.versions {
                Some(vs) => {
                    let rel = match release {
                        Some(rel) => rel,
                        None => {
                            proof {
                                lemma_first_index_at_flags(flags, i as int);
                            }
                            return Err(REvilManagerError::ReleaseIsEmpty);
                        },
                    };
                    proof {
                        assert(nested_strs_view(vs@)[0] == strs_view(vs@[0]@));
                        assert(strs_view(vs@[0]@)[0] == vs@[0]@[0]@);
                    }
                    let latest_local_version = &vs[0][0];
                    let is_newer = crate::utils::version_parser::isRepoVersionNewer(
                        latest_local_version.as_str(),
                        rel.name.as_str(),
                    );
                    if is_newer == Some(true) {
                        self.state.games_that_require_update.push(short_name.clone());
                    }
                    proof {
                        assert(game@.versions == Some(nested_strs_view(vs@)));
                        assert(newest_version(gs[i as int].1@) == vs@[0]@[0]@);
                        assert(strs_view(self.state.games_that_require_update@) =~= strs_view(before) + if needs_update(gs[i as int].1@, rel.name@) {
                            seq![short_name@]
                        } else {
                            Seq::empty()
                        });
                        assert(names_needing_update(sub_next, rel.name@) == names_needing_update(
                            gs.subrange(0, i as int),
                            rel.name@,
                        ) + if needs_update(gs[i as int].1@, rel.name@) {
                            seq![short_name@]
                        } else {
                            Seq::empty()
                        });
                        let piece = if needs_update(gs[i as int].1@, rel.name@) {
                            seq![short_name@]
                        } else {
                            Seq::empty()
                        };
                        let prefix = names_needing_update(gs.subrange(0, i as int), rel.name@);
                        assert(names_needing_update(sub_next, rel.name@) == prefix + piece);
                        assert(strs_view(self.state.games_that_require_update@) =~= start
                            + names_needing_update(sub_next, rel.name@));
                    }
                },
                None => {
                    self.state.games_that_require_update.push(short_name.clone());
                    proof {
                        match release {
                            Some(rel) => {
                                let prefix = names_needing_update(gs.subrange(0, i as int), rel.name@);
                                assert(needs_update(gs[i as int].1@, rel.name@));
                                assert(names_needing_update(sub_next, rel.name@) == prefix + seq![short_name@]);
                                assert(strs_view(self.state.games_that_require_update@) =~= strs_view(before).push(short_name@));
                                assert(strs_view(self.state.games_that_require_update@) =~= start
                                    + names_needing_update(sub_next, rel.name@));
                            },
                            None => {
                                assert(strs_view(self.state.games_that_require_update@) =~= strs_view(before).push(short_name@));
                                assert(assoc_keys(sub_next) =~= assoc_keys(gs.subrange(0, i as int)).push(short_name@));
                                assert(strs_view(self.state.games_that_require_update@) =~= start
                                    + assoc_keys(sub_next));
                            },
                        }
                    }
                },
            }
            i += 1;
        }
        proof {
            assert(gs.subrange(0, gs.len() as int) =~= gs);
            if release is None {
                crate::seq_util::lemma_first_index(flags, true);
            }
        }
        Ok(())
    }

    /// For a run that updates one game: marks it to be launched when asked
    /// to, and, when it needs the update, selects its assets from the report.
    pub fn pick_one_game_from_report(&mut self, game_short_name: &str, run_after: RunAfter) -> (r: ResultManagerErr<()>)
        requires
            assoc_keys(old(self).config.games@).contains(game_short_name@),
            old(self).config.games@[assoc_index(old(self).config.games@, game_short_name@).unwrap()].1.steamId is Some,
        ensures
            final(self).config == old(self).config,
            final(self).github_release_manager == old(self).github_release_manager,
            final(self).state.games_that_require_update == old(self).state.games_that_require_update,
            final(self).state.selected_option == old(self).state.selected_option,
            ({
                let g = old(self).config.games@[assoc_index(old(self).config.games@, game_short_name@).unwrap()];
                &&& final(self).state.selected_game_to_launch == if run_after == RunAfter::yes {
                    Some(g.1.steamId.unwrap())
                } else {
                    old(self).state.selected_game_to_launch
                }
                &&& if !strs_view(old(self).state.games_that_require_update@).contains(game_short_name@) {
                    r is Ok && final(self).state.selected_assets == old(self).state.selected_assets
                } else {
                    match old(self).github_release_manager {
                        None => r == Err::<(), REvilManagerError>(REvilManagerError::ReleaseManagerIsNotInitialized)
                            && final(self).state.selected_assets@ == old(self).state.selected_assets@,
                        Some(m) => r is Ok && match assoc_index(m.report@, game_short_name@) {
                            Some(i) => final(self).state.selected_assets@ == old(self).state.selected_assets@
                                + assets_for_game(m.report@[i].1@, game_short_name@, g.1@),
                            None => final(self).state.selected_assets@ == old(self).state.selected_assets@,
                        },
                    }
                }
            }),
    {
        let k = assoc_find(&self.config.games, game_short_name).unwrap();
        proof {
            lemma_first_index(assoc_keys(self.config.games@), game_short_name@);
        }
        if run_after.to_bool() {
            let steam_id = get_steam_id_by_short_name(&self.config.games, game_short_name).clone();
            self.state.selected_game_to_launch = Some(steam_id);
        }
        if !contains_string(&self.state.games_that_require_update, game_short_name) {
            return Ok(());
        }
        set_game_from_report_as_selected_to_download(
            self.github_release_manager.as_ref(),
            &mut self.state.selected_assets,
            &self.config.games[k].1,
            game_short_name,
        )
    }
}

/// `after` is `before` with the record at `k` (keeping its name) replaced by
/// one whose view is `g`.
pub open spec fn record_replaced(
    before: Seq<(ShortGameName, GameConfig)>,
    after: Seq<(ShortGameName, GameConfig)>,
    k: int,
    g: GameConfigView,
) -> bool {
    &&& after.len() == before.len()
    &&& after[k].0 == before[k].0
    &&& after[k].1@ == g
    &&& forall|j: int| 0 <= j < before.len() && j != k ==> after[j] == before[j]
}

/// The position of a known game.
pub open spec fn game_index(gs: Seq<(ShortGameName, GameConfig)>, short_name: Seq<char>) -> int {
    assoc_index(gs, short_name).unwrap()
}

/// The game is known and has a build type.
pub open spec fn has_build_type(gs: Seq<(ShortGameName, GameConfig)>, short_name: Seq<char>) -> bool {
    &&& assoc_keys(gs).contains(short_name)
    &&& gs[game_index(gs, short_name)].1.nextgen is Some
}

/// The game is known and its newest version record can be read.
pub open spec fn has_newest_record(gs: Seq<(ShortGameName, GameConfig)>, short_name: Seq<char>) -> bool {
    &&& assoc_keys(gs).contains(short_name)
    &&& gs[game_index(gs, short_name)].1.versions is Some
    &&& newest_record_present(gs[game_index(gs, short_name)].1@.versions)
}

/// The versions with the newest record's version name replaced by `name`.
pub open spec fn newest_renamed(vs: Seq<Seq<Seq<char>>>, name: Seq<char>) -> Seq<Seq<Seq<char>>> {
    vs.update(0, vs[0].update(0, name))
}

/// The quirk of the original removal: the index of `asset` among the
/// archives of the newest record (after its version name), used as an
/// index into the whole record.
pub open spec fn newest_without_asset(vs: Seq<Seq<Seq<char>>>, asset: Seq<char>) -> Seq<Seq<Seq<char>>> {
    let p = first_index(vs[0].skip(1), asset).unwrap();
    vs.update(0, vs[0].remove(p))
}

/// What remains to be done after the in-memory part of a type switch.
#[derive(PartialEq, Eq, Debug)]
pub enum SwitchStep {
    /// Nothing was chosen.
    Done,
    /// Unpack `asset` of the newest version for the game, then record it,
    /// save and launch.
    Unzip(ShortGameName, String),
    /// Save the configuration and restart for the game.
    SaveAndRestart(ShortGameName),
}

/// How an archive is unpacked into a game folder.
#[derive(PartialEq, Eq, Debug)]
pub enum UnzipSkip {
    /// Every file but the one named.
    SkipFile(String),
    /// Only the file named.
    OnlyFile(String),
}

/// Where an archive comes from and goes to.
#[derive(PartialEq, Eq, Debug)]
pub struct UnzipPlan {
    pub cache_folder: String,
    pub file_name: String,
    pub destination: String,
    pub skip: UnzipSkip,
}

/// The library file of the other runtime, to be removed from the game folder.
#[derive(PartialEq, Eq, Debug)]
pub struct SecondRuntimeFile {
    pub game_folder: String,
    pub file_name: String,
}

/// What to prepare in the game folder before a launch.
#[derive(PartialEq, Eq, Debug)]
pub struct LaunchPrep {
    pub short_name: String,
    /// The runtime library the game needs; when it is missing, `archive` of
    /// `version` is unpacked for it alone.
    pub runtime_file: String,
    pub version: String,
    pub archive: Option<String>,
    pub second_runtime: SecondRuntimeFile,
}

/// Whether an archive of a version record fits the game's build type when
/// preparing a launch: archives of one-build games, and any archive when the
/// type is unknown, fit.
pub open spec fn archive_fits(short_name: Seq<char>, nextgen: Option<bool>, name: Seq<char>) -> bool {
    match asset_tdb(short_name, name) {
        None => true,
        Some(tdb) => match nextgen {
            None => true,
            Some(ng) => (tdb && !ng) || (!tdb && ng),
        },
    }
}

/// The first archive of a version record (after its version name) that fits.
pub open spec fn fitting_archive(short_name: Seq<char>, nextgen: Option<bool>, set: Seq<Seq<char>>) -> Option<Seq<char>> {
    match first_index(set.skip(1).map_values(|a: Seq<char>| archive_fits(short_name, nextgen, a)), true) {
        Some(i) => Some(set[i + 1]),
        None => None,
    }
}

/// For each version record, whether it is the record of `version`.
pub open spec fn version_flags(vs: Seq<Seq<Seq<char>>>, version: Seq<char>) -> Seq<bool> {
    vs.map_values(|set: Seq<Seq<char>>| set.len() > 0 && set[0] == version)
}

/// The record a launch reads: the one of the version in use, else the newest.
pub open spec fn launch_record(vs: Seq<Seq<Seq<char>>>, version: Seq<char>) -> Seq<Seq<char>> {
    match first_index(version_flags(vs, version), true) {
        Some(i) => vs[i],
        None => vs[0],
    }
}

/// The records a launch reads can be read: there is at least one, and each
/// record up to and including the first one of `version` is non-empty.
pub open spec fn records_readable_until(vs: Seq<Seq<Seq<char>>>, version: Seq<char>) -> bool {
    &&& vs.len() > 0
    &&& forall|i: int|
        0 <= i < vs.len() && (forall|j: int| 0 <= j < i ==> !(#[trigger] version_flags(vs, version)[j]))
            ==> (#[trigger] vs[i]).len() > 0
}

impl REvilManager {
    /// Flips the build type (standard/nextgen) of a game.
    pub fn toggle_nextgen(&mut self, short_name: &str)
        requires
            has_build_type(old(self).config.games@, short_name@),
        ensures
            ({
                let k = game_index(old(self).config.games@, short_name@);
                let g = old(self).config.games@[k].1@;
                record_replaced(
                    old(self).config.games@,
                    final(self).config.games@,
                    k,
                    GameConfigView { nextgen: Some(!g.nextgen.unwrap()), ..g },
                )
            }),
            final(self).config.main == old(self).config.main,
            final(self).state == old(self).state,
            final(self).github_release_manager == old(self).github_release_manager,
    {
        let k = assoc_find(&self.config.games, short_name).unwrap();
        proof {
            lemma_first_index(assoc_keys(self.config.games@), short_name@);
        }
        let n = self.config.games[k].1.nextgen.unwrap();
        self.config.games[k].1.nextgen = Some(!n);
    }

    /// Marks the newest version record of a game as a pending type switch.
    pub fn set_switch_as_version(&mut self, short_name: &str)
        requires
            has_newest_record(old(self).config.games@, short_name@),
        ensures
            ({
                let k = game_index(old(self).config.games@, short_name@);
                let g = old(self).config.games@[k].1@;
                record_replaced(
                    old(self).config.games@,
                    final(self).config.games@,
                    k,
                    GameConfigView { versions: Some(newest_renamed(g.versions.unwrap(), SWITCH_IDENTIFIER@)), ..g },
                )
            }),
            final(self).config.main == old(self).config.main,
            final(self).state == old(self).state,
            final(self).github_release_manager == old(self).github_release_manager,
    {
        let k = assoc_find(&self.config.games, short_name).unwrap();
        proof {
            lemma_first_index(assoc_keys(self.config.games@), short_name@);
        }
        let ghost before = self.config.games@;
        let ghost g = before[k as int].1@;
        match &mut self.config.games[k].1.versions {
            Some(vs) => {
                proof {
                    assert(nested_strs_view(vs@)[0] == strs_view(vs@[0]@));
                }
                let ghost old_vs = vs@;
                vs[0][0] = String::from_str(SWITCH_IDENTIFIER);
                proof {
                    assert(strs_view(vs@[0]@) =~= strs_view(old_vs[0]@).update(0, SWITCH_IDENTIFIER@));
                    assert(nested_strs_view(vs@) =~= newest_renamed(nested_strs_view(old_vs), SWITCH_IDENTIFIER@));
                }
            },
            None => {},
        }
    }

    /// Removes an archive from the newest version record of a game, at the
    /// index it has among the record's archives (see `newest_without_asset`).
    pub fn remove_from_newest_record(&mut self, short_name: &str, asset_name: &str)
        requires
            has_newest_record(old(self).config.games@, short_name@),
            old(self).config.games@[game_index(old(self).config.games@, short_name@)].1@.versions.unwrap()[0].skip(
                1,
            ).contains(asset_name@),
        ensures
            ({
                let k = game_index(old(self).config.games@, short_name@);
                let g = old(self).config.games@[k].1@;
                record_replaced(
                    old(self).config.games@,
                    final(self).config.games@,
                    k,
                    GameConfigView { versions: Some(newest_without_asset(g.versions.unwrap(), asset_name@)), ..g },
                )
            }),
            final(self).config.main == old(self).config.main,
            final(self).state == old(self).state,
            final(self).github_release_manager == old(self).github_release_manager,
    {
        let k = assoc_find(&self.config.games, short_name).unwrap();
        proof {
            lemma_first_index(assoc_keys(self.config.games@), short_name@);
        }
        match &mut self.config.games[k].1.versions {
            Some(vs) => {
                let ghost old_vs = vs@;
                let ghost first = strs_view(old_vs[0]@);
                proof {
                    assert(nested_strs_view(old_vs)[0] == first);
                    lemma_first_index(first.skip(1), asset_name@);
                }
                let n = vs[0].len();
                let mut p: usize = 0;
                proof {
                    let j = choose|j: int| 0 <= j < first.skip(1).len() && first.skip(1)[j] == asset_name@;
                    assert(first.len() == vs@[0]@.len());
                }
                loop
                    invariant
                        vs@ == old_vs,
                        vs@.len() > 0,
                        first == strs_view(vs@[0]@),
                        first.skip(1).contains(asset_name@),
                        forall|j: int| 0 <= j < p ==> first.skip(1)[j] != asset_name@,
                        p + 1 < vs@[0]@.len(),
                        n == vs@[0]@.len(),
                    ensures
                        vs@ == old_vs,
                        vs@.len() > 0,
                        p + 1 < vs@[0]@.len(),
                        first.skip(1)[p as int] == asset_name@,
                        forall|j: int| 0 <= j < p ==> first.skip(1)[j] != asset_name@,
                    decreases vs@[0]@.len() - p,
                {
                    if crate::text::str_eq(vs[0][p + 1].as_str(), asset_name) {
                        assert(first.skip(1)[p as int] == vs@[0]@[p + 1]@);
                        break;
                    }
                    proof {
                        assert(first.skip(1)[p as int] == vs@[0]@[p + 1]@);
                        let j = choose|j: int| 0 <= j < first.skip(1).len() && first.skip(1)[j] == asset_name@;
                        assert(j > p);
                    }
                    p += 1;
                }
                proof {
                    crate::seq_util::lemma_first_index_at(first.skip(1), asset_name@, p as int);
                }
                vs[0].remove(p);
                proof {
                    assert(strs_view(vs@[0]@) =~= first.remove(p as int));
                    assert(nested_strs_view(vs@) =~= newest_without_asset(nested_strs_view(old_vs), asset_name@));
                }
            },
            None => {},
        }
    }
}

/// The file skipped when unpacking an archive into a game folder: the
/// library of the other runtime (the game's runtime, OpenVR when unset).
pub open spec fn skipped_runtime_file(runtime: Option<Runtime>) -> Seq<char> {
    match runtime {
        Some(r) => runtime_dll(opposite_runtime(r)),
        None => runtime_dll(Runtime::OpenXR),
    }
}

/// Whether an after-unzip option was given.
pub open spec fn option_given(options: Option<Vec<AfterUnzipOption>>, o: AfterUnzipOption) -> bool {
    options matches Some(os) && os@.contains(o)
}

/// The game record after unpacking `asset` of version `version`: the version
/// recorded unless told not to, and the build type taken from the asset.
pub open spec fn record_after_unzip(
    g: GameConfigView,
    short_name: Seq<char>,
    asset: Seq<char>,
    version: Seq<char>,
    set_version: bool,
) -> GameConfigView {
    let g1 = if set_version {
        GameConfigView {
            versions: Some(versions_after_unzip(g.versions, version, asset)),
            version_in_use: Some(version),
            ..g
        }
    } else {
        g
    };
    match asset_tdb(short_name, asset) {
        Some(tdb) => GameConfigView { nextgen: Some(!tdb), ..g1 },
        None => g1,
    }
}

fn option_in(options: &Option<Vec<AfterUnzipOption>>, o: AfterUnzipOption) -> (r: bool)
    ensures
        r == option_given(*options, o),
{
    match options {
        None => false,
        Some(os) => {
            let mut i: usize = 0;
            while i < os.len()
                invariant
                    i <= os@.len(),
                    *options matches Some(w) && w@ == os@,
                    forall|j: int| 0 <= j < i ==> os@[j] != o,
                decreases os@.len() - i,
            {
                if os[i] == o {
                    assert(os@[i as int] == o);
                    assert(os@.contains(o));
                    return true;
                }
                i += 1;
            }
            assert(!os@.contains(o));
            false
        },
    }
}

impl REvilManager {
    /// How to unpack archive `file_name` of version `version` (the release's
    /// version when `None`) for a game: from its cache folder into the game
    /// folder, skipping the other runtime's library, or, with `keep_only`,
    /// every file but that one.
    pub fn unzip_plan(
        &self,
        game_short_name: &str,
        file_name: &str,
        version: Option<&str>,
        keep_only: Option<&str>,
    ) -> (r: ResultManagerErr<UnzipPlan>)
        ensures
            !assoc_keys(self.config.games@).contains(game_short_name@) ==> (r matches Err(
                REvilManagerError::GameNotFoundForGivenShortName(n),
            ) && n@ == game_short_name@),
            assoc_keys(self.config.games@).contains(game_short_name@) ==> ({
                let g = self.config.games@[game_index(self.config.games@, game_short_name@)].1@;
                match self.github_release_manager {
                    None => r == Err::<UnzipPlan, REvilManagerError>(REvilManagerError::ReleaseManagerIsNotInitialized),
                    Some(m) => if version is None && m.release is None {
                        r == Err::<UnzipPlan, REvilManagerError>(REvilManagerError::GetLocalPathToCacheErr)
                    } else if g.location is None {
                        r == Err::<UnzipPlan, REvilManagerError>(REvilManagerError::GameLocationMissing)
                    } else {
                        r matches Ok(plan) && plan.cache_folder@ == crate::utils::get_local_path_to_cache::cache_folder(
                            match version {
                                Some(v) => v@,
                                None => m.release.unwrap().name@,
                            },
                        ) && plan.file_name@ == file_name@ && plan.destination@ == g.location.unwrap() && match keep_only {
                            Some(f) => plan.skip matches UnzipSkip::OnlyFile(o) && o@ == f@,
                            None => plan.skip matches UnzipSkip::SkipFile(o) && o@ == skipped_runtime_file(g.runtime),
                        }
                    }
                }
            }),
    {
        let k = match assoc_find(&self.config.games, game_short_name) {
            Some(k) => k,
            None => return Err(REvilManagerError::GameNotFoundForGivenShortName(owned(game_short_name))),
        };
        proof {
            lemma_first_index(assoc_keys(self.config.games@), game_short_name@);
        }
        let game_config = &self.config.games[k].1;
        let manager = match &self.github_release_manager {
            Some(m) => m,
            None => return Err(REvilManagerError::ReleaseManagerIsNotInitialized),
        };
        let cache_folder = match crate::utils::get_local_path_to_cache::get_local_path_to_cache_folder(
            manager.getRelease(),
            version,
        ) {
            Ok(p) => p,
            Err(_) => return Err(REvilManagerError::GetLocalPathToCacheErr),
        };
        let location = match &game_config.location {
            Some(l) => l.clone(),
            None => return Err(REvilManagerError::GameLocationMissing),
        };
        let skip = match keep_only {
            Some(f) => UnzipSkip::OnlyFile(owned(f)),
            None => match &game_config.runtime {
                Some(r) => UnzipSkip::SkipFile(r.as_opposite_local_dll()),
                None => UnzipSkip::SkipFile(Runtime::OpenVR.as_opposite_local_dll()),
            },
        };
        Ok(UnzipPlan { cache_folder, file_name: owned(file_name), destination: location, skip })
    }

    /// The version recorded after unpacking: the release's name.
    pub fn after_unzip_version(&self) -> (r: ResultManagerErr<String>)
        ensures
            match self.github_release_manager {
                None => r == Err::<String, REvilManagerError>(REvilManagerError::ReleaseManagerIsNotInitialized),
                Some(m) => match m.release {
                    None => r == Err::<String, REvilManagerError>(REvilManagerError::ReleaseIsEmpty),
                    Some(rel) => r matches Ok(v) && v@ == rel.name@,
                },
            },
    {
        let manager = match &self.github_release_manager {
            Some(m) => m,
            None => return Err(REvilManagerError::ReleaseManagerIsNotInitialized),
        };
        match manager.getRelease() {
            Some(rel) => Ok(rel.name.clone()),
            None => Err(REvilManagerError::ReleaseIsEmpty),
        }
    }

    /// Records an unpacked asset: its game no longer needs the update
    /// (unless `SkipRemovingFromRequiredUpdates`), its version becomes the
    /// newest and the one in use (unless `SkipSettingVersion`), and the build
    /// type follows the asset. Gives the other runtime's library, which is
    /// then removed from the game folder.
    pub fn after_unzip_asset(
        &mut self,
        asset: &ReleaseAsset,
        version: &str,
        options: &Option<Vec<AfterUnzipOption>>,
    ) -> (r: ResultManagerErr<(String, SecondRuntimeFile)>)
        requires
            match asset_short_name(asset.name@) {
                Some(short) => assoc_keys(old(self).config.games@).contains(short) && !option_given(
                    *options,
                    AfterUnzipOption::SkipSettingVersion,
                ) ==> newest_record_present(old(self).config.games@[game_index(old(self).config.games@, short)].1@.versions),
                None => true,
            },
        ensures
            final(self).config.main == old(self).config.main,
            final(self).github_release_manager == old(self).github_release_manager,
            final(self).state.selected_assets == old(self).state.selected_assets,
            final(self).state.selected_game_to_launch == old(self).state.selected_game_to_launch,
            final(self).state.selected_option == old(self).state.selected_option,
            ({
                let opts = *options;
                let req = strs_view(old(self).state.games_that_require_update@);
                match asset_short_name(asset.name@) {
                    None => r matches Err(REvilManagerError::CannotDeductShortNameFromAssetName(n))
                        && n == asset.name && final(self).config == old(self).config
                        && final(self).state.games_that_require_update == old(self).state.games_that_require_update,
                    Some(short) => {
                        &&& strs_view(final(self).state.games_that_require_update@) == if option_given(
                            opts,
                            AfterUnzipOption::SkipRemovingFromRequiredUpdates,
                        ) {
                            req
                        } else {
                            match first_index(req, short) {
                                Some(i) => req.remove(i),
                                None => req,
                            }
                        }
                        &&& if !assoc_keys(old(self).config.games@).contains(short) {
                            r matches Err(REvilManagerError::GameNotFoundForGivenShortName(n)) && n@ == short
                                && final(self).config == old(self).config
                        } else {
                            let k = game_index(old(self).config.games@, short);
                            let g = record_after_unzip(
                                old(self).config.games@[k].1@,
                                short,
                                asset.name@,
                                version@,
                                !option_given(opts, AfterUnzipOption::SkipSettingVersion),
                            );
                            &&& record_replaced(old(self).config.games@, final(self).config.games@, k, g)
                            &&& match (g.location, g.runtime) {
                                (None, _) => r == Err::<(String, SecondRuntimeFile), REvilManagerError>(
                                    REvilManagerError::GameLocationMissing,
                                ),
                                (Some(_), None) => r matches Err(REvilManagerError::ModRuntimeIsNone(n)) && n@.len() == 0,
                                (Some(l), Some(rt)) => r matches Ok((n, f)) && n@ == short && f.game_folder@ == l
                                    && f.file_name@ == runtime_dll(opposite_runtime(rt)),
                            }
                        }
                    },
                }
            }),
    {
        let short = match get_game_short_name_from_asset(asset) {
            Ok(s) => s,
            Err(e) => return Err(e),
        };
        let ghost req = self.state.games_that_require_update@;
        if !option_in(options, AfterUnzipOption::SkipRemovingFromRequiredUpdates) {
            remove_game_from_update_needed_ones(&mut self.state.games_that_require_update, short.as_str());
            proof {
                lemma_first_index(strs_view(req), short@);
                match first_index(strs_view(req), short@) {
                    Some(i) => {
                        assert(strs_view(self.state.games_that_require_update@) =~= strs_view(req).remove(i));
                    },
                    None => {},
                }
            }
        }
        let k = match assoc_find(&self.config.games, short.as_str()) {
            Some(k) => k,
            None => return Err(REvilManagerError::GameNotFoundForGivenShortName(short)),
        };
        proof {
            lemma_first_index(assoc_keys(self.config.games@), short@);
        }
        let ghost before = self.config.games@;
        let ghost g0 = self.config.games@[k as int].1@;
        let set_version = !option_in(options, AfterUnzipOption::SkipSettingVersion);
        if set_version {
            assert(newest_record_present(self.config.games@[k as int].1@.versions));
            add_asset_ver_to_game_conf_ver(&mut self.config.games[k].1, version, asset);
        }
        match is_asset_tdb(short.as_str(), asset) {
            Some(tdb) => {
                self.config.games[k].1.nextgen = Some(!tdb);
            },
            None => {},
        }
        proof {
            assert(self.config.games@[k as int].1@ == record_after_unzip(g0, short@, asset.name@, version@, set_version));
            assert(record_replaced(before, self.config.games@, k as int, record_after_unzip(g0, short@, asset.name@, version@, set_version)));
        }
        let game_config = &self.config.games[k].1;
        let location = match &game_config.location {
            Some(l) => l.clone(),
            None => return Err(REvilManagerError::GameLocationMissing),
        };
        let file_name = match &game_config.runtime {
            Some(rt) => rt.as_opposite_local_dll(),
            None => return Err(REvilManagerError::ModRuntimeIsNone(String::new())),
        };
        Ok((short, SecondRuntimeFile { game_folder: location, file_name }))
    }

    /// The oldest version record of a game, when the game keeps more than
    /// `MAX_ZIP_FILES_PER_GAME_CACHE` of them; its cache is then cleaned up
    /// and the record dropped (`drop_oldest_version`).
    pub fn cache_overflow(&self, short_name: &str) -> (r: Option<Vec<String>>)
        requires
            assoc_keys(self.config.games@).contains(short_name@),
            self.config.games@[game_index(self.config.games@, short_name@)].1.versions is Some,
        ensures
            ({
                let vs = self.config.games@[game_index(self.config.games@, short_name@)].1@.versions.unwrap();
                if vs.len() > crate::MAX_ZIP_FILES_PER_GAME_CACHE {
                    r matches Some(last) && strs_view(last@) == vs.last()
                } else {
                    r is None
                }
            }),
    {
        let k = assoc_find(&self.config.games, short_name).unwrap();
        proof {
            lemma_first_index(assoc_keys(self.config.games@), short_name@);
        }
        match &self.config.games[k].1.versions {
            Some(vs) => {
                if vs.len() > crate::MAX_ZIP_FILES_PER_GAME_CACHE as usize {
                    let n = vs.len();
                    assert(nested_strs_view(vs@)[n - 1] == strs_view(vs@[n - 1]@));
                    Some(crate::seq_util::copy_strings(&vs[n - 1]))
                } else {
                    None
                }
            },
            None => None,
        }
    }

    /// Drops the oldest version record of a game.
    pub fn drop_oldest_version(&mut self, short_name: &str)
        requires
            assoc_keys(old(self).config.games@).contains(short_name@),
            old(self).config.games@[game_index(old(self).config.games@, short_name@)].1.versions is Some,
        ensures
            ({
                let k = game_index(old(self).config.games@, short_name@);
                let g = old(self).config.games@[k].1@;
                record_replaced(
                    old(self).config.games@,
                    final(self).config.games@,
                    k,
                    GameConfigView {
                        versions: Some(
                            if g.versions.unwrap().len() > 0 {
                                g.versions.unwrap().drop_last()
                            } else {
                                g.versions.unwrap()
                            },
                        ),
                        ..g
                    },
                )
            }),
            final(self).config.main == old(self).config.main,
            final(self).state == old(self).state,
            final(self).github_release_manager == old(self).github_release_manager,
    {
        let k = assoc_find(&self.config.games, short_name).unwrap();
        proof {
            lemma_first_index(assoc_keys(self.config.games@), short_name@);
        }
        match &mut self.config.games[k].1.versions {
            Some(vs) => {
                let ghost before = vs@;
                if vs.len() > 0 {
                    vs.pop();
                    assert(nested_strs_view(vs@) =~= nested_strs_view(before).drop_last());
                }
            },
            None => {},
        }
    }

    /// Empties the selected assets once they are unpacked and recorded.
    pub fn clear_selected_assets(&mut self)
        ensures
            final(self).state.selected_assets@.len() == 0,
            final(self).config == old(self).config,
            final(self).github_release_manager == old(self).github_release_manager,
            final(self).state.games_that_require_update == old(self).state.games_that_require_update,
            final(self).state.selected_game_to_launch == old(self).state.selected_game_to_launch,
            final(self).state.selected_option == old(self).state.selected_option,
    {
        self.state.selected_assets.clear();
    }
}

/// A launch of this game can be prepared without failing on a missing
/// value: when it has versions and a version in use, the records read can
/// be read (see `records_readable_until`), and when an archive would be
/// needed its runtime is set.
pub open spec fn launch_ready(g: GameConfigView) -> bool {
    g.versions is Some && g.version_in_use is Some ==> {
        &&& records_readable_until(g.versions.unwrap(), g.version_in_use.unwrap())
        &&& (launch_record(g.versions.unwrap(), g.version_in_use.unwrap()).len() >= 2 && g.location is Some
            ==> g.runtime is Some)
    }
}

/// `archive_fits` on a name.
pub fn archive_fits_exec(short_name: &str, nextgen: Option<bool>, name: &str) -> (r: bool)
    ensures
        r == archive_fits(short_name@, nextgen, name@),
{
    match crate::utils::is_asset_tdb::is_asset_name_tdb(short_name, name) {
        None => true,
        Some(tdb) => match nextgen {
            None => true,
            Some(ng) => (tdb && !ng) || (!tdb && ng),
        },
    }
}

impl REvilManager {
    /// What to prepare before launching the game with Steam id `steam_id`:
    /// nothing when no mod version is recorded or the version's record has
    /// no archive; otherwise the runtime library the game needs (unpacked
    /// alone from the first fitting archive of the record when it is
    /// missing) and the other runtime's library to remove.
    pub fn before_launch_plan(&self, steam_id: &str) -> (r: ResultManagerErr<Option<LaunchPrep>>)
        requires
            steam_ids_readable(self.config.games@, steam_id@),
            steam_id_index(self.config.games@, steam_id@) matches Some(i) ==> launch_ready(
                self.config.games@[i].1@,
            ),
        ensures
            match steam_id_index(self.config.games@, steam_id@) {
                None => r matches Err(REvilManagerError::GameNotFoundForGivenSteamId(s)) && s@ == steam_id@,
                Some(i) => {
                    let short = self.config.games@[i].0@;
                    let g = self.config.games@[i].1@;
                    if g.versions is None || g.version_in_use is None {
                        r matches Ok(None)
                    } else {
                        let set = launch_record(g.versions.unwrap(), g.version_in_use.unwrap());
                        if set.len() < 2 {
                            r matches Ok(None)
                        } else if g.location is None {
                            r == Err::<Option<LaunchPrep>, REvilManagerError>(REvilManagerError::GameLocationMissing)
                        } else {
                            r matches Ok(Some(p)) && p.short_name@ == short && p.runtime_file@ == runtime_dll(
                                g.runtime.unwrap(),
                            ) && p.version@ == set[0] && opt_str_view(p.archive) == fitting_archive(
                                short,
                                g.nextgen,
                                set,
                            ) && p.second_runtime.game_folder@ == g.location.unwrap()
                                && p.second_runtime.file_name@ == runtime_dll(opposite_runtime(g.runtime.unwrap()))
                        }
                    }
                },
            },
    {
        let (short, game_config) = match find_game_conf_by_steam_id(&self.config, steam_id) {
            Ok(found) => found,
            Err(e) => return Err(e),
        };
        let ghost i = steam_id_index(self.config.games@, steam_id@).unwrap();
        let (vs, in_use) = match (&game_config.versions, &game_config.version_in_use) {
            (Some(vs), Some(u)) => (vs, u),
            _ => return Ok(None),
        };
        let ghost vsv = nested_strs_view(vs@);
        let ghost flags = version_flags(vsv, in_use@);
        let mut pos: usize = 0;
        let mut found = false;
        while pos < vs.len()
            invariant_except_break
                !found,
            invariant
                vsv == nested_strs_view(vs@),
                flags == version_flags(vsv, in_use@),
                records_readable_until(vsv, in_use@),
                pos <= vs@.len(),
                forall|j: int| 0 <= j < pos ==> !(#[trigger] flags[j]),
            ensures
                found ==> pos < vs@.len() && flags[pos as int],
                !found ==> pos == vs@.len(),
            decreases vs@.len() - pos,
        {
            assert(vsv[pos as int] == strs_view(vs@[pos as int]@));
            assert(vsv[pos as int].len() > 0);
            assert(vs@[pos as int]@.len() > 0);
            assert(vsv[pos as int][0] == vs@[pos as int]@[0]@);
            if crate::text::str_eq(vs[pos][0].as_str(), in_use.as_str()) {
                assert(flags[pos as int]);
                found = true;
                break;
            }
            pos += 1;
        }
        proof {
            if found {
                crate::seq_util::lemma_first_index_at(flags, true, pos as int);
            } else {
                lemma_first_index(flags, true);
            }
        }
        let set: &Vec<String> = if found {
            &vs[pos]
        } else {
            &vs[0]
        };
        assert(strs_view(set@) == launch_record(vsv, in_use@));
        if set.len() < 2 {
            return Ok(None);
        }
        let location = match &game_config.location {
            Some(l) => l.clone(),
            None => return Err(REvilManagerError::GameLocationMissing),
        };
        let runtime = game_config.runtime.unwrap();
        let ghost sv = strs_view(set@);
        let ghost fits = sv.skip(1).map_values(|a: Seq<char>| archive_fits(short@, game_config.nextgen, a));
        let mut j: usize = 1;
        let mut archive: Option<String> = None;
        while j < set.len()
            invariant_except_break
                archive is None,
            invariant
                sv == strs_view(set@),
                fits == sv.skip(1).map_values(|a: Seq<char>| archive_fits(short@, game_config.nextgen, a)),
                1 <= j <= set@.len(),
                forall|m: int| 0 <= m < j - 1 ==> !(#[trigger] fits[m]),
            ensures
                match archive {
                    Some(a) => a@ == sv[j as int] && fits[j - 1] && 1 <= j < set@.len(),
                    None => forall|m: int| 0 <= m < fits.len() ==> !(#[trigger] fits[m]),
                },
                forall|m: int| 0 <= m < j - 1 ==> !(#[trigger] fits[m]),
            decreases set@.len() - j,
        {
            assert(fits[j - 1] == archive_fits(short@, game_config.nextgen, set@[j as int]@));
            if archive_fits_exec(short.as_str(), game_config.nextgen, set[j].as_str()) {
                archive = Some(set[j].clone());
                break;
            }
            j += 1;
        }
        proof {
            if archive is Some {
                crate::seq_util::lemma_first_index_at(fits, true, j - 1);
            } else {
                lemma_first_index(fits, true);
            }
        }
        assert(sv[0] == set@[0]@);
        Ok(
            Some(
                LaunchPrep {
                    short_name: short.clone(),
                    runtime_file: runtime.as_local_dll(),
                    version: set[0].clone(),
                    archive,
                    second_runtime: SecondRuntimeFile {
                        game_folder: location,
                        file_name: runtime.as_opposite_local_dll(),
                    },
                },
            ),
        )
    }
}

/// The order of dialog labels: labels holding `SORT_DETERMINER` after the
/// others.
pub open spec fn label_order(a: Seq<char>, b: Seq<char>) -> Ordering {
    let ai = contains(a, SORT_DETERMINER@);
    let bi = contains(b, SORT_DETERMINER@);
    if ai && !bi {
        Ordering::Greater
    } else if !ai && !bi {
        Ordering::Equal
    } else {
        Ordering::Less
    }
}

impl REvilManager {
    /// Compares two dialog labels by `label_order`.
    pub fn sort(a: &str, b: &str) -> (r: Ordering)
        ensures
            r == label_order(a@, b@),
    {
        let ai = contains_str(a, SORT_DETERMINER);
        let bi = contains_str(b, SORT_DETERMINER);
        if ai && !bi {
            Ordering::Greater
        } else if !ai && !bi {
            Ordering::Equal
        } else {
            Ordering::Less
        }
    }
}

proof fn lemma_labels_split(s: Seq<String>, pat: Seq<char>)
    ensures
        forall|i: int|
            0 <= i < labels_without(s, pat).len() ==> !contains(#[trigger] labels_without(s, pat)[i]@, pat),
        forall|i: int| 0 <= i < labels_with(s, pat).len() ==> contains(#[trigger] labels_with(s, pat)[i]@, pat),
    decreases s.len(),
{
    if s.len() > 0 {
        let p = s.drop_last();
        lemma_labels_split(p, pat);
        let w = labels_without(s, pat);
        let pw = labels_without(p, pat);
        assert forall|i: int| 0 <= i < w.len() implies !contains(#[trigger] w[i]@, pat) by {
            if i < pw.len() {
                assert(w[i] == pw[i]);
            } else {
                assert(w[i] == s.last());
            }
        }
        let h = labels_with(s, pat);
        let ph = labels_with(p, pat);
        assert forall|i: int| 0 <= i < h.len() implies contains(#[trigger] h[i]@, pat) by {
            if i < ph.len() {
                assert(h[i] == ph[i]);
            } else {
                assert(h[i] == s.last());
            }
        }
    }
}

/// Moving the labels that hold `SORT_DETERMINER` last orders the labels
/// by `REvilManager::sort`: no label compares greater than a later one.
pub proof fn lemma_info_labels_last_are_sorted(s: Seq<String>)
    ensures
        ({
            let r = labels_without(s, SORT_DETERMINER@) + labels_with(s, SORT_DETERMINER@);
            forall|i: int, j: int|
                0 <= i < j < r.len() ==> label_order(#[trigger] r[i]@, #[trigger] r[j]@) != Ordering::Greater
        }),
{
    lemma_labels_split(s, SORT_DETERMINER@);
    let a = labels_without(s, SORT_DETERMINER@);
    let b = labels_with(s, SORT_DETERMINER@);
    let r = a + b;
    assert forall|i: int, j: int| 0 <= i < j < r.len() implies label_order(
        #[trigger] r[i]@,
        #[trigger] r[j]@,
    ) != Ordering::Greater by {
        if i < a.len() {
            assert(r[i] == a[i]);
            assert(!contains(a[i]@, SORT_DETERMINER@));
        } else {
            assert(r[j] == b[j - a.len()]);
            assert(contains(b[j - a.len()]@, SORT_DETERMINER@));
        }
    }
}

/// A type switch report can be carried out: the game it names has a build
/// type, and, where the newest record changes, that record can be read
/// (and holds the archive to drop after its name).
pub open spec fn switch_report_ok(gs: Seq<(ShortGameName, GameConfig)>, report: SwitchActionReport) -> bool {
    match report {
        SwitchActionReport::Early => true,
        SwitchActionReport::ToggleNSaveRestart(s) => has_build_type(gs, s@),
        SwitchActionReport::ToggleNUnzipSave(s, _) => has_build_type(gs, s@),
        SwitchActionReport::ToggleNSetSwitchSaveRestart(s) => has_build_type(gs, s@) && has_newest_record(gs, s@),
        SwitchActionReport::UnsetNonExistentToggleNRestart(s, a) => has_build_type(gs, s@) && has_newest_record(gs, s@)
            && gs[game_index(gs, s@)].1@.versions.unwrap()[0].skip(1).contains(a@),
    }
}

impl REvilManager {
    /// Carries out the in-memory part of a type switch: the build type is
    /// flipped, and where the switch is left pending the newest record is
    /// marked `switch` (after dropping, for an archive missing from the
    /// cache, the entry `remove_from_newest_record` drops). Gives what
    /// remains to be done.
    pub fn switch_first_step(&mut self, report: SwitchActionReport) -> (r: SwitchStep)
        requires
            switch_report_ok(old(self).config.games@, report),
        ensures
            final(self).config.main == old(self).config.main,
            final(self).state == old(self).state,
            final(self).github_release_manager == old(self).github_release_manager,
            match report {
                SwitchActionReport::Early => r == SwitchStep::Done && final(self).config == old(self).config,
                SwitchActionReport::ToggleNSaveRestart(s) => r matches SwitchStep::SaveAndRestart(n) && n@ == s@,
                SwitchActionReport::ToggleNUnzipSave(s, a) => r matches SwitchStep::Unzip(n, b) && n@ == s@ && b@ == a@,
                SwitchActionReport::ToggleNSetSwitchSaveRestart(s) => r matches SwitchStep::SaveAndRestart(n) && n@ == s@,
                SwitchActionReport::UnsetNonExistentToggleNRestart(s, _) => r matches SwitchStep::SaveAndRestart(n) && n@
                    == s@,
            },
            match report {
                SwitchActionReport::Early => true,
                SwitchActionReport::ToggleNSaveRestart(s) => ({
                    let gs = old(self).config.games@;
                    let g = gs[game_index(gs, s@)].1@;
                    record_replaced(gs, final(self).config.games@, game_index(gs, s@), GameConfigView { nextgen: Some(!g.nextgen.unwrap()), ..g })
                }),
                SwitchActionReport::ToggleNUnzipSave(s, _) => ({
                    let gs = old(self).config.games@;
                    let g = gs[game_index(gs, s@)].1@;
                    record_replaced(gs, final(self).config.games@, game_index(gs, s@), GameConfigView { nextgen: Some(!g.nextgen.unwrap()), ..g })
                }),
                SwitchActionReport::ToggleNSetSwitchSaveRestart(s) => ({
                    let gs = old(self).config.games@;
                    let g = gs[game_index(gs, s@)].1@;
                    record_replaced(
                        gs,
                        final(self).config.games@,
                        game_index(gs, s@),
                        GameConfigView {
                            nextgen: Some(!g.nextgen.unwrap()),
                            versions: Some(newest_renamed(g.versions.unwrap(), SWITCH_IDENTIFIER@)),
                            ..g
                        },
                    )
                }),
                SwitchActionReport::UnsetNonExistentToggleNRestart(s, a) => ({
                    let gs = old(self).config.games@;
                    let g = gs[game_index(gs, s@)].1@;
                    record_replaced(
                        gs,
                        final(self).config.games@,
                        game_index(gs, s@),
                        GameConfigView {
                            nextgen: Some(!g.nextgen.unwrap()),
                            versions: Some(
                                newest_renamed(newest_without_asset(g.versions.unwrap(), a@), SWITCH_IDENTIFIER@),
                            ),
                            ..g
                        },
                    )
                }),
            },
    {
        let ghost gs = self.config.games@;
        match report {
            SwitchActionReport::Early => SwitchStep::Done,
            SwitchActionReport::ToggleNSaveRestart(s) => {
                self.toggle_nextgen(s.as_str());
                SwitchStep::SaveAndRestart(s)
            },
            SwitchActionReport::ToggleNUnzipSave(s, a) => {
                self.toggle_nextgen(s.as_str());
                SwitchStep::Unzip(s, a)
            },
            SwitchActionReport::ToggleNSetSwitchSaveRestart(s) => {
                proof {
                    lemma_first_index(assoc_keys(gs), s@);
                }
                self.toggle_nextgen(s.as_str());
                proof {
                    lemma_record_replaced_keys(gs, self.config.games@, game_index(gs, s@));
                }
                self.set_switch_as_version(s.as_str());
                SwitchStep::SaveAndRestart(s)
            },
            SwitchActionReport::UnsetNonExistentToggleNRestart(s, a) => {
                proof {
                    lemma_first_index(assoc_keys(gs), s@);
                }
                self.toggle_nextgen(s.as_str());
                proof {
                    lemma_record_replaced_keys(gs, self.config.games@, game_index(gs, s@));
                }
                let ghost mid = self.config.games@;
                self.remove_from_newest_record(s.as_str(), a.as_str());
                proof {
                    lemma_record_replaced_keys(mid, self.config.games@, game_index(gs, s@));
                    let vs = gs[game_index(gs, s@)].1@.versions.unwrap();
                    let p = first_index(vs[0].skip(1), a@).unwrap();
                    lemma_first_index(vs[0].skip(1), a@);
                    assert(newest_without_asset(vs, a@)[0].len() == vs[0].len() - 1);
                }
                self.set_switch_as_version(s.as_str());
                SwitchStep::SaveAndRestart(s)
            },
        }
    }
}

/// Replacing one record keeps the names, hence the positions of the names.
proof fn lemma_record_replaced_keys(
    before: Seq<(ShortGameName, GameConfig)>,
    after: Seq<(ShortGameName, GameConfig)>,
    k: int,
)
    requires
        0 <= k < before.len(),
        after.len() == before.len(),
        after[k].0 == before[k].0,
        forall|j: int| 0 <= j < before.len() && j != k ==> after[j] == before[j],
    ensures
        assoc_keys(after) == assoc_keys(before),
{
    assert forall|j: int| 0 <= j < before.len() implies assoc_keys(after)[j] == assoc_keys(before)[j] by {
        if j != k {
            assert(after[j] == before[j]);
        }
    }
    assert(assoc_keys(after) =~= assoc_keys(before));
}

/// The name of the shortcut that runs the tool for one game.
pub open spec fn ms_link_name(short: Seq<char>) -> Seq<char> {
    "REFR_"@ + short + ".lnk"@
}

/// The arguments of that shortcut.
pub open spec fn ms_link_args(short: Seq<char>) -> Seq<char> {
    "--one "@ + short
}

/// A shortcut to create when it is missing: its file name and arguments.
pub struct MsLink {
    pub file_name: String,
    pub arguments: String,
}

impl REvilManager {
    /// The shortcut of each game, in order.
    pub fn ms_links(&self) -> (r: Vec<MsLink>)
        ensures
            r@.len() == self.config.games@.len(),
            forall|i: int|
                0 <= i < r@.len() ==> (#[trigger] r@[i]).file_name@ == ms_link_name(self.config.games@[i].0@)
                    && r@[i].arguments@ == ms_link_args(self.config.games@[i].0@),
    {
        let mut r: Vec<MsLink> = Vec::new();
        let mut i: usize = 0;
        while i < self.config.games.len()
            invariant
                i <= self.config.games@.len(),
                r@.len() == i,
                forall|j: int|
                    0 <= j < i ==> (#[trigger] r@[j]).file_name@ == ms_link_name(self.config.games@[j].0@)
                        && r@[j].arguments@ == ms_link_args(self.config.games@[j].0@),
            decreases self.config.games@.len() - i,
        {
            let short = self.config.games[i].0.as_str();
            r.push(
                MsLink {
                    file_name: String::from_str("REFR_").concat(short).concat(".lnk"),
                    arguments: String::from_str("--one ").concat(short),
                },
            );
            i += 1;
        }
        r
    }

    /// After the configuration could not be loaded: the run remembers it
    /// and logs at `info`.
    pub fn config_load_failed(&mut self)
        ensures
            final(self).state.config_loading_error_ocurred,
            final(self).config.main == (Main { errorLevel: Some(ErrorLevel::info), ..old(self).config.main }),
            final(self).config.games == old(self).config.games,
            final(self).state.games_that_require_update == old(self).state.games_that_require_update,
            final(self).state.selected_assets == old(self).state.selected_assets,
            final(self).state.selected_game_to_launch == old(self).state.selected_game_to_launch,
            final(self).state.selected_option == old(self).state.selected_option,
            final(self).state.new_steam_game_found == old(self).state.new_steam_game_found,
            final(self).state.skip_next == old(self).state.skip_next,
            final(self).github_release_manager == old(self).github_release_manager,
    {
        self.state.config_loading_error_ocurred = true;
        self.config.main.errorLevel = Some(ErrorLevel::info);
    }

    /// Whether a step chained with `bind` runs: not after a failed one.
    pub fn bind_runs(&self) -> (r: bool)
        ensures
            r == !self.state.skip_next,
    {
        !self.state.skip_next
    }

    /// After a step chained with `bind` failed: the following ones are
    /// skipped.
    pub fn bind_failed(&mut self)
        ensures
            final(self).state.skip_next,
            final(self).config == old(self).config,
            final(self).github_release_manager == old(self).github_release_manager,
            final(self).state.games_that_require_update == old(self).state.games_that_require_update,
            final(self).state.selected_assets == old(self).state.selected_assets,
            final(self).state.selected_game_to_launch == old(self).state.selected_game_to_launch,
            final(self).state.selected_option == old(self).state.selected_option,
    {
        self.state.skip_next = true;
    }

    /// Whether loading a version from the cache was chosen.
    pub fn wants_cache_load(&self) -> (r: bool)
        ensures
            r == (self.state.selected_option matches Some(o) && o is LoadDifferentVersionFromCache),
    {
        match &self.state.selected_option {
            Some(LabelOptions::LoadDifferentVersionFromCache) => true,
            _ => false,
        }
    }

    /// Records the version loaded from the cache as the one in use for a
    /// game; nothing for an unknown game.
    pub fn set_version_in_use(&mut self, short_name: &str, version: &str)
        ensures
            final(self).config.main == old(self).config.main,
            final(self).state == old(self).state,
            final(self).github_release_manager == old(self).github_release_manager,
            !assoc_keys(old(self).config.games@).contains(short_name@) ==> final(self).config.games == old(
                self,
            ).config.games,
            assoc_keys(old(self).config.games@).contains(short_name@) ==> ({
                let k = game_index(old(self).config.games@, short_name@);
                let g = old(self).config.games@[k].1@;
                record_replaced(
                    old(self).config.games@,
                    final(self).config.games@,
                    k,
                    GameConfigView { version_in_use: Some(version@), ..g },
                )
            }),
    {
        match assoc_find(&self.config.games, short_name) {
            Some(k) => {
                proof {
                    lemma_first_index(assoc_keys(self.config.games@), short_name@);
                }
                self.config.games[k].1.version_in_use = Some(owned(version));
            },
            None => {},
        }
    }
}

/// A game updated to a release no longer needs that release: after
/// recording the unpacked asset of version `release_name`, the newest
/// version is `release_name`, and a parsable version is not newer than
/// itself.
pub proof fn lemma_updated_game_needs_no_update(
    g: GameConfigView,
    short: Seq<char>,
    asset: Seq<char>,
    release_name: Seq<char>,
)
    requires
        newest_record_present(g.versions),
        crate::version_parser::first_char_is_single_byte(release_name),
        crate::version_parser::version_tuple(release_name) matches Some((major, minor, _h))
            && crate::text::parse_unsigned(major, u16::MAX as int) is Some
            && crate::text::parse_unsigned(minor, u16::MAX as int) is Some,
    ensures
        !needs_update(record_after_unzip(g, short, asset, release_name, true), release_name),
        newest_version(record_after_unzip(g, short, asset, release_name, true)) == release_name,
        record_after_unzip(g, short, asset, release_name, true).version_in_use == Some(release_name),
{
    crate::version_parser::lemma_same_version_is_not_newer(release_name, u16::MAX as int);
}

/// Toggling the build type twice gives the record back.
pub proof fn lemma_toggle_twice_restores(g: GameConfigView)
    requires
        g.nextgen is Some,
    ensures
        ({
            let once = GameConfigView { nextgen: Some(!g.nextgen.unwrap()), ..g };
            GameConfigView { nextgen: Some(!once.nextgen.unwrap()), ..once } == g
        }),
{
}

/// Switching the runtime twice gives the runtime back, and the two
/// runtimes have different library files.
pub proof fn lemma_runtime_switch_twice_restores(r: Runtime)
    ensures
        opposite_runtime(opposite_runtime(r)) == r,
        runtime_dll(opposite_runtime(r)) != runtime_dll(r),
{
    reveal_strlit("openvr_api.dll");
    reveal_strlit("openxr_loader.dll");
    assert("openvr_api.dll"@[4] != "openxr_loader.dll"@[4]);
}

/// Unpacking into a game folder never skips the library of the runtime the
/// game uses: the skipped file is the other runtime's.
pub proof fn lemma_unzip_keeps_runtime_in_use(runtime: Option<Runtime>)
    ensures
        skipped_runtime_file(runtime) != runtime_dll(
            match runtime {
                Some(r) => r,
                None => Runtime::OpenVR,
            },
        ),
{
    match runtime {
        Some(r) => lemma_runtime_switch_twice_restores(r),
        None => lemma_runtime_switch_twice_restores(Runtime::OpenVR),
    }
}

/// The assets fetched for a two-build game with a known build type are of
/// that build, and recording one keeps the build type.
pub proof fn lemma_fetched_asset_keeps_build_type(short: Seq<char>, g: GameConfigView, a: ReleaseAsset, version: Seq<char>)
    requires
        include_asset(short, g, a),
        asset_tdb(short, a.name@) is Some,
        g.nextgen is Some,
    ensures
        asset_tdb(short, a.name@) == Some(!g.nextgen.unwrap()),
        record_after_unzip(g, short, a.name@, version, true).nextgen == g.nextgen,
        record_after_unzip(g, short, a.name@, version, false).nextgen == g.nextgen,
{
}

/// When one game is updated, an asset of the report is fetched exactly when
/// it is of the game's build: every asset of a one-build game, and for a
/// two-build game those of its recorded build, the standard (`_TDB`) one
/// while the build type is unknown.
pub proof fn lemma_fetched_assets_are_of_game_build(assets: Seq<ReleaseAsset>, short: Seq<char>, g: GameConfigView)
    ensures
        forall|a: ReleaseAsset| #[trigger] assets_for_game(assets, short, g).contains(a) <==> (assets.contains(a)
            && match asset_tdb(short, a.name@) {
            None => true,
            Some(tdb) => tdb == (g.nextgen != Some(true)),
        }),
    decreases assets.len(),
{
    if assets.len() > 0 {
        let prev = assets.drop_last();
        lemma_fetched_assets_are_of_game_build(prev, short, g);
        let before = assets_for_game(prev, short, g);
        let last = assets.last();
        let tail = if include_asset(short, g, last) {
            seq![last]
        } else {
            Seq::<ReleaseAsset>::empty()
        };
        assert(assets_for_game(assets, short, g) == before + tail);
        assert forall|a: ReleaseAsset| #[trigger] assets_for_game(assets, short, g).contains(a) <==> (assets.contains(a)
            && match asset_tdb(short, a.name@) {
            None => true,
            Some(tdb) => tdb == (g.nextgen != Some(true)),
        }) by {
            let all = before + tail;
            if all.contains(a) {
                let i = choose|i: int| 0 <= i < all.len() && all[i] == a;
                if i < before.len() {
                    assert(before[i] == a);
                    assert(before.contains(a));
                    let j = choose|j: int| 0 <= j < prev.len() && prev[j] == a;
                    assert(assets[j] == a);
                } else {
                    assert(tail[i - before.len()] == a);
                    assert(assets[assets.len() - 1] == a);
                }
            }
            if assets.contains(a) && match asset_tdb(short, a.name@) {
                None => true,
                Some(tdb) => tdb == (g.nextgen != Some(true)),
            } {
                let j = choose|j: int| 0 <= j < assets.len() && assets[j] == a;
                if j < assets.len() - 1 {
                    assert(prev[j] == a);
                    assert(prev.contains(a));
                    assert(before.contains(a));
                    let k = choose|k: int| 0 <= k < before.len() && before[k] == a;
                    assert(all[k] == a);
                } else {
                    assert(last == a);
                    assert(all[before.len() as int] == a);
                }
            }
        }
    }
}

/// The archive a launch restores the runtime library from, for a game whose
/// build type is recorded, is an archive of the version record (never the
/// record's version name) that is not of the other build; it is the first
/// such, and there is none only when every archive of the record is of the
/// other build.
pub proof fn lemma_launch_archive_is_of_recorded_build(short: Seq<char>, nextgen: bool, set: Seq<Seq<char>>)
    requires
        set.len() > 0,
    ensures
        match fitting_archive(short, Some(nextgen), set) {
            Some(a) => exists|i: int|
                1 <= i < set.len() && set[i] == a && asset_tdb(short, a) != Some(nextgen) && forall|j: int|
                    1 <= j < i ==> asset_tdb(short, #[trigger] set[j]) == Some(nextgen),
            None => forall|j: int| 1 <= j < set.len() ==> asset_tdb(short, #[trigger] set[j]) == Some(nextgen),
        },
{
    let flags = set.skip(1).map_values(|a: Seq<char>| archive_fits(short, Some(nextgen), a));
    lemma_first_index(flags, true);
    match first_index(flags, true) {
        Some(i) => {
            assert(set[i + 1] == set.skip(1)[i]);
            assert(flags[i]);
            assert forall|j: int| 1 <= j < i + 1 implies asset_tdb(short, #[trigger] set[j]) == Some(nextgen) by {
                assert(!flags[j - 1]);
                assert(set.skip(1)[j - 1] == set[j]);
            }
            assert(1 <= i + 1 < set.len() && set[i + 1] == set[i + 1]);
        },
        None => {
            assert forall|j: int| 1 <= j < set.len() implies asset_tdb(short, #[trigger] set[j]) == Some(nextgen) by {
                assert(!flags[j - 1]);
                assert(set.skip(1)[j - 1] == set[j]);
            }
        },
    }
}

/// A Steam detection keeps what the user set for a known game: a runtime
/// once set, the build type, the versions, the version in use and the run
/// arguments; only the location and the Steam id come from Steam.
pub proof fn lemma_detection_keeps_user_settings(
    m: Map<Seq<char>, GameConfigView>,
    d: Seq<(Seq<char>, Seq<char>)>,
    k: Seq<char>,
)
    requires
        m.contains_key(k),
    ensures
        steam_fold(m, d).contains_key(k),
        m[k].runtime is Some ==> steam_fold(m, d)[k].runtime == m[k].runtime,
        steam_fold(m, d)[k].nextgen == m[k].nextgen,
        steam_fold(m, d)[k].versions == m[k].versions,
        steam_fold(m, d)[k].version_in_use == m[k].version_in_use,
        steam_fold(m, d)[k].run_args == m[k].run_args,
        (forall|j: int| 0 <= j < d.len() ==> table_short_name(#[trigger] d[j].0).unwrap() != k) ==> steam_fold(
            m,
            d,
        )[k] == m[k],
        d.len() > 0 && table_short_name(d.last().0).unwrap() == k ==> {
            &&& steam_fold(m, d)[k].location == Some(d.last().1)
            &&& steam_fold(m, d)[k].steam_id == Some(d.last().0)
            &&& steam_fold(m, d)[k].runtime is Some
        },
    decreases d.len(),
{
    if d.len() > 0 {
        lemma_detection_keeps_user_settings(m, d.drop_last(), k);
        if forall|j: int| 0 <= j < d.len() ==> table_short_name(#[trigger] d[j].0).unwrap() != k {
            assert forall|j: int| 0 <= j < d.drop_last().len() implies table_short_name(
                #[trigger] d.drop_last()[j].0,
            ).unwrap() != k by {
                assert(d.drop_last()[j] == d[j]);
            }
            assert(table_short_name(d[d.len() - 1].0).unwrap() != k);
        }
    }
}

/// A launch of a game whose build type is unknown restores the runtime
/// library from the record's first archive, whatever its build.
pub proof fn lemma_launch_archive_with_unknown_build(short: Seq<char>, set: Seq<Seq<char>>)
    requires
        set.len() > 0,
    ensures
        fitting_archive(short, None, set) == if set.len() >= 2 {
            Some(set[1])
        } else {
            None::<Seq<char>>
        },
{
    let flags = set.skip(1).map_values(|a: Seq<char>| archive_fits(short, None, a));
    lemma_first_index(flags, true);
    if set.len() >= 2 {
        assert(flags[0]);
        assert(set.skip(1)[0] == set[1]);
    }
}

/// A game keeps at most `MAX_ZIP_FILES_PER_GAME_CACHE` version records:
/// recording one more adds at most one, and when that goes over the limit
/// the oldest is dropped (`cache_overflow`, `drop_oldest_version`).
pub proof fn lemma_cache_stays_bounded(versions: Option<Seq<Seq<Seq<char>>>>, version: Seq<char>, asset: Seq<char>)
    requires
        newest_record_present(versions),
        versions matches Some(vs) ==> vs.len() <= crate::MAX_ZIP_FILES_PER_GAME_CACHE,
    ensures
        ({
            let after = versions_after_unzip(versions, version, asset);
            &&& after.len() <= crate::MAX_ZIP_FILES_PER_GAME_CACHE + 1
            &&& after.len() > crate::MAX_ZIP_FILES_PER_GAME_CACHE ==> after.drop_last().len()
                <= crate::MAX_ZIP_FILES_PER_GAME_CACHE
        }),
{
}

/// When a game is listed once, removing it from the list of games that
/// need the update leaves it out.
pub proof fn lemma_removed_game_not_required(names: Seq<Seq<char>>, short: Seq<char>)
    requires
        forall|i: int, j: int| 0 <= i < j < names.len() && names[i] == short ==> names[j] != short,
    ensures
        !(match first_index(names, short) {
            Some(i) => names.remove(i),
            None => names,
        }).contains(short),
{
    lemma_first_index(names, short);
    match first_index(names, short) {
        Some(i) => {
            let r = names.remove(i);
            if r.contains(short) {
                let j = choose|j: int| 0 <= j < r.len() && r[j] == short;
                if j < i {
                    assert(names[j] == short);
                } else {
                    assert(names[j + 1] == short);
                }
            }
        },
        None => {},
    }
}

proof fn lemma_first_index_at_flags(flags: Seq<bool>, i: int)
    requires
        0 <= i < flags.len(),
        flags[i],
        forall|j: int| 0 <= j < i ==> !(#[trigger] flags[j]),
    ensures
        first_index(flags, true) == Some(i),
{
    crate::seq_util::lemma_first_index_at(flags, true, i);
}

} // verus!

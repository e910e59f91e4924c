//! Reading and writing the configuration file's sections. The TOML of each
//! section is produced and read around this module; here the file is
//! framed and the sections are put together.
use vstd::prelude::*;
use crate::assoc::{assoc_find, assoc_keys, assoc_map, assoc_wf, lemma_assoc_push, lemma_assoc_update};
use crate::seq_util::lemma_first_index;
use crate::sorting::{lex_order, sort_by_name};
use crate::tomlConf::configStruct::{ConfigError, ConfigResult, ErrorLevel, GameConfig, GameConfigView, Main, REvilConfig};

verus! {

/// The text of the game sections, each `[name]`, its body and a blank line.
pub open spec fn game_sections(tables: Seq<(String, String)>) -> Seq<char>
    decreases tables.len(),
{
    if tables.len() == 0 {
        Seq::empty()
    } else {
        game_sections(tables.drop_last()) + "["@ + tables.last().0@ + "]\n"@ + tables.last().1@ + "\n"@
    }
}

/// The configuration file from the TOML of the general settings and of each
/// game: `[main]` first, then the games sorted by name.
pub fn serialize(main_table: &str, game_tables: Vec<(String, String)>) -> (r: ConfigResult<String>)
    requires
        game_tables@.len() > 0,
    ensures
        exists|t: Seq<(String, String)>|
            vstd::relations::sorted_by(#[trigger] assoc_keys(t), lex_order()) && t.to_multiset()
                == game_tables@.to_multiset() && (r matches Ok(s) && s@ == "[main]\n"@ + main_table@ + "\n"@
                + game_sections(t)),
{
    let mut tables = game_tables;
    sort_by_name(&mut tables);
    let ghost t = tables@;
    let mut body = String::new();
    let mut i: usize = 0;
    assert(body@ =~= game_sections(t.subrange(0, 0)));
    while i < tables.len()
        invariant
            i <= tables@.len(),
            tables@ == t,
            body@ == game_sections(t.subrange(0, i as int)),
        decreases tables@.len() - i,
    {
        body = body.concat("[").concat(tables[i].0.as_str()).concat("]\n").concat(tables[i].1.as_str()).concat("\n");
        assert(t.subrange(0, i + 1).drop_last() =~= t.subrange(0, i as int));
        i += 1;
    }
    assert(t.subrange(0, t.len() as int) =~= t);
    let all = String::from_str("[main]\n").concat(main_table).concat("\n").concat(body.as_str());
    Ok(all)
}

/// The general settings used when the `[main]` section cannot be read.
pub fn default_main() -> (r: Main)
    ensures
        r.sources is None,
        r.repo_owner is None,
        r.chosen_source is None,
        r.autoupdate is None,
        r.steamExePath is None,
        r.steamGamesIdToSearchFor is None,
        r.errorLevel == Some(ErrorLevel::info),
        r.max_cache_versions_per_game == Some(crate::MAX_ZIP_FILES_PER_GAME_CACHE),
{
    Main {
        max_cache_versions_per_game: Some(crate::MAX_ZIP_FILES_PER_GAME_CACHE),
        errorLevel: Some(ErrorLevel::info),
        ..Main::empty()
    }
}

/// The games read, by name: the `main` section and the sections that
/// could not be read are left out, and of two sections with one name the
/// later wins.
pub open spec fn games_read(sections: Seq<(String, Option<GameConfig>)>) -> Map<Seq<char>, GameConfigView>
    decreases sections.len(),
{
    if sections.len() == 0 {
        Map::empty()
    } else {
        let e = sections.last();
        if e.0@ == "main"@ {
            games_read(sections.drop_last())
        } else {
            match e.1 {
                Some(g) => games_read(sections.drop_last()).insert(e.0@, g@),
                None => games_read(sections.drop_last()),
            }
        }
    }
}

/// The configuration from its sections as read: `main` is `None` when the
/// file has no `[main]` section (an error), `Some(None)` when it could not
/// be read (the defaults of `default_main` are used); each game section
/// comes with its settings, `None` when they could not be read (a section
/// named `main` among them is not a game).
pub fn deserialize(main: Option<Option<Main>>, sections: Vec<(String, Option<GameConfig>)>) -> (r: ConfigResult<
    REvilConfig,
>)
    ensures
        main is None ==> r == Err::<REvilConfig, ConfigError>(ConfigError::DeserializerError),
        main matches Some(m) ==> (r matches Ok(c) && assoc_wf(c.games@) && assoc_map(c.games@) == games_read(sections@)
            && match m {
                Some(mm) => c.main == mm,
                None => c.main.errorLevel == Some(ErrorLevel::info) && c.main.max_cache_versions_per_game == Some(
                    crate::MAX_ZIP_FILES_PER_GAME_CACHE,
                ) && c.main.sources is None && c.main.repo_owner is None && c.main.chosen_source is None
                    && c.main.autoupdate is None && c.main.steamExePath is None && c.main.steamGamesIdToSearchFor is None,
            }),
{
    let main = match main {
        None => return Err(ConfigError::DeserializerError),
        Some(Some(m)) => m,
        Some(None) => default_main(),
    };
    let mut games: Vec<(String, GameConfig)> = Vec::new();
    let mut src = sections;
    let ghost all = src@;
    let ghost done: Seq<(String, Option<GameConfig>)> = Seq::empty();
    while src.len() > 0
        invariant
            all == done + src@,
            assoc_wf(games@),
            assoc_map(games@) == games_read(done),
        decreases src@.len(),
    {
        let ghost before_src = src@;
        let (name, cfg) = src.remove(0);
        proof {
            assert(before_src == seq![(name, cfg)] + src@);
            assert(done.push((name, cfg)) + src@ =~= done + before_src);
            assert(done.push((name, cfg)).drop_last() =~= done);
        }
        let is_main = crate::text::str_eq(name.as_str(), "main");
        match cfg {
            Some(g) if !is_main => {
                match assoc_find(&games, name.as_str()) {
                    Some(p) => {
                        proof {
                            lemma_first_index(assoc_keys(games@), name@);
                            lemma_assoc_update(games@, p as int, g);
                        }
                        let key = games[p].0.clone();
                        games.set(p, (key, g));
                    },
                    None => {
                        proof {
                            lemma_assoc_push(games@, name, g);
                        }
                        games.push((name, g));
                    },
                }
            },
            _ => {},
        }
        proof {
            done = done.push((name, cfg));
        }
    }
    assert(done =~= all);
    Ok(REvilConfig { main, games })
}

} // verus!

//! The options a user can pick in the dialogs, and their label texts.
use vstd::prelude::*;
use crate::text::{lemma_no_char, lemma_find_at, lemma_split_at_first_char, occurs_at, contains, contains_str, split_once, split_once_char, split_once_str, splitn, splitn_str, str_eq};

verus! {

pub type Version = String;

pub type AssetName = String;

pub type ShortGameName = String;

/// Part of the label of a runtime switch option (see `get_selections_for_runtime_switch`).
pub const SWITCH_RUNTIME_PART: &'static str = "Switch runtime to";

#[derive(Debug, PartialEq, Default)]
pub enum LabelOptions {
    SwitchType,
    SwitchToStandard(ShortGameName),
    SwitchToNextgen(ShortGameName),
    SwitchRuntime,
    SwitchRuntimeSection,
    RescanLocal,
    LoadDifferentVersionFromCache,
    LoadFromCache(ShortGameName, AssetName, Version),
    Skip,
    Back,
    GoTop,
    Exit,
    UpdateAllGames,
    UpdateAllGamesAutoDetect,
    UpdateAllGamesPreferStandard,
    UpdateAllGamesPreferNextgen,
    #[default]
    Other,
}

/// A label option with its texts as character sequences.
pub enum LabelView {
    SwitchType,
    SwitchToStandard(Seq<char>),
    SwitchToNextgen(Seq<char>),
    SwitchRuntime,
    SwitchRuntimeSection,
    RescanLocal,
    LoadDifferentVersionFromCache,
    LoadFromCache(Seq<char>, Seq<char>, Seq<char>),
    Skip,
    Back,
    GoTop,
    Exit,
    UpdateAllGames,
    UpdateAllGamesAutoDetect,
    UpdateAllGamesPreferStandard,
    UpdateAllGamesPreferNextgen,
    Other,
}

impl View for LabelOptions {
    type V = LabelView;

    open spec fn view(&self) -> LabelView {
        match self {
            LabelOptions::SwitchType => LabelView::SwitchType,
            LabelOptions::SwitchToStandard(n) => LabelView::SwitchToStandard(n@),
            LabelOptions::SwitchToNextgen(n) => LabelView::SwitchToNextgen(n@),
            LabelOptions::SwitchRuntime => LabelView::SwitchRuntime,
            LabelOptions::SwitchRuntimeSection => LabelView::SwitchRuntimeSection,
            LabelOptions::RescanLocal => LabelView::RescanLocal,
            LabelOptions::LoadDifferentVersionFromCache => LabelView::LoadDifferentVersionFromCache,
            LabelOptions::LoadFromCache(s, a, v) => LabelView::LoadFromCache(s@, a@, v@),
            LabelOptions::Skip => LabelView::Skip,
            LabelOptions::Back => LabelView::Back,
            LabelOptions::GoTop => LabelView::GoTop,
            LabelOptions::Exit => LabelView::Exit,
            LabelOptions::UpdateAllGames => LabelView::UpdateAllGames,
            LabelOptions::UpdateAllGamesAutoDetect => LabelView::UpdateAllGamesAutoDetect,
            LabelOptions::UpdateAllGamesPreferStandard => LabelView::UpdateAllGamesPreferStandard,
            LabelOptions::UpdateAllGamesPreferNextgen => LabelView::UpdateAllGamesPreferNextgen,
            LabelOptions::Other => LabelView::Other,
        }
    }
}

/// The text shown for an option.
pub open spec fn label_text(v: LabelView) -> Seq<char> {
    match v {
        LabelView::SwitchType => "Switch type..."@,
        LabelView::LoadDifferentVersionFromCache => "Load from cache..."@,
        LabelView::Skip => "Skip"@,
        LabelView::Exit => "Exit"@,
        LabelView::UpdateAllGames => "Update all games"@,
        LabelView::UpdateAllGamesPreferStandard => "Update all games - prefer standard"@,
        LabelView::UpdateAllGamesPreferNextgen => "Update all games - prefer nextgen"@,
        LabelView::UpdateAllGamesAutoDetect => "Update all games - autodetect"@,
        LabelView::SwitchToStandard(n) => "Switch type to |standard| - "@ + n,
        LabelView::SwitchToNextgen(n) => "Switch type to |nextgen| - "@ + n,
        LabelView::SwitchRuntime => "SwitchRuntime"@,
        LabelView::SwitchRuntimeSection => "Switch runtime..."@,
        LabelView::RescanLocal => "Rescan local settings..."@,
        LabelView::LoadFromCache(s, a, v) => "Load mod from cache |"@ + s + "|"@ + a + "|"@ + v,
        LabelView::Other => "Other"@,
        LabelView::Back => "Back"@,
        LabelView::GoTop => "Back to download section"@,
    }
}

/// A "switch type" option read back from its text: the part after the first
/// `|` decides between standard and nextgen (only when it is exactly
/// `standard`), and the game is what follows the first ` - `.
pub open spec fn switch_to_of_text(t: Seq<char>) -> Option<LabelView> {
    if contains(t, "Switch type to |"@) {
        match split_once(t, seq!['|']) {
            Some((_, game_type)) => match split_once(t, " - "@) {
                Some((_, short_name)) => Some(
                    if game_type == "standard"@ {
                        LabelView::SwitchToStandard(short_name)
                    } else {
                        LabelView::SwitchToNextgen(short_name)
                    },
                ),
                None => None,
            },
            None => None,
        }
    } else {
        None
    }
}

/// A "load from cache" option read back from its text: the four `|`-separated
/// parts give game, asset and version; any other shape is `Other`.
pub open spec fn load_from_cache_of_text(t: Seq<char>) -> Option<LabelView> {
    if contains(t, "from cache"@) {
        let parts = splitn(t, 4, "|"@);
        Some(
            if parts.len() == 4 {
                LabelView::LoadFromCache(parts[1], parts[2], parts[3])
            } else {
                LabelView::Other
            },
        )
    } else {
        None
    }
}

/// The option a label text stands for.
pub open spec fn label_of_text(t: Seq<char>) -> LabelView {
    if t == "Switch type..."@ {
        LabelView::SwitchType
    } else if t == "Load from cache..."@ {
        LabelView::LoadDifferentVersionFromCache
    } else if t == "Skip"@ {
        LabelView::Skip
    } else if t == "Exit"@ {
        LabelView::Exit
    } else if t == "Update all games"@ {
        LabelView::UpdateAllGames
    } else if t == "Update all games - prefer standard"@ {
        LabelView::UpdateAllGamesPreferStandard
    } else if t == "Update all games - prefer nextgen"@ {
        LabelView::UpdateAllGamesPreferNextgen
    } else if t == "Update all games - autodetect"@ {
        LabelView::UpdateAllGamesAutoDetect
    } else if t == "Back"@ {
        LabelView::Back
    } else if t == "Back to download section"@ {
        LabelView::GoTop
    } else if t == "Switch runtime..."@ {
        LabelView::SwitchRuntimeSection
    } else if t == "Rescan local settings..."@ {
        LabelView::RescanLocal
    } else {
        match switch_to_of_text(t) {
            Some(v) => v,
            None => match load_from_cache_of_text(t) {
                Some(v) => v,
                None => if contains(t, SWITCH_RUNTIME_PART@) {
                    LabelView::SwitchRuntime
                } else {
                    LabelView::Other
                },
            },
        }
    }
}

fn deduct_load_from_cache(label: &str) -> (r: Option<LabelOptions>)
    ensures
        match r {
            Some(o) => load_from_cache_of_text(label@) == Some(o@),
            None => load_from_cache_of_text(label@) is None,
        },
{
    if !contains_str(label, "from cache") {
        return None;
    }
    let parts = splitn_str(label, 4, "|");
    let ghost pv = parts@.map_values(|p: String| p@);
    if parts.len() == 4 {
        assert(pv[1] == parts@[1]@ && pv[2] == parts@[2]@ && pv[3] == parts@[3]@);
        Some(LabelOptions::LoadFromCache(parts[1].clone(), parts[2].clone(), parts[3].clone()))
    } else {
        Some(LabelOptions::Other)
    }
}

fn deduct_switch_to(label: &str) -> (r: Option<LabelOptions>)
    ensures
        match r {
            Some(o) => switch_to_of_text(label@) == Some(o@),
            None => switch_to_of_text(label@) is None,
        },
{
    if !contains_str(label, "Switch type to |") {
        return None;
    }
    let game_type = match split_once_char(label, '|') {
        Some((_, game_type)) => game_type,
        None => return None,
    };
    match split_once_str(label, " - ") {
        Some((_, short_name)) => {
            if str_eq(game_type.as_str(), "standard") {
                Some(LabelOptions::SwitchToStandard(short_name))
            } else {
                Some(LabelOptions::SwitchToNextgen(short_name))
            }
        },
        None => None,
    }
}

impl LabelOptions {
    /// The option a label text stands for.
    pub fn from(text: &str) -> (r: Self)
        ensures
            r@ == label_of_text(text@),
    {
        if str_eq(text, "Switch type...") {
            LabelOptions::SwitchType
        } else if str_eq(text, "Load from cache...") {
            LabelOptions::LoadDifferentVersionFromCache
        } else if str_eq(text, "Skip") {
            LabelOptions::Skip
        } else if str_eq(text, "Exit") {
            LabelOptions::Exit
        } else if str_eq(text, "Update all games") {
            LabelOptions::UpdateAllGames
        } else if str_eq(text, "Update all games - prefer standard") {
            LabelOptions::UpdateAllGamesPreferStandard
        } else if str_eq(text, "Update all games - prefer nextgen") {
            LabelOptions::UpdateAllGamesPreferNextgen
        } else if str_eq(text, "Update all games - autodetect") {
            LabelOptions::UpdateAllGamesAutoDetect
        } else if str_eq(text, "Back") {
            LabelOptions::Back
        } else if str_eq(text, "Back to download section") {
            LabelOptions::GoTop
        } else if str_eq(text, "Switch runtime...") {
            LabelOptions::SwitchRuntimeSection
        } else if str_eq(text, "Rescan local settings...") {
            LabelOptions::RescanLocal
        } else {
            match deduct_switch_to(text) {
                Some(o) => o,
                None => match deduct_load_from_cache(text) {
                    Some(o) => o,
                    None => if contains_str(text, SWITCH_RUNTIME_PART) {
                        LabelOptions::SwitchRuntime
                    } else {
                        LabelOptions::Other
                    },
                },
            }
        }
    }

    /// The text shown for the option.
    pub fn to_label(&self) -> (r: String)
        ensures
            r@ == label_text(self@),
    {
        match self {
            LabelOptions::SwitchType => String::from_str("Switch type..."),
            LabelOptions::LoadDifferentVersionFromCache => String::from_str("Load from cache..."),
            LabelOptions::Skip => String::from_str("Skip"),
            LabelOptions::Exit => String::from_str("Exit"),
            LabelOptions::UpdateAllGames => String::from_str("Update all games"),
            LabelOptions::UpdateAllGamesPreferStandard => String::from_str(
                "Update all games - prefer standard",
            ),
            LabelOptions::UpdateAllGamesPreferNextgen => String::from_str(
                "Update all games - prefer nextgen",
            ),
            LabelOptions::UpdateAllGamesAutoDetect => String::from_str(
                "Update all games - autodetect",
            ),
            LabelOptions::SwitchToStandard(game_short_name) => {
                String::from_str("Switch type to |standard| - ").concat(game_short_name.as_str())
            },
            LabelOptions::SwitchToNextgen(game_short_name) => {
                String::from_str("Switch type to |nextgen| - ").concat(game_short_name.as_str())
            },
            LabelOptions::SwitchRuntime => String::from_str("SwitchRuntime"),
            LabelOptions::SwitchRuntimeSection => String::from_str("Switch runtime..."),
            LabelOptions::RescanLocal => String::from_str("Rescan local settings..."),
            LabelOptions::LoadFromCache(short_name, asset_name, version) => {
                String::from_str("Load mod from cache |").concat(short_name.as_str()).concat(
                    "|",
                ).concat(asset_name.as_str()).concat("|").concat(version.as_str())
            },
            LabelOptions::Other => String::from_str("Other"),
            LabelOptions::Back => String::from_str("Back"),
            LabelOptions::GoTop => String::from_str("Back to download section"),
        }
    }
}

/// Every option with a fixed text, other than `SwitchRuntime` and `Other`,
/// is read back from its own label.
pub proof fn lemma_fixed_label_round_trip(v: LabelView)
    requires
        !(v is SwitchToStandard || v is SwitchToNextgen || v is LoadFromCache || v is SwitchRuntime
            || v is Other),
    ensures
        label_of_text(label_text(v)) == v,
{
    reveal_strlit("Switch type...");
    reveal_strlit("Load from cache...");
    reveal_strlit("Skip");
    reveal_strlit("Exit");
    reveal_strlit("Update all games");
    reveal_strlit("Update all games - prefer standard");
    reveal_strlit("Update all games - prefer nextgen");
    reveal_strlit("Update all games - autodetect");
    reveal_strlit("Back");
    reveal_strlit("Back to download section");
    reveal_strlit("Switch runtime...");
    reveal_strlit("Rescan local settings...");
    let t = label_text(v);
    assert("Switch type..."@[0] == 'S' && "Switch type..."@[1] == 'w' && "Switch type..."@[7] == 't');
    assert("Load from cache..."@[0] == 'L');
    assert("Skip"@[0] == 'S' && "Skip"@[1] == 'k');
    assert("Exit"@[0] == 'E');
    assert("Update all games"@.len() == 16);
    assert("Update all games - prefer standard"@.len() == 34);
    assert("Update all games - prefer nextgen"@.len() == 33);
    assert("Update all games - autodetect"@.len() == 29);
    assert("Update all games"@[0] == 'U');
    assert("Update all games - prefer standard"@[0] == 'U');
    assert("Update all games - prefer nextgen"@[0] == 'U');
    assert("Update all games - autodetect"@[0] == 'U');
    assert("Back"@.len() == 4 && "Back"@[0] == 'B');
    assert("Back to download section"@.len() == 24 && "Back to download section"@[0] == 'B');
    assert("Switch runtime..."@[7] == 'r' && "Switch runtime..."@[0] == 'S' && "Switch runtime..."@[1] == 'w');
    assert("Rescan local settings..."@[0] == 'R');
    match v {
        LabelView::SwitchType => {},
        LabelView::LoadDifferentVersionFromCache => {},
        LabelView::Skip => {},
        LabelView::Exit => {},
        LabelView::UpdateAllGames => {},
        LabelView::UpdateAllGamesPreferStandard => {
            assert(t != "Update all games"@);
        },
        LabelView::UpdateAllGamesPreferNextgen => {
            assert(t != "Update all games"@);
            assert(t != "Update all games - prefer standard"@);
        },
        LabelView::UpdateAllGamesAutoDetect => {
            assert(t != "Update all games"@);
            assert(t != "Update all games - prefer standard"@);
            assert(t != "Update all games - prefer nextgen"@);
        },
        LabelView::Back => {},
        LabelView::GoTop => {
            assert(t != "Back"@);
        },
        LabelView::SwitchRuntimeSection => {
            assert(t != "Switch type..."@);
            assert(t != "Skip"@);
        },
        LabelView::RescanLocal => {},
        _ => {},
    }
}

/// The label text is none of the fixed option texts.
proof fn lemma_not_fixed_text(t: Seq<char>)
    requires
        t.len() >= 23,
        t[0] == 'S' || t[0] == 'L',
        t[0] == 'L' ==> t[5] == 'm',
    ensures
        t != "Switch type..."@ && t != "Load from cache..."@ && t != "Skip"@ && t != "Exit"@ && t
            != "Update all games"@ && t != "Update all games - prefer standard"@ && t
            != "Update all games - prefer nextgen"@ && t != "Update all games - autodetect"@ && t
            != "Back"@ && t != "Back to download section"@ && t != "Switch runtime..."@ && t
            != "Rescan local settings..."@,
{
    reveal_strlit("Switch type...");
    reveal_strlit("Load from cache...");
    reveal_strlit("Skip");
    reveal_strlit("Exit");
    reveal_strlit("Update all games");
    reveal_strlit("Update all games - prefer standard");
    reveal_strlit("Update all games - prefer nextgen");
    reveal_strlit("Update all games - autodetect");
    reveal_strlit("Back");
    reveal_strlit("Back to download section");
    reveal_strlit("Switch runtime...");
    reveal_strlit("Rescan local settings...");
    assert("Load from cache..."@[5] == 'f');
    assert("Update all games - prefer standard"@[0] == 'U');
    assert("Update all games - prefer nextgen"@[0] == 'U');
    assert("Update all games - autodetect"@[0] == 'U');
    assert("Back to download section"@[0] == 'B');
    assert("Rescan local settings..."@[0] == 'R');
}

/// The label of a type switch is read back as a switch to nextgen for the
/// same game, also when it was a switch to standard: the part compared with
/// `standard` is everything after the first `|`.
pub proof fn lemma_switch_label_reads_as_nextgen(v: LabelView)
    requires
        v is SwitchToStandard || v is SwitchToNextgen,
    ensures
        label_of_text(label_text(v)) == LabelView::SwitchToNextgen(
            match v {
                LabelView::SwitchToStandard(n) => n,
                LabelView::SwitchToNextgen(n) => n,
                _ => Seq::empty(),
            },
        ),
{
    reveal_strlit("Switch type to |standard| - ");
    reveal_strlit("Switch type to |nextgen| - ");
    reveal_strlit("Switch type to |");
    reveal_strlit("Switch type to ");
    reveal_strlit(" - ");
    reveal_strlit("standard");
    reveal_strlit("standard| - ");
    reveal_strlit("nextgen| - ");
    let (p, kind, n) = match v {
        LabelView::SwitchToStandard(n) => ("Switch type to |standard| - "@, "standard| - "@, n),
        LabelView::SwitchToNextgen(n) => ("Switch type to |nextgen| - "@, "nextgen| - "@, n),
        _ => (Seq::empty(), Seq::empty(), Seq::empty()),
    };
    let t = p + n;
    assert(t == label_text(v));
    let pl = p.len() as int;
    lemma_not_fixed_text(t);
    assert(t.subrange(0, 16) =~= "Switch type to |"@);
    assert(occurs_at(t, "Switch type to |"@, 0));
    assert(contains(t, "Switch type to |"@));
    let x = "Switch type to "@;
    let y = kind + n;
    assert(t =~= x + seq!['|'] + y);
    lemma_split_at_first_char(x, '|', y);
    assert(y != "standard"@) by {
        if v is SwitchToStandard {
            assert(y.len() != 8);
        } else {
            assert(y[0] != "standard"@[0]);
        }
    }
    assert(t.subrange(pl - 3, pl) =~= " - "@);
    assert(occurs_at(t, " - "@, pl - 3));
    assert forall|j: int| 0 <= j < pl - 3 implies !occurs_at(t, " - "@, j) by {
        if occurs_at(t, " - "@, j) {
            assert(t.subrange(j, j + 3)[1] == t[j + 1]);
            assert(" - "@[1] == '-');
        }
    }
    lemma_find_at(t, " - "@, pl - 3);
    assert(t.subrange(pl, t.len() as int) =~= n);
}

/// A "load from cache" option is read back from its label, provided game
/// and asset names hold no `|` and the label holds no `Switch type to |`.
pub proof fn lemma_cache_label_round_trip(s: Seq<char>, a: Seq<char>, v: Seq<char>)
    requires
        !contains(s, seq!['|']),
        !contains(a, seq!['|']),
        !contains(label_text(LabelView::LoadFromCache(s, a, v)), "Switch type to |"@),
    ensures
        label_of_text(label_text(LabelView::LoadFromCache(s, a, v))) == LabelView::LoadFromCache(
            s,
            a,
            v,
        ),
{
    reveal_strlit("Load mod from cache |");
    reveal_strlit("Load mod from cache ");
    reveal_strlit("from cache");
    reveal_strlit("|");
    let t = label_text(LabelView::LoadFromCache(s, a, v));
    let d = "|"@;
    assert(d =~= seq!['|']);
    let x0 = "Load mod from cache "@;
    let rest2 = a + seq!['|'] + v;
    let rest1 = s + seq!['|'] + rest2;
    assert(t =~= x0 + seq!['|'] + rest1);
    lemma_not_fixed_text(t);
    assert(switch_to_of_text(t) is None);
    assert(t.subrange(9, 19) =~= "from cache"@);
    assert(occurs_at(t, "from cache"@, 9));
    lemma_split_at_first_char(x0, '|', rest1);
    lemma_no_char(s, '|');
    lemma_split_at_first_char(s, '|', rest2);
    lemma_no_char(a, '|');
    lemma_split_at_first_char(a, '|', v);
    assert(splitn(v, 1, d) == seq![v]);
    assert(splitn(rest2, 2, d) == seq![a] + splitn(v, 1, d));
    assert(splitn(rest1, 3, d) == seq![s] + splitn(rest2, 2, d));
    assert(splitn(t, 4, d) == seq![x0] + splitn(rest1, 3, d));
    let parts = splitn(t, 4, d);
    assert(parts =~= seq![x0, s, a, v]);
}

} // verus!

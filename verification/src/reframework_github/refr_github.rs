//! The release manager: which repository to ask, the release found, and the
//! report that groups the release's assets by game.
use vstd::prelude::*;
use crate::assoc::{assoc_find, assoc_keys, assoc_map, assoc_wf, lemma_assoc_map, lemma_assoc_push, lemma_assoc_update};
use crate::reframework_github::release::{Release, ReleaseAsset};
use crate::text::{contains, contains_str, owned, split_once, split_once_char};

verus! {

pub type GameShortName = String;

/// The assets of a release by game short name.
pub type AssetsReport = Vec<(GameShortName, Vec<ReleaseAsset>)>;

#[derive(Debug, Clone, Copy, PartialEq, Eq, Structural)]
pub enum REFRGithubError {
    VersionIsNoneAndReleaseIsNone,
    ReleaseNotFound,
}

impl REFRGithubError {
    /// The message of the error.
    pub fn message(&self) -> (r: &'static str)
        ensures
            r@ == "REFRGithub Error"@,
    {
        "REFRGithub Error"
    }
}

/// Asks a GitHub repository for its releases and keeps the newest one.
#[derive(Debug, Clone, Default)]
pub struct REFRGithub {
    pub repo_name: String,
    pub repo_owner: String,
    pub release: Option<Release>,
    pub report: AssetsReport,
}

/// The game an asset belongs to, and whether it is one of the games with
/// two builds (whose assets are collected together): the first of `RE2`,
/// `RE3`, `RE7` the asset name contains, else the name up to its first `.`.
pub open spec fn asset_game(name: Seq<char>) -> (Seq<char>, bool) {
    if contains(name, "RE2"@) {
        ("RE2"@, true)
    } else if contains(name, "RE3"@) {
        ("RE3"@, true)
    } else if contains(name, "RE7"@) {
        ("RE7"@, true)
    } else {
        (
            match split_once(name, seq!['.']) {
                Some((head, _)) => head,
                None => name,
            },
            false,
        )
    }
}

/// Adds one asset to a report: assets of a two-build game are appended to
/// the game's list, any other asset replaces its game's list.
pub open spec fn report_step(m: Map<Seq<char>, Seq<ReleaseAsset>>, a: ReleaseAsset) -> Map<
    Seq<char>,
    Seq<ReleaseAsset>,
> {
    let (g, grouped) = asset_game(a.name@);
    if grouped && m.contains_key(g) {
        m.insert(g, m[g].push(a))
    } else {
        m.insert(g, seq![a])
    }
}

/// Adds the assets to a report, in order.
pub open spec fn report_fold(m: Map<Seq<char>, Seq<ReleaseAsset>>, assets: Seq<ReleaseAsset>) -> Map<
    Seq<char>,
    Seq<ReleaseAsset>,
>
    decreases assets.len(),
{
    if assets.len() == 0 {
        m
    } else {
        report_step(report_fold(m, assets.drop_last()), assets.last())
    }
}

/// The game of an asset (see `asset_game`).
fn game_of_asset(name: &str) -> (r: (String, bool))
    ensures
        (r.0@, r.1) == asset_game(name@),
{
    if contains_str(name, "RE2") {
        (String::from_str("RE2"), true)
    } else if contains_str(name, "RE3") {
        (String::from_str("RE3"), true)
    } else if contains_str(name, "RE7") {
        (String::from_str("RE7"), true)
    } else {
        match split_once_char(name, '.') {
            Some((head, _)) => (head, false),
            None => (owned(name), false),
        }
    }
}

fn copy_assets(v: &Vec<ReleaseAsset>) -> (r: Vec<ReleaseAsset>)
    ensures
        r@ == v@,
{
    let mut r: Vec<ReleaseAsset> = Vec::new();
    let mut i: usize = 0;
    while i < v.len()
        invariant
            i <= v@.len(),
            r@ == v@.subrange(0, i as int),
        decreases v@.len() - i,
    {
        r.push(v[i].duplicate());
        assert(r@ =~= v@.subrange(0, i + 1));
        i += 1;
    }
    assert(v@.subrange(0, v@.len() as int) =~= v@);
    r
}

impl REFRGithub {
    pub open spec fn spec_repo_owner(&self) -> Seq<char> {
        self.repo_owner@
    }

    pub open spec fn spec_repo_name(&self) -> Seq<char> {
        self.repo_name@
    }

    /// A manager for `repo_owner/repo_name` that has found nothing yet.
    pub fn new(repo_owner: &str, repo_name: &str) -> (r: REFRGithub)
        ensures
            r.spec_repo_owner() == repo_owner@,
            r.spec_repo_name() == repo_name@,
            r.release is None,
            r.report@.len() == 0,
    {
        REFRGithub {
            repo_owner: owned(repo_owner),
            repo_name: owned(repo_name),
            release: None,
            report: Vec::new(),
        }
    }

    /// The address of the repository's release listing.
    pub fn api_url(&self) -> (r: String)
        ensures
            r@ == "https://api.github.com"@ + "/repos/"@ + self.spec_repo_owner() + "/"@
                + self.spec_repo_name() + "/releases"@,
    {
        String::from_str("https://api.github.com").concat("/repos/").concat(
            self.repo_owner.as_str(),
        ).concat("/").concat(self.repo_name.as_str()).concat("/releases")
    }

    /// Groups the assets of the release into the report (see `report_fold`).
    pub fn generate_assets_report(&mut self) -> (r: Result<(), REFRGithubError>)
        requires
            assoc_wf(old(self).report@),
        ensures
            final(self).release == old(self).release,
            final(self).spec_repo_owner() == old(self).spec_repo_owner(),
            final(self).spec_repo_name() == old(self).spec_repo_name(),
            assoc_wf(final(self).report@),
            match old(self).release {
                None => r == Err::<(), REFRGithubError>(REFRGithubError::ReleaseNotFound)
                    && final(self).report == old(self).report,
                Some(rel) => r is Ok && assoc_map(final(self).report@) == report_fold(
                    assoc_map(old(self).report@),
                    rel.assets@,
                ),
            },
    {
        let release = match &self.release {
            Some(rel) => rel,
            None => return Err(REFRGithubError::ReleaseNotFound),
        };
        let assets = &release.assets;
        let mut report: AssetsReport = Vec::new();
        std::mem::swap(&mut report, &mut self.report);
        let ghost start = assoc_map(report@);
        let mut i: usize = 0;
        while i < assets.len()
            invariant
                i <= assets@.len(),
                assoc_wf(report@),
                assoc_map(report@) == report_fold(start, assets@.subrange(0, i as int)),
            decreases assets@.len() - i,
        {
            let asset = &assets[i];
            let (game, grouped) = game_of_asset(asset.name.as_str());
            let ghost before = report@;
            proof {
                lemma_assoc_map(before);
                assert(assets@.subrange(0, i + 1).drop_last() =~= assets@.subrange(0, i as int));
                assert(assets@.subrange(0, i + 1).last() == assets@[i as int]);
            }
            match assoc_find(&report, game.as_str()) {
                Some(k) => {
                    proof {
                        crate::seq_util::lemma_first_index(assoc_keys(before), game@);
                    }
                    let key = report[k].0.clone();
                    let list = if grouped {
                        let mut l = copy_assets(&report[k].1);
                        l.push(asset.duplicate());
                        l
                    } else {
                        let l = vec![asset.duplicate()];
                        assert(l@ =~= seq![assets@[i as int]]);
                        l
                    };
                    assert(list@ == (if grouped {
                        before[k as int].1@.push(assets@[i as int])
                    } else {
                        seq![assets@[i as int]]
                    }));
                    assert(assoc_map(before).contains_key(game@));
                    assert(assoc_map(before)[before[k as int].0@] == before[k as int].1@);
                    proof {
                        assert(assoc_keys(before)[k as int] == before[k as int].0@);
                        assert(before[k as int].0@ == game@);
                        lemma_assoc_update(before, k as int, list);
                    }
                    report.set(k, (key, list));
                    proof {
                        assert(report@ == before.update(k as int, (before[k as int].0, list)));
                        assert(assoc_map(report@) =~= report_step(assoc_map(before), assets@[i as int]));
                    }
                },
                None => {
                    let list = vec![asset.duplicate()];
                    proof {
                        lemma_assoc_push(before, game, list);
                        assert(!assoc_map(before).contains_key(game@));
                        assert(list@ =~= seq![assets@[i as int]]);
                    }
                    report.push((game, list));
                    proof {
                        assert(assoc_map(report@) =~= report_step(assoc_map(before), assets@[i as int]));
                    }
                },
            }
            i += 1;
        }
        assert(assets@.subrange(0, assets@.len() as int) =~= assets@);
        self.report = report;
        Ok(())
    }

    /// Keeps `release` as the newest release and groups its assets into the report.
    pub fn set_release(&mut self, release: Release) -> (r: Result<(), REFRGithubError>)
        requires
            assoc_wf(old(self).report@),
        ensures
            r is Ok,
            final(self).release == Some(release),
            final(self).spec_repo_owner() == old(self).spec_repo_owner(),
            final(self).spec_repo_name() == old(self).spec_repo_name(),
            assoc_wf(final(self).report@),
            assoc_map(final(self).report@) == report_fold(assoc_map(old(self).report@), release.assets@),
    {
        self.release = Some(release);
        self.generate_assets_report()
    }

    /// The newest release found.
    pub fn getRelease(&self) -> (r: Option<&Release>)
        ensures
            r == match self.release {
                Some(ref rel) => Some(rel),
                None => None::<&Release>,
            },
    {
        self.release.as_ref()
    }

    /// The assets of the newest release by game.
    pub fn getAssetsReport(&self) -> (r: &AssetsReport)
        ensures
            *r == self.report,
    {
        &self.report
    }
}

} // verus!

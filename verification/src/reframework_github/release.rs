//! Releases of the mod repository and their assets, and how they are read
//! from the fields of the repository's release listing.
use vstd::prelude::*;
use crate::seq_util::{copy_opt_string, opt_str_view};
use crate::text::{trim_start_char, trim_start_char_str};

verus! {

/// A downloadable file of a release.
#[derive(Debug, Clone, PartialEq, Default)]
pub struct ReleaseAsset {
    pub download_url: String,
    pub name: String,
}

impl ReleaseAsset {
    /// A copy of the asset.
    pub fn duplicate(&self) -> (r: ReleaseAsset)
        ensures
            r == *self,
    {
        ReleaseAsset { download_url: self.download_url.clone(), name: self.name.clone() }
    }
}

/// A published release.
#[derive(Debug, Clone, PartialEq, Default)]
pub struct Release {
    pub name: String,
    pub version: String,
    pub date: String,
    pub body: Option<String>,
    pub assets: Vec<ReleaseAsset>,
}

/// The fields of one asset in the release listing.
#[derive(Debug, Clone, PartialEq, Default)]
pub struct AssetJson {
    pub url: Option<String>,
    pub name: Option<String>,
}

/// The fields of one release in the release listing (`assets` is `None`
/// when the field is not an array).
#[derive(Debug, Clone, PartialEq, Default)]
pub struct ReleaseJson {
    pub tag_name: Option<String>,
    pub created_at: Option<String>,
    pub name: Option<String>,
    pub body: Option<String>,
    pub assets: Option<Vec<AssetJson>>,
}

#[derive(Debug, Clone, Copy, PartialEq, Eq, Structural)]
pub enum ReleaseParseError {
    MissingTagName,
    MissingCreatedAt,
    NoAssetsFound,
    AssetMissingUrl,
    AssetMissingName,
}

/// What is wrong with an asset entry, if anything (the URL is checked first).
pub open spec fn asset_error(a: AssetJson) -> Option<ReleaseParseError> {
    if a.url is None {
        Some(ReleaseParseError::AssetMissingUrl)
    } else if a.name is None {
        Some(ReleaseParseError::AssetMissingName)
    } else {
        None
    }
}

/// The error of the first faulty asset entry.
pub open spec fn first_asset_error(assets: Seq<AssetJson>) -> Option<ReleaseParseError>
    decreases assets.len(),
{
    if assets.len() == 0 {
        None
    } else if asset_error(assets[0]) is Some {
        asset_error(assets[0])
    } else {
        first_asset_error(assets.drop_first())
    }
}

/// The error reading a release entry gives, if any: a missing tag, a missing
/// creation date, a missing asset list, or a faulty asset, in that order.
pub open spec fn release_error(r: ReleaseJson) -> Option<ReleaseParseError> {
    if r.tag_name is None {
        Some(ReleaseParseError::MissingTagName)
    } else if r.created_at is None {
        Some(ReleaseParseError::MissingCreatedAt)
    } else if r.assets is None {
        Some(ReleaseParseError::NoAssetsFound)
    } else {
        first_asset_error(r.assets.unwrap()@)
    }
}

/// An asset read from a correct entry.
pub open spec fn asset_matches(a: ReleaseAsset, j: AssetJson) -> bool {
    opt_str_view(j.url) == Some(a.download_url@) && opt_str_view(j.name) == Some(a.name@)
}

/// A release read from a correct entry: the name defaults to the tag, the
/// version is the tag without leading `v`s.
pub open spec fn release_matches(r: Release, j: ReleaseJson) -> bool {
    let tag = j.tag_name.unwrap()@;
    &&& r.name@ == (match j.name {
        Some(n) => n@,
        None => tag,
    })
    &&& r.version@ == trim_start_char(tag, 'v')
    &&& opt_str_view(j.created_at) == Some(r.date@)
    &&& opt_str_view(r.body) == opt_str_view(j.body)
    &&& r.assets@.len() == j.assets.unwrap()@.len()
    &&& forall|i: int|
        0 <= i < r.assets@.len() ==> asset_matches(#[trigger] r.assets@[i], j.assets.unwrap()@[i])
}

proof fn lemma_first_asset_error_prefix(assets: Seq<AssetJson>, i: int)
    requires
        0 <= i < assets.len(),
        forall|k: int| 0 <= k < i ==> asset_error(#[trigger] assets[k]) is None,
    ensures
        asset_error(assets[i]) is Some ==> first_asset_error(assets) == asset_error(assets[i]),
        asset_error(assets[i]) is None ==> first_asset_error(assets) == first_asset_error(
            assets.subrange(i + 1, assets.len() as int),
        ),
    decreases i,
{
    if i > 0 {
        let t = assets.drop_first();
        assert forall|k: int| 0 <= k < i - 1 implies asset_error(#[trigger] t[k]) is None by {
            assert(t[k] == assets[k + 1]);
        }
        lemma_first_asset_error_prefix(t, i - 1);
        assert(t.subrange(i, t.len() as int) =~= assets.subrange(i + 1, assets.len() as int));
    } else {
        assert(assets.drop_first() =~= assets.subrange(1, assets.len() as int));
    }
}

pub struct ReleaseREFR;

impl ReleaseREFR {
    /// Reads one asset entry.
    pub fn from_asset(asset: &AssetJson) -> (r: Result<ReleaseAsset, ReleaseParseError>)
        ensures
            match r {
                Ok(a) => asset_error(*asset) is None && asset_matches(a, *asset),
                Err(e) => asset_error(*asset) == Some(e),
            },
    {
        let download_url = match &asset.url {
            Some(u) => u.clone(),
            None => return Err(ReleaseParseError::AssetMissingUrl),
        };
        let name = match &asset.name {
            Some(n) => n.clone(),
            None => return Err(ReleaseParseError::AssetMissingName),
        };
        Ok(ReleaseAsset { download_url, name })
    }

    /// Reads one release entry.
    pub fn from_release(release: &ReleaseJson) -> (r: Result<Release, ReleaseParseError>)
        ensures
            match r {
                Ok(rel) => release_error(*release) is None && release_matches(rel, *release),
                Err(e) => release_error(*release) == Some(e),
            },
    {
        let tag = match &release.tag_name {
            Some(t) => t,
            None => return Err(ReleaseParseError::MissingTagName),
        };
        let date = match &release.created_at {
            Some(d) => d.clone(),
            None => return Err(ReleaseParseError::MissingCreatedAt),
        };
        let name = match &release.name {
            Some(n) => n.clone(),
            None => tag.clone(),
        };
        let asset_entries = match &release.assets {
            Some(a) => a,
            None => return Err(ReleaseParseError::NoAssetsFound),
        };
        let body = copy_opt_string(&release.body);
        let mut assets: Vec<ReleaseAsset> = Vec::new();
        let mut i: usize = 0;
        while i < asset_entries.len()
            invariant
                release.assets == Some(*asset_entries),
                release.tag_name is Some,
                release.created_at is Some,
                i <= asset_entries@.len(),
                assets@.len() == i,
                forall|k: int| 0 <= k < i ==> asset_error(#[trigger] asset_entries@[k]) is None,
                forall|k: int| 0 <= k < i ==> asset_matches(#[trigger] assets@[k], asset_entries@[k]),
            decreases asset_entries@.len() - i,
        {
            proof {
                lemma_first_asset_error_prefix(asset_entries@, i as int);
            }
            match Self::from_asset(&asset_entries[i]) {
                Ok(a) => assets.push(a),
                Err(e) => return Err(e),
            }
            i += 1;
        }
        proof {
            if asset_entries@.len() > 0 {
                let n = asset_entries@.len() as int;
                lemma_first_asset_error_prefix(asset_entries@, n - 1);
                assert(asset_entries@.subrange(n, n).len() == 0);
            }
        }
        Ok(
            Release {
                name,
                version: trim_start_char_str(tag.as_str(), 'v'),
                date,
                body,
                assets,
            },
        )
    }
}

#[derive(Debug, Clone, Copy, PartialEq, Eq, Structural)]
pub enum FetchReleaseError {
    NoReleasesFound,
    NoReleaseFound,
    Release(ReleaseParseError),
}

/// The newest release of a listing: `None` when the listing is not an array
/// gives `NoReleasesFound`, an empty listing `NoReleaseFound`, and otherwise
/// the first entry is read.
pub fn first_release(releases: &Option<Vec<ReleaseJson>>) -> (r: Result<Release, FetchReleaseError>)
    ensures
        match releases {
            None => r == Err::<Release, FetchReleaseError>(FetchReleaseError::NoReleasesFound),
            Some(v) => if v@.len() == 0 {
                r == Err::<Release, FetchReleaseError>(FetchReleaseError::NoReleaseFound)
            } else {
                match r {
                    Ok(rel) => release_error(v@[0]) is None && release_matches(rel, v@[0]),
                    Err(e) => release_error(v@[0]) matches Some(pe) && e
                        == FetchReleaseError::Release(pe),
                }
            },
        },
{
    match releases {
        None => Err(FetchReleaseError::NoReleasesFound),
        Some(v) => {
            if v.len() == 0 {
                return Err(FetchReleaseError::NoReleaseFound);
            }
            match ReleaseREFR::from_release(&v[0]) {
                Ok(rel) => Ok(rel),
                Err(e) => Err(FetchReleaseError::Release(e)),
            }
        },
    }
}

} // verus!

//! Reading the newest release from the repository's release page.
use vstd::prelude::*;
use select::document::Document;
use select::predicate::{Class, Name};
use crate::scrapper::ScrapperError::ScrapperError;
use crate::seq_util::opt_str_view;
use crate::text::contains;
use crate::version_parser::{repo_version_newer, version_inputs_ok};

verus! {

/// Where the release links of the page point to.
pub const GITHUB_URL: &'static str = "https://github.com";

/// The text of the first element of class `Link--primary` of an HTML page,
/// as `select` reads the page.
pub uninterp spec fn first_primary_link_text(html: Seq<char>) -> Option<Seq<char>>;

/// The `href` attributes of the `a` elements of an HTML page, in document
/// order (`None` for an element without one), as `select` reads the page.
pub uninterp spec fn anchor_hrefs(html: Seq<char>) -> Seq<Option<Seq<char>>>;

/// Parses the page with `select::document::Document::from` and gives the
/// text (`Node::text`) of the first node that `find(Class("Link--primary"))`
/// yields. Claimed: the result is `first_primary_link_text` of the page.
#[verifier::external_body]
fn primary_link_text(html: &str) -> (r: Option<String>)
    ensures
        opt_str_view(r) == first_primary_link_text(html@),
{
    let document = Document::from(html);
    let first = document.find(Class("Link--primary")).next();
    match first {
        Some(node) => Some(node.text()),
        None => None,
    }
}

/// Parses the page with `select::document::Document::from` and gives, for
/// each node that `find(Name("a"))` yields, its `href` attribute
/// (`Node::attr`). Claimed: the result is `anchor_hrefs` of the page.
#[verifier::external_body]
fn page_anchor_hrefs(html: &str) -> (r: Vec<Option<String>>)
    ensures
        r@.map_values(|h: Option<String>| opt_str_view(h)) == anchor_hrefs(html@),
{
    let document = Document::from(html);
    let mut r = Vec::new();
    for node in document.find(Name("a")) {
        r.push(node.attr("href").map(|h| h.to_string()));
    }
    r
}

/// The release links among the `href`s: an error when an element has none,
/// else the ones holding `/latest/`, made absolute.
pub open spec fn latest_links(hrefs: Seq<Option<Seq<char>>>) -> Result<Seq<Seq<char>>, ScrapperError>
    decreases hrefs.len(),
{
    if hrefs.len() == 0 {
        Ok(Seq::empty())
    } else {
        match latest_links(hrefs.drop_last()) {
            Err(e) => Err(e),
            Ok(ls) => match hrefs.last() {
                None => Err(ScrapperError::NoHrefAttribute),
                Some(h) => Ok(
                    if contains(h, "/latest/"@) {
                        ls.push(GITHUB_URL@ + h)
                    } else {
                        ls
                    },
                ),
            },
        }
    }
}

/// What the page gives for local version `local`: the release links and the
/// repository version, when the repository version is newer.
pub open spec fn scrape_result(
    repo_text: Option<Seq<char>>,
    hrefs: Seq<Option<Seq<char>>>,
    local: Seq<char>,
) -> Result<(Seq<Seq<char>>, Seq<char>), ScrapperError> {
    match repo_text {
        None => Err(ScrapperError::GetRepoVersion),
        Some(repo) => match repo_version_newer(local, repo, u8::MAX as int) {
            None => Err(ScrapperError::VersionParserError),
            Some(false) => Err(ScrapperError::NothingToUpdate),
            Some(true) => match latest_links(hrefs) {
                Err(e) => Err(e),
                Ok(ls) => if ls.len() == 0 {
                    Err(ScrapperError::NotFoundAnyLinks)
                } else {
                    Ok((ls, repo))
                },
            },
        },
    }
}

/// The views of a scrape result.
pub open spec fn scrape_view(r: Result<(Vec<String>, String), ScrapperError>) -> Result<(Seq<Seq<char>>, Seq<char>), ScrapperError> {
    match r {
        Ok((ls, v)) => Ok((ls@.map_values(|s: String| s@), v@)),
        Err(e) => Err(e),
    }
}

/// `scrape_result` on the parts read from a page.
pub fn scrape_from_parts(repo_text: Option<String>, hrefs: Vec<Option<String>>, local_version: &str) -> (r: Result<
    (Vec<String>, String),
    ScrapperError,
>)
    requires
        repo_text matches Some(t) ==> version_inputs_ok(local_version@, t@),
    ensures
        scrape_view(r) == scrape_result(
            opt_str_view(repo_text),
            hrefs@.map_values(|h: Option<String>| opt_str_view(h)),
            local_version@,
        ),
{
    let ghost rt = opt_str_view(repo_text);
    let repo_version = match repo_text {
        Some(t) => t,
        None => return Err(ScrapperError::GetRepoVersion),
    };
    match crate::version_parser::isRepoVersionNewer(local_version, repo_version.as_str()) {
        None => return Err(ScrapperError::VersionParserError),
        Some(false) => return Err(ScrapperError::NothingToUpdate),
        Some(true) => {},
    }
    let ghost hv = hrefs@.map_values(|h: Option<String>| opt_str_view(h));
    let mut links: Vec<String> = Vec::new();
    let mut i: usize = 0;
    assert(hv.subrange(0, 0) =~= Seq::<Option<Seq<char>>>::empty());
    assert(links@.map_values(|s: String| s@) =~= Seq::<Seq<char>>::empty());
    while i < hrefs.len()
        invariant
            i <= hrefs@.len(),
            rt == Some(repo_version@),
            rt == opt_str_view(repo_text),
            repo_version_newer(local_version@, repo_version@, u8::MAX as int) == Some(true),
            hv == hrefs@.map_values(|h: Option<String>| opt_str_view(h)),
            latest_links(hv.subrange(0, i as int)) == Ok::<Seq<Seq<char>>, ScrapperError>(
                links@.map_values(|s: String| s@),
            ),
        decreases hrefs@.len() - i,
    {
        proof {
            assert(hv.subrange(0, i + 1).drop_last() =~= hv.subrange(0, i as int));
            assert(hv.subrange(0, i + 1).last() == opt_str_view(hrefs@[i as int]));
        }
        match &hrefs[i] {
            None => {
                proof {
                    assert(hv.subrange(0, i + 1).last() is None);
                    assert(latest_links(hv.subrange(0, i + 1)) == Err::<Seq<Seq<char>>, ScrapperError>(
                        ScrapperError::NoHrefAttribute,
                    ));
                    lemma_links_error_stays(hv, i as int + 1);
                }
                return Err(ScrapperError::NoHrefAttribute);
            },
            Some(h) => {
                if crate::text::contains_str(h.as_str(), "/latest/") {
                    let link = String::from_str(GITHUB_URL).concat(h.as_str());
                    let ghost before = links@;
                    links.push(link);
                    assert(links@.map_values(|s: String| s@) =~= before.map_values(|s: String| s@).push(link@));
                }
            },
        }
        i += 1;
    }
    assert(hv.subrange(0, hv.len() as int) =~= hv);
    if links.len() == 0 {
        return Err(ScrapperError::NotFoundAnyLinks);
    }
    Ok((links, repo_version))
}

/// An error in the links of a prefix is the error of the whole list.
proof fn lemma_links_error_stays(hrefs: Seq<Option<Seq<char>>>, n: int)
    requires
        0 <= n <= hrefs.len(),
        latest_links(hrefs.subrange(0, n)) is Err,
    ensures
        latest_links(hrefs) == latest_links(hrefs.subrange(0, n)),
    decreases hrefs.len() - n,
{
    if n == hrefs.len() {
        assert(hrefs.subrange(0, n) =~= hrefs);
    } else {
        assert(hrefs.subrange(0, n + 1).drop_last() =~= hrefs.subrange(0, n));
        lemma_links_error_stays(hrefs, n + 1);
    }
}

/// The release links and the repository version of a release page, for the
/// local version `local_version` (see `scrape_result`); `None` when the
/// version texts cannot be compared (see `version_inputs_ok`).
pub fn scrape_latest_data(html: &str, local_version: &str) -> (r: Option<
    Result<(Vec<String>, String), ScrapperError>,
>)
    ensures
        match first_primary_link_text(html@) {
            Some(t) if !version_inputs_ok(local_version@, t) => r is None,
            repo_text => r matches Some(res) && scrape_view(res) == scrape_result(
                repo_text,
                anchor_hrefs(html@),
                local_version@,
            ),
        },
{
    let repo_text = primary_link_text(html);
    match &repo_text {
        Some(t) => {
            if !crate::version_parser::version_inputs_check(local_version, t.as_str()) {
                return None;
            }
        },
        None => {},
    }
    let hrefs = page_anchor_hrefs(html);
    Some(scrape_from_parts(repo_text, hrefs, local_version))
}

} // verus!

//! Why a release page could not be read.
use vstd::prelude::*;

verus! {

#[derive(Debug, Clone, Copy, PartialEq, Eq, Structural)]
pub enum ScrapperError {
    NotFoundAnyLinks,
    RelativeTimeNotFound,
    DateTimeNotFound,
    NoHrefAttribute,
    NoParentNode,
    NothingToUpdate,
    GetRepoVersion,
    VersionParserError,
}

impl ScrapperError {
    /// The message of the error.
    pub fn message(&self) -> (r: &'static str)
        ensures
            r@ == match self {
                ScrapperError::RelativeTimeNotFound => "Not found <relative-time [...] /> DOM node"@,
                ScrapperError::DateTimeNotFound => "No datetime attribute found in <relative-time [...] /> DOM node"@,
                ScrapperError::NotFoundAnyLinks => "Not found any links on page!"@,
                ScrapperError::NoHrefAttribute => "No href attribute found"@,
                ScrapperError::NoParentNode => "No parent node found"@,
                ScrapperError::NothingToUpdate => "No new version found"@,
                ScrapperError::GetRepoVersion => "Couldn't retrieve repo version"@,
                ScrapperError::VersionParserError => "Something went wrong when parsing version"@,
            },
    {
        match self {
            ScrapperError::RelativeTimeNotFound => "Not found <relative-time [...] /> DOM node",
            ScrapperError::DateTimeNotFound => "No datetime attribute found in <relative-time [...] /> DOM node",
            ScrapperError::NotFoundAnyLinks => "Not found any links on page!",
            ScrapperError::NoHrefAttribute => "No href attribute found",
            ScrapperError::NoParentNode => "No parent node found",
            ScrapperError::NothingToUpdate => "No new version found",
            ScrapperError::GetRepoVersion => "Couldn't retrieve repo version",
            ScrapperError::VersionParserError => "Something went wrong when parsing version",
        }
    }
}

} // verus!

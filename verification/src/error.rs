//! The failures a crawl can report.

use vstd::prelude::*;

verus! {

/// Why a listing or an article could not be processed.
#[derive(Debug, Clone, Copy, PartialEq, Eq, Structural)]
pub enum ScrapeError {
    /// The listing page or an article page could not be fetched.
    Network,
    /// A configured selector is not a valid selector.
    Markup,
    /// The page has no title.
    TitleNotFound,
    /// None of the date strategies found a date.
    DateNotFound,
    /// Nothing on the page matches the body selector.
    BodyNotFound,
    /// The article could not be written.
    Write,
}

} // verus!

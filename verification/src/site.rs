//! The description of one news source.

use crate::error::ScrapeError;
use crate::markup::{selector_is_valid, selector_parses};
use vstd::prelude::*;

verus! {

/// The markup conventions of one news source. A source differs from another
/// in these values alone.
#[derive(Debug)]
pub struct NewsSite {
    /// The directory of the corpus that holds the source's articles.
    pub name: String,
    /// The address of the page that lists the source's articles.
    pub listing_url: String,
    /// Selects the anchors of the listing page.
    pub link_selector: String,
    /// What the `href` of an anchor must hold to count as an article link.
    pub link_path_filter: String,
    /// The host put before an `href` to make an absolute address.
    pub link_prefix: String,
    /// Selects the element that holds an article's text.
    pub body_selector: String,
    /// Selects the paragraphs inside that element.
    pub paragraph_selector: String,
}

impl NewsSite {
    /// All three selectors are valid selectors.
    pub open spec fn selectors_parse(&self) -> bool {
        &&& selector_parses(self.link_selector@)
        &&& selector_parses(self.body_selector@)
        &&& selector_parses(self.paragraph_selector@)
    }

    /// No selector is empty, and all three are valid selectors.
    pub open spec fn well_formed(&self) -> bool {
        &&& self.link_selector@.len() > 0
        &&& self.body_selector@.len() > 0
        &&& self.paragraph_selector@.len() > 0
        &&& self.selectors_parse()
    }

    /// Checks the description before any run: a selector that is empty or no
    /// valid selector is a fault of the description.
    pub fn validate(&self) -> (r: Result<(), ScrapeError>)
        ensures
            r is Ok <==> self.well_formed(),
            r matches Err(e) ==> e == ScrapeError::Markup,
    {
        if self.link_selector.as_str().unicode_len() > 0
            && self.body_selector.as_str().unicode_len() > 0
            && self.paragraph_selector.as_str().unicode_len() > 0
            && selector_is_valid(self.link_selector.as_str())
            && selector_is_valid(self.body_selector.as_str())
            && selector_is_valid(self.paragraph_selector.as_str()) {
            Ok(())
        } else {
            Err(ScrapeError::Markup)
        }
    }
}

/// The path filter of the three sources that come with the library.
pub const NEWS_PATH: &'static str = "/news/";

/// CBC News.
pub fn cbc() -> (site: NewsSite)
    ensures
        site.name@ == "cbc"@,
        site.listing_url@ == "https://www.cbc.ca/news"@,
        site.link_selector@ == "a.card"@,
        site.link_path_filter@ == NEWS_PATH@,
        site.link_prefix@ == "cbc.ca"@,
        site.body_selector@ == "div.story"@,
        site.paragraph_selector@ == "p"@,
{
    NewsSite {
        name: "cbc".to_owned(),
        listing_url: "https://www.cbc.ca/news".to_owned(),
        link_selector: "a.card".to_owned(),
        link_path_filter: NEWS_PATH.to_owned(),
        link_prefix: "cbc.ca".to_owned(),
        body_selector: "div.story".to_owned(),
        paragraph_selector: "p".to_owned(),
    }
}

/// The National Post.
pub fn national_post() -> (site: NewsSite)
    ensures
        site.name@ == "national_post"@,
        site.listing_url@ == "https://nationalpost.com/category/news/"@,
        site.link_selector@ == "a.article-card__link"@,
        site.link_path_filter@ == NEWS_PATH@,
        site.link_prefix@ == "nationalpost.com"@,
        site.body_selector@ == "section.article-content__content-group"@,
        site.paragraph_selector@ == "p.section.article-content__content-group"@,
{
    NewsSite {
        name: "national_post".to_owned(),
        listing_url: "https://nationalpost.com/category/news/".to_owned(),
        link_selector: "a.article-card__link".to_owned(),
        link_path_filter: NEWS_PATH.to_owned(),
        link_prefix: "nationalpost.com".to_owned(),
        body_selector: "section.article-content__content-group".to_owned(),
        paragraph_selector: "p.section.article-content__content-group".to_owned(),
    }
}

/// The Toronto Star.
pub fn the_star() -> (site: NewsSite)
    ensures
        site.name@ == "the_star"@,
        site.listing_url@ == "https://www.thestar.com/news/world"@,
        site.link_selector@ == "a.c-mediacard"@,
        site.link_path_filter@ == NEWS_PATH@,
        site.link_prefix@ == "thestar.com"@,
        site.body_selector@ == "div.c-article-body__content"@,
        site.paragraph_selector@ == "p.text-block-container"@,
{
    NewsSite {
        name: "the_star".to_owned(),
        listing_url: "https://www.thestar.com/news/world".to_owned(),
        link_selector: "a.c-mediacard".to_owned(),
        link_path_filter: NEWS_PATH.to_owned(),
        link_prefix: "thestar.com".to_owned(),
        body_selector: "div.c-article-body__content".to_owned(),
        paragraph_selector: "p.text-block-container".to_owned(),
    }
}

} // verus!

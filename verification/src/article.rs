//! An article: its headline, its date and its paragraphs.

use crate::content::{extract_paragraphs, lemma_paragraphs_are_not_empty, page_paragraphs};
use crate::date::{date_of, extract_date, first_text, first_text_node};
use crate::error::ScrapeError;
use crate::markup::{select_texts, selected_texts, selected_within, selector_parses};
use crate::site::NewsSite;
use vstd::prelude::*;

verus! {

/// Selects the headline of a page.
pub const TITLE_SELECTOR: &'static str = "title";

/// An article as it was read from its page.
#[derive(Debug)]
pub struct Article {
    /// The headline, as the page's title gives it.
    pub title: String,
    /// The paragraphs, in document order.
    pub contents: Vec<String>,
    /// The publication date, as the date strategy that found it wrote it.
    pub date: String,
}

/// An article as contracts see it.
pub struct ArticleView {
    pub title: Seq<char>,
    pub contents: Seq<Seq<char>>,
    pub date: Seq<char>,
}

impl View for Article {
    type V = ArticleView;

    open spec fn view(&self) -> ArticleView {
        ArticleView { title: self.title@, contents: self.contents.deep_view(), date: self.date@ }
    }
}

impl ArticleView {
    /// No paragraph is empty.
    pub open spec fn well_formed(self) -> bool {
        forall|i: int| 0 <= i < self.contents.len() ==> (#[trigger] self.contents[i]).len() > 0
    }
}

/// The headline of a page: the first text node of its first title element.
pub open spec fn page_title(html: Seq<char>) -> Option<Seq<char>> {
    if selector_parses(TITLE_SELECTOR@) {
        first_text(selected_texts(html, TITLE_SELECTOR@))
    } else {
        None
    }
}

/// Finds the headline of a page.
pub fn extract_title(html: &str) -> (r: Result<String, ScrapeError>)
    ensures
        r is Ok <==> page_title(html@) is Some,
        r matches Ok(title) ==> page_title(html@) == Some(title@),
        r matches Err(e) ==> e == ScrapeError::TitleNotFound,
{
    match select_texts(html, TITLE_SELECTOR) {
        Ok(texts) => match first_text_node(&texts) {
            Some(title) => Ok(title.clone()),
            None => Err(ScrapeError::TitleNotFound),
        },
        Err(_) => Err(ScrapeError::TitleNotFound),
    }
}

/// The article that a page gives for a source, or the first failure among
/// headline, date and paragraphs, in that order.
pub open spec fn article_of(html: Seq<char>, site: NewsSite) -> Result<ArticleView, ScrapeError> {
    match page_title(html) {
        None => Err(ScrapeError::TitleNotFound),
        Some(title) => match date_of(html) {
            None => Err(ScrapeError::DateNotFound),
            Some(date) => match page_paragraphs(html, site) {
                Err(e) => Err(e),
                Ok(contents) => Ok(ArticleView { title, contents, date }),
            },
        },
    }
}

/// Reads an article from its page: the headline, then the date, then the
/// paragraphs. The first stage that fails decides the error, and no article
/// is made of the stages that succeeded.
pub fn parse_article(html: &str, site: &NewsSite) -> (r: Result<Article, ScrapeError>)
    ensures
        r is Ok <==> article_of(html@, *site) is Ok,
        r matches Ok(article) ==> article_of(html@, *site) == Ok::<ArticleView, ScrapeError>(
            article@,
        ) && article@.well_formed(),
        r matches Err(e) ==> article_of(html@, *site) == Err::<ArticleView, ScrapeError>(e),
{
    let title = match extract_title(html) {
        Ok(title) => title,
        Err(e) => { return Err(e); },
    };
    let date = match extract_date(html) {
        Ok(date) => date,
        Err(e) => { return Err(e); },
    };
    let contents = match extract_paragraphs(html, site) {
        Ok(contents) => contents,
        Err(e) => { return Err(e); },
    };
    let article = Article { title, contents, date };
    assert forall|i: int| 0 <= i < article@.contents.len() implies (
    #[trigger] article@.contents[i]).len() > 0 by {
        assert(article@.contents[i] == article.contents[i]@);
    }
    Ok(article)
}

/// Every article that a page gives has non-empty paragraphs only.
pub proof fn lemma_article_is_well_formed(html: Seq<char>, site: NewsSite)
    ensures
        article_of(html, site) matches Ok(article) ==> article.well_formed(),
{
    if article_of(html, site) is Ok {
        lemma_paragraphs_are_not_empty(
            selected_within(html, site.body_selector@, site.paragraph_selector@)[0],
        );
    }
}

/// With a description whose selectors are valid, a page fails for what it
/// lacks only: its headline, its date or its body.
pub proof fn lemma_valid_site_has_no_markup_error(html: Seq<char>, site: NewsSite)
    requires
        site.selectors_parse(),
    ensures
        article_of(html, site) matches Err(e) ==> e == ScrapeError::TitleNotFound || e
            == ScrapeError::DateNotFound || e == ScrapeError::BodyNotFound,
{
}

} // verus!

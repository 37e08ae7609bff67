//! One run over one news source.
//!
//! A run decides and its caller acts: the run names the action it waits for,
//! the caller performs it and hands back what happened. A listing that cannot
//! be had ends the run; an article that cannot be had, read or written is
//! skipped, and the run goes on with the next link.

use crate::article::{article_of, lemma_article_is_well_formed, parse_article, Article, ArticleView};
use crate::error::ScrapeError;
use crate::links::{get_news_links, page_links};
use crate::site::{cbc, national_post, the_star, NewsSite, NEWS_PATH};
use crate::writer::{file_of, save_article, site_root, site_root_of, ArticleFile};
use vstd::pervasive::unreached;
use vstd::prelude::*;

verus! {

/// Where a run stands.
#[derive(Debug, Clone, Copy, PartialEq, Eq, Structural)]
pub enum Phase {
    /// The listing page is awaited.
    Discovering,
    /// The page of the link in work is awaited.
    Fetching,
    /// The article of the link in work was read; its write is awaited.
    Writing,
    /// Every link had its turn.
    Done,
    /// The listing could not be had; no link was processed.
    Failed,
}

/// What the caller of a run reports back to it.
#[derive(Debug)]
pub enum Event {
    /// The page that was asked for, as text.
    Fetched(String),
    /// The page that was asked for could not be fetched.
    FetchFailed,
    /// The file was written.
    Written,
    /// The file could not be written.
    WriteFailed,
}

/// An event as contracts see it.
pub enum EventView {
    Fetched(Seq<char>),
    FetchFailed,
    Written,
    WriteFailed,
}

impl View for Event {
    type V = EventView;

    open spec fn view(&self) -> EventView {
        match self {
            Event::Fetched(html) => EventView::Fetched(html@),
            Event::FetchFailed => EventView::FetchFailed,
            Event::Written => EventView::Written,
            Event::WriteFailed => EventView::WriteFailed,
        }
    }
}

/// What a run asks its caller to do.
#[derive(Debug)]
pub enum Action {
    /// Fetch the listing page at this address.
    FetchListing { url: String },
    /// Fetch the article page at this address.
    FetchArticle { url: String },
    /// Create the directory if it is missing and write the file.
    WriteArticle { file: ArticleFile },
    /// Nothing is left to do.
    Finish,
    /// The run has failed with this error.
    Abort { error: ScrapeError },
}

/// An action as contracts see it.
pub enum ActionView {
    FetchListing { url: Seq<char> },
    FetchArticle { url: Seq<char> },
    WriteArticle { dir: Seq<char>, path: Seq<char>, content: Seq<char> },
    Finish,
    Abort { error: ScrapeError },
}

impl View for Action {
    type V = ActionView;

    open spec fn view(&self) -> ActionView {
        match self {
            Action::FetchListing { url } => ActionView::FetchListing { url: url@ },
            Action::FetchArticle { url } => ActionView::FetchArticle { url: url@ },
            Action::WriteArticle { file } => ActionView::WriteArticle {
                dir: file.dir@,
                path: file.path@,
                content: file.content@,
            },
            Action::Finish => ActionView::Finish,
            Action::Abort { error } => ActionView::Abort { error: *error },
        }
    }
}

/// A run as contracts see it.
pub struct RunView {
    /// The source of the run.
    pub site: NewsSite,
    pub phase: Phase,
    /// The links of the listing, in the order in which they were found.
    pub links: Seq<Seq<char>>,
    /// The index of the link in work; every link before it had its turn.
    pub cursor: nat,
    /// The article whose write is awaited.
    pub pending: Option<ArticleView>,
    /// Why the run failed.
    pub failure: Option<ScrapeError>,
    /// How many articles were written.
    pub saved: nat,
    /// How many links were skipped.
    pub skipped: nat,
    /// Why the link that had its turn last was skipped; nothing where it was
    /// written, or where no link had its turn yet.
    pub last_skip: Option<ScrapeError>,
}

impl RunView {
    /// What holds of every run.
    pub open spec fn well_formed(self) -> bool {
        match self.phase {
            Phase::Discovering => {
                &&& self.links.len() == 0
                &&& self.cursor == 0
                &&& self.pending is None
                &&& self.failure is None
                &&& self.saved == 0
                &&& self.skipped == 0
            },
            Phase::Fetching => {
                &&& self.cursor < self.links.len()
                &&& self.pending is None
                &&& self.failure is None
                &&& self.saved + self.skipped == self.cursor
            },
            Phase::Writing => {
                &&& self.cursor < self.links.len()
                &&& self.pending is Some
                &&& self.pending->0.well_formed()
                &&& self.failure is None
                &&& self.saved + self.skipped == self.cursor
            },
            Phase::Done => {
                &&& self.cursor == self.links.len()
                &&& self.pending is None
                &&& self.failure is None
                &&& self.saved + self.skipped == self.cursor
            },
            Phase::Failed => {
                &&& self.links.len() == 0
                &&& self.cursor == 0
                &&& self.pending is None
                &&& (self.failure == Some(ScrapeError::Network) || self.failure == Some(
                    ScrapeError::Markup,
                ))
                &&& self.saved == 0
                &&& self.skipped == 0
            },
        }
    }

    /// The run is past discovery and has not failed.
    pub open spec fn processing(self) -> bool {
        self.phase == Phase::Fetching || self.phase == Phase::Writing || self.phase == Phase::Done
    }
}

/// A run that has not begun.
pub open spec fn initial(site: NewsSite) -> RunView {
    RunView {
        site,
        phase: Phase::Discovering,
        links: Seq::empty(),
        cursor: 0,
        pending: None,
        failure: None,
        saved: 0,
        skipped: 0,
        last_skip: None,
    }
}

/// The run after discovery found these links: at the first link, or done
/// where there is none.
pub open spec fn discovered(run: RunView, links: Seq<Seq<char>>) -> RunView {
    RunView {
        phase: if links.len() > 0 {
            Phase::Fetching
        } else {
            Phase::Done
        },
        links,
        ..run
    }
}

/// The run after discovery failed.
pub open spec fn failed(run: RunView, error: ScrapeError) -> RunView {
    RunView { phase: Phase::Failed, failure: Some(error), ..run }
}

/// The run after the link in work had its turn: at the next link, or done
/// where that was the last. The link was written, or skipped for the given
/// reason.
pub open spec fn moved_on(run: RunView, skip: Option<ScrapeError>) -> RunView {
    RunView {
        phase: if run.cursor + 1 < run.links.len() {
            Phase::Fetching
        } else {
            Phase::Done
        },
        cursor: run.cursor + 1,
        pending: None,
        saved: if skip is None {
            run.saved + 1
        } else {
            run.saved
        },
        skipped: if skip is None {
            run.skipped
        } else {
            run.skipped + 1
        },
        last_skip: skip,
        ..run
    }
}

/// The run after an event. An event that does not answer the awaited action
/// leaves the run as it is.
pub open spec fn step(run: RunView, event: EventView) -> RunView {
    match run.phase {
        Phase::Discovering => match event {
            EventView::Fetched(html) => match page_links(html, run.site) {
                Ok(links) => discovered(run, links),
                Err(error) => failed(run, error),
            },
            EventView::FetchFailed => failed(run, ScrapeError::Network),
            _ => run,
        },
        Phase::Fetching => match event {
            EventView::Fetched(html) => match article_of(html, run.site) {
                Ok(article) => RunView { phase: Phase::Writing, pending: Some(article), ..run },
                Err(error) => moved_on(run, Some(error)),
            },
            EventView::FetchFailed => moved_on(run, Some(ScrapeError::Network)),
            _ => run,
        },
        Phase::Writing => match event {
            EventView::Written => moved_on(run, None),
            EventView::WriteFailed => moved_on(run, Some(ScrapeError::Write)),
            _ => run,
        },
        Phase::Done => run,
        Phase::Failed => run,
    }
}

/// The action that a run waits for.
pub open spec fn awaited(run: RunView) -> ActionView {
    match run.phase {
        Phase::Discovering => ActionView::FetchListing { url: run.site.listing_url@ },
        Phase::Fetching => ActionView::FetchArticle { url: run.links[run.cursor as int] },
        Phase::Writing => {
            let file = file_of(run.pending->0, site_root_of(run.site.name@));
            ActionView::WriteArticle { dir: file.0, path: file.1, content: file.2 }
        },
        Phase::Done => ActionView::Finish,
        Phase::Failed => ActionView::Abort { error: run.failure->0 },
    }
}

/// The run after a series of events.
pub open spec fn after(run: RunView, events: Seq<EventView>) -> RunView
    decreases events.len(),
{
    if events.len() == 0 {
        run
    } else {
        step(after(run, events.drop_last()), events.last())
    }
}

/// A run over one news source.
pub struct SiteRun {
    site: NewsSite,
    phase: Phase,
    links: Vec<String>,
    cursor: usize,
    pending: Option<Article>,
    failure: Option<ScrapeError>,
    saved: usize,
    skipped: usize,
    last_skip: Option<ScrapeError>,
}

impl View for SiteRun {
    type V = RunView;

    closed spec fn view(&self) -> RunView {
        RunView {
            site: self.site,
            phase: self.phase,
            links: self.links.deep_view(),
            cursor: self.cursor as nat,
            pending: match self.pending {
                Some(article) => Some(article@),
                None => None,
            },
            failure: self.failure,
            saved: self.saved as nat,
            skipped: self.skipped as nat,
            last_skip: self.last_skip,
        }
    }
}

impl SiteRun {
    #[verifier::type_invariant]
    closed spec fn holds(self) -> bool {
        self@.well_formed()
    }

    /// A run over `site` that has not begun.
    pub fn start(site: NewsSite) -> (run: SiteRun)
        ensures
            run@ == initial(site),
            run@.well_formed(),
    {
        let run = SiteRun {
            site,
            phase: Phase::Discovering,
            links: Vec::new(),
            cursor: 0,
            pending: None,
            failure: None,
            saved: 0,
            skipped: 0,
            last_skip: None,
        };
        assert(run@.links =~= Seq::empty());
        run
    }

    /// Where the run stands.
    pub fn phase(&self) -> (phase: Phase)
        ensures
            phase == self@.phase,
            self@.well_formed(),
    {
        proof {
            use_type_invariant(self);
        }
        self.phase
    }

    /// The source of the run.
    pub fn site(&self) -> (site: &NewsSite)
        ensures
            *site == self@.site,
    {
        &self.site
    }

    /// How many links discovery found.
    pub fn discovered_links(&self) -> (n: usize)
        ensures
            n == self@.links.len(),
    {
        self.links.len()
    }

    /// How many articles were written.
    pub fn saved(&self) -> (n: usize)
        ensures
            n == self@.saved,
    {
        self.saved
    }

    /// How many links were skipped.
    pub fn skipped(&self) -> (n: usize)
        ensures
            n == self@.skipped,
    {
        self.skipped
    }

    /// Why the link that had its turn last was skipped, where it was.
    pub fn last_skip(&self) -> (error: Option<ScrapeError>)
        ensures
            error == self@.last_skip,
    {
        self.last_skip
    }

    /// Why the run failed, where it has.
    pub fn failure(&self) -> (error: Option<ScrapeError>)
        ensures
            error == self@.failure,
    {
        self.failure
    }

    /// The action that the run waits for.
    pub fn next_action(&self) -> (action: Action)
        ensures
            action@ == awaited(self@),
    {
        proof {
            use_type_invariant(self);
        }
        match self.phase {
            Phase::Discovering => Action::FetchListing { url: self.site.listing_url.clone() },
            Phase::Fetching => {
                assert(self.links.deep_view()[self.cursor as int] == self.links[self.cursor as int]@);
                Action::FetchArticle { url: self.links[self.cursor].clone() }
            },
            Phase::Writing => match &self.pending {
                Some(article) => {
                    let root = site_root(self.site.name.as_str());
                    Action::WriteArticle { file: save_article(article, root.as_str()) }
                },
                None => unreached(),
            },
            Phase::Done => Action::Finish,
            Phase::Failed => match self.failure {
                Some(error) => Action::Abort { error },
                None => unreached(),
            },
        }
    }

    /// The run with the link in work behind it.
    fn move_on(self, skip: Option<ScrapeError>) -> (run: SiteRun)
        requires
            self@.phase == Phase::Fetching || self@.phase == Phase::Writing,
        ensures
            run@ == moved_on(self@, skip),
    {
        proof {
            use_type_invariant(&self);
        }
        assert(self@.links.len() == self.links.len());
        let cursor = self.cursor + 1;
        SiteRun {
            site: self.site,
            phase: if cursor < self.links.len() {
                Phase::Fetching
            } else {
                Phase::Done
            },
            links: self.links,
            cursor,
            pending: None,
            failure: self.failure,
            saved: if skip.is_none() {
                self.saved + 1
            } else {
                self.saved
            },
            skipped: if skip.is_none() {
                self.skipped
            } else {
                self.skipped + 1
            },
            last_skip: skip,
        }
    }

    /// The run after an event. From the first link on, no event fails the
    /// run: a page that cannot be fetched or read and a file that cannot be
    /// written cost the run one link and no more.
    pub fn advance(self, event: Event) -> (run: SiteRun)
        ensures
            run@ == step(self@, event@),
            run@.well_formed(),
    {
        proof {
            use_type_invariant(&self);
        }
        match self.phase {
            Phase::Discovering => match event {
                Event::Fetched(html) => match get_news_links(html.as_str(), &self.site) {
                    Ok(links) => SiteRun {
                        site: self.site,
                        phase: if links.len() > 0 {
                            Phase::Fetching
                        } else {
                            Phase::Done
                        },
                        links,
                        cursor: self.cursor,
                        pending: self.pending,
                        failure: self.failure,
                        saved: self.saved,
                        skipped: self.skipped,
                        last_skip: self.last_skip,
                    },
                    Err(error) => SiteRun {
                        site: self.site,
                        phase: Phase::Failed,
                        links: self.links,
                        cursor: self.cursor,
                        pending: self.pending,
                        failure: Some(error),
                        saved: self.saved,
                        skipped: self.skipped,
                        last_skip: self.last_skip,
                    },
                },
                Event::FetchFailed => SiteRun {
                    site: self.site,
                    phase: Phase::Failed,
                    links: self.links,
                    cursor: self.cursor,
                    pending: self.pending,
                    failure: Some(ScrapeError::Network),
                    saved: self.saved,
                    skipped: self.skipped,
                    last_skip: self.last_skip,
                },
                _ => self,
            },
            Phase::Fetching => match event {
                Event::Fetched(html) => match parse_article(html.as_str(), &self.site) {
                    Ok(article) => SiteRun {
                        site: self.site,
                        phase: Phase::Writing,
                        links: self.links,
                        cursor: self.cursor,
                        pending: Some(article),
                        failure: self.failure,
                        saved: self.saved,
                        skipped: self.skipped,
                        last_skip: self.last_skip,
                    },
                    Err(error) => self.move_on(Some(error)),
                },
                Event::FetchFailed => self.move_on(Some(ScrapeError::Network)),
                _ => self,
            },
            Phase::Writing => match event {
                Event::Written => self.move_on(None),
                Event::WriteFailed => self.move_on(Some(ScrapeError::Write)),
                _ => self,
            },
            Phase::Done => self,
            Phase::Failed => self,
        }
    }
}

/// Begins a run over a source.
pub fn scrape_website(site: NewsSite) -> (run: SiteRun)
    ensures
        run@ == initial(site),
{
    SiteRun::start(site)
}

/// Begins a run over CBC News.
pub fn scrape_cbc() -> (run: SiteRun)
    ensures
        run@ == initial(run@.site),
        run@.site.name@ == "cbc"@,
        run@.site.listing_url@ == "https://www.cbc.ca/news"@,
        run@.site.link_selector@ == "a.card"@,
        run@.site.link_path_filter@ == NEWS_PATH@,
        run@.site.link_prefix@ == "cbc.ca"@,
        run@.site.body_selector@ == "div.story"@,
        run@.site.paragraph_selector@ == "p"@,
{
    scrape_website(cbc())
}

/// Begins a run over the National Post.
pub fn scrape_np() -> (run: SiteRun)
    ensures
        run@ == initial(run@.site),
        run@.site.name@ == "national_post"@,
        run@.site.listing_url@ == "https://nationalpost.com/category/news/"@,
        run@.site.link_selector@ == "a.article-card__link"@,
        run@.site.link_path_filter@ == NEWS_PATH@,
        run@.site.link_prefix@ == "nationalpost.com"@,
        run@.site.body_selector@ == "section.article-content__content-group"@,
        run@.site.paragraph_selector@ == "p.section.article-content__content-group"@,
{
    scrape_website(national_post())
}

/// Begins a run over the Toronto Star.
pub fn scrape_star() -> (run: SiteRun)
    ensures
        run@ == initial(run@.site),
        run@.site.name@ == "the_star"@,
        run@.site.listing_url@ == "https://www.thestar.com/news/world"@,
        run@.site.link_selector@ == "a.c-mediacard"@,
        run@.site.link_path_filter@ == NEWS_PATH@,
        run@.site.link_prefix@ == "thestar.com"@,
        run@.site.body_selector@ == "div.c-article-body__content"@,
        run@.site.paragraph_selector@ == "p.text-block-container"@,
{
    scrape_website(the_star())
}

/// An event leaves a well-formed run well formed.
pub proof fn lemma_step_keeps_well_formed(run: RunView, event: EventView)
    requires
        run.well_formed(),
    ensures
        step(run, event).well_formed(),
{
    if run.phase == Phase::Fetching {
        if let EventView::Fetched(html) = event {
            lemma_article_is_well_formed(html, run.site);
        }
    }
}

/// From the first link on, whatever happens to one article leaves the others
/// their turn: no event fails the run or changes its links, and an event
/// either keeps the link in work or moves to the very next one.
pub proof fn lemma_one_article_costs_one_link(run: RunView, event: EventView)
    requires
        run.well_formed(),
        run.processing(),
    ensures
        step(run, event).processing(),
        step(run, event).failure is None,
        step(run, event).links == run.links,
        step(run, event).site == run.site,
        step(run, event).cursor == run.cursor || step(run, event).cursor == run.cursor + 1,
        step(run, event).phase == Phase::Done <==> step(run, event).cursor == run.links.len(),
{
}

/// A link that fails is skipped and the next link is fetched: where the page
/// of the link in work cannot be fetched or gives no article, the run counts
/// one more skipped link and, where a link is left, asks for the next one.
pub proof fn lemma_failed_link_is_skipped(run: RunView, event: EventView)
    requires
        run.well_formed(),
        run.phase == Phase::Fetching,
        event == EventView::FetchFailed || (event matches EventView::Fetched(html) && article_of(
            html,
            run.site,
        ) is Err),
    ensures
        step(run, event).skipped == run.skipped + 1,
        step(run, event).saved == run.saved,
        step(run, event).cursor == run.cursor + 1,
        step(run, event).last_skip == (match event {
            EventView::Fetched(html) => Some(article_of(html, run.site)->Err_0),
            _ => Some(ScrapeError::Network),
        }),
        run.cursor + 1 < run.links.len() ==> awaited(step(run, event)) == (
        ActionView::FetchArticle { url: run.links[run.cursor as int + 1] }),
        run.cursor + 1 == run.links.len() ==> awaited(step(run, event)) == ActionView::Finish,
{
}

/// A file that cannot be written is skipped in the same way.
pub proof fn lemma_failed_write_is_skipped(run: RunView)
    requires
        run.well_formed(),
        run.phase == Phase::Writing,
    ensures
        step(run, EventView::WriteFailed).skipped == run.skipped + 1,
        step(run, EventView::WriteFailed).saved == run.saved,
        step(run, EventView::WriteFailed).cursor == run.cursor + 1,
        step(run, EventView::WriteFailed).last_skip == Some(ScrapeError::Write),
        run.cursor + 1 < run.links.len() ==> awaited(step(run, EventView::WriteFailed)) == (
        ActionView::FetchArticle { url: run.links[run.cursor as int + 1] }),
        run.cursor + 1 == run.links.len() ==> awaited(step(run, EventView::WriteFailed))
            == ActionView::Finish,
{
}

/// Once discovery has succeeded, no series of events fails the run, loses a
/// link or goes back to an earlier one.
pub proof fn lemma_processing_never_fails(run: RunView, events: Seq<EventView>)
    requires
        run.well_formed(),
        run.processing(),
    ensures
        after(run, events).well_formed(),
        after(run, events).processing(),
        after(run, events).failure is None,
        after(run, events).links == run.links,
        after(run, events).site == run.site,
        run.cursor <= after(run, events).cursor <= run.cursor + events.len(),
    decreases events.len(),
{
    if events.len() > 0 {
        lemma_processing_never_fails(run, events.drop_last());
        lemma_step_keeps_well_formed(after(run, events.drop_last()), events.last());
        lemma_one_article_costs_one_link(after(run, events.drop_last()), events.last());
    }
}

/// Only discovery can fail a run, and only for want of the listing or of a
/// valid link selector.
pub proof fn lemma_only_discovery_fails(run: RunView, event: EventView)
    requires
        run.well_formed(),
        run.phase != Phase::Failed,
        step(run, event).phase == Phase::Failed,
    ensures
        run.phase == Phase::Discovering,
        step(run, event).failure == Some(ScrapeError::Network) <==> event
            == EventView::FetchFailed,
        step(run, event).failure == Some(ScrapeError::Markup) <==> event is Fetched,
{
}

} // verus!

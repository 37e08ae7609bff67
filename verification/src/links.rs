//! The article links of a listing page.

use crate::error::ScrapeError;
use crate::markup::{option_views, select_attrs, selected_attrs, selector_parses};
use crate::site::NewsSite;
use crate::text::{contains, has_substring};
use vstd::prelude::*;

verus! {

/// The scheme of every link that the library hands out.
pub const SCHEME: &'static str = "https://";

/// The attribute that holds an anchor's target.
pub const HREF: &'static str = "href";

/// The absolute address of an `href` on a host.
pub open spec fn absolute_url(prefix: Seq<char>, href: Seq<char>) -> Seq<char> {
    SCHEME@ + prefix + href
}

/// An anchor counts where it has an `href` and the `href` holds the filter.
pub open spec fn is_article_href(href: Option<Seq<char>>, filter: Seq<char>) -> bool {
    href is Some && has_substring(href->0, filter)
}

/// The links that a run of anchors gives, in the order of the anchors: one
/// for each anchor that counts.
pub open spec fn links_of(
    hrefs: Seq<Option<Seq<char>>>,
    filter: Seq<char>,
    prefix: Seq<char>,
) -> Seq<Seq<char>>
    decreases hrefs.len(),
{
    if hrefs.len() == 0 {
        Seq::empty()
    } else {
        let before = links_of(hrefs.drop_last(), filter, prefix);
        if is_article_href(hrefs.last(), filter) {
            before.push(absolute_url(prefix, hrefs.last()->0))
        } else {
            before
        }
    }
}

/// The absolute address of an `href` on a host.
pub fn make_absolute(prefix: &str, href: &str) -> (url: String)
    ensures
        url@ == absolute_url(prefix@, href@),
{
    let mut url = SCHEME.to_owned();
    url.append(prefix);
    url.append(href);
    url
}

/// Keeps the anchors whose `href` holds the filter and makes each an absolute
/// address. No match gives an empty list.
pub fn collect_links(hrefs: &Vec<Option<String>>, filter: &str, prefix: &str) -> (links: Vec<
    String,
>)
    ensures
        links.deep_view() == links_of(option_views(hrefs@), filter@, prefix@),
        forall|i: int|
            0 <= i < links.len() ==> comes_from_article_href(
                (#[trigger] links[i])@,
                option_views(hrefs@),
                filter@,
                prefix@,
            ),
{
    let mut links: Vec<String> = Vec::new();
    let mut i: usize = 0;
    assert(option_views(hrefs@).take(0) =~= Seq::empty());
    while i < hrefs.len()
        invariant
            i <= hrefs.len(),
            links.deep_view() == links_of(option_views(hrefs@).take(i as int), filter@, prefix@),
        decreases hrefs.len() - i,
    {
        let ghost head = option_views(hrefs@).take(i as int + 1);
        let ghost before = links.deep_view();
        assert(head.drop_last() =~= option_views(hrefs@).take(i as int));
        assert(head.last() == option_views(hrefs@)[i as int]);
        match &hrefs[i] {
            Some(href) => {
                if contains(href.as_str(), filter) {
                    let url = make_absolute(prefix, href.as_str());
                    links.push(url);
                    assert(links.deep_view() =~= before.push(url@));
                }
            },
            None => {},
        }
        i += 1;
    }
    assert(option_views(hrefs@).take(i as int) =~= option_views(hrefs@));
    proof {
        lemma_links_hold_the_filter(option_views(hrefs@), filter@, prefix@);
        assert forall|i: int| 0 <= i < links.len() implies comes_from_article_href(
            (#[trigger] links[i])@,
            option_views(hrefs@),
            filter@,
            prefix@,
        ) by {
            assert(links.deep_view()[i] == links[i]@);
        }
    }
    links
}

/// The article links of a listing page for a source.
pub open spec fn page_links(html: Seq<char>, site: NewsSite) -> Result<
    Seq<Seq<char>>,
    ScrapeError,
> {
    if selector_parses(site.link_selector@) {
        Ok(
            links_of(
                selected_attrs(html, site.link_selector@, HREF@),
                site.link_path_filter@,
                site.link_prefix@,
            ),
        )
    } else {
        Err(ScrapeError::Markup)
    }
}

/// Finds the article links of a listing page, in the order in which the
/// anchors were selected. A page without a matching anchor gives an empty
/// list; only a link selector that is no valid selector is an error.
pub fn get_news_links(html: &str, site: &NewsSite) -> (r: Result<Vec<String>, ScrapeError>)
    ensures
        r is Ok <==> selector_parses(site.link_selector@),
        r matches Ok(links) ==> page_links(html@, *site) == Ok::<Seq<Seq<char>>, ScrapeError>(
            links.deep_view(),
        ),
        r matches Err(e) ==> e == ScrapeError::Markup && page_links(html@, *site) == Err::<
            Seq<Seq<char>>,
            ScrapeError,
        >(e),
{
    match select_attrs(html, site.link_selector.as_str(), HREF) {
        Ok(hrefs) => Ok(
            collect_links(&hrefs, site.link_path_filter.as_str(), site.link_prefix.as_str()),
        ),
        Err(_) => Err(ScrapeError::Markup),
    }
}

/// `link` is the absolute address of an anchor among `hrefs` whose `href`
/// holds the filter.
pub open spec fn comes_from_article_href(
    link: Seq<char>,
    hrefs: Seq<Option<Seq<char>>>,
    filter: Seq<char>,
    prefix: Seq<char>,
) -> bool {
    exists|j: int|
        0 <= j < hrefs.len() && is_article_href(#[trigger] hrefs[j], filter) && link
            == absolute_url(prefix, hrefs[j]->0)
}

/// Every link comes from an anchor whose `href` holds the filter.
pub proof fn lemma_links_hold_the_filter(
    hrefs: Seq<Option<Seq<char>>>,
    filter: Seq<char>,
    prefix: Seq<char>,
)
    ensures
        forall|i: int|
            0 <= i < links_of(hrefs, filter, prefix).len() ==> comes_from_article_href(
                #[trigger] links_of(hrefs, filter, prefix)[i],
                hrefs,
                filter,
                prefix,
            ),
    decreases hrefs.len(),
{
    if hrefs.len() > 0 {
        let shorter = hrefs.drop_last();
        lemma_links_hold_the_filter(shorter, filter, prefix);
        let before = links_of(shorter, filter, prefix);
        let all = links_of(hrefs, filter, prefix);
        assert forall|i: int| 0 <= i < all.len() implies comes_from_article_href(
            #[trigger] all[i],
            hrefs,
            filter,
            prefix,
        ) by {
            if i < before.len() {
                assert(all[i] == before[i]);
                assert(comes_from_article_href(before[i], shorter, filter, prefix));
                let j = choose|j: int|
                    0 <= j < shorter.len() && is_article_href(#[trigger] shorter[j], filter)
                        && before[i] == absolute_url(prefix, shorter[j]->0);
                assert(hrefs[j] == shorter[j]);
            } else {
                let j = hrefs.len() - 1;
                assert(is_article_href(hrefs[j], filter));
            }
        }
    }
}

/// Where no anchor's `href` holds the filter, there is no link.
pub proof fn lemma_no_match_no_links(
    hrefs: Seq<Option<Seq<char>>>,
    filter: Seq<char>,
    prefix: Seq<char>,
)
    requires
        forall|j: int| 0 <= j < hrefs.len() ==> !is_article_href(#[trigger] hrefs[j], filter),
    ensures
        links_of(hrefs, filter, prefix).len() == 0,
    decreases hrefs.len(),
{
    if hrefs.len() > 0 {
        let shorter = hrefs.drop_last();
        assert forall|j: int| 0 <= j < shorter.len() implies !is_article_href(
            #[trigger] shorter[j],
            filter,
        ) by {
            assert(shorter[j] == hrefs[j]);
        }
        lemma_no_match_no_links(shorter, filter, prefix);
    }
}

/// Links keep the order of their anchors: the links of two runs of anchors put
/// together are those of the first run, then those of the second.
pub proof fn lemma_links_keep_order(
    first: Seq<Option<Seq<char>>>,
    second: Seq<Option<Seq<char>>>,
    filter: Seq<char>,
    prefix: Seq<char>,
)
    ensures
        links_of(first + second, filter, prefix) == links_of(first, filter, prefix) + links_of(
            second,
            filter,
            prefix,
        ),
    decreases second.len(),
{
    if second.len() == 0 {
        assert(first + second =~= first);
        assert(links_of(first, filter, prefix) + links_of(second, filter, prefix) =~= links_of(
            first,
            filter,
            prefix,
        ));
    } else {
        lemma_links_keep_order(first, second.drop_last(), filter, prefix);
        assert((first + second).drop_last() =~= first + second.drop_last());
        assert((first + second).last() == second.last());
        if is_article_href(second.last(), filter) {
            assert(links_of(first + second, filter, prefix) =~= links_of(first, filter, prefix)
                + links_of(second, filter, prefix));
        }
    }
}

/// With a valid link selector, discovery does not fail, whatever the page
/// holds; a page on which no anchor counts gives an empty list.
pub proof fn lemma_discovery_without_match_is_empty(html: Seq<char>, site: NewsSite)
    requires
        selector_parses(site.link_selector@),
        forall|j: int|
            0 <= j < selected_attrs(html, site.link_selector@, HREF@).len() ==> !is_article_href(
                #[trigger] selected_attrs(html, site.link_selector@, HREF@)[j],
                site.link_path_filter@,
            ),
    ensures
        page_links(html, site) == Ok::<Seq<Seq<char>>, ScrapeError>(Seq::empty()),
{
    let hrefs = selected_attrs(html, site.link_selector@, HREF@);
    lemma_no_match_no_links(hrefs, site.link_path_filter@, site.link_prefix@);
    assert(links_of(hrefs, site.link_path_filter@, site.link_prefix@) =~= Seq::empty());
}

} // verus!

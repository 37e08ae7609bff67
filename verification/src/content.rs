//! The paragraphs of an article.

use crate::error::ScrapeError;
use crate::markup::{
    element_views, nested_views, select_within, selected_within, selector_parses, Element,
    ElementView,
};
use crate::site::NewsSite;
use crate::text::{join, joined, replace, replaced};
use vstd::prelude::*;

verus! {

/// A marker that some sources put into the text of an article.
pub const BOILERPLATE_MARKER: &'static str = "Article content";

/// A line break with the blank that follows it.
pub const BREAK_AND_BLANK: &'static str = "\n ";

/// The separator between the text nodes of one paragraph.
pub const LINE_BREAK: &'static str = "\n";

/// A text without the boilerplate marker and without line breaks that a
/// blank follows.
pub open spec fn cleaned(text: Seq<char>) -> Seq<char> {
    replaced(replaced(text, BOILERPLATE_MARKER@, ""@), BREAK_AND_BLANK@, ""@)
}

/// The raw text of a paragraph element: its text nodes joined by line breaks
/// where it has more than one, its inner HTML otherwise.
pub open spec fn raw_paragraph(element: ElementView) -> Seq<char> {
    if element.text.len() > 1 {
        joined(element.text, LINE_BREAK@)
    } else {
        element.inner_html
    }
}

/// The paragraph that an element gives: its cleaned raw text, unless that is
/// empty.
pub open spec fn paragraph_of(element: ElementView) -> Option<Seq<char>> {
    let text = cleaned(raw_paragraph(element));
    if text.len() > 0 {
        Some(text)
    } else {
        None
    }
}

/// The paragraphs that a run of elements gives, in the order of the elements.
pub open spec fn paragraphs_of(elements: Seq<ElementView>) -> Seq<Seq<char>>
    decreases elements.len(),
{
    if elements.len() == 0 {
        Seq::empty()
    } else {
        let before = paragraphs_of(elements.drop_last());
        match paragraph_of(elements.last()) {
            Some(text) => before.push(text),
            None => before,
        }
    }
}

/// Removes the boilerplate marker and the line breaks that a blank follows.
pub fn clean(text: &str) -> (r: String)
    ensures
        r@ == cleaned(text@),
{
    let unmarked = replace(text, BOILERPLATE_MARKER, "");
    replace(unmarked.as_str(), BREAK_AND_BLANK, "")
}

/// The paragraph that one element gives, or nothing where its cleaned text
/// is empty.
pub fn paragraph(element: &Element) -> (r: Option<String>)
    ensures
        r.is_some() == paragraph_of(element@).is_some(),
        r matches Some(text) ==> paragraph_of(element@) == Some(text@),
{
    let text = if element.text.len() > 1 {
        clean(join(&element.text, LINE_BREAK).as_str())
    } else {
        clean(element.inner_html.as_str())
    };
    if text.as_str().unicode_len() > 0 {
        Some(text)
    } else {
        None
    }
}

/// The paragraphs of the selected elements, in the order of the elements. An
/// element whose cleaned text is empty gives no paragraph, so no paragraph is
/// empty.
pub fn collect_paragraphs(elements: &Vec<Element>) -> (r: Vec<String>)
    ensures
        r.deep_view() == paragraphs_of(element_views(elements@)),
        forall|i: int| 0 <= i < r.len() ==> (#[trigger] r[i])@.len() > 0,
{
    let mut out: Vec<String> = Vec::new();
    let mut i: usize = 0;
    assert(element_views(elements@).take(0) =~= Seq::empty());
    while i < elements.len()
        invariant
            i <= elements.len(),
            out.deep_view() == paragraphs_of(element_views(elements@).take(i as int)),
        decreases elements.len() - i,
    {
        let ghost head = element_views(elements@).take(i as int + 1);
        let ghost before = out.deep_view();
        assert(head.drop_last() =~= element_views(elements@).take(i as int));
        assert(head.last() == elements[i as int]@);
        match paragraph(&elements[i]) {
            Some(text) => {
                out.push(text);
                assert(out.deep_view() =~= before.push(text@));
            },
            None => {},
        }
        i += 1;
    }
    assert(element_views(elements@).take(i as int) =~= element_views(elements@));
    proof {
        lemma_paragraphs_are_not_empty(element_views(elements@));
        assert forall|i: int| 0 <= i < out.len() implies (#[trigger] out[i])@.len() > 0 by {
            assert(out.deep_view()[i] == out[i]@);
        }
    }
    out
}

/// The paragraphs of a page for a source: those of the paragraph elements
/// inside the first body element.
pub open spec fn page_paragraphs(html: Seq<char>, site: NewsSite) -> Result<
    Seq<Seq<char>>,
    ScrapeError,
> {
    let bodies = selected_within(html, site.body_selector@, site.paragraph_selector@);
    if !(selector_parses(site.body_selector@) && selector_parses(site.paragraph_selector@)) {
        Err(ScrapeError::Markup)
    } else if bodies.len() == 0 {
        Err(ScrapeError::BodyNotFound)
    } else {
        Ok(paragraphs_of(bodies[0]))
    }
}

/// Collects the paragraphs of an article page. The body is the first element
/// that the body selector matches; a page without one has no body. A selector
/// that is no valid selector is a fault of the source's description.
pub fn extract_paragraphs(html: &str, site: &NewsSite) -> (r: Result<Vec<String>, ScrapeError>)
    ensures
        r is Ok <==> page_paragraphs(html@, *site) is Ok,
        r matches Ok(v) ==> page_paragraphs(html@, *site) == Ok::<Seq<Seq<char>>, ScrapeError>(
            v.deep_view(),
        ) && forall|i: int| 0 <= i < v.len() ==> (#[trigger] v[i])@.len() > 0,
        r matches Err(e) ==> page_paragraphs(html@, *site) == Err::<Seq<Seq<char>>, ScrapeError>(e),
{
    match select_within(html, site.body_selector.as_str(), site.paragraph_selector.as_str()) {
        Ok(bodies) => {
            if bodies.len() > 0 {
                assert(nested_views(bodies@)[0] == element_views(bodies[0]@));
                Ok(collect_paragraphs(&bodies[0]))
            } else {
                Err(ScrapeError::BodyNotFound)
            }
        },
        Err(_) => Err(ScrapeError::Markup),
    }
}

/// No paragraph is empty.
pub proof fn lemma_paragraphs_are_not_empty(elements: Seq<ElementView>)
    ensures
        forall|i: int|
            0 <= i < paragraphs_of(elements).len() ==> (#[trigger] paragraphs_of(elements)[i]).len()
                > 0,
    decreases elements.len(),
{
    if elements.len() > 0 {
        lemma_paragraphs_are_not_empty(elements.drop_last());
        let before = paragraphs_of(elements.drop_last());
        let all = paragraphs_of(elements);
        assert forall|i: int| 0 <= i < all.len() implies (#[trigger] all[i]).len() > 0 by {
            if i < before.len() {
                assert(all[i] == before[i]);
            }
        }
    }
}

/// Paragraphs keep the order of their elements: the paragraphs of two runs of
/// elements put together are those of the first run, then those of the second.
pub proof fn lemma_paragraphs_keep_order(first: Seq<ElementView>, second: Seq<ElementView>)
    ensures
        paragraphs_of(first + second) == paragraphs_of(first) + paragraphs_of(second),
    decreases second.len(),
{
    if second.len() == 0 {
        assert(first + second =~= first);
        assert(paragraphs_of(first) + paragraphs_of(second) =~= paragraphs_of(first));
    } else {
        lemma_paragraphs_keep_order(first, second.drop_last());
        assert((first + second).drop_last() =~= first + second.drop_last());
        assert((first + second).last() == second.last());
        match paragraph_of(second.last()) {
            Some(text) => {
                assert(paragraphs_of(first + second) =~= paragraphs_of(first) + paragraphs_of(
                    second,
                ));
            },
            None => {},
        }
    }
}

/// One element gives its paragraph, or none.
pub proof fn lemma_paragraphs_of_one(element: ElementView)
    ensures
        paragraphs_of(seq![element]) == match paragraph_of(element) {
            Some(text) => seq![text],
            None => Seq::empty(),
        },
{
    let one = seq![element];
    assert(one.drop_last() =~= Seq::<ElementView>::empty());
    assert(paragraphs_of(one.drop_last()) =~= Seq::<Seq<char>>::empty());
    assert(one.last() == element);
    match paragraph_of(element) {
        Some(text) => {
            assert(paragraphs_of(one) =~= seq![text]);
        },
        None => {},
    }
}

} // verus!

//! Queries on an HTML document by CSS selector.
//!
//! Every query takes the document and the selectors as text and hands back
//! plain values, so that what it returns is a function of its arguments.

use vstd::prelude::*;

verus! {

/// Why `scraper::Selector::parse` refused a selector. The library reads
/// nothing of it.
#[verifier::external_type_specification]
#[verifier::external_body]
pub struct ExSelectorError(scraper::error::SelectorErrorKind);

/// Whether `scraper::Selector::parse` accepts the selector.
pub uninterp spec fn selector_parses(selector: Seq<char>) -> bool;

/// For each element that `scraper::Html::select` yields on the document parsed
/// from `html`, in the order in which it yields them: what
/// `scraper::ElementRef::attr` returns for the attribute `name`.
pub uninterp spec fn selected_attrs(html: Seq<char>, selector: Seq<char>, name: Seq<char>) -> Seq<
    Option<Seq<char>>,
>;

/// For each element that `scraper::Html::select` yields on the document parsed
/// from `html`, in the order in which it yields them: the text nodes below it
/// that `scraper::ElementRef::text` yields, in order.
pub uninterp spec fn selected_texts(html: Seq<char>, selector: Seq<char>) -> Seq<Seq<Seq<char>>>;

/// What the library reads of one element: the text nodes below it, in
/// document order, and its inner HTML.
#[derive(Debug)]
pub struct Element {
    pub text: Vec<String>,
    pub inner_html: String,
}

/// An element as contracts see it.
pub struct ElementView {
    pub text: Seq<Seq<char>>,
    pub inner_html: Seq<char>,
}

impl View for Element {
    type V = ElementView;

    open spec fn view(&self) -> ElementView {
        ElementView { text: self.text.deep_view(), inner_html: self.inner_html@ }
    }
}

/// For each element that `scraper::Html::select` yields for `scope` on the
/// document parsed from `html`, in the order in which it yields them: the
/// elements below it that `scraper::ElementRef::select` yields for `selector`,
/// in the order in which it yields them, each with its text nodes
/// (`ElementRef::text`) and its inner HTML (`ElementRef::inner_html`).
pub uninterp spec fn selected_within(
    html: Seq<char>,
    scope: Seq<char>,
    selector: Seq<char>,
) -> Seq<Seq<ElementView>>;

/// The view of a list of optional texts.
pub open spec fn option_views(v: Seq<Option<String>>) -> Seq<Option<Seq<char>>> {
    Seq::new(
        v.len(),
        |i: int|
            match v[i] {
                Some(s) => Some(s@),
                None => None,
            },
    )
}

/// The views of a list of elements.
pub open spec fn element_views(v: Seq<Element>) -> Seq<ElementView> {
    Seq::new(v.len(), |i: int| v[i]@)
}

/// The views of a list of lists of elements.
pub open spec fn nested_views(v: Seq<Vec<Element>>) -> Seq<Seq<ElementView>> {
    Seq::new(v.len(), |i: int| element_views(v[i]@))
}

/// Whether `scraper::Selector::parse` accepts the selector.
#[verifier::external_body]
pub(crate) fn selector_is_valid(selector: &str) -> (valid: bool)
    ensures
        valid == selector_parses(selector@),
{
    scraper::Selector::parse(selector).is_ok()
}

/// Parses `selector` with `scraper::Selector::parse` and `html` with
/// `scraper::Html::parse_document`, and reads the attribute `name` of every
/// element that `Html::select` yields. The error is the one that parsing the
/// selector gave.
#[verifier::external_body]
pub(crate) fn select_attrs(html: &str, selector: &str, name: &str) -> (r: Result<
    Vec<Option<String>>,
    scraper::error::SelectorErrorKind,
>)
    ensures
        r is Ok <==> selector_parses(selector@),
        r matches Ok(v) ==> option_views(v@) == selected_attrs(html@, selector@, name@),
{
    let selector = scraper::Selector::parse(selector)?;
    let doc = scraper::Html::parse_document(html);
    Ok(doc.select(&selector).map(|e| e.attr(name).map(String::from)).collect())
}

/// Parses `selector` with `scraper::Selector::parse` and `html` with
/// `scraper::Html::parse_document`, and collects the text nodes of every
/// element that `Html::select` yields. The error is the one that parsing the
/// selector gave.
#[verifier::external_body]
pub(crate) fn select_texts(html: &str, selector: &str) -> (r: Result<
    Vec<Vec<String>>,
    scraper::error::SelectorErrorKind,
>)
    ensures
        r is Ok <==> selector_parses(selector@),
        r matches Ok(v) ==> v.deep_view() == selected_texts(html@, selector@),
{
    let selector = scraper::Selector::parse(selector)?;
    let doc = scraper::Html::parse_document(html);
    Ok(doc.select(&selector).map(|e| e.text().map(String::from).collect()).collect())
}

/// Parses both selectors with `scraper::Selector::parse` and `html` with
/// `scraper::Html::parse_document`, and for every element that `Html::select`
/// yields for `scope` collects the text nodes and the inner HTML of every
/// element that `ElementRef::select` yields for `selector` below it. The error
/// is the first that parsing a selector gave.
#[verifier::external_body]
pub(crate) fn select_within(html: &str, scope: &str, selector: &str) -> (r: Result<
    Vec<Vec<Element>>,
    scraper::error::SelectorErrorKind,
>)
    ensures
        r is Ok <==> (selector_parses(scope@) && selector_parses(selector@)),
        r matches Ok(v) ==> nested_views(v@) == selected_within(html@, scope@, selector@),
{
    let scope = scraper::Selector::parse(scope)?;
    let selector = scraper::Selector::parse(selector)?;
    let doc = scraper::Html::parse_document(html);
    Ok(doc.select(&scope).map(|s| {
        s.select(&selector).map(|e| Element {
            text: e.text().map(String::from).collect(),
            inner_html: e.inner_html(),
        }).collect()
    }).collect())
}

} // verus!

//! Querying HTML documents with CSS selectors.
//!
//! Parsing HTML and matching selectors is the work of the `scraper` crate.
//! This module hands it text and takes back plain values: for each matched
//! element its inner HTML, its text nodes and the value of one attribute.

use crate::wire::texts;
use vstd::prelude::*;

verus! {

/// What the library reads of one matched element.
#[derive(Debug, PartialEq, Eq)]
pub struct Element {
    /// Value of the attribute that was asked for, if the element has it.
    pub attr: Option<String>,
    /// The element's children, serialized as HTML.
    pub inner_html: String,
    /// The text nodes below the element, in document order.
    pub texts: Vec<String>,
}

/// Mathematical content of an [`Element`].
pub struct ElementView {
    pub attr: Option<Seq<char>>,
    pub inner_html: Seq<char>,
    pub texts: Seq<Seq<char>>,
}

impl View for Element {
    type V = ElementView;

    open spec fn view(&self) -> ElementView {
        ElementView {
            attr: match self.attr {
                Some(value) => Some(value@),
                None => None,
            },
            inner_html: self.inner_html@,
            texts: texts(self.texts@),
        }
    }
}

/// The contents of a list of elements.
pub open spec fn element_views(v: Seq<Element>) -> Seq<ElementView> {
    Seq::new(v.len(), |i: int| v[i]@)
}

/// The contents of a list of lists of elements.
pub open spec fn nested_views(v: Seq<Vec<Element>>) -> Seq<Seq<ElementView>> {
    Seq::new(v.len(), |i: int| element_views(v[i]@))
}

/// The elements of `document` that match `selector`, each with its value of
/// the attribute `attr`; nothing when `selector` is no valid selector.
pub uninterp spec fn selected(document: Seq<char>, selector: Seq<char>, attr: Seq<char>) -> Option<
    Seq<ElementView>,
>;

/// For each element of `document` that matches `outer`, its descendants
/// that match `inner`, each with its value of the attribute `attr`; nothing
/// when `outer` or `inner` is no valid selector.
pub uninterp spec fn selected_within(
    document: Seq<char>,
    outer: Seq<char>,
    inner: Seq<char>,
    attr: Seq<char>,
) -> Option<Seq<Seq<ElementView>>>;

/// Selects elements of a document with `scraper`: `Selector::parse` on
/// `selector`, `Html::parse_document` on `document`, then `Html::select`.
/// Each match is read with `Element::attr`, `ElementRef::inner_html` and
/// `ElementRef::text`. The contract only names the result: it is a function
/// of the three texts.
#[verifier::external_body]
pub(crate) fn select(document: &str, selector: &str, attr: &str) -> (r: Option<Vec<Element>>)
    ensures
        r is Some <==> selected(document@, selector@, attr@) is Some,
        r matches Some(found) ==> selected(document@, selector@, attr@) == Some(
            element_views(found@),
        ),
{
    let parsed = scraper::Selector::parse(selector).ok()?;
    let html = scraper::Html::parse_document(document);
    let read = |el: scraper::ElementRef| Element {
        attr: el.value().attr(attr).map(|v| v.to_string()),
        inner_html: el.inner_html(),
        texts: el.text().map(|t| t.to_string()).collect(),
    };
    Some(html.select(&parsed).map(read).collect())
}

/// Selects elements below elements with `scraper`: as [`select`] for
/// `outer`, then `ElementRef::select` with `inner` on each match. The
/// contract only names the result: it is a function of the four texts.
#[verifier::external_body]
pub(crate) fn select_within(document: &str, outer: &str, inner: &str, attr: &str) -> (r: Option<
    Vec<Vec<Element>>,
>)
    ensures
        r is Some <==> selected_within(document@, outer@, inner@, attr@) is Some,
        r matches Some(found) ==> selected_within(document@, outer@, inner@, attr@) == Some(
            nested_views(found@),
        ),
{
    let outer = scraper::Selector::parse(outer).ok()?;
    let inner = scraper::Selector::parse(inner).ok()?;
    let html = scraper::Html::parse_document(document);
    let read = |el: scraper::ElementRef| Element {
        attr: el.value().attr(attr).map(|v| v.to_string()),
        inner_html: el.inner_html(),
        texts: el.text().map(|t| t.to_string()).collect(),
    };
    Some(html.select(&outer).map(|row| row.select(&inner).map(read).collect()).collect())
}

} // verus!

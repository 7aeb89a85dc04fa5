//! Parsed documents and the queries that scraper answers on them.
//!
//! An element is named by its position among the nodes of the parsed tree.
//! What a query returns is a function of the document's source text, the
//! element it starts from and the selector, so each query has a name below
//! and the wrappers promise exactly that name.
use vstd::prelude::*;

verus! {

#[verifier::external_type_specification]
#[verifier::external_body]
pub struct ExHtml(scraper::Html);

/// An HTML fragment parsed by scraper, with the text it was parsed from.
pub struct Document {
    source: String,
    html: scraper::Html,
}

/// The elements of the document parsed from `source` that match `selector`,
/// in the order of scraper's node list (`scraper::Html::select`).
pub uninterp spec fn matches_in_document(source: Seq<char>, selector: Seq<char>) -> Seq<usize>;

/// The elements strictly below `element` that match `selector`, in document
/// order (`scraper::ElementRef::select`).
pub uninterp spec fn matches_below(source: Seq<char>, element: usize, selector: Seq<char>) -> Seq<
    usize,
>;

/// Whether `selector` is a CSS selector that scraper accepts (`scraper::Selector::parse`).
pub uninterp spec fn parses_as_selector(selector: Seq<char>) -> bool;

/// The root `<html>` element (`scraper::Html::root_element`).
pub uninterp spec fn root_of(source: Seq<char>) -> usize;

/// The text nodes below `element`, in document order (`scraper::ElementRef::text`).
pub uninterp spec fn texts_of(source: Seq<char>, element: usize) -> Seq<Seq<char>>;

/// The value of attribute `name` of `element` (`scraper::ElementRef::attr`).
pub uninterp spec fn attr_of(source: Seq<char>, element: usize, name: Seq<char>) -> Option<
    Seq<char>,
>;

/// Relies on `scraper::Html::parse_fragment`: parses `text` as an HTML fragment.
#[verifier::external_body]
fn parse_html(text: &str) -> (r: Document)
    ensures
        r.source() == text@,
{
    Document { source: text.to_string(), html: scraper::Html::parse_fragment(text) }
}

/// Relies on `scraper::Selector::parse`: whether it accepts `selector`.
#[verifier::external_body]
pub(crate) fn selector_parses(selector: &str) -> (r: bool)
    ensures
        r == parses_as_selector(selector@),
{
    scraper::Selector::parse(selector).is_ok()
}

/// Relies on `scraper::Html::select`: the matching elements of the whole
/// document, in the order it yields them.
#[verifier::external_body]
pub(crate) fn select_in_document(doc: &Document, selector: &str) -> (r: Vec<usize>)
    requires
        parses_as_selector(selector@),
    ensures
        r@ == matches_in_document(doc.source(), selector@),
{
    let nodes = || doc.html.tree.nodes();
    match scraper::Selector::parse(selector) {
        Ok(s) => doc.html.select(&s).map(
            |m| nodes().position(|n| n.id() == m.id()).unwrap_or(0),
        ).collect(),
        Err(_) => Vec::new(),
    }
}

/// Relies on `scraper::ElementRef::select`: the matching elements below
/// `element` in document order.
#[verifier::external_body]
pub(crate) fn select_below(doc: &Document, element: usize, selector: &str) -> (r: Vec<usize>)
    requires
        parses_as_selector(selector@),
    ensures
        r@ == matches_below(doc.source(), element, selector@),
{
    let nodes = || doc.html.tree.nodes();
    match (nodes().nth(element).and_then(scraper::ElementRef::wrap), scraper::Selector::parse(selector)) {
        (Some(e), Ok(s)) => e.select(&s).map(
            |m| nodes().position(|n| n.id() == m.id()).unwrap_or(0),
        ).collect(),
        _ => Vec::new(),
    }
}

/// Relies on `scraper::Html::root_element`: the root `<html>` element, which a
/// parsed fragment always has.
#[verifier::external_body]
pub(crate) fn root_element(doc: &Document) -> (r: usize)
    ensures
        r == root_of(doc.source()),
{
    let root = doc.html.root_element();
    doc.html.tree.nodes().position(|n| n.id() == root.id()).unwrap_or(0)
}

/// Relies on `scraper::ElementRef::text`: the text nodes below `element`, in order.
#[verifier::external_body]
pub(crate) fn element_texts(doc: &Document, element: usize) -> (r: Vec<String>)
    ensures
        r@.len() == texts_of(doc.source(), element).len(),
        forall|i: int| 0 <= i < r@.len() ==> #[trigger] r@[i]@ == texts_of(doc.source(), element)[i],
{
    match doc.html.tree.nodes().nth(element).and_then(scraper::ElementRef::wrap) {
        Some(e) => e.text().map(|t| t.to_string()).collect(),
        None => Vec::new(),
    }
}

/// Relies on `scraper::ElementRef::attr`: the value of one attribute, if present.
#[verifier::external_body]
pub(crate) fn element_attr(doc: &Document, element: usize, name: &str) -> (r: Option<String>)
    ensures
        match r {
            Some(v) => attr_of(doc.source(), element, name@) == Some(v@),
            None => attr_of(doc.source(), element, name@) is None,
        },
{
    match doc.html.tree.nodes().nth(element).and_then(scraper::ElementRef::wrap) {
        Some(e) => e.attr(name).map(|v| v.to_string()),
        None => None,
    }
}

impl Document {
    /// The text the document was parsed from.
    pub closed spec fn source(&self) -> Seq<char> {
        self.source@
    }

    /// Parses an HTML fragment.
    pub fn parse(text: &str) -> (r: Document)
        ensures
            r.source() == text@,
    {
        parse_html(text)
    }
}


/// The elements of the whole document that match `selector`; none when the
/// selector does not parse.
pub open spec fn found_in_document(source: Seq<char>, selector: Seq<char>) -> Seq<usize> {
    if parses_as_selector(selector) {
        matches_in_document(source, selector)
    } else {
        Seq::empty()
    }
}

/// The elements below `element` that match `selector`; none when the
/// selector does not parse.
pub open spec fn found_below(source: Seq<char>, element: usize, selector: Seq<char>) -> Seq<usize> {
    if parses_as_selector(selector) {
        matches_below(source, element, selector)
    } else {
        Seq::empty()
    }
}

/// The elements of the whole document that match `selector`.
pub fn query_document(doc: &Document, selector: &str) -> (r: Vec<usize>)
    ensures
        r@ == found_in_document(doc.source(), selector@),
{
    if selector_parses(selector) {
        select_in_document(doc, selector)
    } else {
        Vec::new()
    }
}

/// The elements below `element` that match `selector`.
pub fn query_below(doc: &Document, element: usize, selector: &str) -> (r: Vec<usize>)
    ensures
        r@ == found_below(doc.source(), element, selector@),
{
    if selector_parses(selector) {
        select_below(doc, element, selector)
    } else {
        Vec::new()
    }
}

} // verus!

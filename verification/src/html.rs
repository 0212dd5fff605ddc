//! Selector queries on HTML text.
//!
//! A page is handed over as text and each query parses it with the `scraper`
//! crate. What the parser and the selector engine answer is named here and
//! nothing more is claimed of it.

use vstd::prelude::*;
use crate::text::{optional_views_of, text_of};

verus! {

/// The inner HTML of the first element of `document` that matches the CSS
/// selector, first in the order in which `Html::select` walks the nodes of
/// the parsed tree; `None` where nothing matches or the selector does not
/// parse.
pub uninterp spec fn html_first_inner(document: Seq<char>, selector: Seq<char>) -> Option<
    Seq<char>,
>;

/// For each element of `document` that matches the CSS selector, in the
/// order in which `Html::select` walks the nodes of the parsed tree, the
/// value of its attribute `name`, where it has one; empty where the selector
/// does not parse.
pub uninterp spec fn html_attr_values(
    document: Seq<char>,
    selector: Seq<char>,
    name: Seq<char>,
) -> Seq<Option<Seq<char>>>;

/// How many elements of `document` match the CSS selector; zero where the
/// selector does not parse.
pub uninterp spec fn html_match_count(document: Seq<char>, selector: Seq<char>) -> usize;

/// `text` with its HTML character references replaced, as
/// `html_escape::decode_html_entities` does it.
pub uninterp spec fn html_entities_decoded(text: Seq<char>) -> Seq<char>;

/// Parses the document with `Html::parse_document` and the selector with
/// `Selector::parse`, and serialises the children of the first match with
/// `ElementRef::inner_html`. Trusted: the answer is the one named by
/// [`html_first_inner`].
#[verifier::external_body]
pub(crate) fn first_inner(document: &str, selector: &str) -> (inner: Option<String>)
    ensures
        text_of(inner) == html_first_inner(document@, selector@),
{
    let dom = scraper::Html::parse_document(document);
    match scraper::Selector::parse(selector) {
        Ok(parsed) => dom.select(&parsed).next().map(|element| element.inner_html()),
        Err(_) => None,
    }
}

/// Parses the document with `Html::parse_document` and the selector with
/// `Selector::parse`, and asks each match for the attribute with
/// `ElementRef::attr`. Trusted: the answer is the one named by
/// [`html_attr_values`].
#[verifier::external_body]
pub(crate) fn attr_values(document: &str, selector: &str, name: &str) -> (values: Vec<
    Option<String>,
>)
    ensures
        optional_views_of(values@) == html_attr_values(document@, selector@, name@),
{
    let dom = scraper::Html::parse_document(document);
    match scraper::Selector::parse(selector) {
        Ok(parsed) => dom.select(&parsed).map(
            |element| element.attr(name).map(|value| value.to_string()),
        ).collect(),
        Err(_) => Vec::new(),
    }
}

/// Parses the document with `Html::parse_document` and the selector with
/// `Selector::parse`, and counts the matches. Trusted: the answer is the one
/// named by [`html_match_count`].
#[verifier::external_body]
pub(crate) fn match_count(document: &str, selector: &str) -> (count: usize)
    ensures
        count == html_match_count(document@, selector@),
{
    let dom = scraper::Html::parse_document(document);
    match scraper::Selector::parse(selector) {
        Ok(parsed) => dom.select(&parsed).count(),
        Err(_) => 0,
    }
}

/// Calls `html_escape::decode_html_entities`. Trusted: the answer is the one
/// named by [`html_entities_decoded`].
#[verifier::external_body]
pub(crate) fn decode_entities(text: &str) -> (decoded: String)
    ensures
        decoded@ == html_entities_decoded(text@),
{
    html_escape::decode_html_entities(text).into_owned()
}

} // verus!

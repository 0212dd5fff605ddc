//! Path queries on JSON text.
//!
//! The pages embed JSON whose schema is not fixed, so values are looked up by
//! path in the text itself. The lookups are done by the `gjson` crate; what it
//! answers is named here and nothing more is claimed of it.
//!
//! On text that is not JSON the crate may answer with bytes that are no
//! UTF-8. Every string that leaves this module has gone through
//! `String::from_utf8_lossy`, which puts U+FFFD in the place of such bytes
//! and changes nothing else.

use vstd::prelude::*;
use crate::text::views_of;

verus! {

/// Whether `gjson::valid` accepts the text as one JSON document.
pub uninterp spec fn json_is_valid(json: Seq<char>) -> bool;

/// What `gjson::get` finds in `json` at `path`, as a string: the contents of a
/// JSON string without its escapes, a number, an object or an array as it is
/// written, `true` or `false`, and nothing for `null` or where the path leads
/// nowhere; bytes that are no UTF-8 give way to U+FFFD.
pub uninterp spec fn json_text_at(json: Seq<char>, path: Seq<char>) -> Seq<char>;

/// What `gjson::get` finds in `json` at `path`, as a 32-bit integer.
pub uninterp spec fn json_i32_at(json: Seq<char>, path: Seq<char>) -> i32;

/// The elements of the array that `gjson::get` finds in `json` at `path`, each
/// as JSON text; empty where there is no array. Bytes that are no UTF-8 give
/// way to U+FFFD.
pub uninterp spec fn json_items_at(json: Seq<char>, path: Seq<char>) -> Seq<Seq<char>>;

/// The elements of the array that `gjson::get` finds in `json` at `path`, each
/// as a string; empty where there is no array. Bytes that are no UTF-8 give
/// way to U+FFFD.
pub uninterp spec fn json_texts_at(json: Seq<char>, path: Seq<char>) -> Seq<Seq<char>>;

/// Whether a character makes a path more than a chain of keys, indexes and
/// array queries: `@` begins a modifier, `|` pipes one path into another, `[`
/// and `{` begin a multipath.
pub open spec fn is_path_sign(c: char) -> bool {
    c == '@' || c == '|' || c == '[' || c == '{'
}

/// Whether a path is plain: a chain of keys, indexes and array queries,
/// without modifiers, pipes or multipaths, that does not begin with a dot.
/// Only plain paths are looked up: on other paths `gjson::get` goes through
/// code that can panic on text that is not JSON.
pub open spec fn plain_path(path: Seq<char>) -> bool {
    &&& forall|i: int| 0 <= i < path.len() ==> !is_path_sign(#[trigger] path[i])
    &&& path.len() > 0 ==> path[0] != '.'
}

/// Calls `gjson::valid`. Trusted: the answer is the one named by
/// [`json_is_valid`].
#[verifier::external_body]
pub(crate) fn is_valid(json: &str) -> (ok: bool)
    ensures
        ok == json_is_valid(json@),
{
    gjson::valid(json)
}

/// Calls `gjson::get` and `Value::str`, and makes a string of the bytes with
/// `String::from_utf8_lossy`. Trusted: the answer is the one named by
/// [`json_text_at`]. The crate documents that text which is not JSON gives an
/// unspecified value, never a panic; that holds of plain paths, which is why
/// no other path is admitted.
#[verifier::external_body]
pub(crate) fn text_at(json: &str, path: &str) -> (text: String)
    requires
        plain_path(path@),
    ensures
        text@ == json_text_at(json@, path@),
{
    String::from_utf8_lossy(gjson::get(json, path).str().as_bytes()).into_owned()
}

/// Calls `gjson::get` and `Value::i32`. Trusted: the answer is the one named
/// by [`json_i32_at`].
#[verifier::external_body]
pub(crate) fn i32_at(json: &str, path: &str) -> (number: i32)
    requires
        plain_path(path@),
    ensures
        number == json_i32_at(json@, path@),
{
    gjson::get(json, path).i32()
}

/// Calls `gjson::get` and `Value::array`, and hands out the JSON text of each
/// element, made a string with `String::from_utf8_lossy`. Trusted: the answer
/// is the one named by [`json_items_at`].
#[verifier::external_body]
pub(crate) fn items_at(json: &str, path: &str) -> (items: Vec<String>)
    requires
        plain_path(path@),
    ensures
        views_of(items@) == json_items_at(json@, path@),
{
    gjson::get(json, path).array().iter().map(
        |item| String::from_utf8_lossy(item.json().as_bytes()).into_owned(),
    ).collect()
}

/// Calls `gjson::get` and `Value::array`, and hands out each element as
/// `Value::str` gives it, made a string with `String::from_utf8_lossy`.
/// Trusted: the answer is the one named by [`json_texts_at`].
#[verifier::external_body]
pub(crate) fn texts_at(json: &str, path: &str) -> (texts: Vec<String>)
    requires
        plain_path(path@),
    ensures
        views_of(texts@) == json_texts_at(json@, path@),
{
    gjson::get(json, path).array().iter().map(
        |item| String::from_utf8_lossy(item.str().as_bytes()).into_owned(),
    ).collect()
}

} // verus!

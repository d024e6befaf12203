//! HTML documents, parsed and queried by the `scraper` crate, and JSON
//! documents, parsed by `serde_json`.
//!
//! Neither parser is modelled: what a query returns is given a name, and the
//! library's own contracts speak of that name. A page too long for the HTML
//! parser is not handed to it: nothing is found on such a page.

use crate::models::opt_view;
use crate::text::{contains, contains_text};
use vstd::prelude::*;
use vstd::string::StrSliceExecFns;

verus! {

/// A run of optional texts as plain values.
pub open spec fn opt_texts_view(items: Seq<Option<String>>) -> Seq<Option<Seq<char>>> {
    Seq::new(items.len(), |i: int| opt_view(items[i]))
}

/// A run of texts as plain values.
pub open spec fn texts_view(items: Seq<String>) -> Seq<Seq<char>> {
    Seq::new(items.len(), |i: int| items[i]@)
}

/// The view of a member looked up in a JSON document.
pub open spec fn member_view(m: Option<Option<String>>) -> Option<Option<Seq<char>>> {
    match m {
        Some(inner) => Some(opt_view(inner)),
        None => None,
    }
}

/// The longest page, in characters, that is handed to the HTML parser. The
/// parser counts bytes in 32 bits, and a character has at most four.
pub const MAX_PAGE_CHARS: usize = 0x3FFF_FFFF;

/// Whether a page is short enough for the HTML parser.
pub open spec fn is_parsable(html: Seq<char>) -> bool {
    html.len() <= MAX_PAGE_CHARS
}

/// What is found of the attribute `name` on the page `html`: what the parser
/// selects, and nothing on a page too long for it.
pub open spec fn found_attributes(
    html: Seq<char>,
    selector: Seq<char>,
    name: Seq<char>,
) -> Seq<Option<Seq<char>>> {
    if is_parsable(html) {
        selected_attributes(html, selector, name)
    } else {
        Seq::empty()
    }
}

/// What is found of inner HTML on the page `html`: what the parser selects,
/// and nothing on a page too long for it.
pub open spec fn found_inner_html(html: Seq<char>, selector: Seq<char>) -> Seq<Seq<char>> {
    if is_parsable(html) {
        selected_inner_html(html, selector)
    } else {
        Seq::empty()
    }
}

/// What is found of text on the page `html`: what the parser selects, and
/// nothing on a page too long for it.
pub open spec fn found_text(html: Seq<char>, selector: Seq<char>) -> Seq<Seq<char>> {
    if is_parsable(html) {
        selected_text(html, selector)
    } else {
        Seq::empty()
    }
}

/// For each element of the document `html` that the CSS selector `selector`
/// matches, in the order in which the parser put the elements into its tree,
/// the value of its attribute `name`, or `None` where the element has no
/// such attribute. Empty where `selector` is no selector.
pub uninterp spec fn selected_attributes(
    html: Seq<char>,
    selector: Seq<char>,
    name: Seq<char>,
) -> Seq<Option<Seq<char>>>;

/// For each element of the document `html` that `selector` matches, in
/// the order in which the parser put the elements into its tree, its inner
/// HTML as `scraper` serialises it. Empty where `selector` is no selector.
pub uninterp spec fn selected_inner_html(html: Seq<char>, selector: Seq<char>) -> Seq<Seq<char>>;

/// For each element of the document `html` that `selector` matches, in
/// the order in which the parser put the elements into its tree, the text of
/// its descendant text nodes in a row. Empty where `selector` is no
/// selector.
pub uninterp spec fn selected_text(html: Seq<char>, selector: Seq<char>) -> Seq<Seq<char>>;

/// The member `key` of the JSON document `raw`: `None` where `raw` is no
/// JSON, is no object or has no such member; `Some(None)` where the member
/// is no string; else the string.
pub uninterp spec fn json_member(raw: Seq<char>, key: Seq<char>) -> Option<Option<Seq<char>>>;

/// Parses `html` with `Html::parse_document`, parses `selector` with
/// `Selector::parse`, walks `Html::select` and reads `Element::attr` of each
/// element. The result is named `selected_attributes`; nothing more is
/// claimed of it. The parser panics on a text of more bytes than `u32` can
/// count; `MAX_PAGE_CHARS` characters have fewer, and longer pages are left
/// out.
#[verifier::external_body]
pub(crate) fn select_attributes(html: &str, selector: &str, name: &str) -> (r: Vec<
    Option<String>,
>)
    requires
        is_parsable(html@),
    ensures
        opt_texts_view(r@) == selected_attributes(html@, selector@, name@),
{
    let document = scraper::Html::parse_document(html);
    match scraper::Selector::parse(selector) {
        Ok(sel) => document.select(&sel).map(
            |el| el.value().attr(name).map(|v| v.to_string()),
        ).collect(),
        Err(_) => Vec::new(),
    }
}

/// As `select_attributes`, with `ElementRef::inner_html` in place of the
/// attribute. The result is named `selected_inner_html`. Pages too long for
/// the parser are left out.
#[verifier::external_body]
pub(crate) fn select_inner_html(html: &str, selector: &str) -> (r: Vec<String>)
    requires
        is_parsable(html@),
    ensures
        texts_view(r@) == selected_inner_html(html@, selector@),
{
    let document = scraper::Html::parse_document(html);
    match scraper::Selector::parse(selector) {
        Ok(sel) => document.select(&sel).map(|el| el.inner_html()).collect(),
        Err(_) => Vec::new(),
    }
}

/// As `select_attributes`, with the pieces of `ElementRef::text` collected
/// into one string in place of the attribute. The result is named
/// `selected_text`. Pages too long for the parser are left out.
#[verifier::external_body]
pub(crate) fn select_text(html: &str, selector: &str) -> (r: Vec<String>)
    requires
        is_parsable(html@),
    ensures
        texts_view(r@) == selected_text(html@, selector@),
{
    let document = scraper::Html::parse_document(html);
    match scraper::Selector::parse(selector) {
        Ok(sel) => document.select(&sel).map(|el| el.text().collect::<String>()).collect(),
        Err(_) => Vec::new(),
    }
}

/// Whether the page `html` is short enough for the parser.
pub fn fits_parser(html: &str) -> (r: bool)
    ensures
        r == is_parsable(html@),
{
    html.unicode_len() <= MAX_PAGE_CHARS
}

/// The values of the attribute `name` of the elements of the page `html`
/// that `selector` matches; none on a page too long for the parser.
pub fn find_attributes(html: &str, selector: &str, name: &str) -> (r: Vec<Option<String>>)
    ensures
        opt_texts_view(r@) == found_attributes(html@, selector@, name@),
{
    if fits_parser(html) {
        select_attributes(html, selector, name)
    } else {
        let none: Vec<Option<String>> = Vec::new();
        assert(opt_texts_view(none@) =~= Seq::<Option<Seq<char>>>::empty());
        none
    }
}

/// The inner HTML of the elements of the page `html` that `selector`
/// matches; none on a page too long for the parser.
pub fn find_inner_html(html: &str, selector: &str) -> (r: Vec<String>)
    ensures
        texts_view(r@) == found_inner_html(html@, selector@),
{
    if fits_parser(html) {
        select_inner_html(html, selector)
    } else {
        let none: Vec<String> = Vec::new();
        assert(texts_view(none@) =~= Seq::<Seq<char>>::empty());
        none
    }
}

/// The text of the elements of the page `html` that `selector` matches;
/// none on a page too long for the parser.
pub fn find_element_text(html: &str, selector: &str) -> (r: Vec<String>)
    ensures
        texts_view(r@) == found_text(html@, selector@),
{
    if fits_parser(html) {
        select_text(html, selector)
    } else {
        let none: Vec<String> = Vec::new();
        assert(texts_view(none@) =~= Seq::<Seq<char>>::empty());
        none
    }
}

/// Parses `raw` with `serde_json::from_str` into a `Value`, looks `key` up
/// with `Value::get` and reads it with `Value::as_str`. The result is named
/// `json_member`; nothing more is claimed of it.
#[verifier::external_body]
pub(crate) fn read_json_member(raw: &str, key: &str) -> (r: Option<Option<String>>)
    ensures
        member_view(r) == json_member(raw@, key@),
{
    let value = serde_json::from_str::<serde_json::Value>(raw).ok()?;
    let member = value.get(key)?;
    Some(member.as_str().map(|s| s.to_string()))
}

/// The first of `items` that is present and holds `needle`.
pub open spec fn first_with(items: Seq<Option<Seq<char>>>, needle: Seq<char>) -> Option<Seq<char>>
    decreases items.len(),
{
    if items.len() == 0 {
        None
    } else if items[0] is Some && contains_text(items[0].unwrap(), needle) {
        items[0]
    } else {
        first_with(items.drop_first(), needle)
    }
}

/// The first of `items` that is present and holds `needle`.
pub fn first_containing(items: &Vec<Option<String>>, needle: &str) -> (r: Option<String>)
    ensures
        opt_view(r) == first_with(opt_texts_view(items@), needle@),
{
    let ghost all = opt_texts_view(items@);
    let mut i: usize = 0;
    assert(all.skip(0) =~= all);
    while i < items.len()
        invariant
            i <= items@.len(),
            all == opt_texts_view(items@),
            first_with(all, needle@) == first_with(all.skip(i as int), needle@),
        decreases items@.len() - i,
    {
        assert(all.skip(i as int)[0] == opt_view(items@[i as int]));
        assert(all.skip(i as int).drop_first() =~= all.skip(i + 1));
        match &items[i] {
            Some(text) => {
                if contains(text.as_str(), needle) {
                    return Some(text.clone());
                }
            },
            None => {},
        }
        i += 1;
    }
    None
}

} // verus!

//! Regular expressions, matched by the `regex` crate.
//!
//! What a pattern matches is not modelled: the result of a search is given a
//! name, and the library's own contracts speak of that name.

use crate::models::opt_view;
use crate::text::chars_of;
use vstd::prelude::*;

verus! {

/// The capture groups of one match: group 0 is the whole match, and a group
/// that took no part in the match is `None`.
pub type Groups = Vec<Option<String>>;

/// The groups of one match as plain values.
pub open spec fn groups_view(groups: Seq<Option<String>>) -> Seq<Option<Seq<char>>> {
    Seq::new(groups.len(), |i: int| opt_view(groups[i]))
}

/// The groups of an optional match as plain values.
pub open spec fn opt_groups_view(m: Option<Groups>) -> Option<Seq<Option<Seq<char>>>> {
    match m {
        Some(g) => Some(groups_view(g@)),
        None => None,
    }
}

/// The groups of a run of matches as plain values.
pub open spec fn matches_view(matches: Seq<Groups>) -> Seq<Seq<Option<Seq<char>>>> {
    Seq::new(matches.len(), |i: int| groups_view(matches[i]@))
}

/// Group `i` of a match, where it exists and took part.
pub open spec fn group_text(groups: Seq<Option<Seq<char>>>, i: int) -> Option<Seq<char>> {
    if 0 <= i < groups.len() {
        groups[i]
    } else {
        None
    }
}

/// Whether `c` means something in a regular expression: one of the
/// eighteen characters that must be escaped to stand for themselves.
pub open spec fn is_meta_character(c: char) -> bool {
    c == '\\' || c == '.' || c == '+' || c == '*' || c == '?' || c == '(' || c == ')' || c == '|'
        || c == '[' || c == ']' || c == '{' || c == '}' || c == '^' || c == '$' || c == '#' || c
        == '&' || c == '-' || c == '~'
}

/// `text` with a backslash before every character that means something in a
/// regular expression.
pub open spec fn escaped(text: Seq<char>) -> Seq<char>
    decreases text.len(),
{
    if text.len() == 0 {
        Seq::empty()
    } else if is_meta_character(text.last()) {
        escaped(text.drop_last()).push('\\').push(text.last())
    } else {
        escaped(text.drop_last()).push(text.last())
    }
}

/// The groups of the leftmost match of `pattern` in `haystack`, as
/// `Regex::captures` finds them; `None` where nothing matches or `pattern` is
/// no regular expression.
pub uninterp spec fn first_match(pattern: Seq<char>, haystack: Seq<char>) -> Option<
    Seq<Option<Seq<char>>>,
>;

/// The groups of the successive non-overlapping matches of `pattern` in
/// `haystack`, as `Regex::captures_iter` yields them; empty where `pattern`
/// is no regular expression.
pub uninterp spec fn all_matches(pattern: Seq<char>, haystack: Seq<char>) -> Seq<
    Seq<Option<Seq<char>>>,
>;

/// Whether `c` means something in a regular expression.
pub fn is_meta(c: char) -> (r: bool)
    ensures
        r == is_meta_character(c),
{
    c == '\\' || c == '.' || c == '+' || c == '*' || c == '?' || c == '(' || c == ')' || c == '|'
        || c == '[' || c == ']' || c == '{' || c == '}' || c == '^' || c == '$' || c == '#' || c
        == '&' || c == '-' || c == '~'
}

/// `text` with a backslash before every character that means something in a
/// regular expression, so that a pattern made of it matches `text` itself.
pub fn escape(text: &str) -> (r: String)
    ensures
        r@ == escaped(text@),
{
    let chars = chars_of(text);
    let mut out = String::new();
    let mut i: usize = 0;
    assert(chars@.take(0) =~= Seq::<char>::empty());
    while i < chars.len()
        invariant
            i <= chars@.len(),
            out@ == escaped(chars@.take(i as int)),
        decreases chars@.len() - i,
    {
        assert(chars@.take(i + 1).drop_last() =~= chars@.take(i as int));
        assert(chars@.take(i + 1).last() == chars@[i as int]);
        if is_meta(chars[i]) {
            out.push('\\');
        }
        out.push(chars[i]);
        i += 1;
    }
    assert(chars@.take(i as int) =~= chars@);
    out
}

/// Compiles `pattern` with `Regex::new` and searches `haystack` with
/// `Regex::captures`, copying each group's text out. The result is named
/// `first_match`; nothing more is claimed of it.
#[verifier::external_body]
pub(crate) fn captures(pattern: &str, haystack: &str) -> (r: Option<Groups>)
    ensures
        opt_groups_view(r) == first_match(pattern@, haystack@),
{
    let re = regex::Regex::new(pattern).ok()?;
    let found = re.captures(haystack)?;
    Some(found.iter().map(|g| g.map(|m| m.as_str().to_string())).collect())
}

/// Compiles `pattern` with `Regex::new` and walks `haystack` with
/// `Regex::captures_iter`, copying each group's text out. The result is named
/// `all_matches`; nothing more is claimed of it.
#[verifier::external_body]
pub(crate) fn captures_all(pattern: &str, haystack: &str) -> (r: Vec<Groups>)
    ensures
        matches_view(r@) == all_matches(pattern@, haystack@),
{
    match regex::Regex::new(pattern) {
        Ok(re) => re.captures_iter(haystack).map(
            |found| found.iter().map(|g| g.map(|m| m.as_str().to_string())).collect(),
        ).collect(),
        Err(_) => Vec::new(),
    }
}

/// Group `i` of a match, where it exists and took part.
pub fn group(groups: &Groups, i: usize) -> (r: Option<&String>)
    ensures
        match r {
            Some(s) => group_text(groups_view(groups@), i as int) == Some(s@),
            None => group_text(groups_view(groups@), i as int) is None,
        },
{
    if i < groups.len() {
        match &groups[i] {
            Some(s) => Some(s),
            None => None,
        }
    } else {
        None
    }
}

} // verus!

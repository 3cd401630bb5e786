use crate::error::{VersionError, VersionErrorView};
use vstd::prelude::*;

verus! {

/// A compiled regular expression of the `regex` crate.
#[verifier::external_type_specification]
#[verifier::external_body]
pub struct ExRegex(regex::Regex);

/// The error with which the `regex` crate refuses a pattern.
#[verifier::external_type_specification]
#[verifier::external_body]
pub struct ExRegexError(regex::Error);

/// Whether `regex::Regex::new` accepts the pattern.
pub uninterp spec fn pattern_accepted(pattern: Seq<char>) -> bool;

/// The pattern from which `regex::Regex::new` made a compiled expression.
pub uninterp spec fn compiled_pattern(re: regex::Regex) -> Seq<char>;

/// What `regex::Regex::captures` finds for a pattern in a text: `None` where
/// nothing matches, else the text of every capture group of the leftmost
/// match, group 0 (the whole match) first, with `None` for a group that took
/// no part in it.
pub uninterp spec fn leftmost_captures(pattern: Seq<char>, text: Seq<char>) -> Option<
    Seq<Option<Seq<char>>>,
>;

/// `regex::Regex::new`. Believed: whether the pattern compiles depends on
/// the pattern alone, and the expression that comes back is made from that
/// pattern.
#[verifier::external_body]
pub(crate) fn compile(pattern: &str) -> (r: Result<regex::Regex, regex::Error>)
    ensures
        r is Ok <==> pattern_accepted(pattern@),
        r matches Ok(re) ==> compiled_pattern(re) == pattern@,
{
    regex::Regex::new(pattern)
}

/// `regex::Regex::captures`, with each group handed out as an owned string.
/// Believed of an expression that `compile` made, the only kind there is in
/// this library: the outcome depends on its pattern and the text alone.
#[verifier::external_body]
pub(crate) fn captures(re: &regex::Regex, text: &str) -> (r: Option<Vec<Option<String>>>)
    ensures
        r.deep_view() == leftmost_captures(compiled_pattern(*re), text@),
{
    re.captures(text).map(|caps| caps.iter().map(|g| g.map(|m| m.as_str().to_string())).collect())
}

/// What looking for a pattern in a text comes to: the capture groups of the
/// leftmost match, `None` where nothing matches, or an error where the
/// pattern itself is refused.
pub open spec fn search(pattern: Seq<char>, text: Seq<char>) -> Result<
    Option<Seq<Option<Seq<char>>>>,
    VersionErrorView,
> {
    if pattern_accepted(pattern) {
        Ok(leftmost_captures(pattern, text))
    } else {
        Err(VersionErrorView::Pattern)
    }
}

/// The capture groups of a search, as plain values.
pub open spec fn found_view(found: Result<Option<Vec<Option<String>>>, VersionError>) -> Result<
    Option<Seq<Option<Seq<char>>>>,
    VersionErrorView,
> {
    match found {
        Ok(groups) => Ok(groups.deep_view()),
        Err(e) => Err(e@),
    }
}

/// Compiles a pattern and looks for its leftmost match in a text.
pub fn find_captures(pattern: &str, text: &str) -> (r: Result<
    Option<Vec<Option<String>>>,
    VersionError,
>)
    ensures
        found_view(r) == search(pattern@, text@),
{
    match compile(pattern) {
        Ok(re) => Ok(captures(&re, text)),
        Err(_) => Err(VersionError::Pattern),
    }
}

/// The text of capture group `index`, where the match has such a group and
/// the group took part in it.
pub open spec fn group_text(groups: Seq<Option<Seq<char>>>, index: int) -> Option<Seq<char>> {
    if 0 <= index < groups.len() {
        groups[index]
    } else {
        None
    }
}

/// The text of capture group `index`, if there is one.
pub fn group(groups: &Vec<Option<String>>, index: usize) -> (r: Option<&String>)
    ensures
        match r {
            Some(s) => group_text(groups.deep_view(), index as int) == Some(s@),
            None => group_text(groups.deep_view(), index as int) is None,
        },
{
    if index < groups.len() {
        assert(groups.deep_view()[index as int] == groups@[index as int].deep_view());
        groups[index].as_ref()
    } else {
        None
    }
}

} // verus!

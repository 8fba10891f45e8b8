//! Regular-expression searches, done by the `regex` crate, and the plain
//! values they hand back.
//!
//! A search result is a list of capture groups. Group 0 is the whole match;
//! a group that took no part in the match is absent.

use vstd::prelude::*;
use crate::text::push_chars;

verus! {

/// The capture groups of the leftmost match of `pattern` in `text`, as the
/// `regex` crate finds them; nothing where `text` holds no match or `pattern`
/// is not a regular expression the crate accepts.
pub uninterp spec fn regex_first_captures(pattern: Seq<char>, text: Seq<char>) -> Option<
    Seq<Option<Seq<char>>>,
>;

/// The capture groups of every successive non-overlapping match of `pattern`
/// in `text`, in the order of the matches; empty where `pattern` is not a
/// regular expression the crate accepts.
pub uninterp spec fn regex_all_captures(pattern: Seq<char>, text: Seq<char>) -> Seq<
    Seq<Option<Seq<char>>>,
>;

/// The text of a group, if it took part in the match.
pub open spec fn group_view(g: Option<Vec<char>>) -> Option<Seq<char>> {
    match g {
        Some(v) => Some(v@),
        None => None,
    }
}

/// The groups of one match as texts.
pub open spec fn groups_view(c: Seq<Option<Vec<char>>>) -> Seq<Option<Seq<char>>> {
    c.map_values(|g: Option<Vec<char>>| group_view(g))
}

/// The groups of a match as texts, if there is a match.
pub open spec fn captures_view(c: Option<Vec<Option<Vec<char>>>>) -> Option<
    Seq<Option<Seq<char>>>,
> {
    match c {
        Some(v) => Some(groups_view(v@)),
        None => None,
    }
}

/// The groups of every match as texts.
pub open spec fn matches_view(m: Seq<Vec<Option<Vec<char>>>>) -> Seq<Seq<Option<Seq<char>>>> {
    m.map_values(|c: Vec<Option<Vec<char>>>| groups_view(c@))
}

/// Compiles `pattern` with `regex::Regex::new` and searches `text` with
/// `Regex::captures`. The contract only gives the outcome its name: the same
/// pattern and text always give the same groups. A pattern that does not
/// compile gives nothing, as a text without a match does.
#[verifier::external_body]
pub(crate) fn first_captures(pattern: &str, text: &str) -> (r: Option<Vec<Option<Vec<char>>>>)
    ensures
        captures_view(r) == regex_first_captures(pattern@, text@),
{
    match regex::Regex::new(pattern) {
        Ok(re) => re.captures(text).map(
            |c| c.iter().map(|g| g.map(|m| m.as_str().chars().collect())).collect(),
        ),
        Err(_) => None,
    }
}

/// Compiles `pattern` with `regex::Regex::new` and walks `text` with
/// `Regex::captures_iter`. The contract only gives the outcome its name. A
/// pattern that does not compile gives no match.
#[verifier::external_body]
pub(crate) fn all_captures(pattern: &str, text: &str) -> (r: Vec<Vec<Option<Vec<char>>>>)
    ensures
        matches_view(r@) == regex_all_captures(pattern@, text@),
{
    match regex::Regex::new(pattern) {
        Ok(re) => re.captures_iter(text).map(
            |c| c.iter().map(|g| g.map(|m| m.as_str().chars().collect())).collect(),
        ).collect(),
        Err(_) => Vec::new(),
    }
}

/// The text of group `i`; empty where the match has no such group or the
/// group took no part in it.
pub open spec fn group_text(groups: Seq<Option<Seq<char>>>, i: int) -> Seq<char> {
    if 0 <= i < groups.len() {
        match groups[i] {
            Some(t) => t,
            None => Seq::empty(),
        }
    } else {
        Seq::empty()
    }
}

/// Copies the text of group `i` out of a match.
pub fn take_group(groups: &Vec<Option<Vec<char>>>, i: usize) -> (r: Vec<char>)
    ensures
        r@ == group_text(groups_view(groups@), i as int),
{
    let mut out: Vec<char> = Vec::new();
    if i < groups.len() {
        match &groups[i] {
            Some(t) => {
                push_chars(&mut out, t);
                assert(out@ == t@);
            },
            None => {},
        }
    }
    out
}

} // verus!

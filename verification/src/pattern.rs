//! What the library takes from outside: regular-expression searches as the
//! `regex` crate performs them, and the whitespace test of `char`.
//!
//! What a search answers is named, not described: the contracts of the
//! library are stated over [`regex_find`] and [`regex_is_match`]. What
//! counts as whitespace is written out in [`is_whitespace`].

use regex::Regex;
use vstd::prelude::*;

verus! {

/// The part of `text` that `regex` reports as the leftmost match of
/// `pattern`; `None` where nothing matches or `pattern` is no valid
/// expression.
pub uninterp spec fn regex_find(pattern: Seq<char>, text: Seq<char>) -> Option<Seq<char>>;

/// Whether `regex` finds a match of `pattern` anywhere in `text`; `false`
/// where `pattern` is no valid expression.
pub uninterp spec fn regex_is_match(pattern: Seq<char>, text: Seq<char>) -> bool;

/// Whether `c` has the Unicode property `White_Space`: the controls from
/// tab to carriage return, the space, next line, the no-break spaces, the
/// Ogham space mark, the typographic spaces, the line and paragraph
/// separators, the mathematical space and the ideographic space.
pub open spec fn is_whitespace(c: char) -> bool {
    let code = c as u32;
    ||| 0x09 <= code <= 0x0d
    ||| code == 0x20
    ||| code == 0x85
    ||| code == 0xa0
    ||| code == 0x1680
    ||| 0x2000 <= code <= 0x200a
    ||| code == 0x2028
    ||| code == 0x2029
    ||| code == 0x202f
    ||| code == 0x205f
    ||| code == 0x3000
}

/// Compiles `pattern` with `regex::Regex::new`, searches `text` with
/// `regex::Regex::find` and hands back the matched part of `text` as
/// `regex::Match::as_str` gives it. A pattern that does not compile matches
/// nothing. The contract claims only that the answer depends on `pattern`
/// and `text` alone.
#[verifier::external_body]
pub(crate) fn find<'t>(pattern: &str, text: &'t str) -> (found: Option<&'t str>)
    ensures
        found matches Some(matched) ==> regex_find(pattern@, text@) == Some(matched@),
        found is None ==> regex_find(pattern@, text@) is None,
{
    match Regex::new(pattern) {
        Ok(compiled) => match compiled.find(text) {
            Some(hit) => Some(hit.as_str()),
            None => None,
        },
        Err(_) => None,
    }
}

/// Compiles `pattern` with `regex::Regex::new` and tests `text` with
/// `regex::Regex::is_match`. A pattern that does not compile matches
/// nothing. The contract claims only that the answer depends on `pattern`
/// and `text` alone.
#[verifier::external_body]
pub(crate) fn is_match(pattern: &str, text: &str) -> (found: bool)
    ensures
        found == regex_is_match(pattern@, text@),
{
    match Regex::new(pattern) {
        Ok(compiled) => compiled.is_match(text),
        Err(_) => false,
    }
}

/// `char::is_whitespace`, which tells whether a character has the Unicode
/// property `White_Space`. The contract writes the code points of that
/// property out.
#[verifier::external_body]
pub(crate) fn char_is_whitespace(c: char) -> (white: bool)
    ensures
        white == is_whitespace(c),
{
    c.is_whitespace()
}

} // verus!

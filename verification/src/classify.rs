//! The kind of a single line of text: a function header, a block header, or
//! neither. The answer depends on the line alone.

use crate::pattern::{char_is_whitespace, find, is_match, is_whitespace, regex_find, regex_is_match};
use vstd::prelude::*;

verus! {

/// A label at the start of the line: a quoted name, or a run of the
/// characters that a bare name may hold (letters, digits, `$`, `.`, `_`
/// and `-`), followed by a colon.
pub const BLOCK_HEADER: &'static str = r#"^(".*"|[-a-zA-Z$._0-9]*):"#;

/// The start of a function definition.
pub const FUNCTION_HEADER: &'static str = r"^define ";

/// The name of the function in a definition, from its `@` to the opening
/// bracket of the parameters: quoted, or a run of the characters that a
/// bare name may hold.
pub const FUNCTION_NAME: &'static str = r#"@(".*"|[-a-zA-Z$._0-9]*)\("#;

/// What a line is, with the name that it declares. The name is `None` where
/// the line has the shape of a header and no name can be taken from it.
#[derive(Clone, Copy, Debug, PartialEq, Eq)]
pub enum LineKind<'t> {
    Function(Option<&'t str>),
    Block(Option<&'t str>),
    Plain,
}

/// A [`LineKind`] as contracts see it.
pub ghost enum LineKindView {
    Function(Option<Seq<char>>),
    Block(Option<Seq<char>>),
    Plain,
}

/// The view of a name that may be missing.
pub open spec fn name_view(name: Option<&str>) -> Option<Seq<char>> {
    match name {
        Some(name) => Some(name@),
        None => None,
    }
}

impl<'t> View for LineKind<'t> {
    type V = LineKindView;

    open spec fn view(&self) -> LineKindView {
        match *self {
            LineKind::Function(name) => LineKindView::Function(name_view(name)),
            LineKind::Block(name) => LineKindView::Block(name_view(name)),
            LineKind::Plain => LineKindView::Plain,
        }
    }
}

/// Whether exactly the first `count` characters of `text` are its leading
/// whitespace.
pub open spec fn is_leading_whitespace(text: Seq<char>, count: int) -> bool {
    &&& 0 <= count <= text.len()
    &&& forall|i: int| 0 <= i < count ==> is_whitespace(#[trigger] text[i])
    &&& count < text.len() ==> !is_whitespace(text[count])
}

/// `text` without its leading whitespace.
pub open spec fn trim_start_spec(text: Seq<char>) -> Seq<char> {
    text.skip(choose|count: int| is_leading_whitespace(text, count))
}

/// The leading whitespace of a text has one length only.
proof fn lemma_leading_whitespace_unique(text: Seq<char>, a: int, b: int)
    requires
        is_leading_whitespace(text, a),
        is_leading_whitespace(text, b),
    ensures
        a == b,
{
    if a < b {
        assert(is_whitespace(text[a]));
    }
    if b < a {
        assert(is_whitespace(text[b]));
    }
}

/// Leading whitespace that reaches at least to `from` ends somewhere.
proof fn lemma_leading_whitespace_ends(text: Seq<char>, from: int)
    requires
        0 <= from <= text.len(),
        forall|i: int| 0 <= i < from ==> is_whitespace(#[trigger] text[i]),
    ensures
        exists|count: int| is_leading_whitespace(text, count),
    decreases text.len() - from,
{
    if from < text.len() && is_whitespace(text[from]) {
        lemma_leading_whitespace_ends(text, from + 1);
    } else {
        assert(is_leading_whitespace(text, from));
    }
}

/// Trimming drops the leading whitespace and nothing else: what is left
/// is the text from its first character that is no whitespace.
pub proof fn lemma_trim_start(text: Seq<char>, count: int)
    ensures
        exists|some: int| is_leading_whitespace(text, some),
        is_leading_whitespace(text, count) ==> trim_start_spec(text) == text.skip(count),
{
    lemma_leading_whitespace_ends(text, 0);
    if is_leading_whitespace(text, count) {
        let chosen = choose|c: int| is_leading_whitespace(text, c);
        lemma_leading_whitespace_unique(text, count, chosen);
    }
}

/// `line` without its leading whitespace.
pub fn trim_start(line: &str) -> (rest: &str)
    ensures
        rest@ == trim_start_spec(line@),
{
    let length = line.unicode_len();
    let mut count: usize = 0;
    while count < length && char_is_whitespace(line.get_char(count))
        invariant
            length == line@.len(),
            0 <= count <= length,
            forall|i: int| 0 <= i < count ==> is_whitespace(#[trigger] line@[i]),
        decreases length - count,
    {
        count += 1;
    }
    proof {
        lemma_trim_start(line@, count as int);
        assert(line@.skip(count as int) =~= line@.subrange(count as int, length as int));
    }
    line.substring_char(count, length)
}

/// Whether a span can lose its quotes: one that holds a quote character
/// has a character to lose at either end.
pub open spec fn has_room_for_quotes(span: Seq<char>) -> bool {
    span.contains('"') ==> span.len() >= 2
}

/// A name as it is written, freed of the quotes around it: where the span
/// holds a quote character, its first and its last character are dropped;
/// otherwise it stays as it is.
pub open spec fn strip_quotes_spec(span: Seq<char>) -> Seq<char>
    recommends
        has_room_for_quotes(span),
{
    if span.contains('"') {
        span.subrange(1, span.len() - 1)
    } else {
        span
    }
}

/// Whether `span` holds a quote character.
pub fn has_quote(span: &str) -> (found: bool)
    ensures
        found == span@.contains('"'),
{
    for c in iter: span.chars()
        invariant
            iter.seq() == span@,
            forall|j: int| 0 <= j < iter.index() ==> span@[j] != '"',
    {
        if c == '"' {
            return true;
        }
    }
    false
}

/// Takes the quotes off a name; see [`strip_quotes_spec`]. A span that
/// holds a quote character and nothing else has no name to give.
pub fn strip_quotes(span: &str) -> (name: &str)
    requires
        has_room_for_quotes(span@),
    ensures
        name@ == strip_quotes_spec(span@),
{
    if has_quote(span) {
        span.substring_char(1, span.unicode_len() - 1)
    } else {
        span
    }
}

/// The name in a span, where the span can lose its quotes.
pub open spec fn unquoted_spec(span: Seq<char>) -> Option<Seq<char>> {
    if has_room_for_quotes(span) {
        Some(strip_quotes_spec(span))
    } else {
        None
    }
}

/// Takes the quotes off a name where that can be done, and tells where it
/// cannot.
pub fn unquoted(span: &str) -> (name: Option<&str>)
    ensures
        name_view(name) == unquoted_spec(span@),
{
    if has_quote(span) && span.unicode_len() < 2 {
        None
    } else {
        Some(strip_quotes(span))
    }
}

/// The name in the matched text of a block header: the text without its
/// last character, the colon, and without quotes.
pub open spec fn label_name_spec(matched: Seq<char>) -> Option<Seq<char>> {
    if matched.len() >= 1 {
        unquoted_spec(matched.drop_last())
    } else {
        None
    }
}

/// The name of the block that a matched block header opens.
pub fn label_name(matched: &str) -> (name: Option<&str>)
    ensures
        name_view(name) == label_name_spec(matched@),
{
    let length = matched.unicode_len();
    if length >= 1 {
        unquoted(matched.substring_char(0, length - 1))
    } else {
        None
    }
}

/// The name in the matched text of a function name: the text without its
/// first character, the `@`, without its last, the bracket, and without
/// quotes.
pub open spec fn function_name_spec(matched: Seq<char>) -> Option<Seq<char>> {
    if matched.len() >= 2 {
        unquoted_spec(matched.subrange(1, matched.len() - 1))
    } else {
        None
    }
}

/// The name of the function that a matched function name declares.
pub fn function_name(matched: &str) -> (name: Option<&str>)
    ensures
        name_view(name) == function_name_spec(matched@),
{
    let length = matched.unicode_len();
    if length >= 2 {
        unquoted(matched.substring_char(1, length - 1))
    } else {
        None
    }
}

/// The kind of a line. A label is looked for first, so a line that is both
/// a label and a definition counts as a label.
pub open spec fn classify_spec(line: Seq<char>) -> LineKindView {
    let text = trim_start_spec(line);
    match regex_find(BLOCK_HEADER@, text) {
        Some(matched) => LineKindView::Block(label_name_spec(matched)),
        None => if regex_is_match(FUNCTION_HEADER@, text) {
            LineKindView::Function(
                match regex_find(FUNCTION_NAME@, text) {
                    Some(matched) => function_name_spec(matched),
                    None => None,
                },
            )
        } else {
            LineKindView::Plain
        },
    }
}

/// Tells what `line` is, after its leading whitespace.
pub fn classify(line: &str) -> (kind: LineKind<'_>)
    ensures
        kind@ == classify_spec(line@),
{
    let text = trim_start(line);
    match find(BLOCK_HEADER, text) {
        Some(matched) => LineKind::Block(label_name(matched)),
        None => {
            if is_match(FUNCTION_HEADER, text) {
                LineKind::Function(
                    match find(FUNCTION_NAME, text) {
                        Some(matched) => function_name(matched),
                        None => None,
                    },
                )
            } else {
                LineKind::Plain
            }
        },
    }
}

} // verus!

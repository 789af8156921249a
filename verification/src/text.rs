//! What the index records for a structural value, and how a record is
//! shown.

use vstd::prelude::*;

verus! {

/// What is shown in place of the name of a value that has none.
pub const PLACEHOLDER: &'static str = "<nameless instruction>";

/// What stands between the line number and the name of a shown record.
pub const SEPARATOR: &'static str = ", ";

/// The line on which a value is defined and the name it shows there.
#[derive(Clone, Debug, PartialEq, Eq)]
pub struct TextData {
    /// Counted from 1.
    pub line_number: usize,
    /// Empty for a value without a name of its own.
    pub name: String,
}

/// A [`TextData`] as contracts see it.
pub ghost struct TextRecord {
    pub line: nat,
    pub name: Seq<char>,
}

impl View for TextData {
    type V = TextRecord;

    open spec fn view(&self) -> TextRecord {
        TextRecord { line: self.line_number as nat, name: self.name@ }
    }
}

/// The character of one decimal digit.
pub open spec fn digit(d: nat) -> char {
    if d == 0 {
        '0'
    } else if d == 1 {
        '1'
    } else if d == 2 {
        '2'
    } else if d == 3 {
        '3'
    } else if d == 4 {
        '4'
    } else if d == 5 {
        '5'
    } else if d == 6 {
        '6'
    } else if d == 7 {
        '7'
    } else if d == 8 {
        '8'
    } else {
        '9'
    }
}

/// The decimal digits of `n`, without leading zeros.
pub open spec fn decimal(n: nat) -> Seq<char>
    decreases n,
{
    if n < 10 {
        seq![digit(n)]
    } else {
        decimal(n / 10).push(digit(n % 10))
    }
}

/// The name under which a record is shown: its own, or the placeholder
/// where it has none.
pub open spec fn shown_name(name: Seq<char>) -> Seq<char> {
    if name.len() == 0 {
        PLACEHOLDER@
    } else {
        name
    }
}

/// A record as it is shown: the line number, a comma and a space, and the
/// name or the placeholder.
pub open spec fn render_spec(record: TextRecord) -> Seq<char> {
    decimal(record.line) + SEPARATOR@ + shown_name(record.name)
}

/// A record is never shown without a name: where it has none, the
/// placeholder stands in its place, and the placeholder is not empty.
pub proof fn lemma_shown_name_is_not_empty(record: TextRecord)
    ensures
        shown_name(record.name).len() > 0,
        record.name.len() == 0 ==> render_spec(record) == decimal(record.line) + SEPARATOR@
            + PLACEHOLDER@,
        record.name.len() > 0 ==> render_spec(record) == decimal(record.line) + SEPARATOR@
            + record.name,
{
    reveal_strlit("<nameless instruction>");
}

/// One decimal digit as text.
fn digit_text(d: usize) -> (text: &'static str)
    requires
        d < 10,
    ensures
        text@ == seq![digit(d as nat)],
{
    proof {
        reveal_strlit("0");
        reveal_strlit("1");
        reveal_strlit("2");
        reveal_strlit("3");
        reveal_strlit("4");
        reveal_strlit("5");
        reveal_strlit("6");
        reveal_strlit("7");
        reveal_strlit("8");
        reveal_strlit("9");
    }
    let text = match d {
        0 => "0",
        1 => "1",
        2 => "2",
        3 => "3",
        4 => "4",
        5 => "5",
        6 => "6",
        7 => "7",
        8 => "8",
        _ => "9",
    };
    assert(text@ =~= seq![digit(d as nat)]);
    text
}

/// The decimal digits of `n` as text.
pub fn decimal_text(n: usize) -> (text: String)
    ensures
        text@ == decimal(n as nat),
    decreases n,
{
    if n < 10 {
        String::from_str(digit_text(n))
    } else {
        let mut text = decimal_text(n / 10);
        text.append(digit_text(n % 10));
        assert(text@ =~= decimal((n / 10) as nat).push(digit((n % 10) as nat)));
        text
    }
}

impl TextData {
    /// Shows the record as `line, name`. A record without a name is shown
    /// with the placeholder in its place, never with nothing.
    pub fn render(&self) -> (text: String)
        ensures
            text@ == render_spec(self@),
    {
        let mut text = decimal_text(self.line_number);
        text.append(SEPARATOR);
        if self.name.as_str().is_empty() {
            text.append(PLACEHOLDER);
        } else {
            text.append(self.name.as_str());
        }
        text
    }
}

} // verus!

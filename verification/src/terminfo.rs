//! The terminal's own description of itself, as termini reads it, and what the
//! backend takes from it and from the environment.

use vstd::prelude::*;
use vstd::string::StringExecFns;

use crate::escape::{cursor_style_text, decimal, decimal_reads_back, Escape};
use crate::style::CursorStyle;

verus! {

/// termini's description of a terminal.
#[verifier::external_type_specification]
#[verifier::external_body]
pub struct ExTermInfo(termini::TermInfo);

/// The value of an extended capability.
#[derive(Debug)]
pub enum CapabilityValue {
    Flag,
    /// A string that is not UTF-8.
    Raw(Vec<u8>),
    Text(String),
    Number(i32),
}

/// The mathematical form of a [`CapabilityValue`].
pub enum CapabilityView {
    Flag,
    Raw(Seq<u8>),
    Text(Seq<char>),
    Number(i32),
}

impl View for CapabilityValue {
    type V = CapabilityView;

    open spec fn view(&self) -> CapabilityView {
        match *self {
            CapabilityValue::Flag => CapabilityView::Flag,
            CapabilityValue::Raw(bytes) => CapabilityView::Raw(bytes@),
            CapabilityValue::Text(text) => CapabilityView::Text(text@),
            CapabilityValue::Number(number) => CapabilityView::Number(number),
        }
    }
}

/// The mathematical form keeps the kind of a value, and its content.
pub proof fn values_keep_their_kind(value: CapabilityValue)
    ensures
        value is Flag <==> value@ is Flag,
        value is Raw <==> value@ is Raw,
        value is Text <==> value@ is Text,
        value is Number <==> value@ is Number,
        value matches CapabilityValue::Text(text) ==> value@ == CapabilityView::Text(text@),
        value matches CapabilityValue::Raw(bytes) ==> value@ == CapabilityView::Raw(bytes@),
        value matches CapabilityValue::Number(number) ==> value@ == CapabilityView::Number(number),
{
}

/// The extended capabilities of a terminal, by name. `None` stands for a string
/// that lies outside the description's string table, as it may where the
/// description comes from a malformed file.
pub uninterp spec fn extended_caps(info: termini::TermInfo) -> Map<Seq<char>, Option<CapabilityView>>;

/// The standard string capabilities of a terminal that are UTF-8, by their short
/// names.
pub uninterp spec fn string_caps(info: termini::TermInfo) -> Map<Seq<char>, Seq<char>>;

/// Whether looking the capability up comes back.
pub open spec fn readable(info: termini::TermInfo, name: Seq<char>) -> bool {
    extended_caps(info).contains_key(name) ==> extended_caps(info)[name] is Some
}

/// What looking the capability up gives.
pub open spec fn extended_cap_of(info: termini::TermInfo, name: Seq<char>) -> Option<CapabilityView> {
    if extended_caps(info).contains_key(name) {
        extended_caps(info)[name]
    } else {
        None
    }
}

/// `termini::TermInfo::extended_cap`: the value of the capability, if the terminal
/// has it. A string outside the string table is not looked up: there the call
/// panics.
#[verifier::external_body]
pub(crate) fn extended_cap(info: &termini::TermInfo, name: &str) -> (value: Option<CapabilityValue>)
    requires
        readable(*info, name@),
    ensures
        value is Some <==> extended_caps(*info).contains_key(name@),
        value matches Some(v) ==> extended_caps(*info)[name@] == Some(v@),
{
    Some(match info.extended_cap(name)? {
        termini::Value::True => CapabilityValue::Flag,
        termini::Value::RawString(bytes) => CapabilityValue::Raw(bytes.to_vec()),
        termini::Value::Utf8String(text) => CapabilityValue::Text(text.to_string()),
        termini::Value::Number(number) => CapabilityValue::Number(number),
    })
}

/// `termini::TermInfo::utf8_string_cap` for the capability that makes the cursor
/// normal again, `cnorm`.
#[verifier::external_body]
fn cursor_normal_cap(info: &termini::TermInfo) -> (text: Option<String>)
    ensures
        text is Some <==> string_caps(*info).contains_key("cnorm"@),
        text matches Some(t) ==> t@ == string_caps(*info)["cnorm"@],
{
    Some(info.utf8_string_cap(termini::StringCapability::CursorNormal)?.to_string())
}

/// The command that gives the cursor its first shape back: the escape sequence for
/// the default shape, then what the terminal's `Se` capability says, if it is text,
/// then its `cnorm` capability.
pub open spec fn reset_cursor_text(se: Option<CapabilityView>, cnorm: Option<Seq<char>>) -> Seq<char> {
    cursor_style_text(CursorStyle::Default) + (match se {
        Some(CapabilityView::Text(text)) => text,
        _ => seq![],
    }) + (match cnorm {
        Some(text) => text,
        None => seq![],
    })
}

/// See [`reset_cursor_text`].
pub fn reset_cursor_command(se: &Option<CapabilityValue>, cnorm: &Option<String>) -> (command: String)
    ensures
        command@ == reset_cursor_text(
            (match *se {
                Some(value) => Some(value@),
                None => None,
            }),
            (match *cnorm {
                Some(text) => Some(text@),
                None => None,
            }),
        ),
{
    let mut command = Escape::CursorStyle(CursorStyle::Default).render();
    if let Some(CapabilityValue::Text(text)) = se {
        command.append(text.as_str());
    }
    if let Some(text) = cnorm {
        command.append(text.as_str());
    }
    command
}

/// The command that gives the cursor its first shape back, by the description of
/// the terminal.
pub open spec fn described_reset(info: termini::TermInfo) -> Seq<char> {
    reset_cursor_text(
        extended_cap_of(info, "Se"@),
        if string_caps(info).contains_key("cnorm"@) {
            Some(string_caps(info)["cnorm"@])
        } else {
            None
        },
    )
}

/// See [`described_reset`].
pub fn reset_cursor_approach(terminfo: &termini::TermInfo) -> (command: String)
    requires
        readable(*terminfo, "Se"@),
    ensures
        command@ == described_reset(*terminfo),
{
    let se = extended_cap(terminfo, "Se");
    let cnorm = cursor_normal_cap(terminfo);
    reset_cursor_command(&se, &cnorm)
}

/// What the environment says of the terminal program: `TERM_PROGRAM`, or `TERM`
/// where that is not set, as some terminals do not set it.
pub fn term_program(own: Option<String>, term: Option<String>) -> (program: Option<String>)
    ensures
        program == (if own is Some {
            own
        } else {
            term
        }),
{
    match own {
        None => term,
        Some(name) => Some(name),
    }
}

/// Whether the character is a decimal digit.
pub open spec fn is_digit(c: char) -> bool {
    '0' <= c <= '9'
}

/// Whether every character is a decimal digit.
pub open spec fn all_digits(text: Seq<char>) -> bool {
    forall|i: int| 0 <= i < text.len() ==> is_digit(#[trigger] text[i])
}

/// The number that decimal digits write.
pub open spec fn digits_value(digits: Seq<char>) -> nat
    decreases digits.len(),
{
    if digits.len() == 0 {
        0
    } else {
        10 * digits_value(digits.drop_last()) + (digits.last() as nat - '0' as nat) as nat
    }
}

/// The number that a text writes: digits, with or without a plus sign before them,
/// for a number that fits.
pub open spec fn parsed_number(text: Seq<char>) -> Option<usize> {
    let digits = if text.len() > 0 && text[0] == '+' {
        text.skip(1)
    } else {
        text
    };
    if digits.len() > 0 && all_digits(digits) && digits_value(digits) <= usize::MAX {
        Some(digits_value(digits) as usize)
    } else {
        None
    }
}

/// `str::parse::<usize>`: the number, for an optional plus sign followed by digits
/// alone, unless it is too large.
#[verifier::external_body]
fn parse_number(text: &str) -> (number: Option<usize>)
    ensures
        number == parsed_number(text@),
{
    text.parse::<usize>().ok()
}

/// The version that the variable `VTE_VERSION` gives, if it is set and a number.
pub fn vte_version(variable: &Option<String>) -> (version: Option<usize>)
    ensures
        version == (match *variable {
            Some(text) => parsed_number(text@),
            None => None,
        }),
{
    match variable {
        Some(text) => parse_number(text.as_str()),
        None => None,
    }
}

/// A number that fits is read from its digits, with or without a plus sign before them and
/// with any zeros before them; where anything but a digit follows, nothing is read.
pub proof fn numbers_are_read(n: usize, text: Seq<char>, at: int)
    ensures
        parsed_number(decimal(n as nat)) == Some(n),
        parsed_number(seq!['+'] + decimal(n as nat)) == Some(n),
        parsed_number(seq!['0'] + decimal(n as nat)) == Some(n),
        parsed_number(Seq::empty()) is None,
        0 <= at < text.len() && !is_digit(text[at]) && !(at == 0 && text[0] == '+') ==> parsed_number(
            text,
        ) is None,
{
    let digits = decimal(n as nat);
    decimal_reads_back(n as nat);
    assert(is_digit(digits[0]));
    assert((seq!['+'] + digits).skip(1) == digits);
    let padded = seq!['0'] + digits;
    zero_before_digits(digits);
    assert forall|i: int| 0 <= i < padded.len() implies is_digit(#[trigger] padded[i]) by {
        if i > 0 {
            assert(padded[i] == digits[i - 1]);
        }
    }
    if 0 <= at < text.len() && !is_digit(text[at]) && !(at == 0 && text[0] == '+') {
        if text[0] == '+' {
            assert(!is_digit(text.skip(1)[at - 1]));
        }
    }
}

/// A zero before digits changes nothing of their value.
proof fn zero_before_digits(digits: Seq<char>)
    ensures
        digits_value(seq!['0'] + digits) == digits_value(digits),
    decreases digits.len(),
{
    let padded = seq!['0'] + digits;
    if digits.len() == 0 {
        assert(padded.drop_last() == Seq::<char>::empty());
        assert(digits_value(Seq::<char>::empty()) == 0);
        assert(padded.last() == '0');
    } else {
        assert(padded.drop_last() == seq!['0'] + digits.drop_last());
        assert(padded.last() == digits.last());
        zero_before_digits(digits.drop_last());
    }
}

/// The command that gives the cursor its first shape back selects the default shape, then
/// says what the terminal's `Se` says, if that is text, and then what its `cnorm` says, if
/// it has one; nothing stands for what the terminal does not have.
pub proof fn resets_say_what_is_described(
    se: Option<CapabilityView>,
    cnorm: Option<Seq<char>>,
    se_text: Seq<char>,
    cnorm_text: Seq<char>,
)
    requires
        match se {
            Some(CapabilityView::Text(text)) => se_text == text,
            _ => se_text.len() == 0,
        },
        match cnorm {
            Some(text) => cnorm_text == text,
            None => cnorm_text.len() == 0,
        },
    ensures
        reset_cursor_text(se, cnorm) == seq!['\u{1b}', '[', '0', ' ', 'q'] + se_text + cnorm_text,
{
    reset_is_default();
    assert(reset_cursor_text(se, cnorm) == seq!['\u{1b}', '[', '0', ' ', 'q'] + se_text + cnorm_text);
}

/// The text that selects the default shape.
proof fn reset_is_default()
    ensures
        cursor_style_text(CursorStyle::Default) == seq!['\u{1b}', '[', '0', ' ', 'q'],
{
    assert(decimal(0) == seq!['0']);
    assert(cursor_style_text(CursorStyle::Default) == seq!['\u{1b}', '[', '0', ' ', 'q']);
}

/// A description resets the cursor by its own `Se` and `cnorm`.
pub proof fn descriptions_reset_by_their_capabilities(info: termini::TermInfo)
    ensures
        described_reset(info) == reset_cursor_text(
            (if extended_caps(info).contains_key("Se"@) {
                extended_caps(info)["Se"@]
            } else {
                None
            }),
            (if string_caps(info).contains_key("cnorm"@) {
                Some(string_caps(info)["cnorm"@])
            } else {
                None
            }),
        ),
{
}

/// A capability that the terminal does not have can always be looked up, and one that it
/// has can be unless its string is out of place.
pub proof fn absent_capabilities_are_readable(info: termini::TermInfo, name: Seq<char>)
    ensures
        !extended_caps(info).contains_key(name) ==> readable(info, name),
        extended_caps(info).contains_key(name) ==> (readable(info, name)
            <==> extended_caps(info)[name] is Some),
{
}

} // verus!

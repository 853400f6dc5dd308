//! The escape sequences that the backend sends, and their text.

use termina::escape::csi;
use termina::escape::csi::DecPrivateModeCode as Code;
use termina::escape::dcs;
use termina::escape::OneBased;
use vstd::prelude::*;

use crate::style::{Blink, ColorSpec, CursorStyle, Intensity, Underline};
use crate::terminfo::{all_digits, digits_value};

verus! {

/// The private modes that the backend switches or asks about.
#[derive(Debug, Clone, Copy, PartialEq, Eq, Structural)]
pub enum DecMode {
    ShowCursor,
    /// Reports of mouse presses and releases.
    MouseTracking,
    /// Reports of mouse drags as well.
    ButtonEventMouse,
    /// Reports of every mouse motion.
    AnyEventMouse,
    FocusTracking,
    SgrMouse,
    RxvtMouse,
    ClearAndEnableAlternateScreen,
    BracketedPaste,
    SynchronizedOutput,
}

impl DecMode {
    /// The number by which the terminal knows the mode.
    pub open spec fn code(self) -> nat {
        match self {
            DecMode::ShowCursor => 25,
            DecMode::MouseTracking => 1000,
            DecMode::ButtonEventMouse => 1002,
            DecMode::AnyEventMouse => 1003,
            DecMode::FocusTracking => 1004,
            DecMode::SgrMouse => 1006,
            DecMode::RxvtMouse => 1015,
            DecMode::ClearAndEnableAlternateScreen => 1049,
            DecMode::BracketedPaste => 2004,
            DecMode::SynchronizedOutput => 2026,
        }
    }
}

/// What is done with a private mode.
#[derive(Debug, Clone, Copy, PartialEq, Eq, Structural)]
pub enum ModeChange {
    Enable,
    Disable,
    /// Asks the terminal how the mode stands.
    Query,
}

/// A command of the Kitty keyboard protocol.
#[derive(Debug, Clone, Copy, PartialEq, Eq, Structural)]
pub enum Keyboard {
    /// Asks which flags are on.
    QueryFlags,
    /// Pushes flags onto the terminal's stack.
    PushFlags(u8),
    /// Pops that many entries off the terminal's stack.
    PopFlags(u8),
}

/// What a colour is for.
#[derive(Debug, Clone, Copy, PartialEq, Eq, Structural)]
pub enum ColorTarget {
    Foreground,
    Background,
    Underline,
}

/// A text attribute that is either on or off.
#[derive(Debug, Clone, Copy, PartialEq, Eq, Structural)]
pub enum Switch {
    Italic,
    Reverse,
    Invisible,
    StrikeThrough,
}

/// A change of the graphic rendition: how the text that follows looks.
#[derive(Debug, Clone, Copy, PartialEq, Eq, Structural)]
pub enum Sgr {
    /// Every attribute back to the terminal's default.
    Reset,
    Intensity(Intensity),
    Underline(Underline),
    Blink(Blink),
    Switch(Switch, bool),
    Color(ColorTarget, ColorSpec),
}

/// An escape sequence.
#[derive(Debug, Clone, Copy, PartialEq, Eq, Structural)]
pub enum Escape {
    Mode(ModeChange, DecMode),
    /// Moves the cursor to column `x` of line `y`, both counted from zero.
    MoveTo { x: u16, y: u16 },
    CursorStyle(CursorStyle),
    /// Asks where the cursor is.
    RequestCursorPosition,
    EraseDisplay,
    Keyboard(Keyboard),
    Sgr(Sgr),
    /// Asks for the graphic rendition in force.
    RequestGraphicRendition,
    /// Asks for the primary device attributes, which every terminal reports.
    RequestDeviceAttributes,
}

/// The decimal digits of a number, without leading zeros.
pub open spec fn decimal(n: nat) -> Seq<char>
    decreases n,
{
    let digit = ('0' as nat + n % 10) as char;
    if n < 10 {
        seq![digit]
    } else {
        decimal(n / 10).push(digit)
    }
}

/// The two characters that start a control sequence.
pub open spec fn csi_start() -> Seq<char> {
    seq!['\u{1b}', '[']
}

/// The text of a command on a private mode.
pub open spec fn mode_text(change: ModeChange, mode: DecMode) -> Seq<char> {
    let end = match change {
        ModeChange::Enable => seq!['h'],
        ModeChange::Disable => seq!['l'],
        ModeChange::Query => seq!['$', 'p'],
    };
    csi_start().push('?') + decimal(mode.code()) + end
}

/// The text that moves the cursor to column `x` of line `y`.
pub open spec fn move_text(x: u16, y: u16) -> Seq<char> {
    (csi_start() + decimal((y + 1) as nat)).push(';') + decimal((x + 1) as nat).push('H')
}

/// The text that selects a cursor shape.
pub open spec fn cursor_style_text(style: CursorStyle) -> Seq<char> {
    let number: nat = match style {
        CursorStyle::Default => 0,
        CursorStyle::SteadyBlock => 2,
        CursorStyle::SteadyUnderline => 4,
        CursorStyle::SteadyBar => 6,
    };
    csi_start() + decimal(number) + seq![' ', 'q']
}

/// The text of a keyboard command.
pub open spec fn keyboard_text(command: Keyboard) -> Seq<char> {
    csi_start() + (match command {
        Keyboard::QueryFlags => seq!['?'],
        Keyboard::PushFlags(flags) => seq!['>'] + decimal(flags as nat),
        Keyboard::PopFlags(count) => seq!['<'] + decimal(count as nat),
    }).push('u')
}

/// The text of a rendition change whose parameter is one number.
pub open spec fn sgr_number_text(number: nat) -> Seq<char> {
    csi_start() + decimal(number).push('m')
}

/// The number that selects an intensity.
pub open spec fn intensity_number(intensity: Intensity) -> nat {
    match intensity {
        Intensity::Normal => 22,
        Intensity::Bold => 1,
        Intensity::Dim => 2,
    }
}

/// The number that selects a blink speed.
pub open spec fn blink_number(blink: Blink) -> nat {
    match blink {
        Blink::Off => 25,
        Blink::Slow => 5,
        Blink::Rapid => 6,
    }
}

/// The number that switches an attribute on; to switch it off, twenty more.
pub open spec fn switch_number(switch: Switch, on: bool) -> nat {
    let number: nat = match switch {
        Switch::Italic => 3,
        Switch::Reverse => 7,
        Switch::Invisible => 8,
        Switch::StrikeThrough => 9,
    };
    if on {
        number
    } else {
        number + 20
    }
}

/// The text that selects an underline. The three styles beyond a single and a
/// double line are sub-parameters of the single one.
pub open spec fn underline_text(underline: Underline) -> Seq<char> {
    csi_start() + (match underline {
        Underline::Off => seq!['2', '4'],
        Underline::Single => seq!['4'],
        Underline::Double => seq!['2', '1'],
        Underline::Curly => seq!['4', ':', '3'],
        Underline::Dotted => seq!['4', ':', '4'],
        Underline::Dashed => seq!['4', ':', '5'],
    }).push('m')
}

/// The number with which the codes for a colour of this target start.
pub open spec fn color_base(target: ColorTarget) -> nat {
    match target {
        ColorTarget::Foreground => 30,
        ColorTarget::Background => 40,
        ColorTarget::Underline => 50,
    }
}

/// A colon and a number.
pub open spec fn sub_parameter(n: u8) -> Seq<char> {
    seq![':'] + decimal(n as nat)
}

/// The text that selects a colour. A foreground or a background among the first
/// sixteen palette entries has a code of its own; other palette entries and true
/// colours are sub-parameters.
pub open spec fn color_text(target: ColorTarget, color: ColorSpec) -> Seq<char> {
    let base = color_base(target);
    let parameters = match color {
        ColorSpec::Reset => decimal(base + 9),
        ColorSpec::PaletteIndex(index) => if target != ColorTarget::Underline && index < 8 {
            decimal(base + index as nat)
        } else if target != ColorTarget::Underline && index < 16 {
            decimal((base + 52 + index) as nat)
        } else {
            decimal(base + 8) + sub_parameter(5) + sub_parameter(index)
        },
        ColorSpec::TrueColor { red, green, blue, alpha } => {
            let components = sub_parameter(red) + sub_parameter(green) + sub_parameter(blue);
            if alpha == 255 {
                (decimal(base + 8) + sub_parameter(2)).push(':') + components
            } else {
                (decimal(base + 8) + sub_parameter(6)).push(':') + components + sub_parameter(alpha)
            }
        },
    };
    csi_start() + parameters.push('m')
}

impl Sgr {
    /// The text of the rendition change.
    pub open spec fn text(self) -> Seq<char> {
        match self {
            Sgr::Reset => csi_start().push('m'),
            Sgr::Intensity(intensity) => sgr_number_text(intensity_number(intensity)),
            Sgr::Underline(underline) => underline_text(underline),
            Sgr::Blink(blink) => sgr_number_text(blink_number(blink)),
            Sgr::Switch(switch, on) => sgr_number_text(switch_number(switch, on)),
            Sgr::Color(target, color) => color_text(target, color),
        }
    }
}

impl Escape {
    /// The text of the sequence.
    pub open spec fn text(self) -> Seq<char> {
        match self {
            Escape::Mode(change, mode) => mode_text(change, mode),
            Escape::MoveTo { x, y } => move_text(x, y),
            Escape::CursorStyle(style) => cursor_style_text(style),
            Escape::RequestCursorPosition => csi_start() + seq!['6', 'n'],
            Escape::EraseDisplay => csi_start() + seq!['2', 'J'],
            Escape::Keyboard(command) => keyboard_text(command),
            Escape::Sgr(sgr) => sgr.text(),
            Escape::RequestGraphicRendition => seq!['\u{1b}', 'P', '$', 'q', 'm', '\u{1b}', '\\'],
            Escape::RequestDeviceAttributes => csi_start().push('c'),
        }
    }

    /// Whether the sequence can be written: the terminal counts columns and
    /// lines from one, in sixteen bits.
    pub open spec fn in_range(self) -> bool {
        match self {
            Escape::MoveTo { x, y } => x < u16::MAX && y < u16::MAX,
            _ => true,
        }
    }

    /// The text of the sequence.
    pub fn render(self) -> (text: String)
        requires
            self.in_range(),
        ensures
            text@ == self.text(),
    {
        match self {
            Escape::Mode(change, mode) => mode_sequence(change, mode),
            Escape::MoveTo { x, y } => move_sequence(x, y),
            Escape::CursorStyle(style) => cursor_style_sequence(style),
            Escape::RequestCursorPosition => request_position_sequence(),
            Escape::EraseDisplay => erase_display_sequence(),
            Escape::Keyboard(command) => keyboard_sequence(command),
            Escape::Sgr(Sgr::Reset) => reset_sequence(),
            Escape::Sgr(Sgr::Intensity(intensity)) => intensity_sequence(intensity),
            Escape::Sgr(Sgr::Underline(underline)) => underline_sequence(underline),
            Escape::Sgr(Sgr::Blink(blink)) => blink_sequence(blink),
            Escape::Sgr(Sgr::Switch(switch, on)) => switch_sequence(switch, on),
            Escape::Sgr(Sgr::Color(target, color)) => color_sequence(target, color),
            Escape::RequestGraphicRendition => request_rendition_sequence(),
            Escape::RequestDeviceAttributes => request_attributes_sequence(),
        }
    }
}

/// `Display` of termina's `Csi::Mode`: `CSI ?`, the mode's number, and `h` to
/// set it, `l` to reset it or `$p` to ask about it.
#[verifier::external_body]
fn mode_sequence(change: ModeChange, mode: DecMode) -> (text: String)
    ensures
        text@ == mode_text(change, mode),
{
    let mode = csi::DecPrivateMode::Code(match mode {
        DecMode::ShowCursor => Code::ShowCursor, DecMode::MouseTracking => Code::MouseTracking,
        DecMode::ButtonEventMouse => Code::ButtonEventMouse, DecMode::SgrMouse => Code::SGRMouse,
        DecMode::AnyEventMouse => Code::AnyEventMouse, DecMode::RxvtMouse => Code::RXVTMouse,
        DecMode::FocusTracking => Code::FocusTracking, DecMode::BracketedPaste => Code::BracketedPaste,
        DecMode::ClearAndEnableAlternateScreen => Code::ClearAndEnableAlternateScreen,
        DecMode::SynchronizedOutput => Code::SynchronizedOutput,
    });
    csi::Csi::Mode(match change {
        ModeChange::Enable => csi::Mode::SetDecPrivateMode(mode),
        ModeChange::Disable => csi::Mode::ResetDecPrivateMode(mode),
        ModeChange::Query => csi::Mode::QueryDecPrivateMode(mode),
    }).to_string()
}

/// `OneBased::from_zero_based` and `Display` of termina's `Csi::Cursor`: `CSI`,
/// the line and the column counted from one, with a semicolon between, and `H`.
/// `from_zero_based` has no result for the largest number.
#[verifier::external_body]
fn move_sequence(x: u16, y: u16) -> (text: String)
    requires
        x < u16::MAX,
        y < u16::MAX,
    ensures
        text@ == move_text(x, y),
{
    let col = OneBased::from_zero_based(x);
    let line = OneBased::from_zero_based(y);
    csi::Csi::Cursor(csi::Cursor::Position { line, col }).to_string()
}

/// `Display` of termina's `Csi::Cursor` with a style: `CSI`, the style's number,
/// a space and `q`.
#[verifier::external_body]
fn cursor_style_sequence(style: CursorStyle) -> (text: String)
    ensures
        text@ == cursor_style_text(style),
{
    let style = match style {
        CursorStyle::Default => termina::style::CursorStyle::Default,
        CursorStyle::SteadyBlock => termina::style::CursorStyle::SteadyBlock,
        CursorStyle::SteadyUnderline => termina::style::CursorStyle::SteadyUnderline,
        CursorStyle::SteadyBar => termina::style::CursorStyle::SteadyBar,
    };
    csi::Csi::Cursor(csi::Cursor::CursorStyle(style)).to_string()
}

/// `Display` of termina's request for the cursor's position: `CSI 6n`.
#[verifier::external_body]
fn request_position_sequence() -> (text: String)
    ensures
        text@ == Escape::RequestCursorPosition.text(),
{
    csi::Csi::Cursor(csi::Cursor::RequestActivePositionReport).to_string()
}

/// `Display` of termina's erase-display command: `CSI 2J`.
#[verifier::external_body]
fn erase_display_sequence() -> (text: String)
    ensures
        text@ == Escape::EraseDisplay.text(),
{
    csi::Csi::Edit(csi::Edit::EraseInDisplay(csi::EraseInDisplay::EraseDisplay)).to_string()
}

/// `Display` of termina's `Csi::Keyboard`: `CSI ?u` to ask for the flags, `CSI >`
/// and `CSI <` with a number and `u` to push and to pop.
#[verifier::external_body]
fn keyboard_sequence(command: Keyboard) -> (text: String)
    ensures
        text@ == keyboard_text(command),
{
    csi::Csi::Keyboard(match command {
        Keyboard::QueryFlags => csi::Keyboard::QueryFlags,
        Keyboard::PushFlags(flags) => csi::Keyboard::PushFlags(
            csi::KittyKeyboardFlags::from_bits_retain(flags),
        ),
        Keyboard::PopFlags(count) => csi::Keyboard::PopFlags(count),
    }).to_string()
}

/// `Display` of termina's rendition reset: `CSI m`.
#[verifier::external_body]
fn reset_sequence() -> (text: String)
    ensures
        text@ == Sgr::Reset.text(),
{
    csi::Csi::Sgr(csi::Sgr::Reset).to_string()
}

/// `Display` of termina's `Sgr::Intensity`: `CSI`, the intensity's number and `m`.
#[verifier::external_body]
fn intensity_sequence(intensity: Intensity) -> (text: String)
    ensures
        text@ == sgr_number_text(intensity_number(intensity)),
{
    csi::Csi::Sgr(csi::Sgr::Intensity(match intensity {
        Intensity::Normal => termina::style::Intensity::Normal,
        Intensity::Bold => termina::style::Intensity::Bold,
        Intensity::Dim => termina::style::Intensity::Dim,
    })).to_string()
}

/// `Display` of termina's `Sgr::Underline`: `CSI`, the underline's number with its
/// sub-parameter, if it has one, and `m`.
#[verifier::external_body]
fn underline_sequence(underline: Underline) -> (text: String)
    ensures
        text@ == underline_text(underline),
{
    csi::Csi::Sgr(csi::Sgr::Underline(match underline {
        Underline::Off => termina::style::Underline::None,
        Underline::Single => termina::style::Underline::Single,
        Underline::Double => termina::style::Underline::Double,
        Underline::Curly => termina::style::Underline::Curly,
        Underline::Dotted => termina::style::Underline::Dotted,
        Underline::Dashed => termina::style::Underline::Dashed,
    })).to_string()
}

/// `Display` of termina's `Sgr::Blink`: `CSI`, the blink's number and `m`.
#[verifier::external_body]
fn blink_sequence(blink: Blink) -> (text: String)
    ensures
        text@ == sgr_number_text(blink_number(blink)),
{
    csi::Csi::Sgr(csi::Sgr::Blink(match blink {
        Blink::Off => termina::style::Blink::None,
        Blink::Slow => termina::style::Blink::Slow,
        Blink::Rapid => termina::style::Blink::Rapid,
    })).to_string()
}

/// `Display` of termina's `Sgr::Italic`, `Reverse`, `Invisible` and
/// `StrikeThrough`: `CSI`, the switch's number and `m`.
#[verifier::external_body]
fn switch_sequence(switch: Switch, on: bool) -> (text: String)
    ensures
        text@ == sgr_number_text(switch_number(switch, on)),
{
    csi::Csi::Sgr(match switch {
        Switch::Italic => csi::Sgr::Italic(on),
        Switch::Reverse => csi::Sgr::Reverse(on),
        Switch::Invisible => csi::Sgr::Invisible(on),
        Switch::StrikeThrough => csi::Sgr::StrikeThrough(on),
    }).to_string()
}

/// `Display` of termina's `Sgr::Foreground`, `Background` and `UnderlineColor`:
/// `CSI`, the parameters that [`color_text`] gives and `m`.
#[verifier::external_body]
fn color_sequence(target: ColorTarget, color: ColorSpec) -> (text: String)
    ensures
        text@ == color_text(target, color),
{
    let color = match color {
        ColorSpec::Reset => termina::style::ColorSpec::Reset,
        ColorSpec::PaletteIndex(index) => termina::style::ColorSpec::PaletteIndex(index),
        ColorSpec::TrueColor { red, green, blue, alpha } => termina::style::ColorSpec::TrueColor(
            termina::style::RgbaColor { red, green, blue, alpha },
        ),
    };
    csi::Csi::Sgr(match target {
        ColorTarget::Foreground => csi::Sgr::Foreground(color),
        ColorTarget::Background => csi::Sgr::Background(color),
        ColorTarget::Underline => csi::Sgr::UnderlineColor(color),
    }).to_string()
}

/// `Display` of termina's request for the rendition in force: `DCS $qm ST`.
#[verifier::external_body]
fn request_rendition_sequence() -> (text: String)
    ensures
        text@ == Escape::RequestGraphicRendition.text(),
{
    dcs::Dcs::Request(dcs::DcsRequest::GraphicRendition).to_string()
}

/// `Display` of termina's request for the primary device attributes: `CSI c`.
#[verifier::external_body]
fn request_attributes_sequence() -> (text: String)
    ensures
        text@ == Escape::RequestDeviceAttributes.text(),
{
    csi::Csi::Device(csi::Device::RequestPrimaryDeviceAttributes).to_string()
}

/// Whether the characters write the number: digits, without a leading zero.
pub open spec fn reads(digits: Seq<char>, n: nat) -> bool {
    &&& digits.len() > 0
    &&& all_digits(digits)
    &&& digits.len() > 1 ==> digits[0] != '0'
    &&& digits_value(digits) == n
}

/// The decimal digits of a number read back as that number.
pub proof fn decimal_reads_back(n: nat)
    ensures
        reads(decimal(n), n),
        n > 0 ==> decimal(n)[0] != '0',
    decreases n,
{
    let digit = ('0' as nat + n % 10) as char;
    if n < 10 {
        assert(decimal(n).drop_last() == Seq::<char>::empty());
        assert(digits_value(Seq::<char>::empty()) == 0);
    } else {
        decimal_reads_back(n / 10);
        assert(decimal(n) == decimal(n / 10).push(digit));
        assert(decimal(n).drop_last() == decimal(n / 10));
        assert(decimal(n)[0] == decimal(n / 10)[0]);
    }
}

/// Parts with a colon between each two.
pub open spec fn with_colons(parts: Seq<Seq<char>>) -> Seq<char>
    decreases parts.len(),
{
    if parts.len() == 0 {
        seq![]
    } else if parts.len() == 1 {
        parts[0]
    } else {
        with_colons(parts.drop_last()).push(':') + parts.last()
    }
}

/// One part more is a colon and the part.
proof fn one_part_more(parts: Seq<Seq<char>>, part: Seq<char>)
    requires
        parts.len() > 0,
    ensures
        with_colons(parts.push(part)) == with_colons(parts).push(':') + part,
{
    assert(parts.push(part).drop_last() == parts);
}

/// Parts that end in a number written as a sub-parameter.
proof fn sub_parameter_follows(parts: Seq<Seq<char>>, n: u8)
    requires
        parts.len() > 0,
    ensures
        with_colons(parts.push(decimal(n as nat))) == with_colons(parts) + sub_parameter(n),
        reads(decimal(n as nat), n as nat),
{
    one_part_more(parts, decimal(n as nat));
    decimal_reads_back(n as nat);
    assert(with_colons(parts).push(':') + decimal(n as nat) == with_colons(parts) + sub_parameter(n));
}

/// The command for a private mode reads: the escape character, `[?`, the number by which
/// VT terminals know the mode, and `h` to switch it on, `l` to switch it off or `$p` to
/// ask for it.
pub proof fn modes_read_back(change: ModeChange, mode: DecMode) -> (number: Seq<char>)
    ensures
        reads(
            number,
            (match mode {
                DecMode::ShowCursor => 25nat,
                DecMode::MouseTracking => 1000,
                DecMode::ButtonEventMouse => 1002,
                DecMode::AnyEventMouse => 1003,
                DecMode::FocusTracking => 1004,
                DecMode::SgrMouse => 1006,
                DecMode::RxvtMouse => 1015,
                DecMode::ClearAndEnableAlternateScreen => 1049,
                DecMode::BracketedPaste => 2004,
                DecMode::SynchronizedOutput => 2026,
            }),
        ),
        Escape::Mode(change, mode).text() == seq!['\u{1b}', '[', '?'] + number + (match change {
            ModeChange::Enable => seq!['h'],
            ModeChange::Disable => seq!['l'],
            ModeChange::Query => seq!['$', 'p'],
        }),
{
    decimal_reads_back(mode.code());
    decimal(mode.code())
}

/// A move reads: the escape character, `[`, the line, a semicolon, the column and `H`,
/// with line and column counted from one.
pub proof fn moves_read_back(x: u16, y: u16) -> (place: (Seq<char>, Seq<char>))
    requires
        x < u16::MAX,
        y < u16::MAX,
    ensures
        reads(place.0, (y + 1) as nat),
        reads(place.1, (x + 1) as nat),
        (Escape::MoveTo { x, y }).text() == seq!['\u{1b}', '['] + place.0 + seq![';'] + place.1 + seq![
            'H',
        ],
{
    let line = decimal((y + 1) as nat);
    let col = decimal((x + 1) as nat);
    decimal_reads_back((y + 1) as nat);
    decimal_reads_back((x + 1) as nat);
    assert(move_text(x, y) == seq!['\u{1b}', '['] + line + seq![';'] + col + seq!['H']);
    (line, col)
}

/// A cursor shape reads: the escape character, `[`, the shape's number, a space and `q`.
pub proof fn cursor_styles_read_back(style: CursorStyle) -> (number: Seq<char>)
    ensures
        reads(
            number,
            (match style {
                CursorStyle::Default => 0nat,
                CursorStyle::SteadyBlock => 2,
                CursorStyle::SteadyUnderline => 4,
                CursorStyle::SteadyBar => 6,
            }),
        ),
        Escape::CursorStyle(style).text() == seq!['\u{1b}', '['] + number + seq![' ', 'q'],
{
    let n: nat = match style {
        CursorStyle::Default => 0,
        CursorStyle::SteadyBlock => 2,
        CursorStyle::SteadyUnderline => 4,
        CursorStyle::SteadyBar => 6,
    };
    decimal_reads_back(n);
    decimal(n)
}

/// A push or a pop of keyboard flags reads: the escape character, `[>` or `[<`, the flags
/// or the count, and `u`. A query has a question mark and no number.
pub proof fn keyboard_reads_back(n: u8) -> (number: Seq<char>)
    ensures
        reads(number, n as nat),
        Escape::Keyboard(Keyboard::PushFlags(n)).text() == seq!['\u{1b}', '[', '>'] + number + seq![
            'u',
        ],
        Escape::Keyboard(Keyboard::PopFlags(n)).text() == seq!['\u{1b}', '[', '<'] + number + seq![
            'u',
        ],
        Escape::Keyboard(Keyboard::QueryFlags).text() == seq!['\u{1b}', '[', '?', 'u'],
{
    let number = decimal(n as nat);
    decimal_reads_back(n as nat);
    assert(keyboard_text(Keyboard::PushFlags(n)) == seq!['\u{1b}', '[', '>'] + number + seq!['u']);
    assert(keyboard_text(Keyboard::PopFlags(n)) == seq!['\u{1b}', '[', '<'] + number + seq!['u']);
    assert(keyboard_text(Keyboard::QueryFlags) == seq!['\u{1b}', '[', '?', 'u']);
    number
}

/// The commands without parameters.
pub proof fn plain_commands_read()
    ensures
        Escape::RequestCursorPosition.text() == seq!['\u{1b}', '[', '6', 'n'],
        Escape::EraseDisplay.text() == seq!['\u{1b}', '[', '2', 'J'],
        Escape::RequestDeviceAttributes.text() == seq!['\u{1b}', '[', 'c'],
        Escape::RequestGraphicRendition.text() == seq!['\u{1b}', 'P', '$', 'q', 'm', '\u{1b}', '\\'],
        Escape::Sgr(Sgr::Reset).text() == seq!['\u{1b}', '[', 'm'],
{
}

/// The numbers of a rendition change, with a colon between each two: bold is 1 and dim is
/// 2, and 22 ends both; slow blinking is 5 and rapid blinking 6, and 25 ends both; italics,
/// reverse video, invisible and crossed-out text are 3, 7, 8 and 9, and end by 20 more;
/// an underline is 4, of a style by a second number, 21 where it is double, and 24 where
/// there is none.
pub open spec fn attribute_numbers(sgr: Sgr) -> Seq<nat> {
    match sgr {
        Sgr::Intensity(Intensity::Normal) => seq![22nat],
        Sgr::Intensity(Intensity::Bold) => seq![1nat],
        Sgr::Intensity(Intensity::Dim) => seq![2nat],
        Sgr::Blink(Blink::Off) => seq![25nat],
        Sgr::Blink(Blink::Slow) => seq![5nat],
        Sgr::Blink(Blink::Rapid) => seq![6nat],
        Sgr::Switch(Switch::Italic, on) => seq![if on { 3nat } else { 23 }],
        Sgr::Switch(Switch::Reverse, on) => seq![if on { 7nat } else { 27 }],
        Sgr::Switch(Switch::Invisible, on) => seq![if on { 8nat } else { 28 }],
        Sgr::Switch(Switch::StrikeThrough, on) => seq![if on { 9nat } else { 29 }],
        Sgr::Underline(Underline::Off) => seq![24nat],
        Sgr::Underline(Underline::Single) => seq![4nat],
        Sgr::Underline(Underline::Double) => seq![21nat],
        Sgr::Underline(Underline::Curly) => seq![4nat, 3],
        Sgr::Underline(Underline::Dotted) => seq![4nat, 4],
        Sgr::Underline(Underline::Dashed) => seq![4nat, 5],
        _ => seq![],
    }
}

/// The digits of small numbers.
proof fn small_numbers_read()
    ensures
        reads(seq!['3'], 3),
        reads(seq!['4'], 4),
        reads(seq!['5'], 5),
        reads(seq!['2', '4'], 24),
        reads(seq!['2', '1'], 21),
{
    reveal_with_fuel(digits_value, 3);
    assert(seq!['3'].drop_last() == Seq::<char>::empty());
    assert(seq!['4'].drop_last() == Seq::<char>::empty());
    assert(seq!['5'].drop_last() == Seq::<char>::empty());
    assert(seq!['2'].drop_last() == Seq::<char>::empty());
    assert(seq!['2', '4'].drop_last() == seq!['2']);
    assert(seq!['2', '1'].drop_last() == seq!['2']);
}

/// A change of an attribute reads: the escape character, `[`, the attribute's numbers with
/// a colon between each two, and `m`.
pub proof fn attributes_read_back(sgr: Sgr) -> (parts: Seq<Seq<char>>)
    requires
        !(sgr is Reset),
        !(sgr is Color),
    ensures
        parts.len() == attribute_numbers(sgr).len(),
        forall|i: int|
            0 <= i < parts.len() ==> reads(#[trigger] parts[i], attribute_numbers(sgr)[i]),
        Escape::Sgr(sgr).text() == seq!['\u{1b}', '['] + with_colons(parts) + seq!['m'],
{
    small_numbers_read();
    let parts = match sgr {
        Sgr::Underline(Underline::Off) => seq![seq!['2', '4']],
        Sgr::Underline(Underline::Single) => seq![seq!['4']],
        Sgr::Underline(Underline::Double) => seq![seq!['2', '1']],
        Sgr::Underline(Underline::Curly) => seq![seq!['4'], seq!['3']],
        Sgr::Underline(Underline::Dotted) => seq![seq!['4'], seq!['4']],
        Sgr::Underline(Underline::Dashed) => seq![seq!['4'], seq!['5']],
        _ => seq![decimal(attribute_numbers(sgr)[0])],
    };
    decimal_reads_back(attribute_numbers(sgr)[0]);
    if parts.len() == 2 {
        one_part_more(seq![parts[0]], parts[1]);
        assert(seq![parts[0]].push(parts[1]) == parts);
    }
    assert(sgr.text() == seq!['\u{1b}', '['] + with_colons(parts) + seq!['m']);
    parts
}

/// The numbers of a change of colour, by ones that start at 30 for the text, 40 for what is
/// behind it and 50 for its underline. The default colour is the ninth. Of the palette the
/// first eight entries have the first eight numbers, and the next eight have the numbers 60
/// higher than those, except for underlines, which have none of these. Any other colour is
/// the eighth number, and says more: five and the entry, or two, a part that is empty, and
/// the components, or six with the opacity behind them.
pub open spec fn color_numbers(target: ColorTarget, color: ColorSpec) -> Seq<Option<nat>> {
    let start: nat = match target {
        ColorTarget::Foreground => 30,
        ColorTarget::Background => 40,
        ColorTarget::Underline => 50,
    };
    match color {
        ColorSpec::Reset => seq![Some(start + 9)],
        ColorSpec::PaletteIndex(index) => if !(target is Underline) && index < 8 {
            seq![Some(start + index as nat)]
        } else if !(target is Underline) && index < 16 {
            seq![Some((start + 60 + (index - 8)) as nat)]
        } else {
            seq![Some(start + 8), Some(5), Some(index as nat)]
        },
        ColorSpec::TrueColor { red, green, blue, alpha } => {
            let components = seq![Some(red as nat), Some(green as nat), Some(blue as nat)];
            if alpha == 255 {
                seq![Some(start + 8), Some(2nat), None] + components
            } else {
                seq![Some(start + 8), Some(6nat), None] + components + seq![Some(alpha as nat)]
            }
        },
    }
}

/// Whether a part is empty or writes the number, as asked.
pub open spec fn part_reads(part: Seq<char>, number: Option<nat>) -> bool {
    match number {
        Some(n) => reads(part, n),
        None => part.len() == 0,
    }
}

/// A change of colour reads: the escape character, `[`, the colour's numbers with a colon
/// between each two, and `m`.
pub proof fn colors_read_back(target: ColorTarget, color: ColorSpec) -> (parts: Seq<Seq<char>>)
    ensures
        parts.len() == color_numbers(target, color).len(),
        forall|i: int|
            0 <= i < parts.len() ==> part_reads(
                #[trigger] parts[i],
                color_numbers(target, color)[i],
            ),
        Escape::Sgr(Sgr::Color(target, color)).text() == seq!['\u{1b}', '['] + with_colons(parts)
            + seq!['m'],
{
    let numbers = color_numbers(target, color);
    let first = numbers[0]->0;
    let head = decimal(first);
    decimal_reads_back(first);
    let start = seq![head];
    let parts = match color {
        ColorSpec::Reset => start,
        ColorSpec::PaletteIndex(index) => {
            if numbers.len() == 1 {
                start
            } else {
                sub_parameter_follows(start, 5);
                sub_parameter_follows(start.push(decimal(5)), index);
                start.push(decimal(5)).push(decimal(index as nat))
            }
        },
        ColorSpec::TrueColor { red, green, blue, alpha } => {
            let kind: u8 = if alpha == 255 {
                2
            } else {
                6
            };
            let empty = Seq::<char>::empty();
            let p2 = start.push(decimal(kind as nat));
            let p3 = p2.push(empty);
            let p4 = p3.push(decimal(red as nat));
            let p5 = p4.push(decimal(green as nat));
            let p6 = p5.push(decimal(blue as nat));
            sub_parameter_follows(start, kind);
            one_part_more(p2, empty);
            assert(with_colons(p3) == with_colons(p2).push(':'));
            sub_parameter_follows(p3, red);
            sub_parameter_follows(p4, green);
            sub_parameter_follows(p5, blue);
            let components = sub_parameter(red) + sub_parameter(green) + sub_parameter(blue);
            assert(with_colons(p6) == with_colons(p3) + components);
            if alpha == 255 {
                p6
            } else {
                sub_parameter_follows(p6, alpha);
                p6.push(decimal(alpha as nat))
            }
        },
    };
    assert(with_colons(start) == head);
    assert(color_text(target, color) == seq!['\u{1b}', '['] + with_colons(parts) + seq!['m']);
    parts
}

} // verus!

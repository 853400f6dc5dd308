//! Colours, text modifiers, cells and cursor shapes.

use vstd::prelude::*;

verus! {

/// A colour as themes name it.
#[derive(Debug, Clone, Copy, PartialEq, Eq, Structural)]
pub enum Color {
    Reset,
    Black,
    Red,
    Green,
    Yellow,
    Blue,
    Magenta,
    Cyan,
    Gray,
    LightRed,
    LightGreen,
    LightYellow,
    LightBlue,
    LightMagenta,
    LightCyan,
    LightGray,
    White,
    Rgb(u8, u8, u8),
    Indexed(u8),
}

/// A colour as escape sequences carry it.
#[derive(Debug, Clone, Copy, PartialEq, Eq, Structural)]
pub enum ColorSpec {
    /// The terminal's default colour.
    Reset,
    /// An entry of the terminal's palette.
    PaletteIndex(u8),
    /// A colour given by its components; `alpha` is 255 for an opaque colour.
    TrueColor { red: u8, green: u8, blue: u8, alpha: u8 },
}

impl Color {
    /// The colour specification that a theme colour stands for.
    ///
    /// The eight basic names and their light variants are the first sixteen
    /// palette entries: `Gray` is the bright black, `LightGray` the plain white
    /// and `White` the bright white.
    pub open spec fn spec_color(self) -> ColorSpec {
        match self {
            Color::Reset => ColorSpec::Reset,
            Color::Black => ColorSpec::PaletteIndex(0),
            Color::Red => ColorSpec::PaletteIndex(1),
            Color::Green => ColorSpec::PaletteIndex(2),
            Color::Yellow => ColorSpec::PaletteIndex(3),
            Color::Blue => ColorSpec::PaletteIndex(4),
            Color::Magenta => ColorSpec::PaletteIndex(5),
            Color::Cyan => ColorSpec::PaletteIndex(6),
            Color::LightGray => ColorSpec::PaletteIndex(7),
            Color::Gray => ColorSpec::PaletteIndex(8),
            Color::LightRed => ColorSpec::PaletteIndex(9),
            Color::LightGreen => ColorSpec::PaletteIndex(10),
            Color::LightYellow => ColorSpec::PaletteIndex(11),
            Color::LightBlue => ColorSpec::PaletteIndex(12),
            Color::LightMagenta => ColorSpec::PaletteIndex(13),
            Color::LightCyan => ColorSpec::PaletteIndex(14),
            Color::White => ColorSpec::PaletteIndex(15),
            Color::Rgb(red, green, blue) => ColorSpec::TrueColor { red, green, blue, alpha: 255 },
            Color::Indexed(index) => ColorSpec::PaletteIndex(index),
        }
    }

    /// See [`Color::spec_color`].
    pub fn to_color_spec(self) -> (spec: ColorSpec)
        ensures
            spec == self.spec_color(),
    {
        match self {
            Color::Reset => ColorSpec::Reset,
            Color::Black => ColorSpec::PaletteIndex(0),
            Color::Red => ColorSpec::PaletteIndex(1),
            Color::Green => ColorSpec::PaletteIndex(2),
            Color::Yellow => ColorSpec::PaletteIndex(3),
            Color::Blue => ColorSpec::PaletteIndex(4),
            Color::Magenta => ColorSpec::PaletteIndex(5),
            Color::Cyan => ColorSpec::PaletteIndex(6),
            Color::LightGray => ColorSpec::PaletteIndex(7),
            Color::Gray => ColorSpec::PaletteIndex(8),
            Color::LightRed => ColorSpec::PaletteIndex(9),
            Color::LightGreen => ColorSpec::PaletteIndex(10),
            Color::LightYellow => ColorSpec::PaletteIndex(11),
            Color::LightBlue => ColorSpec::PaletteIndex(12),
            Color::LightMagenta => ColorSpec::PaletteIndex(13),
            Color::LightCyan => ColorSpec::PaletteIndex(14),
            Color::White => ColorSpec::PaletteIndex(15),
            Color::Rgb(red, green, blue) => ColorSpec::TrueColor { red, green, blue, alpha: 255 },
            Color::Indexed(index) => ColorSpec::PaletteIndex(index),
        }
    }
}

/// How a cell's underline is drawn, as themes name it.
#[derive(Debug, Clone, Copy, PartialEq, Eq, Structural)]
pub enum UnderlineStyle {
    Reset,
    Line,
    Curl,
    Dotted,
    Dashed,
    DoubleLine,
}

/// An underline as escape sequences carry it.
#[derive(Debug, Clone, Copy, PartialEq, Eq, Structural)]
pub enum Underline {
    Off,
    Single,
    Double,
    Curly,
    Dotted,
    Dashed,
}

impl UnderlineStyle {
    /// The underline that a theme's style stands for.
    pub open spec fn spec_underline(self) -> Underline {
        match self {
            UnderlineStyle::Reset => Underline::Off,
            UnderlineStyle::Line => Underline::Single,
            UnderlineStyle::Curl => Underline::Curly,
            UnderlineStyle::Dotted => Underline::Dotted,
            UnderlineStyle::Dashed => Underline::Dashed,
            UnderlineStyle::DoubleLine => Underline::Double,
        }
    }

    /// See [`UnderlineStyle::spec_underline`].
    pub fn to_underline(self) -> (underline: Underline)
        ensures
            underline == self.spec_underline(),
    {
        match self {
            UnderlineStyle::Reset => Underline::Off,
            UnderlineStyle::Line => Underline::Single,
            UnderlineStyle::Curl => Underline::Curly,
            UnderlineStyle::Dotted => Underline::Dotted,
            UnderlineStyle::Dashed => Underline::Dashed,
            UnderlineStyle::DoubleLine => Underline::Double,
        }
    }
}

/// The weight of the text.
#[derive(Debug, Clone, Copy, PartialEq, Eq, Structural)]
pub enum Intensity {
    Normal,
    Bold,
    Dim,
}

/// The speed at which text blinks.
#[derive(Debug, Clone, Copy, PartialEq, Eq, Structural)]
pub enum Blink {
    Off,
    Slow,
    Rapid,
}

/// A set of text modifiers, one bit each.
#[derive(Debug, Clone, Copy, PartialEq, Eq, Structural)]
pub struct Modifier {
    pub bits: u16,
}

impl Modifier {
    pub const BOLD: u16 = 0x001;

    pub const DIM: u16 = 0x002;

    pub const ITALIC: u16 = 0x004;

    pub const SLOW_BLINK: u16 = 0x010;

    pub const RAPID_BLINK: u16 = 0x020;

    pub const REVERSED: u16 = 0x040;

    pub const HIDDEN: u16 = 0x080;

    pub const CROSSED_OUT: u16 = 0x100;

    /// Whether every modifier of `flags` is in this set.
    pub open spec fn has(self, flags: u16) -> bool {
        self.bits & flags == flags
    }

    /// The empty set.
    pub fn empty() -> (none: Modifier)
        ensures
            none.bits == 0,
    {
        Modifier { bits: 0 }
    }

    /// The set of the modifiers whose bits are given.
    pub fn from_bits(bits: u16) -> (set: Modifier)
        ensures
            set.bits == bits,
    {
        Modifier { bits }
    }

    /// Whether every modifier of `flags` is in this set.
    pub fn contains(self, flags: u16) -> (all: bool)
        ensures
            all == self.has(flags),
            all == (self.bits & flags == flags),
    {
        self.bits & flags == flags
    }

    /// The modifiers of this set that are not in `other`.
    pub fn difference(self, other: Modifier) -> (rest: Modifier)
        ensures
            rest.bits == self.bits & !other.bits,
    {
        Modifier { bits: self.bits & !other.bits }
    }
}

/// One character cell of the screen.
#[derive(Debug)]
pub struct Cell {
    /// The grapheme shown in the cell.
    pub symbol: String,
    pub fg: Color,
    pub bg: Color,
    pub underline_color: Color,
    pub underline_style: UnderlineStyle,
    pub modifier: Modifier,
}

/// The cursor that an editor mode asks for.
#[derive(Debug, Clone, Copy, PartialEq, Eq, Structural)]
pub enum CursorKind {
    Block,
    Bar,
    Underline,
    Hidden,
}

/// A cursor shape as escape sequences carry it.
#[derive(Debug, Clone, Copy, PartialEq, Eq, Structural)]
pub enum CursorStyle {
    /// The shape that the terminal starts with.
    Default,
    SteadyBlock,
    SteadyUnderline,
    SteadyBar,
}

/// An area of the screen, in cells.
#[derive(Debug, Clone, Copy, PartialEq, Eq, Structural)]
pub struct Rect {
    pub x: u16,
    pub y: u16,
    pub width: u16,
    pub height: u16,
}

/// The colours that have a name, in the order of the terminal's palette: the eight plain
/// ones, then their bright variants.
pub open spec fn named_colors() -> Seq<Color> {
    seq![
        Color::Black,
        Color::Red,
        Color::Green,
        Color::Yellow,
        Color::Blue,
        Color::Magenta,
        Color::Cyan,
        Color::LightGray,
        Color::Gray,
        Color::LightRed,
        Color::LightGreen,
        Color::LightYellow,
        Color::LightBlue,
        Color::LightMagenta,
        Color::LightCyan,
        Color::White,
    ]
}

/// A colour with a name is the palette entry at the name's place, an indexed colour is
/// the entry of that index, and a colour given by its components is opaque and has these
/// components. The terminal's default colour is none of them.
pub proof fn colors_are_told_apart(place: int, index: u8, red: u8, green: u8, blue: u8)
    requires
        0 <= place < 16,
    ensures
        named_colors().len() == 16,
        named_colors()[place].spec_color() matches ColorSpec::PaletteIndex(entry) && entry == place,
        Color::Indexed(index).spec_color() matches ColorSpec::PaletteIndex(entry) && entry == index,
        Color::Rgb(red, green, blue).spec_color() matches ColorSpec::TrueColor {
            red: r,
            green: g,
            blue: b,
            alpha,
        } && r == red && g == green && b == blue && alpha == 255,
        Color::Reset.spec_color() is Reset,
{
}

/// Every colour is the default, has a name, or is given by an index or by components.
pub proof fn colors_are_all_known(color: Color)
    ensures
        color is Reset || color is Indexed || color is Rgb || named_colors().contains(color),
{
    let names = named_colors();
    assert(names[0] == Color::Black && names[1] == Color::Red && names[2] == Color::Green);
    assert(names[3] == Color::Yellow && names[4] == Color::Blue && names[5] == Color::Magenta);
    assert(names[6] == Color::Cyan && names[7] == Color::LightGray && names[8] == Color::Gray);
    assert(names[9] == Color::LightRed && names[10] == Color::LightGreen);
    assert(names[11] == Color::LightYellow && names[12] == Color::LightBlue);
    assert(names[13] == Color::LightMagenta && names[14] == Color::LightCyan);
    assert(names[15] == Color::White);
}

/// Each style of underline is a line of its own, and only no underline is none.
pub proof fn underlines_are_told_apart()
    ensures
        UnderlineStyle::Reset.spec_underline() is Off,
        UnderlineStyle::Line.spec_underline() is Single,
        UnderlineStyle::DoubleLine.spec_underline() is Double,
        UnderlineStyle::Curl.spec_underline() is Curly,
        UnderlineStyle::Dotted.spec_underline() is Dotted,
        UnderlineStyle::Dashed.spec_underline() is Dashed,
        forall|one: UnderlineStyle, other: UnderlineStyle|
            #[trigger] one.spec_underline() == #[trigger] other.spec_underline() ==> one == other,
{
}

/// A modifier is in a set when its own bit is on.
pub proof fn modifiers_are_bits(set: Modifier)
    ensures
        set.has(Modifier::BOLD) <==> set.bits & 0x001 != 0,
        set.has(Modifier::DIM) <==> set.bits & 0x002 != 0,
        set.has(Modifier::ITALIC) <==> set.bits & 0x004 != 0,
        set.has(Modifier::SLOW_BLINK) <==> set.bits & 0x010 != 0,
        set.has(Modifier::RAPID_BLINK) <==> set.bits & 0x020 != 0,
        set.has(Modifier::REVERSED) <==> set.bits & 0x040 != 0,
        set.has(Modifier::HIDDEN) <==> set.bits & 0x080 != 0,
        set.has(Modifier::CROSSED_OUT) <==> set.bits & 0x100 != 0,
{
    let b = set.bits;
    assert({
        &&& (b & 0x001 == 0x001 <==> b & 0x001 != 0)
        &&& (b & 0x002 == 0x002 <==> b & 0x002 != 0)
        &&& (b & 0x004 == 0x004 <==> b & 0x004 != 0)
        &&& (b & 0x010 == 0x010 <==> b & 0x010 != 0)
        &&& (b & 0x020 == 0x020 <==> b & 0x020 != 0)
        &&& (b & 0x040 == 0x040 <==> b & 0x040 != 0)
        &&& (b & 0x080 == 0x080 <==> b & 0x080 != 0)
        &&& (b & 0x100 == 0x100 <==> b & 0x100 != 0)
    }) by (bit_vector);
}

/// A set has some modifiers when it has each of them: one bit, by that bit; two groups,
/// by both; none at all, always.
pub proof fn modifiers_are_had_one_by_one(set: Modifier, first: u16, second: u16, place: u16)
    requires
        place < 16,
    ensures
        set.has(first | second) <==> set.has(first) && set.has(second),
        set.has(1u16 << place) <==> (set.bits >> place) & 1 == 1,
        set.has(0),
{
    let b = set.bits;
    assert(b & (first | second) == (first | second) <==> b & first == first && b & second == second)
        by (bit_vector);
    assert(b & (1u16 << place) == (1u16 << place) <==> (b >> place) & 1 == 1) by (bit_vector)
        requires
            place < 16,
    ;
    assert(b & 0 == 0) by (bit_vector);
}

} // verus!

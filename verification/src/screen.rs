//! What a terminal makes of the output: a model of its screen, and what holds of
//! the frames that are drawn on it.

use vstd::prelude::*;

use crate::escape::{ColorTarget, DecMode, Escape, Keyboard, ModeChange, Sgr, Switch};
use crate::frame::{
    before_at, cell_outputs, cells_outputs, follows, frame_outputs, mode_if, pen_before,
    same_modifiers, style_outputs, tracked_underline, Pen, Update,
};
use crate::modifiers::{rendition, rendition_if, ModifierDiff};
use crate::output::{empty_run, Output};
use crate::style::{
    modifiers_are_bits, Blink, Cell, Color, ColorSpec, CursorStyle, Intensity, Modifier, Underline,
    UnderlineStyle,
};

verus! {

/// How text looks that is written now.
pub struct Look {
    pub fg: ColorSpec,
    pub bg: ColorSpec,
    pub underline_color: ColorSpec,
    pub underline: Underline,
    pub bold: bool,
    pub dim: bool,
    pub italic: bool,
    pub slow_blink: bool,
    pub rapid_blink: bool,
    pub reversed: bool,
    pub hidden: bool,
    pub crossed_out: bool,
}

impl Look {
    /// The look that the terminal starts with.
    pub open spec fn plain() -> Look {
        Look {
            fg: ColorSpec::Reset,
            bg: ColorSpec::Reset,
            underline_color: ColorSpec::Reset,
            underline: Underline::Off,
            bold: false,
            dim: false,
            italic: false,
            slow_blink: false,
            rapid_blink: false,
            reversed: false,
            hidden: false,
            crossed_out: false,
        }
    }

    /// The look after a rendition change. Normal intensity ends both bold and
    /// dim, and no blinking ends both speeds.
    pub open spec fn with(self, sgr: Sgr) -> Look {
        match sgr {
            Sgr::Reset => Look::plain(),
            Sgr::Intensity(Intensity::Normal) => Look { bold: false, dim: false, ..self },
            Sgr::Intensity(Intensity::Bold) => Look { bold: true, ..self },
            Sgr::Intensity(Intensity::Dim) => Look { dim: true, ..self },
            Sgr::Underline(underline) => Look { underline, ..self },
            Sgr::Blink(Blink::Off) => Look { slow_blink: false, rapid_blink: false, ..self },
            Sgr::Blink(Blink::Slow) => Look { slow_blink: true, ..self },
            Sgr::Blink(Blink::Rapid) => Look { rapid_blink: true, ..self },
            Sgr::Switch(Switch::Italic, on) => Look { italic: on, ..self },
            Sgr::Switch(Switch::Reverse, on) => Look { reversed: on, ..self },
            Sgr::Switch(Switch::Invisible, on) => Look { hidden: on, ..self },
            Sgr::Switch(Switch::StrikeThrough, on) => Look { crossed_out: on, ..self },
            Sgr::Color(ColorTarget::Foreground, color) => Look { fg: color, ..self },
            Sgr::Color(ColorTarget::Background, color) => Look { bg: color, ..self },
            Sgr::Color(ColorTarget::Underline, color) => Look { underline_color: color, ..self },
        }
    }

    /// The look with exactly these modifiers.
    pub open spec fn with_modifiers(self, modifier: Modifier) -> Look {
        Look {
            bold: modifier.bits & 0x001 != 0,
            dim: modifier.bits & 0x002 != 0,
            italic: modifier.bits & 0x004 != 0,
            slow_blink: modifier.bits & 0x010 != 0,
            rapid_blink: modifier.bits & 0x020 != 0,
            reversed: modifier.bits & 0x040 != 0,
            hidden: modifier.bits & 0x080 != 0,
            crossed_out: modifier.bits & 0x100 != 0,
            ..self
        }
    }

    /// The look that a cell asks for.
    pub open spec fn of(cell: Cell) -> Look {
        Look {
            fg: cell.fg.spec_color(),
            bg: cell.bg.spec_color(),
            underline_color: cell.underline_color.spec_color(),
            underline: cell.underline_style.spec_underline(),
            ..Look::plain().with_modifiers(cell.modifier)
        }
    }
}

/// The look that a cell asks for has an attribute exactly when the cell's modifiers have the
/// attribute's bit, and takes its colours and its underline from the cell.
pub proof fn looks_go_by_bits(cell: Cell)
    ensures
        ({
            let look = Look::of(cell);
            let bits = cell.modifier.bits;
            &&& look.bold <==> bits & 0x001 != 0
            &&& look.dim <==> bits & 0x002 != 0
            &&& look.italic <==> bits & 0x004 != 0
            &&& look.slow_blink <==> bits & 0x010 != 0
            &&& look.rapid_blink <==> bits & 0x020 != 0
            &&& look.reversed <==> bits & 0x040 != 0
            &&& look.hidden <==> bits & 0x080 != 0
            &&& look.crossed_out <==> bits & 0x100 != 0
            &&& look.fg == cell.fg.spec_color()
            &&& look.bg == cell.bg.spec_color()
            &&& look.underline_color == cell.underline_color.spec_color()
            &&& look.underline == cell.underline_style.spec_underline()
        }),
{
}

/// A symbol on the screen: where it was printed, in what look, and whether the terminal
/// was holding back its output.
pub struct Print {
    pub x: int,
    pub y: int,
    pub symbol: Seq<char>,
    pub look: Look,
    pub held: bool,
}

/// The shape of the cursor: one of the terminal's, or what a ready-made command makes it.
pub enum Shape {
    Style(CursorStyle),
    Command(Seq<char>),
}

/// What the terminal was asked, with what its answer goes by.
pub enum Question {
    KeyboardFlags,
    PrivateMode(DecMode),
    /// The rendition in force when it was asked for.
    GraphicRendition(Look),
    DeviceAttributes,
    /// The place of the cursor when it was asked for.
    CursorPosition { x: int, y: int },
}

/// The terminal: where its cursor is and in what shape, how it writes, which private
/// modes are on, which keyboard flags have been pushed, what it was asked, and everything
/// that it has printed.
pub struct Screen {
    pub x: int,
    pub y: int,
    pub shape: Shape,
    pub look: Look,
    pub modes: Set<DecMode>,
    pub keyboard: Seq<u8>,
    pub asked: Seq<Question>,
    pub prints: Seq<Print>,
}

/// The number of columns that a symbol takes.
pub type Width = spec_fn(Seq<char>) -> int;

impl Screen {
    /// The screen after one piece of output. A symbol moves the cursor to the
    /// right by its width. A ready-made command concerns only the cursor's shape.
    /// Keyboard flags are dropped when the alternate screen is left, and it has none when
    /// it is entered.
    pub open spec fn after_piece(self, width: Width, piece: Output) -> Screen {
        match piece {
            Output::Symbol(symbol) => Screen {
                x: self.x + width(symbol),
                prints: self.prints.push(
                    Print {
                        x: self.x,
                        y: self.y,
                        symbol,
                        look: self.look,
                        held: self.modes.contains(DecMode::SynchronizedOutput),
                    },
                ),
                ..self
            },
            Output::Command(command) => Screen { shape: Shape::Command(command), ..self },
            Output::Escape(Escape::MoveTo { x, y }) => Screen { x: x as int, y: y as int, ..self },
            Output::Escape(Escape::CursorStyle(style)) => Screen {
                shape: Shape::Style(style),
                ..self
            },
            Output::Escape(Escape::Sgr(sgr)) => Screen { look: self.look.with(sgr), ..self },
            Output::Escape(Escape::Mode(ModeChange::Enable, mode)) => Screen {
                modes: self.modes.insert(mode),
                keyboard: if mode is ClearAndEnableAlternateScreen && !self.modes.contains(mode) {
                    seq![]
                } else {
                    self.keyboard
                },
                ..self
            },
            Output::Escape(Escape::Mode(ModeChange::Disable, mode)) => Screen {
                modes: self.modes.remove(mode),
                keyboard: if mode is ClearAndEnableAlternateScreen {
                    seq![]
                } else {
                    self.keyboard
                },
                ..self
            },
            Output::Escape(Escape::EraseDisplay) => Screen { prints: seq![], ..self },
            Output::Escape(Escape::Keyboard(Keyboard::PushFlags(flags))) => Screen {
                keyboard: self.keyboard.push(flags),
                ..self
            },
            Output::Escape(Escape::Keyboard(Keyboard::PopFlags(count))) => Screen {
                keyboard: if count <= self.keyboard.len() {
                    self.keyboard.take(self.keyboard.len() - count)
                } else {
                    seq![]
                },
                ..self
            },
            Output::Escape(Escape::Keyboard(Keyboard::QueryFlags)) => self.ask(
                Question::KeyboardFlags,
            ),
            Output::Escape(Escape::Mode(ModeChange::Query, mode)) => self.ask(
                Question::PrivateMode(mode),
            ),
            Output::Escape(Escape::RequestGraphicRendition) => self.ask(
                Question::GraphicRendition(self.look),
            ),
            Output::Escape(Escape::RequestDeviceAttributes) => self.ask(
                Question::DeviceAttributes,
            ),
            Output::Escape(Escape::RequestCursorPosition) => self.ask(
                Question::CursorPosition { x: self.x, y: self.y },
            ),
        }
    }

    /// The screen after a question.
    pub open spec fn ask(self, question: Question) -> Screen {
        Screen { asked: self.asked.push(question), ..self }
    }

    /// The screen after a run of output.
    #[verifier::opaque]
    pub open spec fn after(self, width: Width, pieces: Seq<Output>) -> Screen
        decreases pieces.len(),
    {
        if pieces.len() == 0 {
            self
        } else {
            self.after(width, pieces.drop_last()).after_piece(width, pieces.last())
        }
    }
}

/// Two runs of output do what the first does, then what the second does.
pub proof fn after_concat(screen: Screen, width: Width, first: Seq<Output>, second: Seq<Output>)
    ensures
        screen.after(width, first + second) == screen.after(width, first).after(width, second),
    decreases second.len(),
{
    reveal(Screen::after);
    if second.len() == 0 {
        assert(first + second == first);
    } else {
        after_concat(screen, width, first, second.drop_last());
        assert((first + second).drop_last() == first + second.drop_last());
    }
}

/// A run of one piece does what the piece does.
pub proof fn after_one(screen: Screen, width: Width, piece: Output)
    ensures
        screen.after(width, seq![piece]) == screen.after_piece(width, piece),
{
    reveal(Screen::after);
    assert(seq![piece].drop_last() == Seq::<Output>::empty());
    assert(screen.after(width, Seq::<Output>::empty()) == screen);
}

/// A run and one piece more do what the run does, then what the piece does.
pub proof fn after_push(screen: Screen, width: Width, run: Seq<Output>, piece: Output)
    ensures
        screen.after(width, run.push(piece)) == screen.after(width, run).after_piece(width, piece),
{
    reveal(Screen::after);
    assert(run.push(piece).drop_last() == run);
}

/// No output does nothing.
pub proof fn after_none(screen: Screen, width: Width)
    ensures
        screen.after(width, Seq::<Output>::empty()) == screen,
{
    reveal(Screen::after);
}

/// The look after a rendition change, if the condition holds.
#[verifier::opaque]
spec fn look_if(look: Look, condition: bool, sgr: Sgr) -> Look {
    if condition {
        look.with(sgr)
    } else {
        look
    }
}

/// A run that changed only the look, followed by a rendition change if the
/// condition holds.
proof fn after_rendition_if(
    screen: Screen,
    width: Width,
    run: Seq<Output>,
    look: Look,
    condition: bool,
    sgr: Sgr,
) -> (next: Look)
    requires
        screen.after(width, run) == (Screen { look, ..screen }),
    ensures
        next == look_if(look, condition, sgr),
        screen.after(width, run + rendition_if(condition, sgr)) == (Screen {
            look: next,
            ..screen
        }),
{
    reveal(rendition_if);
    reveal(look_if);
    let here = screen.after(width, run);
    after_concat(screen, width, run, rendition_if(condition, sgr));
    if condition {
        after_one(here, width, rendition(sgr));
    } else {
        after_none(here, width);
    }
    look_if(look, condition, sgr)
}

/// Whether a change of modifiers comes out as asked. Bold and dim go off
/// together: where both are on and only one is to stay, it goes off too. The two
/// speeds of blinking are alike.
pub open spec fn separable(from: Modifier, to: Modifier) -> bool {
    &&& from.has(Modifier::BOLD) && from.has(Modifier::DIM) ==> to.has(Modifier::BOLD) == to.has(
        Modifier::DIM,
    )
    &&& from.has(Modifier::SLOW_BLINK) && from.has(Modifier::RAPID_BLINK) ==> to.has(
        Modifier::SLOW_BLINK,
    ) == to.has(Modifier::RAPID_BLINK)
}

/// A change of modifiers changes the modifiers of the look to those asked for, and
/// nothing else of the screen.
pub proof fn modifier_change_is_shown(screen: Screen, width: Width, diff: ModifierDiff)
    requires
        screen.look == screen.look.with_modifiers(diff.from),
        separable(diff.from, diff.to),
    ensures
        screen.after(width, diff.outputs()) == (Screen {
            look: screen.look.with_modifiers(diff.to),
            ..screen
        }),
{
    let bare = removals_are_shown(screen, width, diff);
    additions_are_shown(bare, width, diff);
    after_concat(screen, width, diff.removals(), diff.additions());
    modifiers_come_out(screen.look, diff);
}

/// What is left of the look's modifiers after the removals: those that were there
/// and that nothing switched off.
spec fn without_removed(look: Look, diff: ModifierDiff) -> Look {
    let plain_intensity = diff.loses(Modifier::BOLD) || diff.loses(Modifier::DIM);
    let plain_blink = diff.loses(Modifier::SLOW_BLINK) || diff.loses(Modifier::RAPID_BLINK);
    Look {
        bold: look.bold && !plain_intensity,
        dim: look.dim && !plain_intensity,
        italic: look.italic && !diff.loses(Modifier::ITALIC),
        slow_blink: look.slow_blink && !plain_blink,
        rapid_blink: look.rapid_blink && !plain_blink,
        reversed: look.reversed && !diff.loses(Modifier::REVERSED),
        hidden: look.hidden && !diff.loses(Modifier::HIDDEN),
        crossed_out: look.crossed_out && !diff.loses(Modifier::CROSSED_OUT),
        ..look
    }
}

/// The look's modifiers after the additions.
spec fn with_added(look: Look, diff: ModifierDiff) -> Look {
    Look {
        bold: look.bold || diff.gains(Modifier::BOLD),
        dim: look.dim || diff.gains(Modifier::DIM),
        italic: look.italic || diff.gains(Modifier::ITALIC),
        slow_blink: look.slow_blink || diff.gains(Modifier::SLOW_BLINK),
        rapid_blink: look.rapid_blink || diff.gains(Modifier::RAPID_BLINK),
        reversed: look.reversed || diff.gains(Modifier::REVERSED),
        hidden: look.hidden || diff.gains(Modifier::HIDDEN),
        crossed_out: look.crossed_out || diff.gains(Modifier::CROSSED_OUT),
        ..look
    }
}

/// Removals and additions lead to the modifiers asked for.
proof fn modifiers_come_out(look: Look, diff: ModifierDiff)
    requires
        look == look.with_modifiers(diff.from),
        separable(diff.from, diff.to),
    ensures
        with_added(without_removed(look, diff), diff) == look.with_modifiers(diff.to),
{
    modifiers_are_bits(diff.from);
    modifiers_are_bits(diff.to);
}

/// What the removals make of the look, one by one.
proof fn looks_of_removals(look: Look, diff: ModifierDiff)
    ensures
        ({
            let look1 = look_if(
                look,
                diff.loses(Modifier::REVERSED),
                Sgr::Switch(Switch::Reverse, false),
            );
            let look2 = look_if(
                look1,
                diff.loses(Modifier::BOLD) || diff.loses(Modifier::DIM),
                Sgr::Intensity(Intensity::Normal),
            );
            let look3 = look_if(
                look2,
                diff.loses(Modifier::ITALIC),
                Sgr::Switch(Switch::Italic, false),
            );
            let look4 = look_if(
                look3,
                diff.loses(Modifier::CROSSED_OUT),
                Sgr::Switch(Switch::StrikeThrough, false),
            );
            let look5 = look_if(
                look4,
                diff.loses(Modifier::HIDDEN),
                Sgr::Switch(Switch::Invisible, false),
            );
            let look6 = look_if(
                look5,
                diff.loses(Modifier::SLOW_BLINK) || diff.loses(Modifier::RAPID_BLINK),
                Sgr::Blink(Blink::Off),
            );
            look6 == without_removed(look, diff)
        }),
{
    reveal(look_if);
}

/// What the additions make of the look, one by one.
proof fn looks_of_additions(look: Look, diff: ModifierDiff)
    ensures
        ({
            let look1 = look_if(
                look,
                diff.gains(Modifier::REVERSED),
                Sgr::Switch(Switch::Reverse, true),
            );
            let look2 = look_if(
                look1,
                diff.gains(Modifier::BOLD),
                Sgr::Intensity(Intensity::Bold),
            );
            let look3 = look_if(look2, diff.gains(Modifier::DIM), Sgr::Intensity(Intensity::Dim));
            let look4 = look_if(
                look3,
                diff.gains(Modifier::ITALIC),
                Sgr::Switch(Switch::Italic, true),
            );
            let look5 = look_if(
                look4,
                diff.gains(Modifier::CROSSED_OUT),
                Sgr::Switch(Switch::StrikeThrough, true),
            );
            let look6 = look_if(
                look5,
                diff.gains(Modifier::HIDDEN),
                Sgr::Switch(Switch::Invisible, true),
            );
            let look7 = look_if(look6, diff.gains(Modifier::SLOW_BLINK), Sgr::Blink(Blink::Slow));
            let look8 = look_if(
                look7,
                diff.gains(Modifier::RAPID_BLINK),
                Sgr::Blink(Blink::Rapid),
            );
            look8 == with_added(look, diff)
        }),
{
    reveal(look_if);
}

/// What the removals make of the screen.
proof fn removals_are_shown(screen: Screen, width: Width, diff: ModifierDiff) -> (bare: Screen)
    ensures
        bare == screen.after(width, diff.removals()),
        bare == (Screen { look: without_removed(screen.look, diff), ..screen }),
{
    let nothing = Seq::<Output>::empty();
    after_none(screen, width);
    let c1 = diff.loses(Modifier::REVERSED);
    let s1 = Sgr::Switch(Switch::Reverse, false);
    let look1 = after_rendition_if(screen, width, nothing, screen.look, c1, s1);
    empty_run(rendition_if(c1, s1));
    let run1 = rendition_if(c1, s1);
    let c2 = diff.loses(Modifier::BOLD) || diff.loses(Modifier::DIM);
    let s2 = Sgr::Intensity(Intensity::Normal);
    let look2 = after_rendition_if(screen, width, run1, look1, c2, s2);
    let run2 = run1 + rendition_if(c2, s2);
    let c3 = diff.loses(Modifier::ITALIC);
    let s3 = Sgr::Switch(Switch::Italic, false);
    let look3 = after_rendition_if(screen, width, run2, look2, c3, s3);
    let run3 = run2 + rendition_if(c3, s3);
    let c4 = diff.loses(Modifier::CROSSED_OUT);
    let s4 = Sgr::Switch(Switch::StrikeThrough, false);
    let look4 = after_rendition_if(screen, width, run3, look3, c4, s4);
    let run4 = run3 + rendition_if(c4, s4);
    let c5 = diff.loses(Modifier::HIDDEN);
    let s5 = Sgr::Switch(Switch::Invisible, false);
    let look5 = after_rendition_if(screen, width, run4, look4, c5, s5);
    let run5 = run4 + rendition_if(c5, s5);
    let c6 = diff.loses(Modifier::SLOW_BLINK) || diff.loses(Modifier::RAPID_BLINK);
    let s6 = Sgr::Blink(Blink::Off);
    let look6 = after_rendition_if(screen, width, run5, look5, c6, s6);
    assert(look6 == without_removed(screen.look, diff)) by {
        looks_of_removals(screen.look, diff);
    }
    screen.after(width, diff.removals())
}

/// What the additions make of the screen.
proof fn additions_are_shown(screen: Screen, width: Width, diff: ModifierDiff)
    ensures
        screen.after(width, diff.additions()) == (Screen {
            look: with_added(screen.look, diff),
            ..screen
        }),
{
    let nothing = Seq::<Output>::empty();
    after_none(screen, width);
    let c1 = diff.gains(Modifier::REVERSED);
    let s1 = Sgr::Switch(Switch::Reverse, true);
    let look1 = after_rendition_if(screen, width, nothing, screen.look, c1, s1);
    empty_run(rendition_if(c1, s1));
    let run1 = rendition_if(c1, s1);
    let c2 = diff.gains(Modifier::BOLD);
    let s2 = Sgr::Intensity(Intensity::Bold);
    let look2 = after_rendition_if(screen, width, run1, look1, c2, s2);
    let run2 = run1 + rendition_if(c2, s2);
    let c3 = diff.gains(Modifier::DIM);
    let s3 = Sgr::Intensity(Intensity::Dim);
    let look3 = after_rendition_if(screen, width, run2, look2, c3, s3);
    let run3 = run2 + rendition_if(c3, s3);
    let c4 = diff.gains(Modifier::ITALIC);
    let s4 = Sgr::Switch(Switch::Italic, true);
    let look4 = after_rendition_if(screen, width, run3, look3, c4, s4);
    let run4 = run3 + rendition_if(c4, s4);
    let c5 = diff.gains(Modifier::CROSSED_OUT);
    let s5 = Sgr::Switch(Switch::StrikeThrough, true);
    let look5 = after_rendition_if(screen, width, run4, look4, c5, s5);
    let run5 = run4 + rendition_if(c5, s5);
    let c6 = diff.gains(Modifier::HIDDEN);
    let s6 = Sgr::Switch(Switch::Invisible, true);
    let look6 = after_rendition_if(screen, width, run5, look5, c6, s6);
    let run6 = run5 + rendition_if(c6, s6);
    let c7 = diff.gains(Modifier::SLOW_BLINK);
    let s7 = Sgr::Blink(Blink::Slow);
    let look7 = after_rendition_if(screen, width, run6, look6, c7, s7);
    let run7 = run6 + rendition_if(c7, s7);
    let c8 = diff.gains(Modifier::RAPID_BLINK);
    let s8 = Sgr::Blink(Blink::Rapid);
    let look8 = after_rendition_if(screen, width, run7, look7, c8, s8);
    assert(look8 == with_added(screen.look, diff)) by {
        looks_of_additions(screen.look, diff);
    }
}

/// Whether a look is the one that drawing keeps track of. Without extended
/// underlines only the presence of an underline is known.
pub open spec fn agrees(extended: bool, look: Look, pen: Pen) -> bool {
    &&& look.fg == pen.fg.spec_color()
    &&& look.bg == pen.bg.spec_color()
    &&& look == look.with_modifiers(pen.modifier)
    &&& if extended {
        &&& look.underline_color == pen.underline_color.spec_color()
        &&& look.underline == pen.underline_style.spec_underline()
    } else {
        &&& look.underline_color == ColorSpec::Reset
        &&& (look.underline == Underline::Off <==> pen.underline_style == UnderlineStyle::Reset)
    }
}

/// The look after the changes of style that a cell needs.
spec fn styled(extended: bool, look: Look, pen: Pen, cell: Cell) -> Look {
    let diff = ModifierDiff { from: pen.modifier, to: cell.modifier };
    let fg = Sgr::Color(ColorTarget::Foreground, cell.fg.spec_color());
    let bg = Sgr::Color(ColorTarget::Background, cell.bg.spec_color());
    let line_color = Sgr::Color(ColorTarget::Underline, cell.underline_color.spec_color());
    let line = Sgr::Underline(cell.underline_style.spec_underline());
    let look0 = with_added(without_removed(look, diff), diff);
    let look1 = look_if(look0, cell.fg != pen.fg, fg);
    let look2 = look_if(look1, cell.bg != pen.bg, bg);
    let recolor = extended && cell.underline_color != pen.underline_color;
    let look3 = look_if(look2, recolor, line_color);
    let restyle = tracked_underline(extended, cell.underline_style) != pen.underline_style;
    look_if(look3, restyle, line)
}

/// The changes of style that a cell needs change only the look.
proof fn style_changes_look(screen: Screen, width: Width, extended: bool, pen: Pen, cell: Cell)
    ensures
        screen.after(width, style_outputs(extended, pen, cell)) == (Screen {
            look: styled(extended, screen.look, pen, cell),
            ..screen
        }),
{
    let diff = ModifierDiff { from: pen.modifier, to: cell.modifier };
    let bare = removals_are_shown(screen, width, diff);
    additions_are_shown(bare, width, diff);
    after_concat(screen, width, diff.removals(), diff.additions());
    let run0 = diff.outputs();
    let look0 = with_added(without_removed(screen.look, diff), diff);
    let c1 = cell.fg != pen.fg;
    let s1 = Sgr::Color(ColorTarget::Foreground, cell.fg.spec_color());
    let look1 = after_rendition_if(screen, width, run0, look0, c1, s1);
    let run1 = run0 + rendition_if(c1, s1);
    let c2 = cell.bg != pen.bg;
    let s2 = Sgr::Color(ColorTarget::Background, cell.bg.spec_color());
    let look2 = after_rendition_if(screen, width, run1, look1, c2, s2);
    let run2 = run1 + rendition_if(c2, s2);
    let c3 = extended && cell.underline_color != pen.underline_color;
    let s3 = Sgr::Color(ColorTarget::Underline, cell.underline_color.spec_color());
    let look3 = after_rendition_if(screen, width, run2, look2, c3, s3);
    let run3 = run2 + rendition_if(c3, s3);
    let c4 = tracked_underline(extended, cell.underline_style) != pen.underline_style;
    let s4 = Sgr::Underline(cell.underline_style.spec_underline());
    let look4 = after_rendition_if(screen, width, run3, look3, c4, s4);
}

/// The changes of style that a cell needs bring the look into line with the cell,
/// and change nothing else of the screen.
pub proof fn style_is_shown(
    screen: Screen,
    width: Width,
    extended: bool,
    pen: Pen,
    cell: Cell,
) -> (look: Look)
    requires
        agrees(extended, screen.look, pen),
        separable(pen.modifier, cell.modifier),
    ensures
        screen.after(width, style_outputs(extended, pen, cell)) == (Screen { look, ..screen }),
        agrees(extended, look, Pen::after(extended, cell)),
{
    style_changes_look(screen, width, extended, pen, cell);
    styled_agrees(extended, screen.look, pen, cell);
    styled(extended, screen.look, pen, cell)
}

/// The changes of style that a cell needs bring a look into line with the cell.
proof fn styled_agrees(extended: bool, look: Look, pen: Pen, cell: Cell)
    requires
        agrees(extended, look, pen),
        separable(pen.modifier, cell.modifier),
    ensures
        agrees(extended, styled(extended, look, pen, cell), Pen::after(extended, cell)),
{
    modifiers_come_out(look, ModifierDiff { from: pen.modifier, to: cell.modifier });
    reveal(look_if);
}

/// Whether a symbol on the screen is what the cell at its place asked for. Without
/// extended underlines an underline is drawn in some style and in the text's colour.
pub open spec fn shown_as(extended: bool, print: Print, update: Update) -> bool {
    let asked = Look::of(*update.2);
    &&& print.x == update.0
    &&& print.y == update.1
    &&& print.symbol == update.2.symbol@
    &&& if extended {
        print.look == asked
    } else {
        &&& print.look == Look {
            underline: print.look.underline,
            underline_color: ColorSpec::Reset,
            ..asked
        }
        &&& (print.look.underline == Underline::Off <==> asked.underline == Underline::Off)
    }
}

/// Whether the cell at `i` can be shown as asked: a symbol is as wide as one column
/// where the cell to its right comes next, and modifiers change as [`separable`] says.
pub open spec fn showable_at(width: Width, content: Seq<Update>, i: int) -> bool {
    let before = before_at(content, i);
    &&& follows(before, content[i]) ==> width(content[i - 1].2.symbol@) == 1
    &&& separable(
        (match before {
            Some(b) => b.2.modifier,
            None => Modifier { bits: 0 },
        }),
        content[i].2.modifier,
    )
}

/// Whether every cell can be shown as asked.
pub open spec fn showable(width: Width, content: Seq<Update>) -> bool {
    forall|i: int| 0 <= i < content.len() ==> #[trigger] showable_at(width, content, i)
}

/// A cell's output prints its symbol at its place and in its style.
proof fn cell_is_shown(
    screen: Screen,
    width: Width,
    extended: bool,
    before: Option<Update>,
    update: Update,
) -> (print: Print)
    requires
        agrees(extended, screen.look, pen_before(extended, before)),
        separable(pen_before(extended, before).modifier, update.2.modifier),
        follows(before, update) ==> screen.x == update.0 && screen.y == update.1,
    ensures
        screen.after(width, cell_outputs(extended, before, update)) == (Screen {
            x: update.0 + width(update.2.symbol@),
            y: update.1 as int,
            look: print.look,
            prints: screen.prints.push(print),
            ..screen
        }),
        shown_as(extended, print, update),
        agrees(extended, print.look, Pen::after(extended, *update.2)),
{
    let step = Output::Escape(Escape::MoveTo { x: update.0, y: update.1 });
    let moves: Seq<Output> = if follows(before, update) {
        seq![]
    } else {
        seq![step]
    };
    if follows(before, update) {
        after_none(screen, width);
    } else {
        after_one(screen, width, step);
    }
    let there = screen.after(width, moves);
    let pen = pen_before(extended, before);
    let style = style_outputs(extended, pen, *update.2);
    let look = style_is_shown(there, width, extended, pen, *update.2);
    after_concat(screen, width, moves, style);
    let symbol = Output::Symbol(update.2.symbol@);
    after_concat(screen, width, moves + style, seq![symbol]);
    after_one(there.after(width, style), width, symbol);
    Print {
        x: there.x,
        y: there.y,
        symbol: update.2.symbol@,
        look,
        held: screen.modes.contains(DecMode::SynchronizedOutput),
    }
}

/// Cells that can be shown as asked can be so without the last.
proof fn showable_without_last(width: Width, content: Seq<Update>)
    requires
        showable(width, content),
        content.len() > 0,
    ensures
        showable(width, content.drop_last()),
{
    let shorter = content.drop_last();
    assert forall|i: int| 0 <= i < shorter.len() implies #[trigger] showable_at(width, shorter, i) by {
        assert(showable_at(width, content, i));
    }
}

/// Whether the symbols on the screen are what the cells asked for, one by one.
pub open spec fn all_shown_as(extended: bool, prints: Seq<Print>, content: Seq<Update>) -> bool {
    &&& prints.len() == content.len()
    &&& forall|i: int|
        #![trigger prints[i]]
        0 <= i < content.len() ==> shown_as(extended, prints[i], content[i])
}

/// Where a screen stands after the output for the cells.
#[verifier::opaque]
spec fn cells_shown(
    screen: Screen,
    end: Screen,
    width: Width,
    extended: bool,
    content: Seq<Update>,
    prints: Seq<Print>,
) -> bool {
    &&& all_shown_as(extended, prints, content)
    &&& end.prints == screen.prints + prints
    &&& end.modes == screen.modes
    &&& agrees(extended, end.look, pen_before(extended, before_at(content, content.len() as int)))
    &&& content.len() > 0 ==> {
        &&& end.x == content.last().0 + width(content.last().2.symbol@)
        &&& end.y == content.last().1
    }
}

/// One cell more is one symbol more.
proof fn one_more_is_shown(
    screen: Screen,
    here: Screen,
    width: Width,
    extended: bool,
    content: Seq<Update>,
    earlier: Seq<Print>,
    print: Print,
)
    requires
        content.len() > 0,
        cells_shown(screen, here, width, extended, content.drop_last(), earlier),
        shown_as(extended, print, content.last()),
        agrees(extended, print.look, Pen::after(extended, *content.last().2)),
    ensures
        cells_shown(
            screen,
            (Screen {
                x: content.last().0 + width(content.last().2.symbol@),
                y: content.last().1 as int,
                look: print.look,
                prints: here.prints.push(print),
                ..here
            }),
            width,
            extended,
            content,
            earlier.push(print),
        ),
{
    reveal(cells_shown);
    let prints = earlier.push(print);
    let shorter = content.drop_last();
    assert(screen.prints + prints == (screen.prints + earlier).push(print));
    assert forall|i: int| #![trigger prints[i]] 0 <= i < content.len() implies shown_as(
        extended,
        prints[i],
        content[i],
    ) by {
        if i < shorter.len() {
            assert(prints[i] == earlier[i]);
            assert(shorter[i] == content[i]);
        }
    }
}

/// No cells need no output.
proof fn no_cells_are_shown(screen: Screen, width: Width, extended: bool, content: Seq<Update>)
    requires
        screen.look == Look::plain(),
        content.len() == 0,
    ensures
        cells_shown(
            screen,
            screen.after(width, cells_outputs(extended, content)),
            width,
            extended,
            content,
            Seq::empty(),
        ),
{
    reveal(cells_shown);
    after_none(screen, width);
    no_modifiers();
    assert(screen.prints + Seq::<Print>::empty() == screen.prints);
}

/// The cells are printed one after the other, each at its place and in its style.
proof fn cells_are_shown(screen: Screen, width: Width, extended: bool, content: Seq<Update>) -> (prints:
    Seq<Print>)
    requires
        screen.look == Look::plain(),
        showable(width, content),
    ensures
        cells_shown(
            screen,
            screen.after(width, cells_outputs(extended, content)),
            width,
            extended,
            content,
            prints,
        ),
    decreases content.len(),
{
    if content.len() == 0 {
        no_cells_are_shown(screen, width, extended, content);
        Seq::empty()
    } else {
        let last = content.len() - 1;
        let shorter = content.drop_last();
        showable_without_last(width, content);
        let earlier = cells_are_shown(screen, width, extended, shorter);
        let here = screen.after(width, cells_outputs(extended, shorter));
        let print = last_cell_is_shown(screen, here, width, extended, content, earlier);
        one_more_is_shown(screen, here, width, extended, content, earlier, print);
        after_concat(
            screen,
            width,
            cells_outputs(extended, shorter),
            cell_outputs(extended, before_at(content, last), content[last]),
        );
        earlier.push(print)
    }
}

/// [`cell_is_shown`], for the last of some cells.
proof fn last_cell_is_shown(
    screen: Screen,
    here: Screen,
    width: Width,
    extended: bool,
    content: Seq<Update>,
    earlier: Seq<Print>,
) -> (print: Print)
    requires
        content.len() > 0,
        showable(width, content),
        cells_shown(screen, here, width, extended, content.drop_last(), earlier),
    ensures
        ({
            let last = content.len() - 1;
            here.after(width, cell_outputs(extended, before_at(content, last), content[last]))
                == (Screen {
                x: content.last().0 + width(content.last().2.symbol@),
                y: content.last().1 as int,
                look: print.look,
                prints: here.prints.push(print),
                ..here
            })
        }),
        shown_as(extended, print, content.last()),
        agrees(extended, print.look, Pen::after(extended, *content.last().2)),
{
    reveal(cells_shown);
    let last = content.len() - 1;
    let before = before_at(content, last);
    assert(before == before_at(content.drop_last(), last));
    assert(showable_at(width, content, last));
    cell_is_shown(here, width, extended, before, content[last])
}

/// The empty set has no modifier.
proof fn no_modifiers()
    ensures
        Look::plain() == Look::plain().with_modifiers(Modifier { bits: 0 }),
{
    assert(0u16 & 0x001 == 0 && 0u16 & 0x002 == 0 && 0u16 & 0x004 == 0 && 0u16 & 0x010 == 0 && 0u16
        & 0x020 == 0 && 0u16 & 0x040 == 0 && 0u16 & 0x080 == 0 && 0u16 & 0x100 == 0) by (bit_vector);
}

/// A cell's output switches no private mode.
proof fn cell_keeps_modes(
    screen: Screen,
    width: Width,
    extended: bool,
    before: Option<Update>,
    update: Update,
)
    ensures
        screen.after(width, cell_outputs(extended, before, update)).modes == screen.modes,
{
    let step = Output::Escape(Escape::MoveTo { x: update.0, y: update.1 });
    let moves: Seq<Output> = if follows(before, update) {
        seq![]
    } else {
        seq![step]
    };
    if follows(before, update) {
        after_none(screen, width);
    } else {
        after_one(screen, width, step);
    }
    let there = screen.after(width, moves);
    let pen = pen_before(extended, before);
    let style = style_outputs(extended, pen, *update.2);
    style_changes_look(there, width, extended, pen, *update.2);
    after_concat(screen, width, moves, style);
    let symbol = Output::Symbol(update.2.symbol@);
    after_concat(screen, width, moves + style, seq![symbol]);
    after_one(there.after(width, style), width, symbol);
}

/// The output for the cells switches no private mode.
proof fn cells_keep_modes(screen: Screen, width: Width, extended: bool, content: Seq<Update>)
    ensures
        screen.after(width, cells_outputs(extended, content)).modes == screen.modes,
    decreases content.len(),
{
    if content.len() == 0 {
        after_none(screen, width);
    } else {
        let last = content.len() - 1;
        let earlier = cells_outputs(extended, content.drop_last());
        let before = before_at(content, last);
        cells_keep_modes(screen, width, extended, content.drop_last());
        cell_keeps_modes(screen.after(width, earlier), width, extended, before, content[last]);
        after_concat(screen, width, earlier, cell_outputs(extended, before, content[last]));
    }
}

/// Whatever its cells, a frame leaves the terminal with the plain look, and with the
/// private modes that it found.
pub proof fn frame_leaves_look_plain(
    screen: Screen,
    width: Width,
    synchronized: bool,
    extended: bool,
    content: Seq<Update>,
)
    requires
        !screen.modes.contains(DecMode::SynchronizedOutput),
    ensures
        ({
            let end = screen.after(width, frame_outputs(synchronized, extended, content));
            &&& end.look == Look::plain()
            &&& end.modes == screen.modes
        }),
{
    let first = mode_if(synchronized, ModeChange::Enable, DecMode::SynchronizedOutput);
    let cells = cells_outputs(extended, content);
    let reset = seq![rendition(Sgr::Reset)];
    let end = mode_if(synchronized, ModeChange::Disable, DecMode::SynchronizedOutput);
    let on = Output::Escape(Escape::Mode(ModeChange::Enable, DecMode::SynchronizedOutput));
    let off = Output::Escape(Escape::Mode(ModeChange::Disable, DecMode::SynchronizedOutput));
    let started = screen.after(width, first);
    if synchronized {
        after_one(screen, width, on);
    } else {
        after_none(screen, width);
    }
    cells_keep_modes(started, width, extended, content);
    after_concat(screen, width, first, cells);
    after_concat(screen, width, first + cells, reset);
    after_one(started.after(width, cells), width, rendition(Sgr::Reset));
    after_concat(screen, width, first + cells + reset, end);
    let ended = screen.after(width, first + cells + reset);
    if synchronized {
        after_one(ended, width, off);
        assert(screen.modes.insert(DecMode::SynchronizedOutput).remove(DecMode::SynchronizedOutput)
            == screen.modes);
    } else {
        after_none(ended, width);
    }
}

/// A frame shows its cells: it prints the symbol of each at the cell's place and in
/// the cell's style, in the order of the cells. It leaves the terminal with the plain
/// look that it found it in, and with the same private modes.
pub proof fn frame_is_shown(
    screen: Screen,
    width: Width,
    synchronized: bool,
    extended: bool,
    content: Seq<Update>,
) -> (prints: Seq<Print>)
    requires
        screen.look == Look::plain(),
        !screen.modes.contains(DecMode::SynchronizedOutput),
        showable(width, content),
    ensures
        all_shown_as(extended, prints, content),
        ({
            let end = screen.after(width, frame_outputs(synchronized, extended, content));
            &&& end.prints == screen.prints + prints
            &&& end.look == Look::plain()
            &&& end.modes == screen.modes
        }),
{
    let first = mode_if(synchronized, ModeChange::Enable, DecMode::SynchronizedOutput);
    let cells = cells_outputs(extended, content);
    let reset = seq![rendition(Sgr::Reset)];
    let end = mode_if(synchronized, ModeChange::Disable, DecMode::SynchronizedOutput);
    let on = Output::Escape(Escape::Mode(ModeChange::Enable, DecMode::SynchronizedOutput));
    let off = Output::Escape(Escape::Mode(ModeChange::Disable, DecMode::SynchronizedOutput));
    let started = screen.after(width, first);
    if synchronized {
        after_one(screen, width, on);
    } else {
        after_none(screen, width);
    }
    let prints = cells_are_shown(started, width, extended, content);
    reveal(cells_shown);
    after_concat(screen, width, first, cells);
    after_concat(screen, width, first + cells, reset);
    after_one(started.after(width, cells), width, rendition(Sgr::Reset));
    after_concat(screen, width, first + cells + reset, end);
    let ended = screen.after(width, first + cells + reset);
    if synchronized {
        after_one(ended, width, off);
    } else {
        after_none(ended, width);
    }
    frame_leaves_look_plain(screen, width, synchronized, extended, content);
    prints
}

/// Whether a modifier of this bit is in the first set and not in the second.
pub open spec fn is_lost(from: u16, to: u16, bit: u16) -> bool {
    from & bit != 0 && to & bit == 0
}

/// What becomes of an attribute when a modifier's bit changes, or does not.
pub open spec fn turned(now: bool, from: u16, to: u16, bit: u16) -> bool {
    (now && !is_lost(from, to, bit)) || is_lost(to, from, bit)
}

/// What becomes of an attribute that goes off together with another.
pub open spec fn turned_with(now: bool, from: u16, to: u16, bit: u16, other: u16) -> bool {
    (now && !is_lost(from, to, bit) && !is_lost(from, to, other)) || is_lost(to, from, bit)
}

/// The look after a change from the modifiers with the bits `from` to those with the bits
/// `to`, whatever it was before: a modifier that comes is on, one that goes is off, and
/// where nothing comes or goes nothing changes. With bold goes dim, and with dim bold; so
/// it is with the two speeds of blinking.
pub open spec fn remodified(look: Look, from: u16, to: u16) -> Look {
    Look {
        bold: turned_with(look.bold, from, to, 0x001, 0x002),
        dim: turned_with(look.dim, from, to, 0x002, 0x001),
        italic: turned(look.italic, from, to, 0x004),
        slow_blink: turned_with(look.slow_blink, from, to, 0x010, 0x020),
        rapid_blink: turned_with(look.rapid_blink, from, to, 0x020, 0x010),
        reversed: turned(look.reversed, from, to, 0x040),
        hidden: turned(look.hidden, from, to, 0x080),
        crossed_out: turned(look.crossed_out, from, to, 0x100),
        ..look
    }
}

/// Any change of modifiers, on any screen, changes the look bit by bit and nothing else.
pub proof fn modifier_change_turns_bits(screen: Screen, width: Width, from: u16, to: u16)
    ensures
        screen.after(
            width,
            (ModifierDiff { from: Modifier { bits: from }, to: Modifier { bits: to } }).outputs(),
        ) == (Screen { look: remodified(screen.look, from, to), ..screen }),
{
    let diff = ModifierDiff { from: Modifier { bits: from }, to: Modifier { bits: to } };
    let bare = removals_are_shown(screen, width, diff);
    additions_are_shown(bare, width, diff);
    after_concat(screen, width, diff.removals(), diff.additions());
    bits_turn(screen.look, diff);
}

/// Removals and additions turn bits.
proof fn bits_turn(look: Look, diff: ModifierDiff)
    ensures
        with_added(without_removed(look, diff), diff) == remodified(
            look,
            diff.from.bits,
            diff.to.bits,
        ),
{
    modifiers_are_bits(diff.from);
    modifiers_are_bits(diff.to);
}

/// The look in which a cell is printed: that of the cell before it, or of the terminal,
/// with the modifiers and the colours that differ, and the underline where it differs.
/// Before the first cell the style is taken to be plain. Without extended underlines the
/// underline's colour is never sent, and an underline only where there was none.
pub open spec fn restyled(extended: bool, look: Look, before: Option<Update>, cell: Cell) -> Look {
    let (from, fg, bg, line_color, line) = match before {
        Some(b) => (
            b.2.modifier.bits,
            b.2.fg,
            b.2.bg,
            b.2.underline_color,
            b.2.underline_style,
        ),
        None => (0u16, Color::Reset, Color::Reset, Color::Reset, UnderlineStyle::Reset),
    };
    let same_line = if extended {
        cell.underline_style == line
    } else {
        (cell.underline_style is Reset) == (line is Reset)
    };
    Look {
        fg: if cell.fg == fg {
            look.fg
        } else {
            cell.fg.spec_color()
        },
        bg: if cell.bg == bg {
            look.bg
        } else {
            cell.bg.spec_color()
        },
        underline_color: if !extended || cell.underline_color == line_color {
            look.underline_color
        } else {
            cell.underline_color.spec_color()
        },
        underline: if same_line {
            look.underline
        } else {
            cell.underline_style.spec_underline()
        },
        ..remodified(look, from, cell.modifier.bits)
    }
}

/// The changes of style make the look what [`restyled`] says.
proof fn styles_are_restyled(extended: bool, look: Look, before: Option<Update>, cell: Cell)
    ensures
        styled(extended, look, pen_before(extended, before), cell) == restyled(
            extended,
            look,
            before,
            cell,
        ),
{
    let pen = pen_before(extended, before);
    bits_turn(look, ModifierDiff { from: pen.modifier, to: cell.modifier });
    reveal(look_if);
}

/// Whether the symbol at `i` was printed as the cells say: the symbol of the cell there, at
/// the cell's place or, where the cell stands to the right of the one before it, where the
/// cursor was left; and in the look that the cell's style makes of the look before.
pub open spec fn printed_at(
    screen: Screen,
    width: Width,
    extended: bool,
    content: Seq<Update>,
    prints: Seq<Print>,
    i: int,
) -> bool {
    let (x, y, cell) = content[i];
    let before = if i == 0 {
        None
    } else {
        Some(content[i - 1])
    };
    let look = if i == 0 {
        screen.look
    } else {
        prints[i - 1].look
    };
    &&& prints[i].symbol == cell.symbol@
    &&& prints[i].look == restyled(extended, look, before, *cell)
    &&& if i > 0 && x == content[i - 1].0 + 1 && y == content[i - 1].1 {
        &&& prints[i].x == prints[i - 1].x + width(prints[i - 1].symbol)
        &&& prints[i].y == prints[i - 1].y
    } else {
        &&& prints[i].x == x
        &&& prints[i].y == y
    }
}

/// Where a screen stands after the output for any cells.
#[verifier::opaque]
spec fn cells_printed(
    screen: Screen,
    end: Screen,
    width: Width,
    extended: bool,
    content: Seq<Update>,
    prints: Seq<Print>,
) -> bool {
    &&& prints.len() == content.len()
    &&& forall|i: int|
        0 <= i < content.len() ==> #[trigger] printed_at(
            screen,
            width,
            extended,
            content,
            prints,
            i,
        )
    &&& forall|i: int|
        0 <= i < content.len() ==> (#[trigger] prints[i]).held == screen.modes.contains(
            DecMode::SynchronizedOutput,
        )
    &&& end == Screen {
        x: end.x,
        y: end.y,
        look: end.look,
        prints: screen.prints + prints,
        ..screen
    }
    &&& if prints.len() == 0 {
        end == screen
    } else {
        &&& end.x == prints.last().x + width(prints.last().symbol)
        &&& end.y == prints.last().y
        &&& end.look == prints.last().look
    }
}

/// A cell's output prints its symbol.
proof fn cell_is_printed(
    screen: Screen,
    width: Width,
    extended: bool,
    before: Option<Update>,
    update: Update,
) -> (print: Print)
    ensures
        screen.after(width, cell_outputs(extended, before, update)) == (Screen {
            x: print.x + width(update.2.symbol@),
            y: print.y,
            look: print.look,
            prints: screen.prints.push(print),
            ..screen
        }),
        print == (Print {
            x: (if follows(before, update) {
                screen.x
            } else {
                update.0 as int
            }),
            y: (if follows(before, update) {
                screen.y
            } else {
                update.1 as int
            }),
            symbol: update.2.symbol@,
            look: restyled(extended, screen.look, before, *update.2),
            held: screen.modes.contains(DecMode::SynchronizedOutput),
        }),
{
    let step = Output::Escape(Escape::MoveTo { x: update.0, y: update.1 });
    let moves: Seq<Output> = if follows(before, update) {
        seq![]
    } else {
        seq![step]
    };
    if follows(before, update) {
        after_none(screen, width);
    } else {
        after_one(screen, width, step);
    }
    let there = screen.after(width, moves);
    let pen = pen_before(extended, before);
    let style = style_outputs(extended, pen, *update.2);
    style_changes_look(there, width, extended, pen, *update.2);
    styles_are_restyled(extended, there.look, before, *update.2);
    after_concat(screen, width, moves, style);
    let symbol = Output::Symbol(update.2.symbol@);
    after_concat(screen, width, moves + style, seq![symbol]);
    let ready = there.after(width, style);
    after_one(ready, width, symbol);
    Print {
        x: there.x,
        y: there.y,
        symbol: update.2.symbol@,
        look: ready.look,
        held: screen.modes.contains(DecMode::SynchronizedOutput),
    }
}

/// One cell more is one symbol more.
proof fn one_more_is_printed(
    screen: Screen,
    here: Screen,
    width: Width,
    extended: bool,
    content: Seq<Update>,
    earlier: Seq<Print>,
    print: Print,
    end: Screen,
)
    requires
        content.len() > 0,
        cells_printed(screen, here, width, extended, content.drop_last(), earlier),
        ({
            let last = content.len() - 1;
            let before = before_at(content, last);
            let follow = follows(before, content[last]);
            &&& print == (Print {
                x: (if follow {
                    here.x
                } else {
                    content[last].0 as int
                }),
                y: (if follow {
                    here.y
                } else {
                    content[last].1 as int
                }),
                symbol: content[last].2.symbol@,
                look: restyled(extended, here.look, before, *content[last].2),
                held: here.modes.contains(DecMode::SynchronizedOutput),
            })
            &&& end == (Screen {
                x: print.x + width(content[last].2.symbol@),
                y: print.y,
                look: print.look,
                prints: here.prints.push(print),
                ..here
            })
        }),
    ensures
        cells_printed(screen, end, width, extended, content, earlier.push(print)),
{
    reveal(cells_printed);
    let prints = earlier.push(print);
    let shorter = content.drop_last();
    let last = content.len() - 1;
    assert(screen.prints + prints == (screen.prints + earlier).push(print));
    assert forall|i: int| 0 <= i < content.len() implies #[trigger] printed_at(
        screen,
        width,
        extended,
        content,
        prints,
        i,
    ) by {
        if i < last {
            assert(printed_at(screen, width, extended, shorter, earlier, i));
            assert(prints[i] == earlier[i]);
            assert(shorter[i] == content[i]);
            if i > 0 {
                assert(prints[i - 1] == earlier[i - 1]);
                assert(shorter[i - 1] == content[i - 1]);
            }
        } else if last > 0 {
            assert(prints[i - 1] == earlier.last());
        }
    }
    assert forall|i: int| 0 <= i < content.len() implies (#[trigger] prints[i]).held
        == screen.modes.contains(DecMode::SynchronizedOutput) by {
        if i < last {
            assert(prints[i] == earlier[i]);
        }
    }
}

/// Any cells are printed one after the other.
proof fn cells_are_printed(screen: Screen, width: Width, extended: bool, content: Seq<Update>) -> (
prints: Seq<Print>)
    ensures
        cells_printed(
            screen,
            screen.after(width, cells_outputs(extended, content)),
            width,
            extended,
            content,
            prints,
        ),
    decreases content.len(),
{
    if content.len() == 0 {
        reveal(cells_printed);
        after_none(screen, width);
        assert(screen.prints + Seq::<Print>::empty() == screen.prints);
        Seq::empty()
    } else {
        let last = content.len() - 1;
        let shorter = content.drop_last();
        let before = before_at(content, last);
        let run = cells_outputs(extended, shorter);
        let next = cell_outputs(extended, before, content[last]);
        let earlier = cells_are_printed(screen, width, extended, shorter);
        let here = screen.after(width, run);
        let print = cell_is_printed(here, width, extended, before, content[last]);
        after_concat(screen, width, run, next);
        one_more_is_printed(
            screen,
            here,
            width,
            extended,
            content,
            earlier,
            print,
            here.after(width, next),
        );
        earlier.push(print)
    }
}

/// A frame of any cells, on any terminal that is not holding back its output, prints one
/// symbol for each cell, as [`printed_at`] says, and holds the output back meanwhile where
/// it can. Apart from the cursor's place and the look, which becomes plain, nothing else of
/// the terminal changes.
pub proof fn frame_prints_cells(
    screen: Screen,
    width: Width,
    synchronized: bool,
    extended: bool,
    content: Seq<Update>,
) -> (prints: Seq<Print>)
    requires
        !screen.modes.contains(DecMode::SynchronizedOutput),
    ensures
        prints.len() == content.len(),
        forall|i: int|
            0 <= i < content.len() ==> #[trigger] printed_at(
                screen,
                width,
                extended,
                content,
                prints,
                i,
            ),
        forall|i: int| 0 <= i < content.len() ==> (#[trigger] prints[i]).held == synchronized,
        ({
            let end = screen.after(width, frame_outputs(synchronized, extended, content));
            &&& end == (Screen {
                x: end.x,
                y: end.y,
                look: Look::plain(),
                prints: screen.prints + prints,
                ..screen
            })
            &&& if content.len() == 0 {
                end.x == screen.x && end.y == screen.y
            } else {
                &&& end.x == prints.last().x + width(prints.last().symbol)
                &&& end.y == prints.last().y
            }
        }),
{
    let first = mode_if(synchronized, ModeChange::Enable, DecMode::SynchronizedOutput);
    let cells = cells_outputs(extended, content);
    let reset = seq![rendition(Sgr::Reset)];
    let end = mode_if(synchronized, ModeChange::Disable, DecMode::SynchronizedOutput);
    let on = Output::Escape(Escape::Mode(ModeChange::Enable, DecMode::SynchronizedOutput));
    let off = Output::Escape(Escape::Mode(ModeChange::Disable, DecMode::SynchronizedOutput));
    let started = screen.after(width, first);
    if synchronized {
        after_one(screen, width, on);
    } else {
        after_none(screen, width);
    }
    let prints = cells_are_printed(started, width, extended, content);
    reveal(cells_printed);
    after_concat(screen, width, first, cells);
    after_concat(screen, width, first + cells, reset);
    after_one(started.after(width, cells), width, rendition(Sgr::Reset));
    after_concat(screen, width, first + cells + reset, end);
    let ended = screen.after(width, first + cells + reset);
    if synchronized {
        after_one(ended, width, off);
        assert(screen.modes.insert(DecMode::SynchronizedOutput).remove(DecMode::SynchronizedOutput)
            == screen.modes);
    } else {
        after_none(ended, width);
    }
    assert forall|i: int| 0 <= i < content.len() implies #[trigger] printed_at(
        screen,
        width,
        extended,
        content,
        prints,
        i,
    ) by {
        assert(printed_at(started, width, extended, content, prints, i));
    }
    prints
}

/// A cell in the style of the cell before it, to its right, needs only its symbol.
pub proof fn same_style_needs_symbol_alone(extended: bool, before: Update, update: Update)
    requires
        follows(Some(before), update),
        update.2.fg == before.2.fg,
        update.2.bg == before.2.bg,
        update.2.underline_color == before.2.underline_color,
        update.2.underline_style == before.2.underline_style,
        update.2.modifier == before.2.modifier,
    ensures
        cell_outputs(extended, Some(before), update) == seq![Output::Symbol(update.2.symbol@)],
{
    reveal(rendition_if);
    same_modifiers(update.2.modifier);
    assert(style_outputs(extended, pen_before(extended, Some(before)), *update.2).len() == 0);
}

} // verus!

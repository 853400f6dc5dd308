//! Drawing: the output that brings a run of cells onto the screen.

use vstd::prelude::*;

use crate::escape::{ColorTarget, DecMode, Escape, ModeChange, Sgr};
use crate::modifiers::{
    in_order, modifier_changes_are_in_order, order_goes_on, rendition, rendition_if,
    run_holds_one_more, write_if, ModifierDiff,
};
use crate::output::{concat_run, empty_run, text_of, Output, Transcript};
use crate::style::{Cell, Color, Modifier, UnderlineStyle};

verus! {

/// The style in which the terminal writes, as drawing keeps track of it.
#[derive(Debug, Clone, Copy, PartialEq, Eq, Structural)]
pub struct Pen {
    pub fg: Color,
    pub bg: Color,
    pub underline_color: Color,
    pub underline_style: UnderlineStyle,
    pub modifier: Modifier,
}

/// The underline style that drawing keeps track of. A terminal without extended
/// underlines is taken to know only one line.
pub open spec fn tracked_underline(extended: bool, style: UnderlineStyle) -> UnderlineStyle {
    if extended || style is Reset {
        style
    } else {
        UnderlineStyle::Line
    }
}

impl Pen {
    /// The style with which a frame starts.
    pub open spec fn fresh() -> Pen {
        Pen {
            fg: Color::Reset,
            bg: Color::Reset,
            underline_color: Color::Reset,
            underline_style: UnderlineStyle::Reset,
            modifier: Modifier { bits: 0 },
        }
    }

    /// The style after a cell has been drawn. Without extended underlines the
    /// underline's colour is never changed.
    pub open spec fn after(extended: bool, cell: Cell) -> Pen {
        Pen {
            fg: cell.fg,
            bg: cell.bg,
            underline_color: if extended {
                cell.underline_color
            } else {
                Color::Reset
            },
            underline_style: tracked_underline(extended, cell.underline_style),
            modifier: cell.modifier,
        }
    }
}

/// The changes of style that a cell needs: modifiers, colours and underline, each
/// only where it differs from what is in force.
pub open spec fn style_outputs(extended: bool, pen: Pen, cell: Cell) -> Seq<Output> {
    ModifierDiff { from: pen.modifier, to: cell.modifier }.outputs() + rendition_if(
        cell.fg != pen.fg,
        Sgr::Color(ColorTarget::Foreground, cell.fg.spec_color()),
    ) + rendition_if(
        cell.bg != pen.bg,
        Sgr::Color(ColorTarget::Background, cell.bg.spec_color()),
    ) + rendition_if(
        extended && cell.underline_color != pen.underline_color,
        Sgr::Color(ColorTarget::Underline, cell.underline_color.spec_color()),
    ) + rendition_if(
        tracked_underline(extended, cell.underline_style) != pen.underline_style,
        Sgr::Underline(cell.underline_style.spec_underline()),
    )
}

/// A cell at column `.0` of line `.1`.
pub type Update<'a> = (u16, u16, &'a Cell);

/// Whether a cell stands directly to the right of the cell before it, so that
/// the cursor is there already.
pub open spec fn follows(before: Option<Update>, update: Update) -> bool {
    before matches Some(b) && update.0 == b.0 + 1 && update.1 == b.1
}

/// The style in force when a cell is drawn.
pub open spec fn pen_before(extended: bool, before: Option<Update>) -> Pen {
    match before {
        Some(b) => Pen::after(extended, *b.2),
        None => Pen::fresh(),
    }
}

/// The output for a cell: the move to it, the style that it needs, its symbol.
pub open spec fn cell_outputs(extended: bool, before: Option<Update>, update: Update) -> Seq<Output> {
    (if follows(before, update) {
        seq![]
    } else {
        seq![Output::Escape(Escape::MoveTo { x: update.0, y: update.1 })]
    }) + style_outputs(extended, pen_before(extended, before), *update.2) + seq![
        Output::Symbol(update.2.symbol@),
    ]
}

/// The cell before the one at `i`.
pub open spec fn before_at(content: Seq<Update>, i: int) -> Option<Update> {
    if i == 0 {
        None
    } else {
        Some(content[i - 1])
    }
}

/// The output for the cells, one after the other.
pub open spec fn cells_outputs(extended: bool, content: Seq<Update>) -> Seq<Output>
    decreases content.len(),
{
    if content.len() == 0 {
        seq![]
    } else {
        let last = content.len() - 1;
        cells_outputs(extended, content.drop_last()) + cell_outputs(
            extended,
            before_at(content, last),
            content[last],
        )
    }
}

/// A private mode switched on or off, if the condition holds.
pub open spec fn mode_if(condition: bool, change: ModeChange, mode: DecMode) -> Seq<Output> {
    if condition {
        seq![Output::Escape(Escape::Mode(change, mode))]
    } else {
        seq![]
    }
}

/// The output for a frame: the cells, then a reset of the style. Where the
/// terminal can hold back its output, it does so from beginning to end.
pub open spec fn frame_outputs(synchronized: bool, extended: bool, content: Seq<Update>) -> Seq<Output> {
    mode_if(synchronized, ModeChange::Enable, DecMode::SynchronizedOutput) + cells_outputs(
        extended,
        content,
    ) + seq![rendition(Sgr::Reset)] + mode_if(
        synchronized,
        ModeChange::Disable,
        DecMode::SynchronizedOutput,
    )
}

/// Whether the cell at `i` can be drawn: where the cursor has to be moved to it the
/// terminal can number the place, and unless it is the last there is a column to its
/// right.
pub open spec fn drawable_at(content: Seq<Update>, i: int) -> bool {
    &&& i + 1 < content.len() ==> content[i].0 < u16::MAX
    &&& !follows(before_at(content, i), content[i]) ==> content[i].0 < u16::MAX && content[i].1
        < u16::MAX
}

/// Whether every cell can be drawn.
pub open spec fn drawable(content: Seq<Update>) -> bool {
    forall|i: int| 0 <= i < content.len() ==> #[trigger] drawable_at(content, i)
}

/// Whether the cell at `(x, y)` stands directly to the right of `last`.
fn is_next(last: Option<(u16, u16)>, x: u16, y: u16) -> (next: bool)
    requires
        last matches Some(p) ==> p.0 < u16::MAX,
    ensures
        next == (last matches Some(p) && x == p.0 + 1 && y == p.1),
{
    match last {
        Some(p) => x == p.0 + 1 && y == p.1,
        None => false,
    }
}

/// See [`drawable`].
pub fn is_drawable(content: &[Update]) -> (yes: bool)
    ensures
        yes == drawable(content@),
{
    let mut last: Option<(u16, u16)> = None;
    let mut i: usize = 0;
    while i < content.len()
        invariant
            i <= content.len(),
            last == (match before_at(content@, i as int) {
                Some(b) => Some((b.0, b.1)),
                None => None::<(u16, u16)>,
            }),
            forall|j: int| 0 <= j < i ==> #[trigger] drawable_at(content@, j),
        decreases content.len() - i,
    {
        let (x, y, _cell) = content[i];
        proof {
            if i > 0 {
                assert(drawable_at(content@, i - 1));
            }
        }
        let next = is_next(last, x, y);
        assert(next == follows(before_at(content@, i as int), content@[i as int]));
        if (i + 1 < content.len() && x == u16::MAX) || (!next && (x == u16::MAX || y == u16::MAX)) {
            assert(!drawable_at(content@, i as int));
            return false;
        }
        last = Some((x, y));
        i = i + 1;
    }
    true
}

/// The underline style that drawing keeps track of; see [`tracked_underline`].
fn track_underline(extended: bool, style: UnderlineStyle) -> (known: UnderlineStyle)
    ensures
        known == tracked_underline(extended, style),
{
    if extended {
        return style;
    }
    match style {
        UnderlineStyle::Reset => UnderlineStyle::Reset,
        _ => UnderlineStyle::Line,
    }
}

/// Adds the changes of style that a cell needs.
fn write_style(out: &mut Transcript, extended: bool, pen: Pen, cell: &Cell)
    requires
        old(out).well_formed(),
    ensures
        final(out).well_formed(),
        final(out)@ == old(out)@ + style_outputs(extended, pen, *cell),
{
    let ghost start = out@;
    let ghost mut run: Seq<Output> = ModifierDiff {
        from: pen.modifier,
        to: cell.modifier,
    }.outputs();
    if cell.modifier != pen.modifier {
        ModifierDiff { from: pen.modifier, to: cell.modifier }.write(out);
    } else {
        proof {
            same_modifiers(cell.modifier);
            assert(start + Seq::<Output>::empty() == start);
        }
    }
    let fg = Sgr::Color(ColorTarget::Foreground, cell.fg.to_color_spec());
    write_if(out, cell.fg != pen.fg, fg);
    proof {
        run = concat_run(start, run, rendition_if(cell.fg != pen.fg, fg));
    }
    let bg = Sgr::Color(ColorTarget::Background, cell.bg.to_color_spec());
    write_if(out, cell.bg != pen.bg, bg);
    proof {
        run = concat_run(start, run, rendition_if(cell.bg != pen.bg, bg));
    }
    let line_color = Sgr::Color(ColorTarget::Underline, cell.underline_color.to_color_spec());
    let recolor = extended && cell.underline_color != pen.underline_color;
    write_if(out, recolor, line_color);
    proof {
        run = concat_run(start, run, rendition_if(recolor, line_color));
    }
    let line = Sgr::Underline(cell.underline_style.to_underline());
    let restyle = track_underline(extended, cell.underline_style) != pen.underline_style;
    write_if(out, restyle, line);
    proof {
        run = concat_run(start, run, rendition_if(restyle, line));
    }
}

/// The style after a cell has been drawn; see [`Pen::after`].
fn pen_after(extended: bool, cell: &Cell) -> (pen: Pen)
    ensures
        pen == Pen::after(extended, *cell),
{
    Pen {
        fg: cell.fg,
        bg: cell.bg,
        underline_color: if extended {
            cell.underline_color
        } else {
            Color::Reset
        },
        underline_style: track_underline(extended, cell.underline_style),
        modifier: cell.modifier,
    }
}

/// Adds the output for the cells, one after the other.
fn write_cells(out: &mut Transcript, extended: bool, content: &[Update])
    requires
        old(out).well_formed(),
        drawable(content@),
    ensures
        final(out).well_formed(),
        final(out)@ == old(out)@ + cells_outputs(extended, content@),
{
    let ghost start = out@;
    let mut pen = Pen {
        fg: Color::Reset,
        bg: Color::Reset,
        underline_color: Color::Reset,
        underline_style: UnderlineStyle::Reset,
        modifier: Modifier::empty(),
    };
    let mut last: Option<(u16, u16)> = None;
    let mut i: usize = 0;
    proof {
        assert(content@.take(0).len() == 0);
        assert(start + Seq::<Output>::empty() == start);
    }
    while i < content.len()
        invariant
            i <= content.len(),
            out.well_formed(),
            drawable(content@),
            out@ == start + cells_outputs(extended, content@.take(i as int)),
            pen == pen_before(extended, before_at(content@, i as int)),
            last == (match before_at(content@, i as int) {
                Some(b) => Some((b.0, b.1)),
                None => None::<(u16, u16)>,
            }),
        decreases content.len() - i,
    {
        let ghost drawn = cells_outputs(extended, content@.take(i as int));
        let ghost before = before_at(content@, i as int);
        let (x, y, cell) = content[i];
        proof {
            assert(content@[i as int] == (x, y, cell));
            assert(drawable_at(content@, i as int));
            if i > 0 {
                assert(drawable_at(content@, i - 1));
            }
        }
        let next = is_next(last, x, y);
        let ghost here = out@;
        let ghost mut run: Seq<Output> = seq![];
        // Move the cursor if the cell before was not (x - 1, y).
        if !next {
            out.escape(Escape::MoveTo { x, y });
            proof {
                run = run.push(Output::Escape(Escape::MoveTo { x, y }));
            }
        }
        assert(out@ == here + run);
        write_style(out, extended, pen, cell);
        proof {
            run = concat_run(here, run, style_outputs(extended, pen, *cell));
        }
        out.symbol(&cell.symbol);
        proof {
            let symbol = seq![Output::Symbol(cell.symbol@)];
            assert((here + run).push(Output::Symbol(cell.symbol@)) == here + run + symbol);
            run = concat_run(here, run, symbol);
            assert(run == cell_outputs(extended, before, content@[i as int]));
            let longer = content@.take(i + 1);
            assert(longer.drop_last() == content@.take(i as int));
            assert(before_at(longer, i as int) == before);
            concat_run(start, drawn, run);
        }
        pen = pen_after(extended, cell);
        last = Some((x, y));
        i = i + 1;
    }
    proof {
        assert(content@.take(i as int) == content@);
    }
}

/// The text of a frame.
pub fn frame_text(synchronized: bool, extended: bool, content: &[Update]) -> (text: String)
    requires
        drawable(content@),
    ensures
        text@ == text_of(frame_outputs(synchronized, extended, content@)),
{
    let mut out = Transcript::new();
    let ghost nothing = Seq::<Output>::empty();
    let ghost mut run = mode_if(synchronized, ModeChange::Enable, DecMode::SynchronizedOutput);
    if synchronized {
        out.escape(Escape::Mode(ModeChange::Enable, DecMode::SynchronizedOutput));
    }
    assert(out@ == nothing + run);
    write_cells(&mut out, extended, content);
    proof {
        run = concat_run(nothing, run, cells_outputs(extended, content@));
    }
    out.escape(Escape::Sgr(Sgr::Reset));
    proof {
        let reset = seq![rendition(Sgr::Reset)];
        assert((nothing + run).push(rendition(Sgr::Reset)) == nothing + run + reset);
        run = concat_run(nothing, run, reset);
    }
    let ghost end = mode_if(synchronized, ModeChange::Disable, DecMode::SynchronizedOutput);
    let ghost before_end = out@;
    if synchronized {
        out.escape(Escape::Mode(ModeChange::Disable, DecMode::SynchronizedOutput));
    }
    proof {
        assert(out@ == before_end + end);
        run = concat_run(nothing, run, end);
        empty_run(run);
        assert(run == frame_outputs(synchronized, extended, content@));
    }
    out.into_text()
}

/// Modifiers that stay the same need no output.
pub proof fn same_modifiers(modifier: Modifier)
    ensures
        (ModifierDiff { from: modifier, to: modifier }).outputs() == Seq::<Output>::empty(),
{
    reveal(rendition_if);
    let diff = ModifierDiff { from: modifier, to: modifier };
    assert(diff.removals().len() == 0);
    assert(diff.additions().len() == 0);
    assert(diff.outputs() == Seq::<Output>::empty());
}

/// Whether the cell at `i` lies where a cell can be drawn: on a line and in a column that
/// the terminal can number, or, as the last cell, in the column directly to the right of
/// those.
pub open spec fn within_reach(content: Seq<Update>, i: int) -> bool {
    &&& content[i].1 < u16::MAX
    &&& content[i].0 == u16::MAX ==> {
        &&& 0 < i == content.len() - 1
        &&& content[i - 1].0 == u16::MAX - 1
        &&& content[i - 1].1 == content[i].1
    }
}

/// Cells can be drawn when they lie where cells can be drawn, and only then.
pub proof fn cells_within_reach_are_drawable(content: Seq<Update>)
    ensures
        drawable(content) <==> forall|i: int|
            0 <= i < content.len() ==> #[trigger] within_reach(content, i),
{
    if drawable(content) {
        assert forall|i: int| 0 <= i < content.len() implies #[trigger] within_reach(content, i) by {
            drawable_is_within_reach(content, i);
        }
    }
    if forall|i: int| 0 <= i < content.len() ==> #[trigger] within_reach(content, i) {
        assert forall|i: int| 0 <= i < content.len() implies #[trigger] drawable_at(content, i) by {
            assert(within_reach(content, i));
        }
    }
}

/// A cell that can be drawn after the cells before it lies where cells can be drawn.
proof fn drawable_is_within_reach(content: Seq<Update>, i: int)
    requires
        drawable(content),
        0 <= i < content.len(),
    ensures
        within_reach(content, i),
    decreases i,
{
    assert(drawable_at(content, i));
    if i > 0 {
        drawable_is_within_reach(content, i - 1);
        assert(drawable_at(content, i - 1));
    }
}

/// The changes of style that a cell needs are rendition changes alone, each at most once:
/// modifiers, foreground, background, the underline's colour, the underline.
pub proof fn style_changes_are_in_order(extended: bool, pen: Pen, cell: Cell)
    ensures
        in_order(style_outputs(extended, pen, cell), 18),
{
    let diff = ModifierDiff { from: pen.modifier, to: cell.modifier };
    modifier_changes_are_in_order(diff);
    let fg = Sgr::Color(ColorTarget::Foreground, cell.fg.spec_color());
    let bg = Sgr::Color(ColorTarget::Background, cell.bg.spec_color());
    let line_color = Sgr::Color(ColorTarget::Underline, cell.underline_color.spec_color());
    let line = Sgr::Underline(cell.underline_style.spec_underline());
    let recolor = extended && cell.underline_color != pen.underline_color;
    let restyle = tracked_underline(extended, cell.underline_style) != pen.underline_style;
    let run0 = diff.outputs();
    let run1 = run0 + rendition_if(cell.fg != pen.fg, fg);
    let run2 = run1 + rendition_if(cell.bg != pen.bg, bg);
    let run3 = run2 + rendition_if(recolor, line_color);
    order_goes_on(run0, cell.fg != pen.fg, fg);
    order_goes_on(run1, cell.bg != pen.bg, bg);
    order_goes_on(run2, recolor, line_color);
    order_goes_on(run3, restyle, line);
}

/// The changes of style that a cell needs are those of its modifiers; its foreground where
/// that is another than the one in force; so its background; so, with extended underlines,
/// the colour of its underline; and its underline where that is another than the one in
/// force, by its style with extended underlines and by its presence without. There is no
/// other change.
pub proof fn style_changes_are_sent(extended: bool, pen: Pen, cell: Cell, piece: Output)
    requires
        !extended ==> pen.underline_style is Reset || pen.underline_style is Line,
    ensures
        style_outputs(extended, pen, cell).contains(piece) <==> {
            ||| (ModifierDiff { from: pen.modifier, to: cell.modifier }).outputs().contains(piece)
            ||| cell.fg != pen.fg && piece == Output::Escape(
                Escape::Sgr(Sgr::Color(ColorTarget::Foreground, cell.fg.spec_color())),
            )
            ||| cell.bg != pen.bg && piece == Output::Escape(
                Escape::Sgr(Sgr::Color(ColorTarget::Background, cell.bg.spec_color())),
            )
            ||| extended && cell.underline_color != pen.underline_color && piece == Output::Escape(
                Escape::Sgr(Sgr::Color(ColorTarget::Underline, cell.underline_color.spec_color())),
            )
            ||| (if extended {
                cell.underline_style != pen.underline_style
            } else {
                (cell.underline_style is Reset) != (pen.underline_style is Reset)
            }) && piece == Output::Escape(
                Escape::Sgr(Sgr::Underline(cell.underline_style.spec_underline())),
            )
        },
{
    let fg = Sgr::Color(ColorTarget::Foreground, cell.fg.spec_color());
    let bg = Sgr::Color(ColorTarget::Background, cell.bg.spec_color());
    let line_color = Sgr::Color(ColorTarget::Underline, cell.underline_color.spec_color());
    let line = Sgr::Underline(cell.underline_style.spec_underline());
    let recolor = extended && cell.underline_color != pen.underline_color;
    let restyle = tracked_underline(extended, cell.underline_style) != pen.underline_style;
    let run0 = ModifierDiff { from: pen.modifier, to: cell.modifier }.outputs();
    let run1 = run0 + rendition_if(cell.fg != pen.fg, fg);
    let run2 = run1 + rendition_if(cell.bg != pen.bg, bg);
    let run3 = run2 + rendition_if(recolor, line_color);
    run_holds_one_more(run0, cell.fg != pen.fg, fg, piece);
    run_holds_one_more(run1, cell.bg != pen.bg, bg, piece);
    run_holds_one_more(run2, recolor, line_color, piece);
    run_holds_one_more(run3, restyle, line, piece);
}

/// The output for a cell is a move to the cell, unless it stands directly to the right of
/// the one before it; then changes of style, in order; and last its symbol.
pub proof fn cells_are_moved_to_styled_and_printed(
    extended: bool,
    before: Option<Update>,
    update: Update,
)
    ensures
        ({
            let out = cell_outputs(extended, before, update);
            let at_hand = match before {
                Some(b) => update.0 == b.0 + 1 && update.1 == b.1,
                None => false,
            };
            let moves: int = if at_hand {
                0
            } else {
                1
            };
            &&& out.len() > moves
            &&& at_hand || out[0] == Output::Escape(Escape::MoveTo { x: update.0, y: update.1 })
            &&& in_order(out.subrange(moves, out.len() - 1), 18)
            &&& out.last() == Output::Symbol(update.2.symbol@)
        }),
{
    let style = style_outputs(extended, pen_before(extended, before), *update.2);
    style_changes_are_in_order(extended, pen_before(extended, before), *update.2);
    let out = cell_outputs(extended, before, update);
    let moves: int = if follows(before, update) {
        0
    } else {
        1
    };
    assert(out.subrange(moves, out.len() - 1) == style);
}

/// No cells need no output, and one cell more adds its own output, which goes by the cell
/// before it, to that of the cells before it.
pub proof fn cells_are_drawn_one_by_one(extended: bool, content: Seq<Update>, update: Update)
    ensures
        cells_outputs(extended, Seq::empty()).len() == 0,
        cells_outputs(extended, content.push(update)) == cells_outputs(extended, content)
            + cell_outputs(
            extended,
            (if content.len() == 0 {
                None
            } else {
                Some(content.last())
            }),
            update,
        ),
{
    assert(content.push(update).drop_last() == content);
}

/// A frame is the output for its cells and a reset of the style; where the terminal can hold
/// back its output, between the commands to do so and to stop.
pub proof fn frames_are_framed(synchronized: bool, extended: bool, content: Seq<Update>)
    ensures
        ({
            let out = frame_outputs(synchronized, extended, content);
            let cells = cells_outputs(extended, content);
            let on = Escape::Mode(ModeChange::Enable, DecMode::SynchronizedOutput);
            let off = Escape::Mode(ModeChange::Disable, DecMode::SynchronizedOutput);
            if synchronized {
                &&& out.len() == cells.len() + 3
                &&& out[0] == Output::Escape(on)
                &&& out.subrange(1, out.len() - 2) == cells
                &&& out[out.len() - 2] == Output::Escape(Escape::Sgr(Sgr::Reset))
                &&& out.last() == Output::Escape(off)
            } else {
                &&& out.len() == cells.len() + 1
                &&& out.drop_last() == cells
                &&& out.last() == Output::Escape(Escape::Sgr(Sgr::Reset))
            }
        }),
{
    let out = frame_outputs(synchronized, extended, content);
    let cells = cells_outputs(extended, content);
    if synchronized {
        assert(out.subrange(1, out.len() - 2) == cells);
    } else {
        assert(out.drop_last() == cells);
    }
}

} // verus!

//! The terminal with what stands between it and the backend: the mode of its input, and
//! the buffer of its output. What every step, and every plan made of steps, does to it.

use vstd::prelude::*;

use crate::backend::{
    claim_steps, enter_outputs, extension_steps, hide_cursor_outputs, keyboard_outputs,
    leave_outputs, mode, mouse_outputs, mouse_steps, query_outputs, reconfigure_steps,
    restore_steps, set_cursor_outputs, show_cursor_outputs, Claim, Config,
};
use crate::escape::{DecMode, Escape, Keyboard, ModeChange};
use crate::frame::{frame_outputs, Update};
use crate::output::Output;
use crate::plan::{write_and_flush_steps, write_steps, written, Step};
use crate::report::{Capabilities, Report};
use crate::screen::{after_concat, after_none, after_one, after_push, Question, Screen, Shape, Width};
use crate::session::{
    claim_takes_the_screen, claimed, claimed_modes, extended, extensions_push_flags, last_config,
    mouse_is_switched, mouse_modes, operation_steps, restore_undoes_claim, unclaimed,
    written_by_writing, Operation,
};
use crate::style::{CursorKind, CursorStyle};

verus! {

/// A terminal device. Its input is raw, key by key, or as it was when it was opened. What
/// is written to it is shown at the latest when it is flushed.
pub struct Terminal {
    pub raw: bool,
    /// The screen after all that was written.
    pub written: Screen,
    /// The screen after all that was flushed.
    pub shown: Screen,
}

impl Terminal {
    /// The terminal after one step.
    pub open spec fn after_step(self, width: Width, step: Step) -> Terminal {
        match step {
            Step::EnterRawMode => Terminal { raw: true, ..self },
            Step::ResetMode => Terminal { raw: false, ..self },
            Step::Write(pieces) => Terminal { written: self.written.after(width, pieces), ..self },
            Step::Flush => Terminal { shown: self.written, ..self },
        }
    }

    /// The terminal after some steps.
    pub open spec fn after_steps(self, width: Width, steps: Seq<Step>) -> Terminal
        decreases steps.len(),
    {
        if steps.len() == 0 {
            self
        } else {
            self.after_steps(width, steps.drop_last()).after_step(width, steps.last())
        }
    }
}

/// Whether a step leaves the input of the terminal as it is.
pub open spec fn keeps_input(step: Step) -> bool {
    !(step is EnterRawMode) && !(step is ResetMode)
}

/// Whether some steps leave the input of the terminal as it is.
pub open spec fn all_keep_input(steps: Seq<Step>) -> bool {
    forall|i: int| 0 <= i < steps.len() ==> keeps_input(#[trigger] steps[i])
}

/// What the steps write is written, and only a change of its mode changes the input.
pub proof fn steps_write(terminal: Terminal, width: Width, steps: Seq<Step>)
    ensures
        terminal.after_steps(width, steps).written == terminal.written.after(width, written(steps)),
        all_keep_input(steps) ==> terminal.after_steps(width, steps).raw == terminal.raw,
    decreases steps.len(),
{
    if steps.len() == 0 {
        after_none(terminal.written, width);
    } else {
        let earlier = steps.drop_last();
        steps_write(terminal, width, earlier);
        if all_keep_input(steps) {
            assert forall|i: int| 0 <= i < earlier.len() implies keeps_input(
                #[trigger] earlier[i],
            ) by {
                assert(earlier[i] == steps[i]);
            }
            assert(keeps_input(steps[steps.len() - 1]));
        }
        if let Step::Write(pieces) = steps.last() {
            after_concat(terminal.written, width, written(earlier), pieces);
        }
    }
}

/// A last step does what it does after the steps before it.
proof fn last_step(terminal: Terminal, width: Width, steps: Seq<Step>, step: Step)
    ensures
        terminal.after_steps(width, steps.push(step)) == terminal.after_steps(
            width,
            steps,
        ).after_step(width, step),
{
    assert(steps.push(step).drop_last() == steps);
}

/// Writing is not shown; writing and flushing is.
proof fn writing(terminal: Terminal, width: Width, pieces: Seq<Output>)
    ensures
        terminal.after_steps(width, write_steps(pieces)) == (Terminal {
            written: terminal.written.after(width, pieces),
            ..terminal
        }),
        terminal.after_steps(width, write_and_flush_steps(pieces)) == (Terminal {
            written: terminal.written.after(width, pieces),
            shown: terminal.written.after(width, pieces),
            ..terminal
        }),
        all_keep_input(write_steps(pieces)),
        all_keep_input(write_and_flush_steps(pieces)),
{
    let nothing = Seq::<Step>::empty();
    assert(terminal.after_steps(width, nothing) == terminal);
    last_step(terminal, width, nothing, Step::Write(pieces));
    assert(nothing.push(Step::Write(pieces)) == write_steps(pieces));
    last_step(terminal, width, write_steps(pieces), Step::Flush);
    assert(write_steps(pieces).push(Step::Flush) == write_and_flush_steps(pieces));
}

/// Steps after steps.
proof fn steps_concat(terminal: Terminal, width: Width, first: Seq<Step>, second: Seq<Step>)
    ensures
        terminal.after_steps(width, first + second) == terminal.after_steps(
            width,
            first,
        ).after_steps(width, second),
    decreases second.len(),
{
    if second.len() == 0 {
        assert(first + second == first);
    } else {
        steps_concat(terminal, width, first, second.drop_last());
        assert((first + second).drop_last() == first + second.drop_last());
    }
}

/// A claim begins by entering raw mode and does not leave it: whatever the terminal was
/// like before, its input is raw after the claim. What is to be answered has been sent: the
/// first questions, and the question for the keyboard flags. Where there is nothing to be
/// answered the claim is shown with the next flush.
pub proof fn claim_enters_raw_mode(
    terminal: Terminal,
    width: Width,
    config: Config,
    capabilities: Option<Capabilities>,
)
    ensures
        claim_steps(config, capabilities).len() > 0,
        claim_steps(config, capabilities)[0] is EnterRawMode,
        all_keep_input(claim_steps(config, capabilities).skip(1)),
        ({
            let screen = claimed(terminal.written, config, capabilities);
            let answered = match capabilities {
                Some(known) => known.kitty_keyboard,
                None => true,
            };
            terminal.after_steps(width, claim_steps(config, capabilities)) == (Terminal {
                raw: true,
                written: screen,
                shown: (if answered {
                    screen
                } else {
                    terminal.shown
                }),
            })
        }),
{
    let steps = claim_steps(config, capabilities);
    let rest = match capabilities {
        Some(known) => extension_steps(known),
        None => write_and_flush_steps(query_outputs()),
    };
    let mouse = mouse_steps(config, ModeChange::Enable);
    let raw = seq![Step::EnterRawMode];
    let enter = write_steps(enter_outputs());
    assert(steps[0] is EnterRawMode);
    assert(steps.skip(1) == enter + mouse + rest);
    assert forall|i: int| 0 <= i < steps.skip(1).len() implies keeps_input(
        #[trigger] steps.skip(1)[i],
    ) by {}
    let nothing = Seq::<Step>::empty();
    assert(terminal.after_steps(width, nothing) == terminal);
    last_step(terminal, width, nothing, Step::EnterRawMode);
    assert(nothing.push(Step::EnterRawMode) == raw);
    let t1 = terminal.after_steps(width, raw);
    steps_concat(terminal, width, raw, enter);
    writing(t1, width, enter_outputs());
    let t2 = t1.after_steps(width, enter);
    steps_concat(terminal, width, raw + enter, mouse);
    writing(t2, width, mouse_outputs(ModeChange::Enable));
    let t3 = t2.after_steps(width, mouse);
    assert(t3.raw && t3.shown == terminal.shown);
    steps_concat(terminal, width, raw + enter + mouse, rest);
    assert(raw + enter + mouse + rest == steps);
    writing(t3, width, query_outputs());
    writing(t3, width, keyboard_outputs());
    steps_write(terminal, width, steps);
    claim_takes_the_screen(terminal.written, width, config, capabilities);
}

/// Giving the terminal back ends by leaving raw mode, when all that was written is sent:
/// whatever the terminal was like before, its input is as it was when it was opened.
pub proof fn restore_leaves_raw_mode(
    terminal: Terminal,
    width: Width,
    config: Config,
    reset_cursor: Seq<char>,
)
    ensures
        restore_steps(config, reset_cursor).len() > 1,
        restore_steps(config, reset_cursor).last() is ResetMode,
        restore_steps(config, reset_cursor).drop_last().last() is Flush,
        all_keep_input(restore_steps(config, reset_cursor).drop_last()),
        ({
            let end = terminal.after_steps(width, restore_steps(config, reset_cursor));
            &&& !end.raw
            &&& end.shown == end.written
            &&& end.written == terminal.written.after(
                width,
                written(restore_steps(config, reset_cursor)),
            )
        }),
{
    let steps = restore_steps(config, reset_cursor);
    let mouse = mouse_steps(config, ModeChange::Disable);
    let leave = write_and_flush_steps(leave_outputs(reset_cursor));
    assert(steps.drop_last() == mouse + leave);
    assert(steps.last() is ResetMode);
    assert((mouse + leave).last() is Flush);
    assert forall|i: int| 0 <= i < steps.drop_last().len() implies keeps_input(
        #[trigger] steps.drop_last()[i],
    ) by {}
    steps_concat(terminal, width, mouse, leave);
    writing(terminal.after_steps(width, mouse), width, leave_outputs(reset_cursor));
    last_step(terminal, width, mouse + leave, Step::ResetMode);
    assert((mouse + leave).push(Step::ResetMode) == steps);
    steps_write(terminal, width, steps);
}

/// A terminal that was claimed is given back with the modes that it had before, the cursor
/// in the shape that the given command makes it, no keyboard flags left, and its input as it
/// was; all of that is sent.
pub proof fn restore_gives_the_terminal_back(
    terminal: Terminal,
    width: Width,
    others: Set<DecMode>,
    config: Config,
    reset_cursor: Seq<char>,
)
    requires
        unclaimed(others),
        terminal.written.modes == others.union(claimed_modes(config)),
    ensures
        ({
            let screen = Screen {
                modes: others,
                shape: Shape::Command(reset_cursor),
                keyboard: Seq::empty(),
                ..terminal.written
            };
            terminal.after_steps(width, restore_steps(config, reset_cursor)) == (Terminal {
                raw: false,
                written: screen,
                shown: screen,
            })
        }),
{
    restore_leaves_raw_mode(terminal, width, config, reset_cursor);
    restore_undoes_claim(terminal.written, width, others, config, reset_cursor);
}

/// A change of the settings that does not newly ask for the mouse performs no step. One that
/// does switches the modes of the mouse on, to be shown with the next flush, and does
/// nothing else.
pub proof fn reconfigure_touches_the_mouse_alone(
    terminal: Terminal,
    width: Width,
    before: Config,
    after: Config,
)
    ensures
        before.enable_mouse_capture || !after.enable_mouse_capture ==> reconfigure_steps(
            before,
            after,
        ).len() == 0,
        all_keep_input(reconfigure_steps(before, after)),
        !before.enable_mouse_capture && after.enable_mouse_capture ==> terminal.after_steps(
            width,
            reconfigure_steps(before, after),
        ) == (Terminal {
            written: (Screen {
                modes: terminal.written.modes.union(mouse_modes()),
                ..terminal.written
            }),
            ..terminal
        }),
{
    if !before.enable_mouse_capture && after.enable_mouse_capture {
        let pieces = mouse_outputs(ModeChange::Enable);
        writing(terminal, width, pieces);
        mouse_is_switched(terminal.written, width, after, ModeChange::Enable);
        written_by_writing(pieces);
    }
}

/// The steps of a claim, of a restoration and of a change of the settings go by the capture
/// of the mouse, and by what is known of the keyboard protocol; no other setting and no
/// other capability plays a part in them.
pub proof fn steps_go_by_mouse_and_keyboard(
    one: Config,
    other: Config,
    known: Capabilities,
    also: Capabilities,
    after: Config,
    reset_cursor: Seq<char>,
)
    requires
        one.enable_mouse_capture == other.enable_mouse_capture,
        known.kitty_keyboard == also.kitty_keyboard,
    ensures
        claim_steps(one, None) == claim_steps(other, None),
        claim_steps(one, Some(known)) == claim_steps(other, Some(also)),
        restore_steps(one, reset_cursor) == restore_steps(other, reset_cursor),
        reconfigure_steps(one, after) == reconfigure_steps(other, after),
        reconfigure_steps(after, one) == reconfigure_steps(after, other),
        extension_steps(known) == extension_steps(also),
{
}

/// The terminal after an operation.
pub open spec fn operation_result(
    terminal: Terminal,
    width: Width,
    config: Config,
    known: Capabilities,
    operation: Operation,
) -> Terminal {
    terminal.after_steps(width, operation_steps(config, known, operation))
}

/// The terminal with a screen that is shown.
pub open spec fn showing(terminal: Terminal, screen: Screen) -> Terminal {
    Terminal { written: screen, shown: screen, ..terminal }
}

/// The commands for the cursor and the screen do what they are named for, at once, and
/// nothing else: the cursor is hidden, is seen in a steady shape of the kind asked for, is
/// asked for, is moved to a column and a line; the screen is cleared. A flush shows what was
/// written.
pub proof fn commands_do_what_they_say(
    terminal: Terminal,
    width: Width,
    config: Config,
    known: Capabilities,
    kind: CursorKind,
    x: u16,
    y: u16,
)
    requires
        !(kind is Hidden),
    ensures
        ({
            let screen = terminal.written;
            let style = match kind {
                CursorKind::Block => CursorStyle::SteadyBlock,
                CursorKind::Bar => CursorStyle::SteadyBar,
                _ => CursorStyle::SteadyUnderline,
            };
            &&& operation_result(terminal, width, config, known, Operation::HideCursor) == showing(
                terminal,
                Screen { modes: screen.modes.remove(DecMode::ShowCursor), ..screen },
            )
            &&& operation_result(terminal, width, config, known, Operation::ShowCursor(kind))
                == showing(
                terminal,
                Screen {
                    modes: screen.modes.insert(DecMode::ShowCursor),
                    shape: Shape::Style(style),
                    ..screen
                },
            )
            &&& operation_result(terminal, width, config, known, Operation::AskCursor) == showing(
                terminal,
                Screen {
                    asked: screen.asked.push(
                        Question::CursorPosition { x: screen.x, y: screen.y },
                    ),
                    ..screen
                },
            )
            &&& operation_result(terminal, width, config, known, Operation::SetCursor(x, y))
                == showing(terminal, Screen { x: x as int, y: y as int, ..screen })
            &&& operation_result(terminal, width, config, known, Operation::Clear) == showing(
                terminal,
                Screen { prints: Seq::empty(), ..screen },
            )
            &&& operation_result(terminal, width, config, known, Operation::Flush) == showing(
                terminal,
                screen,
            )
        }),
{
    let screen = terminal.written;
    let hide = mode(ModeChange::Disable, DecMode::ShowCursor);
    writing(terminal, width, hide_cursor_outputs());
    after_one(screen, width, hide);
    assert(seq![hide] == hide_cursor_outputs());
    let p1 = show_cursor_outputs(kind)[0];
    let p2 = show_cursor_outputs(kind)[1];
    writing(terminal, width, show_cursor_outputs(kind));
    after_one(screen, width, p1);
    after_push(screen, width, seq![p1], p2);
    assert(seq![p1].push(p2) == show_cursor_outputs(kind));
    let ask = Output::Escape(Escape::RequestCursorPosition);
    writing(terminal, width, seq![ask]);
    after_one(screen, width, ask);
    let step = Output::Escape(Escape::MoveTo { x, y });
    writing(terminal, width, set_cursor_outputs(x, y));
    after_one(screen, width, step);
    assert(seq![step] == set_cursor_outputs(x, y));
    let erase = Output::Escape(Escape::EraseDisplay);
    writing(terminal, width, seq![erase]);
    after_one(screen, width, erase);
    let nothing = Seq::<Step>::empty();
    assert(terminal.after_steps(width, nothing) == terminal);
    last_step(terminal, width, nothing, Step::Flush);
    assert(nothing.push(Step::Flush) == seq![Step::Flush]);
}

/// A frame is written, and shown with the next flush; nothing is done but to write it.
pub proof fn frames_are_shown_with_the_next_flush(
    terminal: Terminal,
    width: Width,
    config: Config,
    known: Capabilities,
    content: Seq<Update>,
)
    ensures
        operation_result(terminal, width, config, known, Operation::Draw(content)) == (Terminal {
            written: terminal.written.after(
                width,
                frame_outputs(known.synchronized_output, known.extended_underlines, content),
            ),
            ..terminal
        }),
        operation_steps(config, known, Operation::Draw(content)).len() == 1,
{
    writing(
        terminal,
        width,
        frame_outputs(known.synchronized_output, known.extended_underlines, content),
    );
}

/// Switching the extensions on pushes the keyboard flags and asks for them at once, where
/// the terminal knows the protocol; elsewhere it performs no step.
pub proof fn extensions_are_asked_for(
    terminal: Terminal,
    width: Width,
    config: Config,
    known: Capabilities,
)
    ensures
        operation_result(terminal, width, config, known, Operation::Extend) == (
        if known.kitty_keyboard {
            showing(terminal, extended(terminal.written, known))
        } else {
            terminal
        }),
        !known.kitty_keyboard ==> extension_steps(known).len() == 0,
{
    extensions_push_flags(terminal.written, width, known);
    writing(terminal, width, keyboard_outputs());
    written_by_writing(keyboard_outputs());
}

/// A terminal that has switched on the keyboard flags that were pushed keeps them; one that
/// reports other flags has as many flags pushed afterwards as before the extensions were
/// switched on. No other report calls for any step.
pub proof fn other_flags_are_taken_back(
    terminal: Terminal,
    width: Width,
    known: Capabilities,
    flags: u8,
    detected: Capabilities,
    report: Report,
)
    requires
        known.kitty_keyboard,
    ensures
        ({
            let pushed = terminal.after_steps(width, extension_steps(known));
            let answered = pushed.after_steps(
                width,
                Claim::Flags.report_steps(Report::KeyboardFlags(flags)),
            );
            if flags == 5 {
                answered == pushed && pushed.written.keyboard == terminal.written.keyboard.push(5)
            } else {
                answered == showing(
                    pushed,
                    Screen { keyboard: terminal.written.keyboard, ..pushed.written },
                )
            }
        }),
        Claim::Flags.report_steps(Report::KeyboardFlags(5)).len() == 0,
        Claim::Reports(detected).report_steps(report).len() == 0,
{
    let any = Config { enable_mouse_capture: false, force_enable_extended_underlines: false };
    extensions_are_asked_for(terminal, width, any, known);
    let pushed = terminal.after_steps(width, extension_steps(known));
    let pop = Output::Escape(Escape::Keyboard(Keyboard::PopFlags(1)));
    writing(pushed, width, seq![pop]);
    after_one(pushed.written, width, pop);
    assert(terminal.written.keyboard.push(5).take(terminal.written.keyboard.len() as int)
        == terminal.written.keyboard);
}

/// No operation of a claimed terminal enters raw mode or leaves it.
pub proof fn operations_keep_raw_mode(
    terminal: Terminal,
    width: Width,
    config: Config,
    known: Capabilities,
    operation: Operation,
)
    ensures
        all_keep_input(operation_steps(config, known, operation)),
        operation_result(terminal, width, config, known, operation).raw == terminal.raw,
        operation_result(terminal, width, config, known, operation).written
            == terminal.written.after(width, written(operation_steps(config, known, operation))),
{
    let steps = operation_steps(config, known, operation);
    assert forall|i: int| 0 <= i < steps.len() implies keeps_input(#[trigger] steps[i]) by {}
    steps_write(terminal, width, steps);
}

/// The terminal after some operations.
pub open spec fn operations_result(
    terminal: Terminal,
    width: Width,
    config: Config,
    known: Capabilities,
    operations: Seq<Operation>,
) -> Terminal
    decreases operations.len(),
{
    if operations.len() == 0 {
        terminal
    } else {
        let earlier = operations.drop_last();
        operation_result(
            operations_result(terminal, width, config, known, earlier),
            width,
            last_config(config, earlier),
            known,
            operations.last(),
        )
    }
}

/// The input of a terminal is raw from the claim until it is given back, whatever is done
/// with it in between, and is after that what it was before the claim. Then all that was
/// written is sent.
pub proof fn session_is_raw_until_its_end(
    terminal: Terminal,
    width: Width,
    config: Config,
    capabilities: Option<Capabilities>,
    known: Capabilities,
    operations: Seq<Operation>,
    reset_cursor: Seq<char>,
)
    ensures
        ({
            let start = terminal.after_steps(width, claim_steps(config, capabilities));
            let end = operations_result(start, width, config, known, operations);
            let back = end.after_steps(
                width,
                restore_steps(last_config(config, operations), reset_cursor),
            );
            &&& start.raw
            &&& end.raw
            &&& !back.raw
            &&& back.shown == back.written
        }),
    decreases operations.len(),
{
    let start = terminal.after_steps(width, claim_steps(config, capabilities));
    claim_enters_raw_mode(terminal, width, config, capabilities);
    let end = operations_result(start, width, config, known, operations);
    if operations.len() > 0 {
        let earlier = operations.drop_last();
        session_is_raw_until_its_end(
            terminal,
            width,
            config,
            capabilities,
            known,
            earlier,
            reset_cursor,
        );
        operations_keep_raw_mode(
            operations_result(start, width, config, known, earlier),
            width,
            last_config(config, earlier),
            known,
            operations.last(),
        );
    }
    restore_leaves_raw_mode(end, width, last_config(config, operations), reset_cursor);
}

} // verus!

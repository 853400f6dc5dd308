//! What holds from the claim of the terminal until it is given back.

use vstd::prelude::*;

use crate::backend::{
    claim_steps, enter_outputs, extension_steps, hide_cursor_outputs, keyboard_outputs,
    leave_outputs, mode, mouse_outputs, mouse_steps, position_of, query_outputs, reconfigure_steps,
    restore_steps, set_cursor_outputs, show_cursor_outputs, Claim, Config,
};
use crate::escape::{ColorTarget, DecMode, Escape, Keyboard, ModeChange, Sgr};
use crate::frame::{frame_outputs, Update};
use crate::output::Output;
use crate::plan::{write_and_flush_steps, write_steps, written, written_concat, Step};
use crate::report::{spec_test_color, Capabilities, Report};
use crate::screen::{
    after_concat, after_none, after_one, after_push, all_shown_as, frame_is_shown,
    frame_leaves_look_plain, showable, Look, Print, Question, Screen, Shape, Width,
};
use crate::style::{ColorSpec, CursorKind, CursorStyle};

verus! {

impl Claim {
    /// How far the claim is after some reports.
    pub open spec fn after_reports(self, reports: Seq<Report>) -> Claim
        decreases reports.len(),
    {
        if reports.len() == 0 {
            self
        } else {
            self.after_reports(reports.drop_last()).after_report(reports.last())
        }
    }
}

/// While the terminal has not reported its device attributes the claim waits for more
/// reports; when it has, the answers are complete, and show what the reports before
/// have shown.
pub proof fn device_attributes_end_the_answers(reports: Seq<Report>)
    requires
        forall|i: int| 0 <= i < reports.len() ==> !(#[trigger] reports[i] is DeviceAttributes),
    ensures
        Claim::Reports(Capabilities::none()).after_reports(reports) == Claim::Reports(
            Capabilities::shown_by(reports),
        ),
        Claim::Reports(Capabilities::none()).after_reports(reports.push(Report::DeviceAttributes))
            == Claim::Environment(Capabilities::shown_by(reports)),
    decreases reports.len(),
{
    assert(reports.push(Report::DeviceAttributes).drop_last() == reports);
    if reports.len() > 0 {
        let shorter = reports.drop_last();
        assert forall|i: int| 0 <= i < shorter.len() implies !(
        #[trigger] shorter[i] is DeviceAttributes) by {
            assert(reports[i] == shorter[i]);
        }
        device_attributes_end_the_answers(shorter);
        assert(reports[reports.len() - 1] == reports.last());
    }
}

/// The modes of the mouse.
pub open spec fn mouse_modes() -> Set<DecMode> {
    set![
        DecMode::MouseTracking,
        DecMode::ButtonEventMouse,
        DecMode::AnyEventMouse,
        DecMode::RxvtMouse,
        DecMode::SgrMouse,
    ]
}

/// The modes of the screen.
pub open spec fn screen_modes() -> Set<DecMode> {
    set![
        DecMode::ClearAndEnableAlternateScreen,
        DecMode::BracketedPaste,
        DecMode::FocusTracking,
    ]
}

/// The modes that are on while the terminal is claimed under these settings.
pub open spec fn claimed_modes(config: Config) -> Set<DecMode> {
    if config.enable_mouse_capture {
        screen_modes().union(mouse_modes())
    } else {
        screen_modes()
    }
}

/// Whether none of the modes is on that a claim switches on.
pub open spec fn unclaimed(modes: Set<DecMode>) -> bool {
    modes.disjoint(screen_modes().union(mouse_modes()))
}

/// What is written by writing.
pub(crate) proof fn written_by_writing(pieces: Seq<Output>)
    ensures
        written(write_steps(pieces)) == pieces,
        written(write_and_flush_steps(pieces)) == pieces,
{
    reveal_with_fuel(written, 3);
    let steps = write_steps(pieces);
    assert(steps.drop_last() == Seq::<Step>::empty());
    assert(written(Seq::<Step>::empty()) + pieces == pieces);
    assert(write_and_flush_steps(pieces).drop_last() == steps);
    assert(write_and_flush_steps(pieces).last() is Flush);
}

/// A step that writes nothing, and no step at all, write nothing.
proof fn written_by_nothing(step: Step)
    requires
        !(step is Write),
    ensures
        written(seq![step]) == Seq::<Output>::empty(),
        written(Seq::<Step>::empty()) == Seq::<Output>::empty(),
{
    reveal_with_fuel(written, 2);
    assert(seq![step].drop_last() == Seq::<Step>::empty());
    assert(seq![step].last() == step);
}

/// What the steps for the mouse do to the screen.
pub(crate) proof fn mouse_is_switched(screen: Screen, width: Width, config: Config, change: ModeChange)
    requires
        !(change is Query),
    ensures
        screen.after(width, written(mouse_steps(config, change))) == (Screen {
            modes: (if !config.enable_mouse_capture {
                screen.modes
            } else if change is Enable {
                screen.modes.union(mouse_modes())
            } else {
                screen.modes.difference(mouse_modes())
            }),
            ..screen
        }),
{
    if config.enable_mouse_capture {
        written_by_writing(mouse_outputs(change));
        let p1 = mode(change, DecMode::MouseTracking);
        let p2 = mode(change, DecMode::ButtonEventMouse);
        let p3 = mode(change, DecMode::AnyEventMouse);
        let p4 = mode(change, DecMode::RxvtMouse);
        let p5 = mode(change, DecMode::SgrMouse);
        after_one(screen, width, p1);
        after_push(screen, width, seq![p1], p2);
        after_push(screen, width, seq![p1].push(p2), p3);
        after_push(screen, width, seq![p1].push(p2).push(p3), p4);
        after_push(screen, width, seq![p1].push(p2).push(p3).push(p4), p5);
        assert(seq![p1].push(p2).push(p3).push(p4).push(p5) == mouse_outputs(change));
        let end = screen.after(width, mouse_outputs(change));
        if change is Enable {
            assert(end.modes == screen.modes.union(mouse_modes()));
        } else {
            assert(end.modes == screen.modes.difference(mouse_modes()));
        }
    } else {
        written_by_nothing(Step::Flush);
        after_none(screen, width);
    }
}

/// The keyboard flags that are pushed when the alternate screen has been entered: none,
/// unless the terminal showed it already.
pub open spec fn flags_on_entry(screen: Screen) -> Seq<u8> {
    if screen.modes.contains(DecMode::ClearAndEnableAlternateScreen) {
        screen.keyboard
    } else {
        seq![]
    }
}

/// What taking the screen over does to it.
proof fn screen_is_entered(screen: Screen, width: Width)
    ensures
        screen.after(width, enter_outputs()) == (Screen {
            modes: screen.modes.union(screen_modes()),
            prints: Seq::empty(),
            keyboard: flags_on_entry(screen),
            ..screen
        }),
{
    let p1 = mode(ModeChange::Enable, DecMode::ClearAndEnableAlternateScreen);
    let p2 = mode(ModeChange::Enable, DecMode::BracketedPaste);
    let p3 = mode(ModeChange::Enable, DecMode::FocusTracking);
    let p4 = Output::Escape(Escape::EraseDisplay);
    after_one(screen, width, p1);
    after_push(screen, width, seq![p1], p2);
    after_push(screen, width, seq![p1].push(p2), p3);
    after_push(screen, width, seq![p1].push(p2).push(p3), p4);
    assert(seq![p1].push(p2).push(p3).push(p4) == enter_outputs());
    assert(screen.after(width, enter_outputs()).modes == screen.modes.union(screen_modes()));
}

/// What giving the screen back does to it.
proof fn screen_is_left(screen: Screen, width: Width, reset_cursor: Seq<char>)
    ensures
        screen.after(width, leave_outputs(reset_cursor)) == (Screen {
            modes: screen.modes.difference(screen_modes()),
            shape: Shape::Command(reset_cursor),
            keyboard: Seq::empty(),
            ..screen
        }),
{
    let p1 = Output::Command(reset_cursor);
    let p2 = mode(ModeChange::Disable, DecMode::BracketedPaste);
    let p3 = mode(ModeChange::Disable, DecMode::FocusTracking);
    let p4 = mode(ModeChange::Disable, DecMode::ClearAndEnableAlternateScreen);
    after_one(screen, width, p1);
    after_push(screen, width, seq![p1], p2);
    after_push(screen, width, seq![p1].push(p2), p3);
    after_push(screen, width, seq![p1].push(p2).push(p3), p4);
    assert(seq![p1].push(p2).push(p3).push(p4) == leave_outputs(reset_cursor));
    assert(screen.after(width, leave_outputs(reset_cursor)).modes == screen.modes.difference(
        screen_modes(),
    ));
}

/// What a terminal is asked that writes in this look: its keyboard flags, whether it can
/// hold back its output, its rendition while it writes on, and underlines in, a colour of
/// 59 parts red, 34 green and 76 blue, and last its device attributes.
pub open spec fn first_questions(look: Look) -> Seq<Question> {
    let color = ColorSpec::TrueColor { red: 59, green: 34, blue: 76, alpha: 255 };
    seq![
        Question::KeyboardFlags,
        Question::PrivateMode(DecMode::SynchronizedOutput),
        Question::GraphicRendition(Look { bg: color, underline_color: color, ..look }),
        Question::DeviceAttributes,
    ]
}

/// Asking what the terminal can do asks the first questions, leaves the terminal with the
/// plain look, and changes nothing else of the screen.
pub proof fn queries_leave_the_look_plain(screen: Screen, width: Width)
    ensures
        screen.after(width, query_outputs()) == (Screen {
            look: Look::plain(),
            asked: screen.asked + first_questions(screen.look),
            ..screen
        }),
{
    let p1 = Output::Escape(Escape::Keyboard(Keyboard::QueryFlags));
    let p2 = mode(ModeChange::Query, DecMode::SynchronizedOutput);
    let p3 = Output::Escape(
        Escape::Sgr(Sgr::Color(ColorTarget::Background, spec_test_color())),
    );
    let p4 = Output::Escape(Escape::Sgr(Sgr::Color(ColorTarget::Underline, spec_test_color())));
    let p5 = Output::Escape(Escape::RequestGraphicRendition);
    let p6 = Output::Escape(Escape::Sgr(Sgr::Reset));
    let p7 = Output::Escape(Escape::RequestDeviceAttributes);
    let r2 = seq![p1].push(p2);
    let r4 = r2.push(p3).push(p4);
    let r6 = r4.push(p5).push(p6);
    after_one(screen, width, p1);
    after_push(screen, width, seq![p1], p2);
    after_push(screen, width, r2, p3);
    after_push(screen, width, r2.push(p3), p4);
    after_push(screen, width, r4, p5);
    after_push(screen, width, r4.push(p5), p6);
    after_push(screen, width, r6, p7);
    assert(r6.push(p7) == query_outputs());
    let end = screen.after(width, query_outputs());
    assert(end.asked == screen.asked + first_questions(screen.look));
}

/// The screen once the extensions are switched on: where the terminal knows the keyboard
/// protocol, with unambiguous escape codes and alternate keys pushed, and asked which flags
/// are on.
pub open spec fn extended(screen: Screen, capabilities: Capabilities) -> Screen {
    if capabilities.kitty_keyboard {
        Screen { keyboard: screen.keyboard.push(5), ..screen }.ask(Question::KeyboardFlags)
    } else {
        screen
    }
}

/// Switching the extensions on pushes the keyboard flags and asks for them, where the
/// terminal knows the protocol, and changes nothing else of the screen.
pub proof fn extensions_push_flags(screen: Screen, width: Width, capabilities: Capabilities)
    ensures
        screen.after(width, written(extension_steps(capabilities))) == extended(
            screen,
            capabilities,
        ),
{
    if capabilities.kitty_keyboard {
        written_by_writing(keyboard_outputs());
        let p1 = keyboard_outputs()[0];
        let p2 = keyboard_outputs()[1];
        after_one(screen, width, p1);
        after_push(screen, width, seq![p1], p2);
        assert(seq![p1].push(p2) == keyboard_outputs());
    } else {
        written_by_nothing(Step::Flush);
        after_none(screen, width);
    }
}

/// Switching the extensions on changes nothing of what is seen.
proof fn extensions_change_nothing(screen: Screen, width: Width, capabilities: Capabilities)
    ensures
        ({
            let end = screen.after(width, written(extension_steps(capabilities)));
            &&& end == (Screen { keyboard: end.keyboard, asked: end.asked, ..screen })
            &&& !capabilities.kitty_keyboard ==> end == screen
        }),
{
    extensions_push_flags(screen, width, capabilities);
}

/// The screen of a terminal that has been claimed: cleared, with the modes of the claim on,
/// and either asked what the terminal can do or, where that is known, extended.
pub open spec fn claimed(
    screen: Screen,
    config: Config,
    capabilities: Option<Capabilities>,
) -> Screen {
    let taken = Screen {
        modes: screen.modes.union(claimed_modes(config)),
        prints: seq![],
        keyboard: flags_on_entry(screen),
        ..screen
    };
    match capabilities {
        Some(known) => extended(taken, known),
        None => Screen {
            look: Look::plain(),
            asked: screen.asked + first_questions(screen.look),
            ..taken
        },
    }
}

/// A claim clears the screen, switches on the modes of the claim and leaves the others
/// as they were. A terminal of which nothing is known is asked the first questions, and has
/// the plain look after that; one of which it is known what it can do has its extensions
/// switched on.
pub proof fn claim_takes_the_screen(
    screen: Screen,
    width: Width,
    config: Config,
    capabilities: Option<Capabilities>,
)
    ensures
        screen.after(width, written(claim_steps(config, capabilities))) == claimed(
            screen,
            config,
            capabilities,
        ),
{
    let raw = seq![Step::EnterRawMode];
    let enter = write_steps(enter_outputs());
    let mouse = mouse_steps(config, ModeChange::Enable);
    let rest = match capabilities {
        Some(known) => extension_steps(known),
        None => write_and_flush_steps(query_outputs()),
    };
    written_by_nothing(Step::EnterRawMode);
    written_by_writing(enter_outputs());
    written_concat(raw, enter);
    written_concat(raw + enter, mouse);
    written_concat(raw + enter + mouse, rest);
    let nothing = Seq::<Output>::empty();
    after_none(screen, width);
    after_concat(screen, width, nothing, written(enter));
    after_concat(screen, width, nothing + written(enter), written(mouse));
    after_concat(screen, width, nothing + written(enter) + written(mouse), written(rest));
    screen_is_entered(screen, width);
    let entered = screen.after(width, enter_outputs());
    mouse_is_switched(entered, width, config, ModeChange::Enable);
    let caught = entered.after(width, written(mouse));
    assert(caught.modes == screen.modes.union(claimed_modes(config)));
    match capabilities {
        Some(known) => extensions_push_flags(caught, width, known),
        None => {
            written_by_writing(query_outputs());
            queries_leave_the_look_plain(caught, width);
        },
    }
}

/// A change of the settings brings the modes into line with the new settings, unless
/// it ends the capture of the mouse.
pub proof fn reconfigure_keeps_modes_in_line(
    screen: Screen,
    width: Width,
    others: Set<DecMode>,
    before: Config,
    after: Config,
)
    requires
        unclaimed(others),
        screen.modes == others.union(claimed_modes(before)),
        before.enable_mouse_capture ==> after.enable_mouse_capture,
    ensures
        screen.after(width, written(reconfigure_steps(before, after))) == (Screen {
            modes: others.union(claimed_modes(after)),
            ..screen
        }),
{
    if before.enable_mouse_capture == after.enable_mouse_capture {
        written_by_nothing(Step::Flush);
        after_none(screen, width);
    } else {
        mouse_is_switched(screen, width, after, ModeChange::Enable);
        assert(screen.modes.union(mouse_modes()) == others.union(claimed_modes(after)));
    }
}

/// Giving the terminal back switches off the modes that claiming it has switched on,
/// and no others. The cursor gets the shape that the given command makes it, and no
/// keyboard flags are left.
pub proof fn restore_undoes_claim(
    screen: Screen,
    width: Width,
    others: Set<DecMode>,
    config: Config,
    reset_cursor: Seq<char>,
)
    requires
        unclaimed(others),
        screen.modes == others.union(claimed_modes(config)),
    ensures
        screen.after(width, written(restore_steps(config, reset_cursor))) == (Screen {
            modes: others,
            shape: Shape::Command(reset_cursor),
            keyboard: Seq::empty(),
            ..screen
        }),
{
    let mouse = mouse_steps(config, ModeChange::Disable);
    let leave = write_and_flush_steps(leave_outputs(reset_cursor));
    let reset = seq![Step::ResetMode];
    written_by_writing(leave_outputs(reset_cursor));
    written_by_nothing(Step::ResetMode);
    written_concat(mouse, leave);
    written_concat(mouse + leave, reset);
    assert(written(mouse) + written(leave) + Seq::<Output>::empty() == written(mouse) + written(leave));
    after_concat(screen, width, written(mouse), written(leave));
    mouse_is_switched(screen, width, config, ModeChange::Disable);
    let freed = screen.after(width, written(mouse));
    screen_is_left(freed, width, reset_cursor);
    assert(freed.modes.difference(screen_modes()) == others);
}

/// Something that is done with a terminal that is claimed.
pub enum Operation<'a> {
    /// The extensions are switched on.
    Extend,
    /// A report is taken while the claim is at some point.
    Report(Claim, Report),
    Reconfigure(Config),
    Draw(Seq<Update<'a>>),
    HideCursor,
    ShowCursor(CursorKind),
    AskCursor,
    SetCursor(u16, u16),
    Clear,
    Flush,
}

/// The steps of an operation under some settings, on a terminal that can do this much.
pub open spec fn operation_steps(config: Config, known: Capabilities, operation: Operation) -> Seq<Step> {
    match operation {
        Operation::Extend => extension_steps(known),
        Operation::Report(claim, report) => claim.report_steps(report),
        Operation::Reconfigure(after) => reconfigure_steps(config, after),
        Operation::Draw(content) => write_steps(
            frame_outputs(known.synchronized_output, known.extended_underlines, content),
        ),
        Operation::HideCursor => write_and_flush_steps(hide_cursor_outputs()),
        Operation::ShowCursor(kind) => write_and_flush_steps(show_cursor_outputs(kind)),
        Operation::AskCursor => write_and_flush_steps(
            seq![Output::Escape(Escape::RequestCursorPosition)],
        ),
        Operation::SetCursor(x, y) => write_and_flush_steps(set_cursor_outputs(x, y)),
        Operation::Clear => write_and_flush_steps(seq![Output::Escape(Escape::EraseDisplay)]),
        Operation::Flush => seq![Step::Flush],
    }
}

/// The settings after an operation.
pub open spec fn config_after(config: Config, operation: Operation) -> Config {
    match operation {
        Operation::Reconfigure(after) => after,
        _ => config,
    }
}

/// The settings after some operations.
pub open spec fn last_config(config: Config, operations: Seq<Operation>) -> Config
    decreases operations.len(),
{
    if operations.len() == 0 {
        config
    } else {
        config_after(last_config(config, operations.drop_last()), operations.last())
    }
}

/// The screen after some operations.
pub open spec fn operated(
    screen: Screen,
    width: Width,
    config: Config,
    known: Capabilities,
    operations: Seq<Operation>,
) -> Screen
    decreases operations.len(),
{
    if operations.len() == 0 {
        screen
    } else {
        let earlier = operations.drop_last();
        operated(screen, width, config, known, earlier).after(
            width,
            written(
                operation_steps(last_config(config, earlier), known, operations.last()),
            ),
        )
    }
}

/// Whether an operation ends the capture of the mouse.
pub open spec fn ends_capture(config: Config, operation: Operation) -> bool {
    config.enable_mouse_capture && !config_after(config, operation).enable_mouse_capture
}

/// Whether none of the operations ends the capture of the mouse.
pub open spec fn keep_capture(config: Config, operations: Seq<Operation>) -> bool
    decreases operations.len(),
{
    operations.len() > 0 ==> {
        let earlier = operations.drop_last();
        &&& keep_capture(config, earlier)
        &&& !ends_capture(last_config(config, earlier), operations.last())
    }
}

/// The modes, with the cursor seen or not.
pub open spec fn with_cursor(modes: Set<DecMode>, seen: bool) -> Set<DecMode> {
    if seen {
        modes.insert(DecMode::ShowCursor)
    } else {
        modes.remove(DecMode::ShowCursor)
    }
}

/// Whether the terminal is free: neither claimed nor holding back its output.
pub open spec fn is_free(modes: Set<DecMode>) -> bool {
    unclaimed(modes) && !modes.contains(DecMode::SynchronizedOutput)
}

/// What holds of a claimed terminal that had the modes `others` on before: it writes
/// in the plain look, and has on what it had and what the settings ask for. Whether
/// the cursor is seen has its own commands.
pub open spec fn in_session(screen: Screen, others: Set<DecMode>, config: Config) -> bool {
    let seen = screen.modes.contains(DecMode::ShowCursor);
    &&& screen.look == Look::plain()
    &&& screen.modes == with_cursor(others, seen).union(claimed_modes(config))
}

/// A run that is written does what its only piece does.
proof fn one_is_written(screen: Screen, width: Width, piece: Output)
    ensures
        screen.after(width, written(write_and_flush_steps(seq![piece]))) == screen.after_piece(
            width,
            piece,
        ),
{
    written_by_writing(seq![piece]);
    after_one(screen, width, piece);
}

/// Every operation keeps what holds of a claimed terminal, unless it ends the capture of
/// the mouse.
pub proof fn operation_keeps_session(
    screen: Screen,
    width: Width,
    others: Set<DecMode>,
    config: Config,
    known: Capabilities,
    operation: Operation,
)
    requires
        is_free(others),
        in_session(screen, others, config),
        !ends_capture(config, operation),
    ensures
        in_session(
            screen.after(width, written(operation_steps(config, known, operation))),
            others,
            config_after(config, operation),
        ),
{
    let seen = screen.modes.contains(DecMode::ShowCursor);
    match operation {
        Operation::Extend => extensions_change_nothing(screen, width, known),
        Operation::Report(claim, report) => {
            if claim.report_steps(report).len() > 0 {
                one_is_written(
                    screen,
                    width,
                    Output::Escape(Escape::Keyboard(Keyboard::PopFlags(1))),
                );
            } else {
                written_by_nothing(Step::Flush);
                after_none(screen, width);
            }
        },
        Operation::Reconfigure(after) => {
            let now = with_cursor(others, seen);
            reconfigure_keeps_modes_in_line(screen, width, now, config, after);
        },
        Operation::Draw(content) => {
            let frame = frame_outputs(
                known.synchronized_output,
                known.extended_underlines,
                content,
            );
            written_by_writing(frame);
            frame_leaves_look_plain(
                screen,
                width,
                known.synchronized_output,
                known.extended_underlines,
                content,
            );
        },
        Operation::HideCursor => {
            one_is_written(screen, width, mode(ModeChange::Disable, DecMode::ShowCursor));
            assert(screen.modes.remove(DecMode::ShowCursor) == with_cursor(others, false).union(
                claimed_modes(config),
            ));
        },
        Operation::ShowCursor(kind) => {
            written_by_writing(show_cursor_outputs(kind));
            let p1 = show_cursor_outputs(kind)[0];
            let p2 = show_cursor_outputs(kind)[1];
            after_one(screen, width, p1);
            after_push(screen, width, seq![p1], p2);
            assert(seq![p1].push(p2) == show_cursor_outputs(kind));
            assert(screen.modes.insert(DecMode::ShowCursor) == with_cursor(others, true).union(
                claimed_modes(config),
            ));
        },
        Operation::AskCursor => {
            one_is_written(screen, width, Output::Escape(Escape::RequestCursorPosition));
        },
        Operation::SetCursor(x, y) => {
            one_is_written(screen, width, Output::Escape(Escape::MoveTo { x, y }));
        },
        Operation::Clear => {
            one_is_written(screen, width, Output::Escape(Escape::EraseDisplay));
        },
        Operation::Flush => {
            written_by_nothing(Step::Flush);
            after_none(screen, width);
        },
    }
}

/// What holds of a claimed terminal holds after the claim and after any operations, as
/// long as none ends the capture of the mouse. A later claim, of a terminal of which it
/// is known what it can do, has to find the plain look.
pub proof fn session_goes_on(
    screen: Screen,
    width: Width,
    config: Config,
    capabilities: Option<Capabilities>,
    known: Capabilities,
    operations: Seq<Operation>,
)
    requires
        is_free(screen.modes),
        capabilities is Some ==> screen.look == Look::plain(),
        keep_capture(config, operations),
    ensures
        in_session(
            operated(
                screen.after(width, written(claim_steps(config, capabilities))),
                width,
                config,
                known,
                operations,
            ),
            screen.modes,
            last_config(config, operations),
        ),
    decreases operations.len(),
{
    let claimed = screen.after(width, written(claim_steps(config, capabilities)));
    if operations.len() == 0 {
        claim_takes_the_screen(screen, width, config, capabilities);
        let seen = claimed.modes.contains(DecMode::ShowCursor);
        assert(with_cursor(screen.modes, seen) == screen.modes);
    } else {
        let earlier = operations.drop_last();
        session_goes_on(screen, width, config, capabilities, known, earlier);
        operation_keeps_session(
            operated(claimed, width, config, known, earlier),
            width,
            screen.modes,
            last_config(config, earlier),
            known,
            operations.last(),
        );
    }
}

/// A terminal that is claimed, on which anything is done, and that is given back has the
/// modes on that it had on before, but for the cursor, which is seen or not as it was
/// last. It writes in the plain look. This holds as long as nothing ends the capture of
/// the mouse.
pub proof fn session_restores_modes(
    screen: Screen,
    width: Width,
    config: Config,
    capabilities: Option<Capabilities>,
    known: Capabilities,
    operations: Seq<Operation>,
    reset_cursor: Seq<char>,
)
    requires
        is_free(screen.modes),
        capabilities is Some ==> screen.look == Look::plain(),
        keep_capture(config, operations),
    ensures
        ({
            let claimed = screen.after(width, written(claim_steps(config, capabilities)));
            let end = operated(claimed, width, config, known, operations);
            let restored = end.after(
                width,
                written(restore_steps(last_config(config, operations), reset_cursor)),
            );
            &&& restored.modes == with_cursor(
                screen.modes,
                end.modes.contains(DecMode::ShowCursor),
            )
            &&& restored.look == Look::plain()
        }),
{
    session_goes_on(screen, width, config, capabilities, known, operations);
    let claimed = screen.after(width, written(claim_steps(config, capabilities)));
    let end = operated(claimed, width, config, known, operations);
    let seen = end.modes.contains(DecMode::ShowCursor);
    restore_undoes_claim(
        end,
        width,
        with_cursor(screen.modes, seen),
        last_config(config, operations),
        reset_cursor,
    );
}

/// Every frame that is drawn on a claimed terminal shows its cells, whatever was done
/// before it.
pub proof fn session_shows_frames(
    screen: Screen,
    width: Width,
    config: Config,
    capabilities: Option<Capabilities>,
    known: Capabilities,
    operations: Seq<Operation>,
    content: Seq<Update>,
) -> (prints: Seq<Print>)
    requires
        is_free(screen.modes),
        capabilities is Some ==> screen.look == Look::plain(),
        keep_capture(config, operations),
        showable(width, content),
    ensures
        all_shown_as(known.extended_underlines, prints, content),
        ({
            let claimed = screen.after(width, written(claim_steps(config, capabilities)));
            let here = operated(claimed, width, config, known, operations);
            let draw = Operation::Draw(content);
            let steps = operation_steps(last_config(config, operations), known, draw);
            here.after(width, written(steps)).prints == here.prints + prints
        }),
{
    session_goes_on(screen, width, config, capabilities, known, operations);
    let claimed = screen.after(width, written(claim_steps(config, capabilities)));
    let here = operated(claimed, width, config, known, operations);
    let synchronized = known.synchronized_output;
    written_by_writing(frame_outputs(synchronized, known.extended_underlines, content));
    frame_is_shown(here, width, synchronized, known.extended_underlines, content)
}

/// The report that the terminal gives of its cursor.
pub open spec fn cursor_report(screen: Screen) -> Report
    recommends
        0 <= screen.x < u16::MAX,
        0 <= screen.y < u16::MAX,
{
    Report::CursorPosition { line: (screen.y + 1) as u16, col: (screen.x + 1) as u16 }
}

/// The cursor is where it was last set: the report of it reads, counted from zero, the
/// line and then the column.
pub proof fn cursor_reads_back(screen: Screen, width: Width, x: u16, y: u16)
    requires
        x < u16::MAX,
        y < u16::MAX,
    ensures
        ({
            let after = screen.after(width, set_cursor_outputs(x, y));
            &&& after == (Screen { x: x as int, y: y as int, ..screen })
            &&& position_of(cursor_report(after)) == (y as int, x as int)
        }),
{
    after_one(screen, width, set_cursor_outputs(x, y)[0]);
    assert(seq![set_cursor_outputs(x, y)[0]] == set_cursor_outputs(x, y));
}

/// A cursor that is hidden is not seen, and one that is shown after that is seen again, in
/// a steady shape of the kind asked for; no other mode changes.
pub proof fn shown_cursor_is_seen(screen: Screen, width: Width, kind: CursorKind)
    ensures
        ({
            let hidden = screen.after(width, hide_cursor_outputs());
            let shown = hidden.after(width, show_cursor_outputs(kind));
            &&& hidden == (Screen { modes: screen.modes.remove(DecMode::ShowCursor), ..screen })
            &&& shown == (Screen {
                modes: screen.modes.insert(DecMode::ShowCursor),
                shape: Shape::Style(
                    (match kind {
                        CursorKind::Bar => CursorStyle::SteadyBar,
                        CursorKind::Underline => CursorStyle::SteadyUnderline,
                        _ => CursorStyle::SteadyBlock,
                    }),
                ),
                ..screen
            })
        }),
{
    let hide = mode(ModeChange::Disable, DecMode::ShowCursor);
    after_one(screen, width, hide);
    assert(seq![hide] == hide_cursor_outputs());
    let hidden = screen.after(width, hide_cursor_outputs());
    let p1 = show_cursor_outputs(kind)[0];
    let p2 = show_cursor_outputs(kind)[1];
    after_one(hidden, width, p1);
    after_push(hidden, width, seq![p1], p2);
    assert(seq![p1].push(p2) == show_cursor_outputs(kind));
    assert(screen.modes.remove(DecMode::ShowCursor).insert(DecMode::ShowCursor)
        == screen.modes.insert(DecMode::ShowCursor));
}

} // verus!

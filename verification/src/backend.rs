//! The backend: which text, in which order, claims the terminal, draws on it, and
//! gives it back.

use vstd::prelude::*;

use crate::escape::{cursor_style_text, ColorTarget, DecMode, Escape, Keyboard, ModeChange, Sgr};
use crate::frame::{drawable, frame_outputs, frame_text, Update};
use crate::output::{Output, Transcript};
use crate::plan::{
    write_and_flush_plan, write_and_flush_steps, write_plan, write_steps, Action, OnFailure, Plan, Step,
};
use crate::report::{spec_test_color, test_color, Capabilities, Filter, Report};
use crate::style::{CursorKind, CursorStyle, Rect};
use crate::terminfo::{
    described_reset, extended_cap, extended_caps, parsed_number, readable, reset_cursor_approach,
    term_program, vte_version,
};

verus! {

/// The settings of the backend.
#[derive(Debug, Clone, Copy, PartialEq, Eq, Structural)]
pub struct Config {
    pub enable_mouse_capture: bool,
    /// Treat the terminal as one with extended underlines, whatever it reports.
    pub force_enable_extended_underlines: bool,
}

/// What is known of the terminal program, apart from its reports.
pub struct Environment {
    pub info: termini::TermInfo,
    /// The variable `VTE_VERSION`.
    pub vte_version: Option<String>,
    /// The variable `TERM_PROGRAM`.
    pub term_program: Option<String>,
    /// The variable `TERM`.
    pub term: Option<String>,
}

/// The first version of VTE that has extended underlines.
pub const VTE_WITH_UNDERLINES: usize = 5102;

impl Environment {
    /// Whether the description of the terminal can be looked into as far as the
    /// backend does.
    pub open spec fn is_readable(self) -> bool {
        &&& readable(self.info, "Smulx"@)
        &&& extended_caps(self.info).contains_key("Smulx"@) || readable(self.info, "Su"@)
        &&& readable(self.info, "Se"@)
    }

    /// Whether the terminal program is named as WezTerm.
    pub open spec fn is_wezterm(self) -> bool {
        match (self.term_program, self.term) {
            (Some(name), _) => name@ == "WezTerm"@,
            (None, Some(name)) => name@ == "WezTerm"@,
            (None, None) => false,
        }
    }

    /// Whether the terminal program has extended underlines: by its description, or
    /// because it is a VTE new enough, or WezTerm.
    pub open spec fn has_underlines(self) -> bool {
        ||| extended_caps(self.info).contains_key("Smulx"@)
        ||| extended_caps(self.info).contains_key("Su"@)
        ||| (self.vte_version matches Some(text) && parsed_number(text@) matches Some(version)
            && version >= VTE_WITH_UNDERLINES)
        ||| self.is_wezterm()
    }
}

/// What the environment says that matters to the backend.
#[derive(Debug)]
pub struct Findings {
    /// Whether the terminal program has extended underlines.
    pub extended_underlines: bool,
    /// The command that gives the cursor its first shape back.
    pub reset_cursor_command: String,
}

impl Environment {
    /// Looks up what matters to the backend.
    pub fn look_up(self) -> (findings: Findings)
        requires
            self.is_readable(),
        ensures
            findings.extended_underlines == self.has_underlines(),
            findings.reset_cursor_command@ == described_reset(self.info),
    {
        let reset_cursor_command = reset_cursor_approach(&self.info);
        let extended_underlines = extended_cap(&self.info, "Smulx").is_some() || extended_cap(
            &self.info,
            "Su",
        ).is_some() || is_new_vte(vte_version(&self.vte_version)) || is_wezterm(
            &term_program(self.term_program, self.term),
        );
        Findings { extended_underlines, reset_cursor_command }
    }
}

/// Whether a version of VTE, if it is one, has extended underlines.
pub fn is_new_vte(version: Option<usize>) -> (yes: bool)
    ensures
        yes == (version matches Some(v) && v >= VTE_WITH_UNDERLINES),
{
    match version {
        Some(v) => v >= VTE_WITH_UNDERLINES,
        None => false,
    }
}

/// Whether a terminal program is WezTerm, which does not report its rendition.
pub fn is_wezterm(program: &Option<String>) -> (yes: bool)
    ensures
        yes == (*program matches Some(name) && name@ == "WezTerm"@),
{
    match program {
        Some(name) => *name == "WezTerm".to_owned(),
        None => false,
    }
}

/// The flags of the Kitty keyboard protocol that the backend wants: unambiguous
/// escape codes and alternate keys.
pub const KEYBOARD_FLAGS: u8 = 5;

/// How far claiming the terminal has come.
#[derive(Debug, Clone, Copy, PartialEq, Eq, Structural)]
pub enum Claim {
    /// Escape sequences are awaited that answer the queries; so far they have shown
    /// these capabilities.
    Reports(Capabilities),
    /// The queries are answered, and the environment is to be looked at.
    Environment(Capabilities),
    /// The keyboard flags that the terminal has switched on are awaited.
    Flags,
    /// The terminal is claimed.
    Done,
}

impl Claim {
    /// The reports that are awaited.
    pub open spec fn awaits(self) -> Option<Filter> {
        match self {
            Claim::Reports(_) => Some(Filter::Escape),
            Claim::Flags => Some(Filter::KeyboardFlags),
            _ => None,
        }
    }

    /// The reports that are awaited.
    pub fn filter(self) -> (filter: Option<Filter>)
        ensures
            filter == self.awaits(),
    {
        match self {
            Claim::Reports(_) => Some(Filter::Escape),
            Claim::Flags => Some(Filter::KeyboardFlags),
            _ => None,
        }
    }

    /// How far the claim is after a report. The device attributes end the answers.
    pub open spec fn after_report(self, report: Report) -> Claim {
        match self {
            Claim::Reports(detected) => if report is DeviceAttributes {
                Claim::Environment(detected)
            } else {
                Claim::Reports(detected.with_report(report))
            },
            _ => Claim::Done,
        }
    }

    /// What a report calls for. Keyboard flags other than those wanted are taken
    /// off again.
    pub open spec fn report_steps(self, report: Report) -> Seq<Step> {
        if self is Flags && report != Report::KeyboardFlags(KEYBOARD_FLAGS) {
            write_and_flush_steps(seq![Output::Escape(Escape::Keyboard(Keyboard::PopFlags(1)))])
        } else {
            seq![]
        }
    }

    /// Takes the next report that is awaited.
    pub fn on_report(self, report: &Report) -> (next: (Claim, Plan))
        requires
            self.awaits() matches Some(filter) && filter.takes(*report),
        ensures
            next.0 == self.after_report(*report),
            next.1.performs(self.report_steps(*report)),
            next.1.on_failure == OnFailure::Stop,
    {
        let plan = Plan::new();
        match self {
            Claim::Reports(detected) => {
                let mut detected = detected;
                match report {
                    Report::DeviceAttributes => (Claim::Environment(detected), plan),
                    _ => {
                        detected.note(report);
                        (Claim::Reports(detected), plan)
                    },
                }
            },
            _ => {
                if let Report::KeyboardFlags(flags) = report {
                    if *flags != KEYBOARD_FLAGS {
                        let ghost pop = Output::Escape(Escape::Keyboard(Keyboard::PopFlags(1)));
                        let mut out = Transcript::new();
                        out.escape(Escape::Keyboard(Keyboard::PopFlags(1)));
                        assert(out@ == seq![pop]);
                        return (Claim::Done, write_and_flush_plan(out));
                    }
                }
                (Claim::Done, plan)
            },
        }
    }
}

/// A private mode switched on or off.
pub open spec fn mode(change: ModeChange, mode: DecMode) -> Output {
    Output::Escape(Escape::Mode(change, mode))
}

/// The output that switches the capture of the mouse on or off: every kind of mouse
/// event, in both encodings.
pub open spec fn mouse_outputs(change: ModeChange) -> Seq<Output> {
    seq![
        mode(change, DecMode::MouseTracking),
        mode(change, DecMode::ButtonEventMouse),
        mode(change, DecMode::AnyEventMouse),
        mode(change, DecMode::RxvtMouse),
        mode(change, DecMode::SgrMouse),
    ]
}

/// The steps that switch the capture of the mouse on or off, where it is configured.
pub open spec fn mouse_steps(config: Config, change: ModeChange) -> Seq<Step> {
    if config.enable_mouse_capture {
        write_steps(mouse_outputs(change))
    } else {
        seq![]
    }
}

/// The output that takes the screen over: an alternate screen, cleared, with
/// bracketed paste and reports of focus.
pub open spec fn enter_outputs() -> Seq<Output> {
    seq![
        mode(ModeChange::Enable, DecMode::ClearAndEnableAlternateScreen),
        mode(ModeChange::Enable, DecMode::BracketedPaste),
        mode(ModeChange::Enable, DecMode::FocusTracking),
        Output::Escape(Escape::EraseDisplay),
    ]
}

/// The output that gives the screen back.
pub open spec fn leave_outputs(reset_cursor: Seq<char>) -> Seq<Output> {
    seq![
        Output::Command(reset_cursor),
        mode(ModeChange::Disable, DecMode::BracketedPaste),
        mode(ModeChange::Disable, DecMode::FocusTracking),
        mode(ModeChange::Disable, DecMode::ClearAndEnableAlternateScreen),
    ]
}

/// The output that asks what the terminal can do. The device attributes come last:
/// every terminal reports them, and an answer that has not come by then will not.
pub open spec fn query_outputs() -> Seq<Output> {
    seq![
        Output::Escape(Escape::Keyboard(Keyboard::QueryFlags)),
        mode(ModeChange::Query, DecMode::SynchronizedOutput),
        Output::Escape(Escape::Sgr(Sgr::Color(ColorTarget::Background, spec_test_color()))),
        Output::Escape(Escape::Sgr(Sgr::Color(ColorTarget::Underline, spec_test_color()))),
        Output::Escape(Escape::RequestGraphicRendition),
        Output::Escape(Escape::Sgr(Sgr::Reset)),
        Output::Escape(Escape::RequestDeviceAttributes),
    ]
}

/// The output that asks for the keyboard flags, and then which of them are on.
pub open spec fn keyboard_outputs() -> Seq<Output> {
    seq![
        Output::Escape(Escape::Keyboard(Keyboard::PushFlags(KEYBOARD_FLAGS))),
        Output::Escape(Escape::Keyboard(Keyboard::QueryFlags)),
    ]
}

/// The steps that switch the terminal's extensions on.
pub open spec fn extension_steps(capabilities: Capabilities) -> Seq<Step> {
    if capabilities.kitty_keyboard {
        write_and_flush_steps(keyboard_outputs())
    } else {
        seq![]
    }
}

/// How far the claim is when the terminal's extensions have been switched on.
pub open spec fn extension_claim(capabilities: Capabilities) -> Claim {
    if capabilities.kitty_keyboard {
        Claim::Flags
    } else {
        Claim::Done
    }
}

/// The steps with which the terminal is claimed, up to the first report.
pub open spec fn claim_steps(config: Config, capabilities: Option<Capabilities>) -> Seq<Step> {
    seq![Step::EnterRawMode] + write_steps(enter_outputs()) + mouse_steps(
        config,
        ModeChange::Enable,
    ) + (match capabilities {
        Some(known) => extension_steps(known),
        None => write_and_flush_steps(query_outputs()),
    })
}

/// The steps with which the terminal is given back.
pub open spec fn restore_steps(config: Config, reset_cursor: Seq<char>) -> Seq<Step> {
    mouse_steps(config, ModeChange::Disable) + write_and_flush_steps(leave_outputs(reset_cursor))
        + seq![Step::ResetMode]
}

/// The steps that a change of the settings calls for. Capture of the mouse that is newly
/// configured is switched on; capture that no longer is stays on in the terminal, since
/// it is switched off only where it is configured.
pub open spec fn reconfigure_steps(before: Config, after: Config) -> Seq<Step> {
    if after.enable_mouse_capture && !before.enable_mouse_capture {
        write_steps(mouse_outputs(ModeChange::Enable))
    } else {
        seq![]
    }
}

/// The cursor shape for a kind of cursor that is seen.
pub open spec fn cursor_style_of(kind: CursorKind) -> CursorStyle {
    match kind {
        CursorKind::Bar => CursorStyle::SteadyBar,
        CursorKind::Underline => CursorStyle::SteadyUnderline,
        _ => CursorStyle::SteadyBlock,
    }
}

/// The output that shows the cursor.
pub open spec fn show_cursor_outputs(kind: CursorKind) -> Seq<Output> {
    seq![
        mode(ModeChange::Enable, DecMode::ShowCursor),
        Output::Escape(Escape::CursorStyle(cursor_style_of(kind))),
    ]
}

/// The output that hides the cursor.
pub open spec fn hide_cursor_outputs() -> Seq<Output> {
    seq![mode(ModeChange::Disable, DecMode::ShowCursor)]
}

/// The output that moves the cursor to column `x` of line `y`.
pub open spec fn set_cursor_outputs(x: u16, y: u16) -> Seq<Output> {
    seq![Output::Escape(Escape::MoveTo { x, y })]
}

/// The capabilities of a terminal that reported `detected`. Extended underlines are
/// also taken to be there where the settings or the environment say so.
pub open spec fn settled(detected: Capabilities, config: Config, underlines: bool) -> Capabilities {
    Capabilities {
        extended_underlines: detected.extended_underlines || config.force_enable_extended_underlines
            || underlines,
        ..detected
    }
}

/// Settling leaves what the reports have shown of the keyboard protocol, of synchronized
/// output and of true colours as it is, whatever the settings and the environment. Extended
/// underlines are there when they were reported, are forced by the settings, or were found
/// in the environment, and only then.
pub proof fn settling_keeps_what_was_shown(detected: Capabilities, config: Config, underlines: bool)
    ensures
        settled(detected, config, underlines).kitty_keyboard == detected.kitty_keyboard,
        settled(detected, config, underlines).synchronized_output == detected.synchronized_output,
        settled(detected, config, underlines).true_color == detected.true_color,
        detected.extended_underlines ==> settled(detected, config, underlines).extended_underlines,
        config.force_enable_extended_underlines ==> settled(
            detected,
            config,
            underlines,
        ).extended_underlines,
        underlines ==> settled(detected, config, underlines).extended_underlines,
        settled(detected, config, underlines).extended_underlines ==> underlines
            || detected.extended_underlines || config.force_enable_extended_underlines,
{
}

/// A terminal program has extended underlines when its description names styled or coloured
/// underlines, when it is VTE of version 0.51.2 or later, or when it is WezTerm by
/// `TERM_PROGRAM` or, where that is not set, by `TERM`. Nothing else shows them.
pub proof fn underlines_are_found(environment: Environment, version: usize)
    ensures
        extended_caps(environment.info).contains_key("Smulx"@) ==> environment.has_underlines(),
        extended_caps(environment.info).contains_key("Su"@) ==> environment.has_underlines(),
        environment.vte_version matches Some(text) && parsed_number(text@) == Some(version)
            && version >= 5102 ==> environment.has_underlines(),
        environment.term_program matches Some(name) && name@ == "WezTerm"@
            ==> environment.has_underlines(),
        environment.term_program is None && (environment.term matches Some(name) && name@
            == "WezTerm"@) ==> environment.has_underlines(),
        ({
            let version_found = match environment.vte_version {
                Some(text) => parsed_number(text@),
                None => None,
            };
            let name = match environment.term_program {
                Some(own) => Some(own@),
                None => match environment.term {
                    Some(term) => Some(term@),
                    None => None,
                },
            };
            environment.has_underlines() ==> {
                ||| extended_caps(environment.info).contains_key("Smulx"@)
                ||| extended_caps(environment.info).contains_key("Su"@)
                ||| version_found matches Some(v) && v >= 5102
                ||| name == Some("WezTerm"@)
            }
        }),
{
}

/// A description can be looked into when the strings that the backend looks up are in
/// place; the colours of underlines are not looked up where their styles are there.
pub proof fn sound_descriptions_are_readable(environment: Environment)
    ensures
        readable(environment.info, "Smulx"@) && readable(environment.info, "Su"@) && readable(
            environment.info,
            "Se"@,
        ) ==> environment.is_readable(),
        readable(environment.info, "Smulx"@) && extended_caps(environment.info).contains_key(
            "Smulx"@,
        ) && readable(environment.info, "Se"@) ==> environment.is_readable(),
        environment.is_readable() ==> readable(environment.info, "Smulx"@) && readable(
            environment.info,
            "Se"@,
        ),
        environment.is_readable() && !extended_caps(environment.info).contains_key("Smulx"@)
            ==> readable(environment.info, "Su"@),
{
}

/// A claim that waits for answers takes any escape sequence, goes on to the environment,
/// with what was detected, when the device attributes come, and waits on after anything
/// else. One that waits for the keyboard flags takes only these, and is done then. A claim
/// that waits for nothing takes nothing.
pub proof fn claims_advance(detected: Capabilities, report: Report, flags: u8)
    ensures
        Claim::Reports(detected).awaits() == Some(Filter::Escape),
        Claim::Flags.awaits() == Some(Filter::KeyboardFlags),
        Claim::Environment(detected).awaits() is None,
        Claim::Done.awaits() is None,
        Claim::Reports(detected).after_report(Report::DeviceAttributes) == Claim::Environment(
            detected,
        ),
        report != Report::DeviceAttributes ==> Claim::Reports(detected).after_report(report)
            == Claim::Reports(detected.with_report(report)),
        Claim::Flags.after_report(Report::KeyboardFlags(flags)) == Claim::Done,
{
}

/// The claim waits for the keyboard flags exactly where the terminal knows the protocol,
/// and is done otherwise.
pub proof fn claims_wait_for_flags(capabilities: Capabilities)
    ensures
        capabilities.kitty_keyboard <==> extension_claim(capabilities) == Claim::Flags,
        !capabilities.kitty_keyboard <==> extension_claim(capabilities) == Claim::Done,
{
}

/// The modes of the mouse, in the order in which they are switched: what is reported, from
/// less to more, and then how, where the last one counts.
pub open spec fn mouse_order() -> Seq<DecMode> {
    seq![
        DecMode::MouseTracking,
        DecMode::ButtonEventMouse,
        DecMode::AnyEventMouse,
        DecMode::RxvtMouse,
        DecMode::SgrMouse,
    ]
}

/// Whether a piece switches a mode.
pub open spec fn switches(piece: Output, change: ModeChange, mode: DecMode) -> bool {
    piece matches Output::Escape(Escape::Mode(c, m)) && c == change && m == mode
}

/// The commands consist of no more than their parts, in their order: the mouse is captured
/// and let go mode by mode; the screen is given back by resetting the cursor and switching
/// off paste, focus and the alternate screen, whatever the cursor's command; a cursor is
/// shown and then shaped. Each plan has one step for what is written, and one to send it
/// where it is sent.
pub proof fn commands_say_no_more(
    change: ModeChange,
    config: Config,
    known: Capabilities,
    reset_cursor: Seq<char>,
    kind: CursorKind,
)
    ensures
        mouse_outputs(change).len() == 5,
        forall|i: int|
            0 <= i < 5 ==> switches(#[trigger] mouse_outputs(change)[i], change, mouse_order()[i]),
        enter_outputs().len() == 4,
        query_outputs().len() == 7,
        keyboard_outputs().len() == 2,
        leave_outputs(reset_cursor).len() == 4,
        leave_outputs(reset_cursor)[0] == Output::Command(reset_cursor),
        switches(leave_outputs(reset_cursor)[1], ModeChange::Disable, DecMode::BracketedPaste),
        switches(leave_outputs(reset_cursor)[2], ModeChange::Disable, DecMode::FocusTracking),
        switches(
            leave_outputs(reset_cursor)[3],
            ModeChange::Disable,
            DecMode::ClearAndEnableAlternateScreen,
        ),
        show_cursor_outputs(kind).len() == 2,
        switches(show_cursor_outputs(kind)[0], ModeChange::Enable, DecMode::ShowCursor),
        hide_cursor_outputs().len() == 1,
        ({
            let mouse: nat = if config.enable_mouse_capture {
                1
            } else {
                0
            };
            let flags: nat = if known.kitty_keyboard {
                2
            } else {
                0
            };
            &&& mouse_steps(config, change).len() == mouse
            &&& extension_steps(known).len() == flags
            &&& claim_steps(config, None).len() == 4 + mouse
            &&& claim_steps(config, Some(known)).len() == 2 + mouse + flags
            &&& restore_steps(config, reset_cursor).len() == 3 + mouse
        }),
{
}

/// A terminal backend. It decides what is to be done with the terminal that it holds,
/// and leaves it to its user to do it.
#[derive(Debug)]
pub struct TerminaBackend<T> {
    terminal: T,
    config: Config,
    capabilities: Option<Capabilities>,
    reset_cursor_command: String,
}

/// The mathematical form of a [`TerminaBackend`].
pub struct BackendView<T> {
    pub terminal: T,
    pub config: Config,
    /// What the terminal can do, once that has been found out.
    pub capabilities: Option<Capabilities>,
    /// The command that gives the cursor its first shape back.
    pub reset_cursor: Seq<char>,
}

impl<T> View for TerminaBackend<T> {
    type V = BackendView<T>;

    closed spec fn view(&self) -> BackendView<T> {
        BackendView {
            terminal: self.terminal,
            config: self.config,
            capabilities: self.capabilities,
            reset_cursor: self.reset_cursor_command@,
        }
    }
}

impl<T> TerminaBackend<T> {
    /// A backend for a terminal of which nothing is known yet.
    pub fn new(terminal: T, config: Config) -> (backend: Self)
        ensures
            backend@ == (BackendView {
                terminal,
                config,
                capabilities: None,
                reset_cursor: cursor_style_text(CursorStyle::Default),
            }),
    {
        TerminaBackend {
            terminal,
            config,
            capabilities: None,
            reset_cursor_command: Escape::CursorStyle(CursorStyle::Default).render(),
        }
    }

    /// The terminal.
    pub fn terminal(&self) -> (terminal: &T)
        ensures
            *terminal == self@.terminal,
    {
        &self.terminal
    }

    /// The terminal, to be acted upon.
    pub fn terminal_mut(&mut self) -> (terminal: &mut T)
        ensures
            *terminal == old(self)@.terminal,
            final(self)@ == (BackendView { terminal: *final(terminal), ..old(self)@ }),
    {
        &mut self.terminal
    }

    /// Whether it is known what the terminal can do.
    pub fn is_detected(&self) -> (known: bool)
        ensures
            known == (self@.capabilities is Some),
    {
        self.capabilities.is_some()
    }

    /// What the terminal can do. This has to be known.
    pub fn capabilities(&self) -> (capabilities: Capabilities)
        requires
            self@.capabilities is Some,
        ensures
            Some(capabilities) == self@.capabilities,
    {
        self.capabilities.unwrap()
    }

    /// Asks the terminal what it can do, unless that is known. The answers are to be
    /// handed to [`Claim::on_report`].
    pub fn detect_terminal_capabilities_and_state(&self) -> (query: Option<(Claim, Plan)>)
        ensures
            query is Some <==> self@.capabilities is None,
            query matches Some(q) ==> {
                &&& q.0 == Claim::Reports(Capabilities::none())
                &&& q.1.performs(write_and_flush_steps(query_outputs()))
                &&& q.1.on_failure == OnFailure::Stop
            },
    {
        if self.capabilities.is_some() {
            return None;
        }
        let mut out = Transcript::new();
        // Kitty keyboard
        out.escape(Escape::Keyboard(Keyboard::QueryFlags));
        // Synchronized output
        out.escape(Escape::Mode(ModeChange::Query, DecMode::SynchronizedOutput));
        // True colours and, along the way, extended underlines
        out.escape(Escape::Sgr(Sgr::Color(ColorTarget::Background, test_color())));
        out.escape(Escape::Sgr(Sgr::Color(ColorTarget::Underline, test_color())));
        out.escape(Escape::RequestGraphicRendition);
        out.escape(Escape::Sgr(Sgr::Reset));
        out.escape(Escape::RequestDeviceAttributes);
        assert(out@ == query_outputs());
        Some((Claim::Reports(Capabilities::default()), write_and_flush_plan(out)))
    }

    /// Settles what the terminal can do, from what its reports have shown and from what
    /// was found in the environment, and goes on with the terminal's extensions.
    /// `None` stands for an environment without a description of the terminal.
    pub fn settle(&mut self, detected: Capabilities, findings: Option<Findings>) -> (next: (Claim, Plan))
        ensures
            ({
                let underlines = findings matches Some(f) && f.extended_underlines;
                let capabilities = settled(detected, old(self)@.config, underlines);
                &&& final(self)@ == (BackendView {
                    capabilities: Some(capabilities),
                    reset_cursor: (match findings {
                        Some(f) => f.reset_cursor_command@,
                        None => old(self)@.reset_cursor,
                    }),
                    ..old(self)@
                })
                &&& next.0 == extension_claim(capabilities)
                &&& next.1.performs(extension_steps(capabilities))
            }),
            final(self)@.capabilities matches Some(known) && {
                &&& known.kitty_keyboard == detected.kitty_keyboard
                &&& known.synchronized_output == detected.synchronized_output
                &&& known.true_color == detected.true_color
            },
            next.1.on_failure == OnFailure::Stop,
    {
        let mut capabilities = detected;
        if self.config.force_enable_extended_underlines {
            capabilities.extended_underlines = true;
        }
        if let Some(findings) = findings {
            if findings.extended_underlines {
                capabilities.extended_underlines = true;
            }
            self.reset_cursor_command = findings.reset_cursor_command;
        }
        self.capabilities = Some(capabilities);
        self.enable_extensions()
    }

    /// As [`Self::settle`], with an environment that has still to be looked into.
    pub fn on_environment(
        &mut self,
        detected: Capabilities,
        environment: Option<Environment>,
    ) -> (next: (Claim, Plan))
        requires
            environment matches Some(e) ==> e.is_readable(),
        ensures
            ({
                let underlines = environment matches Some(e) && e.has_underlines();
                let capabilities = settled(detected, old(self)@.config, underlines);
                &&& final(self)@ == (BackendView {
                    capabilities: Some(capabilities),
                    reset_cursor: (match environment {
                        Some(e) => described_reset(e.info),
                        None => old(self)@.reset_cursor,
                    }),
                    ..old(self)@
                })
                &&& next.0 == extension_claim(capabilities)
                &&& next.1.performs(extension_steps(capabilities))
            }),
            final(self)@.capabilities matches Some(known) && {
                &&& known.kitty_keyboard == detected.kitty_keyboard
                &&& known.synchronized_output == detected.synchronized_output
                &&& known.true_color == detected.true_color
            },
            next.1.on_failure == OnFailure::Stop,
    {
        match environment {
            Some(environment) => {
                let findings = environment.look_up();
                self.settle(detected, Some(findings))
            },
            None => self.settle(detected, None),
        }
    }

    /// Switches the capture of the mouse on, where it is configured.
    pub fn enable_mouse_capture(&self) -> (plan: Plan)
        ensures
            plan.performs(mouse_steps(self@.config, ModeChange::Enable)),
            plan.on_failure == OnFailure::Stop,
    {
        mouse_plan(self.config, ModeChange::Enable)
    }

    /// Switches the capture of the mouse off, where it is configured.
    pub fn disable_mouse_capture(&self) -> (plan: Plan)
        ensures
            plan.performs(mouse_steps(self@.config, ModeChange::Disable)),
            plan.on_failure == OnFailure::Stop,
    {
        mouse_plan(self.config, ModeChange::Disable)
    }

    /// Switches the terminal's extensions on. The keyboard flags need not be popped
    /// later: the terminal drops them when the alternate screen is left.
    pub fn enable_extensions(&self) -> (next: (Claim, Plan))
        requires
            self@.capabilities is Some,
        ensures
            next.0 == extension_claim(self@.capabilities->0),
            next.1.performs(extension_steps(self@.capabilities->0)),
            next.1.on_failure == OnFailure::Stop,
    {
        if !self.capabilities().kitty_keyboard {
            return (Claim::Done, Plan::new());
        }
        let mut out = Transcript::new();
        out.escape(Escape::Keyboard(Keyboard::PushFlags(KEYBOARD_FLAGS)));
        out.escape(Escape::Keyboard(Keyboard::QueryFlags));
        assert(out@ == keyboard_outputs());
        (Claim::Flags, write_and_flush_plan(out))
    }

    /// Claims the terminal.
    pub fn claim(&self) -> (next: (Claim, Plan))
        ensures
            next.0 == (match self@.capabilities {
                Some(known) => extension_claim(known),
                None => Claim::Reports(Capabilities::none()),
            }),
            next.1.performs(claim_steps(self@.config, self@.capabilities)),
            next.1.on_failure == OnFailure::Stop,
    {
        let mut plan = Plan { actions: vec![Action::EnterRawMode], on_failure: OnFailure::Stop };
        let ghost mut steps = seq![Step::EnterRawMode];
        let mut out = Transcript::new();
        out.escape(Escape::Mode(ModeChange::Enable, DecMode::ClearAndEnableAlternateScreen));
        out.escape(Escape::Mode(ModeChange::Enable, DecMode::BracketedPaste));
        out.escape(Escape::Mode(ModeChange::Enable, DecMode::FocusTracking));
        out.escape(Escape::EraseDisplay);
        assert(out@ == enter_outputs());
        plan.append(write_plan(out));
        assert(plan.performs(steps + write_steps(enter_outputs())));
        proof {
            steps = steps + write_steps(enter_outputs());
        }
        plan.append(self.enable_mouse_capture());
        assert(plan.performs(steps + mouse_steps(self@.config, ModeChange::Enable)));
        proof {
            steps = steps + mouse_steps(self@.config, ModeChange::Enable);
        }
        let (claim, rest) = match self.detect_terminal_capabilities_and_state() {
            Some(query) => query,
            None => self.enable_extensions(),
        };
        let ghost more = match self@.capabilities {
            Some(known) => extension_steps(known),
            None => write_and_flush_steps(query_outputs()),
        };
        assert(rest.performs(more));
        plan.append(rest);
        assert(plan.performs(steps + more));
        (claim, plan)
    }

    /// Changes the settings. What the terminal can do has to be known, and stays as it
    /// was found.
    pub fn reconfigure(&mut self, config: Config) -> (plan: Plan)
        requires
            old(self)@.capabilities is Some,
        ensures
            final(self)@ == (BackendView { config, ..old(self)@ }),
            plan.performs(reconfigure_steps(old(self)@.config, config)),
            plan.on_failure == OnFailure::Stop,
    {
        let before = self.config;
        self.config = config;
        if before.enable_mouse_capture != self.config.enable_mouse_capture {
            if self.config.enable_mouse_capture {
                self.enable_mouse_capture()
            } else {
                self.disable_mouse_capture()
            }
        } else {
            Plan::new()
        }
    }

    /// Gives the terminal back.
    pub fn restore(&self) -> (plan: Plan)
        ensures
            plan.performs(restore_steps(self@.config, self@.reset_cursor)),
            plan.on_failure == OnFailure::Stop,
    {
        let mut plan = self.disable_mouse_capture();
        let ghost mut steps = mouse_steps(self@.config, ModeChange::Disable);
        let mut out = Transcript::new();
        out.command(&self.reset_cursor_command);
        out.escape(Escape::Mode(ModeChange::Disable, DecMode::BracketedPaste));
        out.escape(Escape::Mode(ModeChange::Disable, DecMode::FocusTracking));
        out.escape(Escape::Mode(ModeChange::Disable, DecMode::ClearAndEnableAlternateScreen));
        let ghost pieces = leave_outputs(self@.reset_cursor);
        assert(out@ == pieces);
        plan.append(write_and_flush_plan(out));
        assert(plan.performs(steps + write_and_flush_steps(pieces)));
        proof {
            steps = steps + write_and_flush_steps(pieces);
        }
        plan.append(Plan { actions: vec![Action::ResetMode], on_failure: OnFailure::Stop });
        assert(plan.performs(steps + seq![Step::ResetMode]));
        plan
    }

    /// Gives the terminal back when the backend goes away: as [`Self::restore`] does,
    /// but whatever fails on the way.
    pub fn on_drop(&self) -> (plan: Plan)
        ensures
            plan.performs(restore_steps(self@.config, self@.reset_cursor)),
            plan.on_failure == OnFailure::Continue,
    {
        let plan = self.restore();
        Plan { actions: plan.actions, on_failure: OnFailure::Continue }
    }

    /// Draws the cells.
    pub fn draw(&self, content: &[Update]) -> (plan: Plan)
        requires
            self@.capabilities is Some,
            drawable(content@),
        ensures
            plan.performs(
                write_steps(
                    frame_outputs(
                        self@.capabilities->0.synchronized_output,
                        self@.capabilities->0.extended_underlines,
                        content@,
                    ),
                ),
            ),
            plan.on_failure == OnFailure::Stop,
    {
        let capabilities = self.capabilities();
        let text = frame_text(
            capabilities.synchronized_output,
            capabilities.extended_underlines,
            content,
        );
        Plan { actions: vec![Action::Write(text)], on_failure: OnFailure::Stop }
    }

    /// Hides the cursor.
    pub fn hide_cursor(&self) -> (plan: Plan)
        ensures
            plan.performs(write_and_flush_steps(hide_cursor_outputs())),
            plan.on_failure == OnFailure::Stop,
    {
        let mut out = Transcript::new();
        out.escape(Escape::Mode(ModeChange::Disable, DecMode::ShowCursor));
        assert(out@ == hide_cursor_outputs());
        write_and_flush_plan(out)
    }

    /// Shows the cursor in a shape. A cursor that is not to be seen has none.
    pub fn show_cursor(&self, kind: CursorKind) -> (plan: Plan)
        requires
            kind != CursorKind::Hidden,
        ensures
            plan.performs(write_and_flush_steps(show_cursor_outputs(kind))),
            plan.on_failure == OnFailure::Stop,
    {
        let style = match kind {
            CursorKind::Block => CursorStyle::SteadyBlock,
            CursorKind::Bar => CursorStyle::SteadyBar,
            CursorKind::Underline => CursorStyle::SteadyUnderline,
            CursorKind::Hidden => CursorStyle::SteadyBlock,
        };
        let mut out = Transcript::new();
        out.escape(Escape::Mode(ModeChange::Enable, DecMode::ShowCursor));
        out.escape(Escape::CursorStyle(style));
        assert(out@ == show_cursor_outputs(kind));
        write_and_flush_plan(out)
    }

    /// Asks where the cursor is. The report is to be handed to
    /// [`cursor_position`].
    pub fn get_cursor(&self) -> (request: (Filter, Plan))
        ensures
            request.0 == Filter::CursorPosition,
            request.1.performs(
                write_and_flush_steps(seq![Output::Escape(Escape::RequestCursorPosition)]),
            ),
            request.1.on_failure == OnFailure::Stop,
    {
        let mut out = Transcript::new();
        out.escape(Escape::RequestCursorPosition);
        assert(out@ == seq![Output::Escape(Escape::RequestCursorPosition)]);
        (Filter::CursorPosition, write_and_flush_plan(out))
    }

    /// Moves the cursor to column `x` of line `y`.
    pub fn set_cursor(&self, x: u16, y: u16) -> (plan: Plan)
        requires
            x < u16::MAX,
            y < u16::MAX,
        ensures
            plan.performs(write_and_flush_steps(set_cursor_outputs(x, y))),
            plan.on_failure == OnFailure::Stop,
    {
        let mut out = Transcript::new();
        out.escape(Escape::MoveTo { x, y });
        assert(out@ == set_cursor_outputs(x, y));
        write_and_flush_plan(out)
    }

    /// Clears the screen.
    pub fn clear(&self) -> (plan: Plan)
        ensures
            plan.performs(write_and_flush_steps(seq![Output::Escape(Escape::EraseDisplay)])),
            plan.on_failure == OnFailure::Stop,
    {
        let mut out = Transcript::new();
        out.escape(Escape::EraseDisplay);
        assert(out@ == seq![Output::Escape(Escape::EraseDisplay)]);
        write_and_flush_plan(out)
    }

    /// Sends on what was written.
    pub fn flush(&self) -> (plan: Plan)
        ensures
            plan.performs(seq![Step::Flush]),
            plan.on_failure == OnFailure::Stop,
    {
        Plan { actions: vec![Action::Flush], on_failure: OnFailure::Stop }
    }

    /// The area of a terminal of so many rows and columns.
    pub fn size(&self, rows: u16, cols: u16) -> (area: Rect)
        ensures
            area == (Rect { x: 0, y: 0, width: cols, height: rows }),
    {
        Rect { x: 0, y: 0, width: cols, height: rows }
    }
}

/// The line and the column that a report of the cursor gives, counted from zero.
pub open spec fn position_of(report: Report) -> (int, int) {
    match report {
        Report::CursorPosition { line, col } => (line - 1, col - 1),
        _ => (0, 0),
    }
}

/// The line and the column that a report of the cursor gives, counted from zero.
pub fn cursor_position(report: &Report) -> (position: (u16, u16))
    requires
        report matches Report::CursorPosition { line, col } && line >= 1 && col >= 1,
    ensures
        (position.0 as int, position.1 as int) == position_of(*report),
{
    match report {
        Report::CursorPosition { line, col } => (*line - 1, *col - 1),
        _ => (0, 0),
    }
}

/// Switches the capture of the mouse on or off, where it is configured.
fn mouse_plan(config: Config, change: ModeChange) -> (plan: Plan)
    ensures
        plan.performs(mouse_steps(config, change)),
        plan.on_failure == OnFailure::Stop,
{
    if !config.enable_mouse_capture {
        return Plan::new();
    }
    let mut out = Transcript::new();
    out.escape(Escape::Mode(change, DecMode::MouseTracking));
    out.escape(Escape::Mode(change, DecMode::ButtonEventMouse));
    out.escape(Escape::Mode(change, DecMode::AnyEventMouse));
    out.escape(Escape::Mode(change, DecMode::RxvtMouse));
    out.escape(Escape::Mode(change, DecMode::SgrMouse));
    assert(out@ == mouse_outputs(change));
    write_plan(out)
}

} // verus!

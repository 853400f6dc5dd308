use termina_backend::backend::{
    cursor_position, is_new_vte, is_wezterm, Claim, Config, Environment, Findings, TerminaBackend,
    KEYBOARD_FLAGS,
};
use termina_backend::escape::{ColorTarget, DecMode, Sgr};
use termina_backend::plan::{Action, OnFailure, Plan};
use termina_backend::report::{test_color, Capabilities, Filter, ModeSetting, Report};
use termina_backend::style::{Cell, Color, CursorKind, Modifier, Rect, UnderlineStyle};
use termina_backend::terminfo::{
    reset_cursor_approach, reset_cursor_command, term_program, vte_version, CapabilityValue,
};
use termini::TermInfo;

const ENTER: &str = "\x1b[?1049h\x1b[?2004h\x1b[?1004h\x1b[2J";
const QUERY: &str =
    "\x1b[?u\x1b[?2026$p\x1b[48:2::59:34:76m\x1b[58:2::59:34:76m\x1bP$qm\x1b\\\x1b[m\x1b[c";
const MOUSE_ON: &str = "\x1b[?1000h\x1b[?1002h\x1b[?1003h\x1b[?1015h\x1b[?1006h";
const MOUSE_OFF: &str = "\x1b[?1000l\x1b[?1002l\x1b[?1003l\x1b[?1015l\x1b[?1006l";
const LEAVE: &str = "\x1b[?2004l\x1b[?1004l\x1b[?1049l";

fn config(mouse: bool, underlines: bool) -> Config {
    Config { enable_mouse_capture: mouse, force_enable_extended_underlines: underlines }
}

fn write(text: &str) -> Action {
    Action::Write(text.to_string())
}

fn stop(actions: Vec<Action>) -> Plan {
    Plan { actions, on_failure: OnFailure::Stop }
}

fn le(n: u16) -> [u8; 2] {
    n.to_le_bytes()
}

/// A compiled terminal description with a `cnorm` string, flags and strings among its
/// extended capabilities.
fn description(cnorm: Option<&str>, flags: &[&str], strings: &[(&str, &[u8])]) -> TermInfo {
    let mut bytes: Vec<u8> = Vec::new();
    let mut table: Vec<u8> = Vec::new();
    if let Some(text) = cnorm {
        table.extend(text.as_bytes());
        table.push(0);
    }
    for n in [0x11a, 2, 0, 0, 17, table.len() as u16] {
        bytes.extend(le(n));
    }
    bytes.extend(b"t\0");
    for _ in 0..16 {
        bytes.extend(le(0xffff));
    }
    bytes.extend(le(if cnorm.is_some() { 0 } else { 0xffff }));
    bytes.extend(&table);
    if table.len() % 2 == 1 {
        bytes.push(0);
    }
    let mut values: Vec<u8> = Vec::new();
    let mut offsets: Vec<u16> = Vec::new();
    for (_, value) in strings {
        offsets.push(values.len() as u16);
        values.extend(*value);
        values.push(0);
    }
    if strings.is_empty() {
        values.push(0);
    }
    let mut names: Vec<u8> = Vec::new();
    for name in flags.iter().copied().chain(strings.iter().map(|s| s.0)) {
        offsets.push(names.len() as u16);
        names.extend(name.as_bytes());
        names.push(0);
    }
    let size = (values.len() + names.len()) as u16;
    for n in [flags.len() as u16, 0, strings.len() as u16, offsets.len() as u16, size] {
        bytes.extend(le(n));
    }
    for _ in flags {
        bytes.push(1);
    }
    if flags.len() % 2 == 1 {
        bytes.push(0);
    }
    for offset in offsets {
        bytes.extend(le(offset));
    }
    bytes.extend(values);
    bytes.extend(names);
    TermInfo::parse(bytes.as_slice()).unwrap()
}

fn environment(info: TermInfo) -> Environment {
    Environment { info, vte_version: None, term_program: None, term: None }
}

/// A backend whose terminal has answered with these reports.
fn claimed(config: Config, reports: &[Report], environment: Option<Environment>) -> TerminaBackend<()> {
    let mut backend = TerminaBackend::new((), config);
    let mut claim = backend.claim().0;
    for report in reports {
        assert_eq!(claim.filter(), Some(Filter::Escape));
        claim = claim.on_report(report).0;
    }
    match claim.on_report(&Report::DeviceAttributes).0 {
        Claim::Environment(detected) => {
            backend.on_environment(detected, environment);
        }
        other => panic!("{:?}", other),
    }
    backend
}

fn all_reports() -> Vec<Report> {
    vec![
        Report::KeyboardFlags(0),
        Report::PrivateMode { mode: Some(DecMode::SynchronizedOutput), setting: ModeSetting::Off },
        Report::GraphicRendition(vec![
            None,
            Some(Sgr::Color(ColorTarget::Background, test_color())),
            Some(Sgr::Color(ColorTarget::Underline, test_color())),
        ]),
    ]
}

#[test]
fn a_new_backend_holds_its_terminal() {
    let mut backend = TerminaBackend::new(String::from("tty"), config(false, false));
    assert_eq!(backend.terminal(), "tty");
    backend.terminal_mut().push('1');
    assert_eq!(backend.terminal(), "tty1");
    assert!(!backend.is_detected());
    assert_eq!(
        backend.restore(),
        stop(vec![write(&format!("\x1b[0 q{}", LEAVE)), Action::Flush, Action::ResetMode])
    );
}

#[test]
fn a_first_claim_asks_what_the_terminal_can_do() {
    let backend = TerminaBackend::new((), config(true, false));
    let (claim, plan) = backend.claim();
    assert_eq!(claim, Claim::Reports(Capabilities::default()));
    assert_eq!(
        plan,
        stop(vec![
            Action::EnterRawMode,
            write(ENTER),
            write(MOUSE_ON),
            write(QUERY),
            Action::Flush,
        ])
    );
    let backend = TerminaBackend::new((), config(false, false));
    assert_eq!(
        backend.claim().1,
        stop(vec![Action::EnterRawMode, write(ENTER), write(QUERY), Action::Flush])
    );
}

#[test]
fn a_later_claim_asks_no_more() {
    let backend = claimed(config(false, false), &[], None);
    assert!(backend.detect_terminal_capabilities_and_state().is_none());
    assert_eq!(backend.claim(), (Claim::Done, stop(vec![Action::EnterRawMode, write(ENTER)])));
    let backend = claimed(config(false, false), &all_reports(), None);
    assert_eq!(
        backend.claim(),
        (
            Claim::Flags,
            stop(vec![Action::EnterRawMode, write(ENTER), write("\x1b[>5u\x1b[?u"), Action::Flush])
        )
    );
}

#[test]
fn device_attributes_alone_show_nothing() {
    let backend = claimed(config(false, false), &[], None);
    assert_eq!(backend.capabilities(), Capabilities::default());
}

#[test]
fn each_report_shows_its_feature() {
    let backend = claimed(config(false, false), &all_reports(), None);
    assert_eq!(
        backend.capabilities(),
        Capabilities {
            kitty_keyboard: true,
            synchronized_output: true,
            true_color: true,
            extended_underlines: true,
        }
    );
}

#[test]
fn reports_that_show_nothing() {
    let reports = [
        Report::PrivateMode {
            mode: Some(DecMode::SynchronizedOutput),
            setting: ModeSetting::NotRecognized,
        },
        Report::PrivateMode {
            mode: Some(DecMode::SynchronizedOutput),
            setting: ModeSetting::PermanentlyOn,
        },
        Report::PrivateMode {
            mode: Some(DecMode::SynchronizedOutput),
            setting: ModeSetting::PermanentlyOff,
        },
        Report::PrivateMode { mode: Some(DecMode::BracketedPaste), setting: ModeSetting::On },
        Report::PrivateMode { mode: None, setting: ModeSetting::On },
        Report::GraphicRendition(vec![Some(Sgr::Color(ColorTarget::Foreground, test_color()))]),
        Report::CursorPosition { line: 1, col: 1 },
        Report::OtherEscape,
    ];
    let backend = claimed(config(false, false), &reports, None);
    assert_eq!(backend.capabilities(), Capabilities::default());
}

#[test]
fn the_last_rendition_decides() {
    let mut reports = all_reports();
    reports.push(Report::GraphicRendition(vec![Some(Sgr::Reset)]));
    let capabilities = claimed(config(false, false), &reports, None).capabilities();
    assert!(capabilities.kitty_keyboard);
    assert!(!capabilities.true_color);
    assert!(!capabilities.extended_underlines);
}

#[test]
fn filters_take_what_they_wait_for() {
    let flags = Report::KeyboardFlags(0);
    let cursor = Report::CursorPosition { line: 1, col: 1 };
    assert!(Filter::Escape.accepts(&flags));
    assert!(Filter::Escape.accepts(&Report::OtherEscape));
    assert!(!Filter::Escape.accepts(&Report::Input));
    assert!(Filter::KeyboardFlags.accepts(&flags));
    assert!(!Filter::KeyboardFlags.accepts(&cursor));
    assert!(Filter::CursorPosition.accepts(&cursor));
    assert!(!Filter::CursorPosition.accepts(&Report::DeviceAttributes));
}

#[test]
fn extensions_follow_the_detection() {
    let mut backend = TerminaBackend::new((), config(false, false));
    let detected = Capabilities { kitty_keyboard: true, ..Capabilities::default() };
    let (claim, plan) = backend.on_environment(detected, None);
    assert_eq!(claim, Claim::Flags);
    assert_eq!(claim.filter(), Some(Filter::KeyboardFlags));
    assert_eq!(plan, stop(vec![write("\x1b[>5u\x1b[?u"), Action::Flush]));
    let (claim, plan) = backend.on_environment(Capabilities::default(), None);
    assert_eq!(claim, Claim::Done);
    assert_eq!(claim.filter(), None);
    assert_eq!(plan, stop(vec![]));
}

#[test]
fn other_keyboard_flags_are_taken_off() {
    assert_eq!(
        Claim::Flags.on_report(&Report::KeyboardFlags(KEYBOARD_FLAGS)),
        (Claim::Done, stop(vec![]))
    );
    assert_eq!(
        Claim::Flags.on_report(&Report::KeyboardFlags(1)),
        (Claim::Done, stop(vec![write("\x1b[<1u"), Action::Flush]))
    );
}

#[test]
fn underlines_by_force() {
    assert!(claimed(config(false, true), &[], None).capabilities().extended_underlines);
}

#[test]
fn underlines_by_description() {
    let by = |info| claimed(config(false, false), &[], Some(environment(info)));
    assert!(!by(description(None, &[], &[])).capabilities().extended_underlines);
    assert!(!by(description(None, &["AX"], &[])).capabilities().extended_underlines);
    assert!(by(description(None, &["Su"], &[])).capabilities().extended_underlines);
    assert!(by(description(None, &[], &[("Smulx", b"\x1b[4:%p1%dm")])).capabilities().extended_underlines);
}

#[test]
fn underlines_by_program() {
    let by = |vte: Option<&str>, program: Option<&str>, term: Option<&str>| {
        let environment = Environment {
            info: description(None, &[], &[]),
            vte_version: vte.map(|s| s.to_string()),
            term_program: program.map(|s| s.to_string()),
            term: term.map(|s| s.to_string()),
        };
        claimed(config(false, false), &[], Some(environment)).capabilities().extended_underlines
    };
    assert!(!by(None, None, None));
    assert!(by(Some("5102"), None, None));
    assert!(by(Some("7600"), None, None));
    assert!(!by(Some("5101"), None, None));
    assert!(!by(Some("new"), None, None));
    assert!(by(None, Some("WezTerm"), None));
    assert!(by(None, None, Some("WezTerm")));
    assert!(!by(None, Some("xterm"), Some("WezTerm")));
    assert!(!by(None, Some("wezterm"), None));
}

#[test]
fn the_environment_is_looked_up() {
    let findings = environment(description(Some("N"), &["Su"], &[("Se", b"S")])).look_up();
    assert!(findings.extended_underlines);
    assert_eq!(findings.reset_cursor_command, "\x1b[0 qSN");
    let findings = environment(description(None, &["Tc"], &[])).look_up();
    assert!(!findings.extended_underlines);
    assert_eq!(findings.reset_cursor_command, "\x1b[0 q");
}

#[test]
fn findings_settle_the_capabilities() {
    let mut backend = TerminaBackend::new((), config(false, false));
    let findings =
        Findings { extended_underlines: true, reset_cursor_command: String::from("R") };
    let (claim, plan) = backend.settle(Capabilities::default(), Some(findings));
    assert_eq!(claim, Claim::Done);
    assert_eq!(plan, stop(vec![]));
    assert_eq!(
        backend.capabilities(),
        Capabilities { extended_underlines: true, ..Capabilities::default() }
    );
    assert_eq!(
        backend.restore(),
        stop(vec![write(&format!("R{}", LEAVE)), Action::Flush, Action::ResetMode])
    );
    let mut backend = TerminaBackend::new((), config(false, false));
    let (claim, _) = backend
        .settle(Capabilities { kitty_keyboard: true, ..Capabilities::default() }, None);
    assert_eq!(claim, Claim::Flags);
    assert!(!backend.capabilities().extended_underlines);
}

#[test]
fn programs_known_for_their_underlines() {
    assert!(!is_new_vte(None));
    assert!(!is_new_vte(Some(5101)));
    assert!(is_new_vte(Some(5102)));
    assert!(!is_wezterm(&None));
    assert!(!is_wezterm(&Some(String::from("wezterm"))));
    assert!(is_wezterm(&Some(String::from("WezTerm"))));
}

#[test]
fn vte_versions() {
    let of = |text: &str| vte_version(&Some(text.to_string()));
    assert_eq!(vte_version(&None), None);
    assert_eq!(of("0"), Some(0));
    assert_eq!(of("+5102"), Some(5102));
    assert_eq!(of("0007"), Some(7));
    for text in ["", "+", "-1", " 1", "1 ", "1_000", "0x10", "99999999999999999999999999"] {
        assert_eq!(of(text), None);
    }
}

#[test]
fn term_programs() {
    let a = || Some("a".to_string());
    let b = || Some("b".to_string());
    assert_eq!(term_program(a(), b()), a());
    assert_eq!(term_program(None, b()), b());
    assert_eq!(term_program(None, None), None);
}

#[test]
fn the_description_resets_the_cursor() {
    let reset = |info: &TermInfo| reset_cursor_approach(info);
    assert_eq!(reset(&description(None, &[], &[])), "\x1b[0 q");
    assert_eq!(reset(&description(Some("\x1b[?25h"), &[], &[])), "\x1b[0 q\x1b[?25h");
    assert_eq!(
        reset(&description(Some("\x1b[?25h"), &["AX"], &[("Se", b"\x1b[2 q")])),
        "\x1b[0 q\x1b[2 q\x1b[?25h"
    );
    assert_eq!(reset(&description(None, &["Se"], &[])), "\x1b[0 q");
    assert_eq!(reset(&description(None, &[], &[("Se", b"\xff\xfe")])), "\x1b[0 q");
}

#[test]
fn only_text_resets_the_cursor() {
    let se = |value| reset_cursor_command(&Some(value), &Some("n".to_string()));
    assert_eq!(se(CapabilityValue::Text("s".to_string())), "\x1b[0 qsn");
    assert_eq!(se(CapabilityValue::Flag), "\x1b[0 qn");
    assert_eq!(se(CapabilityValue::Number(3)), "\x1b[0 qn");
    assert_eq!(se(CapabilityValue::Raw(vec![1])), "\x1b[0 qn");
    assert_eq!(reset_cursor_command(&None, &None), "\x1b[0 q");
}

#[test]
fn restore_gives_everything_back() {
    let info = description(Some("\x1b[?25h"), &[], &[("Se", b"\x1b[2 q")]);
    let backend = claimed(config(true, false), &[], Some(environment(info)));
    let actions = || {
        vec![
            write(MOUSE_OFF),
            write(&format!("\x1b[0 q\x1b[2 q\x1b[?25h{}", LEAVE)),
            Action::Flush,
            Action::ResetMode,
        ]
    };
    assert_eq!(backend.restore(), stop(actions()));
    assert_eq!(backend.on_drop(), Plan { actions: actions(), on_failure: OnFailure::Continue });
}

#[test]
fn mouse_capture_is_a_setting() {
    let on = TerminaBackend::new((), config(true, false));
    assert_eq!(on.enable_mouse_capture(), stop(vec![write(MOUSE_ON)]));
    assert_eq!(on.disable_mouse_capture(), stop(vec![write(MOUSE_OFF)]));
    let off = TerminaBackend::new((), config(false, false));
    assert_eq!(off.enable_mouse_capture(), stop(vec![]));
    assert_eq!(off.disable_mouse_capture(), stop(vec![]));
}

#[test]
fn reconfiguration_switches_the_mouse_on() {
    let mut backend = claimed(config(false, false), &[], None);
    assert_eq!(backend.reconfigure(config(false, false)), stop(vec![]));
    assert_eq!(backend.reconfigure(config(true, false)), stop(vec![write(MOUSE_ON)]));
    assert_eq!(backend.reconfigure(config(true, true)), stop(vec![]));
    assert!(!backend.capabilities().extended_underlines);
    assert_eq!(backend.disable_mouse_capture(), stop(vec![write(MOUSE_OFF)]));
    assert_eq!(backend.reconfigure(config(false, true)), stop(vec![]));
}

#[test]
fn frames_follow_the_capabilities() {
    let cell = Cell {
        symbol: "a".to_string(),
        fg: Color::Reset,
        bg: Color::Reset,
        underline_color: Color::Blue,
        underline_style: UnderlineStyle::Line,
        modifier: Modifier::empty(),
    };
    let backend = claimed(config(false, false), &[], None);
    assert_eq!(backend.draw(&[(0, 0, &cell)]), stop(vec![write("\x1b[1;1H\x1b[4ma\x1b[m")]));
    let backend = claimed(config(false, false), &all_reports(), None);
    assert_eq!(
        backend.draw(&[(0, 0, &cell)]),
        stop(vec![write("\x1b[?2026h\x1b[1;1H\x1b[58:5:4m\x1b[4ma\x1b[m\x1b[?2026l")])
    );
}

#[test]
fn cursor_commands() {
    let backend = TerminaBackend::new((), config(false, false));
    let sent = |text: &str| stop(vec![write(text), Action::Flush]);
    assert_eq!(backend.hide_cursor(), sent("\x1b[?25l"));
    assert_eq!(backend.show_cursor(CursorKind::Block), sent("\x1b[?25h\x1b[2 q"));
    assert_eq!(backend.show_cursor(CursorKind::Bar), sent("\x1b[?25h\x1b[6 q"));
    assert_eq!(backend.show_cursor(CursorKind::Underline), sent("\x1b[?25h\x1b[4 q"));
    assert_eq!(backend.set_cursor(4, 7), sent("\x1b[8;5H"));
    assert_eq!(backend.get_cursor(), (Filter::CursorPosition, sent("\x1b[6n")));
    assert_eq!(backend.clear(), sent("\x1b[2J"));
    assert_eq!(backend.flush(), stop(vec![Action::Flush]));
}

#[test]
fn a_cursor_report_reads_line_then_column() {
    assert_eq!(cursor_position(&Report::CursorPosition { line: 8, col: 5 }), (7, 4));
    assert_eq!(cursor_position(&Report::CursorPosition { line: 1, col: 65535 }), (0, 65534));
}

#[test]
fn the_size_is_an_area_at_the_origin() {
    let backend = TerminaBackend::new((), config(false, false));
    assert_eq!(backend.size(24, 80), Rect { x: 0, y: 0, width: 80, height: 24 });
}

/// Follows the private modes that a plan switches on and off.
fn follow(modes: &mut Vec<u32>, plan: &Plan) {
    for action in &plan.actions {
        if let Action::Write(text) = action {
            for part in text.split("\x1b[?").skip(1) {
                let digits: String = part.chars().take_while(|c| c.is_ascii_digit()).collect();
                let Ok(mode) = digits.parse::<u32>() else { continue };
                match part[digits.len()..].chars().next() {
                    Some('h') => {
                        if !modes.contains(&mode) {
                            modes.push(mode);
                        }
                    }
                    Some('l') => modes.retain(|m| *m != mode),
                    _ => (),
                }
            }
        }
    }
}

#[test]
fn a_session_leaves_the_modes_as_they_were() {
    let cell = Cell {
        symbol: String::from("a"),
        fg: Color::Red,
        bg: Color::Reset,
        underline_color: Color::Reset,
        underline_style: UnderlineStyle::Curl,
        modifier: Modifier::from_bits(Modifier::BOLD),
    };
    let mut backend = claimed(config(false, false), &all_reports(), None);
    let mut modes: Vec<u32> = vec![7, 25];
    follow(&mut modes, &backend.claim().1);
    assert_eq!(modes, vec![7, 25, 1049, 2004, 1004]);
    follow(&mut modes, &backend.draw(&[(0, 0, &cell)]));
    follow(&mut modes, &backend.hide_cursor());
    assert_eq!(modes, vec![7, 1049, 2004, 1004]);
    follow(&mut modes, &backend.reconfigure(config(true, false)));
    assert_eq!(modes, vec![7, 1049, 2004, 1004, 1000, 1002, 1003, 1015, 1006]);
    follow(&mut modes, &backend.set_cursor(3, 4));
    follow(&mut modes, &backend.clear());
    follow(&mut modes, &backend.show_cursor(CursorKind::Bar));
    follow(&mut modes, &backend.restore());
    assert_eq!(modes, vec![7, 25]);
}

#[test]
fn ending_the_capture_leaves_it_to_the_terminal() {
    let mut backend = claimed(config(true, false), &all_reports(), None);
    let mut modes: Vec<u32> = vec![];
    follow(&mut modes, &backend.claim().1);
    follow(&mut modes, &backend.reconfigure(config(false, false)));
    follow(&mut modes, &backend.restore());
    assert_eq!(modes, vec![1000, 1002, 1003, 1015, 1006]);
}

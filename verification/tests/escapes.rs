use termina_backend::escape::{
    ColorTarget, DecMode, Escape, Keyboard, ModeChange, Sgr, Switch,
};
use termina_backend::style::{
    Blink, Color, ColorSpec, CursorStyle, Intensity, Underline, UnderlineStyle,
};

fn sgr(sgr: Sgr) -> String {
    Escape::Sgr(sgr).render()
}

#[test]
fn modes_are_set_reset_and_queried() {
    let cases = [
        (DecMode::ShowCursor, 25),
        (DecMode::MouseTracking, 1000),
        (DecMode::ButtonEventMouse, 1002),
        (DecMode::AnyEventMouse, 1003),
        (DecMode::FocusTracking, 1004),
        (DecMode::SgrMouse, 1006),
        (DecMode::RxvtMouse, 1015),
        (DecMode::ClearAndEnableAlternateScreen, 1049),
        (DecMode::BracketedPaste, 2004),
        (DecMode::SynchronizedOutput, 2026),
    ];
    for (mode, code) in cases {
        assert_eq!(Escape::Mode(ModeChange::Enable, mode).render(), format!("\x1b[?{}h", code));
        assert_eq!(Escape::Mode(ModeChange::Disable, mode).render(), format!("\x1b[?{}l", code));
        assert_eq!(Escape::Mode(ModeChange::Query, mode).render(), format!("\x1b[?{}$p", code));
    }
}

#[test]
fn positions_count_from_one_and_name_the_line_first() {
    assert_eq!(Escape::MoveTo { x: 0, y: 0 }.render(), "\x1b[1;1H");
    assert_eq!(Escape::MoveTo { x: 9, y: 2 }.render(), "\x1b[3;10H");
    assert_eq!(Escape::MoveTo { x: 65534, y: 99 }.render(), "\x1b[100;65535H");
}

#[test]
fn cursor_styles() {
    assert_eq!(Escape::CursorStyle(CursorStyle::Default).render(), "\x1b[0 q");
    assert_eq!(Escape::CursorStyle(CursorStyle::SteadyBlock).render(), "\x1b[2 q");
    assert_eq!(Escape::CursorStyle(CursorStyle::SteadyUnderline).render(), "\x1b[4 q");
    assert_eq!(Escape::CursorStyle(CursorStyle::SteadyBar).render(), "\x1b[6 q");
}

#[test]
fn requests_and_erasure() {
    assert_eq!(Escape::RequestCursorPosition.render(), "\x1b[6n");
    assert_eq!(Escape::EraseDisplay.render(), "\x1b[2J");
    assert_eq!(Escape::RequestGraphicRendition.render(), "\x1bP$qm\x1b\\");
    assert_eq!(Escape::RequestDeviceAttributes.render(), "\x1b[c");
}

#[test]
fn keyboard_commands() {
    assert_eq!(Escape::Keyboard(Keyboard::QueryFlags).render(), "\x1b[?u");
    assert_eq!(Escape::Keyboard(Keyboard::PushFlags(5)).render(), "\x1b[>5u");
    assert_eq!(Escape::Keyboard(Keyboard::PushFlags(200)).render(), "\x1b[>200u");
    assert_eq!(Escape::Keyboard(Keyboard::PopFlags(1)).render(), "\x1b[<1u");
}

#[test]
fn plain_rendition_changes() {
    assert_eq!(sgr(Sgr::Reset), "\x1b[m");
    assert_eq!(sgr(Sgr::Intensity(Intensity::Normal)), "\x1b[22m");
    assert_eq!(sgr(Sgr::Intensity(Intensity::Bold)), "\x1b[1m");
    assert_eq!(sgr(Sgr::Intensity(Intensity::Dim)), "\x1b[2m");
    assert_eq!(sgr(Sgr::Blink(Blink::Off)), "\x1b[25m");
    assert_eq!(sgr(Sgr::Blink(Blink::Slow)), "\x1b[5m");
    assert_eq!(sgr(Sgr::Blink(Blink::Rapid)), "\x1b[6m");
    assert_eq!(sgr(Sgr::Switch(Switch::Italic, true)), "\x1b[3m");
    assert_eq!(sgr(Sgr::Switch(Switch::Italic, false)), "\x1b[23m");
    assert_eq!(sgr(Sgr::Switch(Switch::Reverse, true)), "\x1b[7m");
    assert_eq!(sgr(Sgr::Switch(Switch::Reverse, false)), "\x1b[27m");
    assert_eq!(sgr(Sgr::Switch(Switch::Invisible, true)), "\x1b[8m");
    assert_eq!(sgr(Sgr::Switch(Switch::Invisible, false)), "\x1b[28m");
    assert_eq!(sgr(Sgr::Switch(Switch::StrikeThrough, true)), "\x1b[9m");
    assert_eq!(sgr(Sgr::Switch(Switch::StrikeThrough, false)), "\x1b[29m");
}

#[test]
fn underlines() {
    let cases = [
        (UnderlineStyle::Reset, Underline::Off, "\x1b[24m"),
        (UnderlineStyle::Line, Underline::Single, "\x1b[4m"),
        (UnderlineStyle::DoubleLine, Underline::Double, "\x1b[21m"),
        (UnderlineStyle::Curl, Underline::Curly, "\x1b[4:3m"),
        (UnderlineStyle::Dotted, Underline::Dotted, "\x1b[4:4m"),
        (UnderlineStyle::Dashed, Underline::Dashed, "\x1b[4:5m"),
    ];
    for (style, underline, text) in cases {
        assert_eq!(style.to_underline(), underline);
        assert_eq!(sgr(Sgr::Underline(underline)), text);
    }
}

#[test]
fn colors_by_target() {
    let fg = |color| sgr(Sgr::Color(ColorTarget::Foreground, color));
    let bg = |color| sgr(Sgr::Color(ColorTarget::Background, color));
    let line = |color| sgr(Sgr::Color(ColorTarget::Underline, color));
    assert_eq!(fg(ColorSpec::Reset), "\x1b[39m");
    assert_eq!(bg(ColorSpec::Reset), "\x1b[49m");
    assert_eq!(line(ColorSpec::Reset), "\x1b[59m");
    for i in 0u8..8 {
        assert_eq!(fg(ColorSpec::PaletteIndex(i)), format!("\x1b[{}m", 30 + i));
        assert_eq!(bg(ColorSpec::PaletteIndex(i)), format!("\x1b[{}m", 40 + i));
        assert_eq!(fg(ColorSpec::PaletteIndex(8 + i)), format!("\x1b[{}m", 90 + i));
        assert_eq!(bg(ColorSpec::PaletteIndex(8 + i)), format!("\x1b[{}m", 100 + i));
        assert_eq!(line(ColorSpec::PaletteIndex(i)), format!("\x1b[58:5:{}m", i));
    }
    for i in 16u8..=255 {
        assert_eq!(fg(ColorSpec::PaletteIndex(i)), format!("\x1b[38:5:{}m", i));
        assert_eq!(bg(ColorSpec::PaletteIndex(i)), format!("\x1b[48:5:{}m", i));
    }
    let opaque = ColorSpec::TrueColor { red: 1, green: 20, blue: 255, alpha: 255 };
    assert_eq!(fg(opaque), "\x1b[38:2::1:20:255m");
    assert_eq!(bg(opaque), "\x1b[48:2::1:20:255m");
    assert_eq!(line(opaque), "\x1b[58:2::1:20:255m");
    let sheer = ColorSpec::TrueColor { red: 1, green: 2, blue: 3, alpha: 128 };
    assert_eq!(fg(sheer), "\x1b[38:6::1:2:3:128m");
    assert_eq!(line(sheer), "\x1b[58:6::1:2:3:128m");
}

#[test]
fn theme_colors() {
    let cases = [
        (Color::Black, 0),
        (Color::Red, 1),
        (Color::Green, 2),
        (Color::Yellow, 3),
        (Color::Blue, 4),
        (Color::Magenta, 5),
        (Color::Cyan, 6),
        (Color::LightGray, 7),
        (Color::Gray, 8),
        (Color::LightRed, 9),
        (Color::LightGreen, 10),
        (Color::LightYellow, 11),
        (Color::LightBlue, 12),
        (Color::LightMagenta, 13),
        (Color::LightCyan, 14),
        (Color::White, 15),
        (Color::Indexed(200), 200),
    ];
    for (color, index) in cases {
        assert_eq!(color.to_color_spec(), ColorSpec::PaletteIndex(index));
    }
    assert_eq!(Color::Reset.to_color_spec(), ColorSpec::Reset);
    assert_eq!(
        Color::Rgb(1, 2, 3).to_color_spec(),
        ColorSpec::TrueColor { red: 1, green: 2, blue: 3, alpha: 255 }
    );
}

use termina_backend::frame::{frame_text, is_drawable};
use termina_backend::modifiers::ModifierDiff;
use termina_backend::style::{Cell, Color, Modifier, UnderlineStyle};

fn plain(symbol: &str) -> Cell {
    Cell {
        symbol: symbol.to_string(),
        fg: Color::Reset,
        bg: Color::Reset,
        underline_color: Color::Reset,
        underline_style: UnderlineStyle::Reset,
        modifier: Modifier::empty(),
    }
}

fn diff(from: u16, to: u16) -> String {
    ModifierDiff { from: Modifier::from_bits(from), to: Modifier::from_bits(to) }.to_text()
}

#[test]
fn modifiers_that_stay_need_nothing() {
    assert_eq!(diff(0, 0), "");
    assert_eq!(diff(0x1f7, 0x1f7), "");
}

#[test]
fn modifiers_are_added_in_order() {
    assert_eq!(diff(0, 0x1f7), "\x1b[7m\x1b[1m\x1b[2m\x1b[3m\x1b[9m\x1b[8m\x1b[5m\x1b[6m");
}

#[test]
fn modifiers_are_removed_in_order() {
    assert_eq!(diff(0x1f7, 0), "\x1b[27m\x1b[22m\x1b[23m\x1b[29m\x1b[28m\x1b[25m");
}

#[test]
fn removals_come_before_additions() {
    assert_eq!(diff(Modifier::BOLD, Modifier::DIM), "\x1b[22m\x1b[2m");
    assert_eq!(diff(Modifier::ITALIC, Modifier::REVERSED), "\x1b[23m\x1b[7m");
    assert_eq!(diff(Modifier::SLOW_BLINK, Modifier::RAPID_BLINK), "\x1b[25m\x1b[6m");
}

#[test]
fn dropping_one_of_bold_and_dim_ends_both() {
    assert_eq!(diff(Modifier::BOLD | Modifier::DIM, Modifier::DIM), "\x1b[22m");
    assert_eq!(diff(Modifier::SLOW_BLINK | Modifier::RAPID_BLINK, Modifier::SLOW_BLINK), "\x1b[25m");
}

#[test]
fn modifier_sets() {
    let set = Modifier::from_bits(Modifier::BOLD | Modifier::HIDDEN);
    assert!(set.contains(Modifier::BOLD));
    assert!(set.contains(Modifier::BOLD | Modifier::HIDDEN));
    assert!(!set.contains(Modifier::DIM));
    assert!(!set.contains(Modifier::BOLD | Modifier::DIM));
    assert_eq!(set.difference(Modifier::from_bits(Modifier::BOLD)).bits, Modifier::HIDDEN);
}

#[test]
fn an_empty_frame_resets_the_style() {
    assert_eq!(frame_text(false, true, &[]), "\x1b[m");
    assert_eq!(frame_text(true, true, &[]), "\x1b[?2026h\x1b[m\x1b[?2026l");
}

#[test]
fn neighbours_share_one_move() {
    let (a, b, c) = (plain("a"), plain("b"), plain("c"));
    let content = [(3u16, 2u16, &a), (4, 2, &b), (5, 3, &c)];
    assert_eq!(frame_text(false, true, &content), "\x1b[3;4Hab\x1b[4;6Hc\x1b[m");
}

#[test]
fn a_cell_further_on_is_moved_to() {
    let (a, b) = (plain("a"), plain("b"));
    assert_eq!(frame_text(false, true, &[(0, 0, &a), (2, 0, &b)]), "\x1b[1;1Ha\x1b[1;3Hb\x1b[m");
    assert_eq!(frame_text(false, true, &[(1, 0, &a), (0, 0, &b)]), "\x1b[1;2Ha\x1b[1;1Hb\x1b[m");
}

#[test]
fn style_is_sent_where_it_changes() {
    let mut a = plain("a");
    a.fg = Color::Red;
    a.bg = Color::Indexed(100);
    a.modifier = Modifier::from_bits(Modifier::BOLD);
    let mut b = plain("b");
    b.fg = Color::Red;
    b.bg = Color::Rgb(1, 2, 3);
    b.modifier = Modifier::from_bits(Modifier::BOLD);
    assert_eq!(
        frame_text(false, true, &[(0, 0, &a), (1, 0, &b)]),
        "\x1b[1;1H\x1b[1m\x1b[31m\x1b[48:5:100ma\x1b[48:2::1:2:3mb\x1b[m"
    );
}

#[test]
fn extended_underlines_are_styled_and_colored() {
    let mut a = plain("a");
    a.underline_style = UnderlineStyle::Curl;
    a.underline_color = Color::Red;
    let mut b = plain("b");
    b.underline_style = UnderlineStyle::Dotted;
    b.underline_color = Color::Red;
    let c = plain("c");
    assert_eq!(
        frame_text(false, true, &[(0, 0, &a), (1, 0, &b), (2, 0, &c)]),
        "\x1b[1;1H\x1b[58:5:1m\x1b[4:3ma\x1b[4:4mb\x1b[59m\x1b[24mc\x1b[m"
    );
}

#[test]
fn without_extended_underlines_a_line_stays_a_line() {
    let mut a = plain("a");
    a.underline_style = UnderlineStyle::Curl;
    a.underline_color = Color::Red;
    let mut b = plain("b");
    b.underline_style = UnderlineStyle::Dotted;
    let c = plain("c");
    assert_eq!(
        frame_text(false, false, &[(0, 0, &a), (1, 0, &b), (2, 0, &c)]),
        "\x1b[1;1H\x1b[4:3mab\x1b[24mc\x1b[m"
    );
}

#[test]
fn places_that_cannot_be_numbered() {
    let a = plain("a");
    assert!(is_drawable(&[]));
    assert!(is_drawable(&[(65533, 0, &a), (65534, 0, &a), (65535, 0, &a)]));
    assert!(!is_drawable(&[(65535, 0, &a)]));
    assert!(!is_drawable(&[(0, 65535, &a)]));
    assert!(!is_drawable(&[(65534, 0, &a), (65535, 0, &a), (0, 1, &a)]));
    assert!(is_drawable(&[(65534, 65534, &a), (0, 0, &a)]));
}

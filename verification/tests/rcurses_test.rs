use rustui::rcurses::input::{decode_key, parse_escape_sequence, Key};
use rustui::rcurses::term::{Attr, Color, Style};

#[test]
fn test_rcurses_key_classes() {
    assert!(Key::ArrowLeft.is_arrow());
    assert!(!Key::Home.is_arrow());
    assert!(Key::Escape.is_special());
    assert!(!Key::Char('x').is_special());
    assert!(!Key::Unknown.is_special());
    assert!(Key::Char('~').is_printable());
    assert!(!Key::Char('\u{7f}').is_printable());
    assert!(!Key::PageDown.is_printable());
}

#[test]
fn test_rcurses_parse_escape_sequence() {
    assert_eq!(parse_escape_sequence(b"\x1B[A", 3), Key::ArrowUp);
    assert_eq!(parse_escape_sequence(b"\x1B[D", 3), Key::ArrowLeft);
    assert_eq!(parse_escape_sequence(b"\x1BOH", 3), Key::Home);
    assert_eq!(parse_escape_sequence(b"\x1B[F", 3), Key::End);
    assert_eq!(parse_escape_sequence(b"\x1B[3~", 4), Key::Delete);
    assert_eq!(parse_escape_sequence(b"\x1B[6~", 4), Key::PageDown);
    assert_eq!(parse_escape_sequence(b"\x1B[", 2), Key::Escape);
    assert_eq!(parse_escape_sequence(b"\x1B[1~", 4), Key::Unknown);
}

#[test]
fn test_rcurses_decode_key() {
    assert_eq!(decode_key(b"a\0\0\0", 1), Key::Char('a'));
    assert_eq!(decode_key(b"\x1B[B\0", 3), Key::ArrowDown);
    assert_eq!(decode_key(b"\x1B\0\0\0", 1), Key::Escape);
    assert_eq!(decode_key(b"\xC3\xA9\0\0", 2), Key::Unknown);
}

#[test]
fn test_style_to_ansi() {
    assert_eq!(Style::new().to_ansi(), "\x1B[0m");
    let s = Style::default() | Attr::BOLD() | Color::Fg24(96);
    assert_eq!(s.to_ansi(), "\x1B[0;1;38;5;96m");
    let s = Style { attr: Attr::empty(), fg: Some(Color::Fg(3)), bg: Some(Color::Bg(4)) };
    assert_eq!(s.to_ansi(), "\x1B[33;44m");
    let s = Style { attr: Attr::empty(), fg: Some(Color::Fg(200)), bg: Some(Color::Bg(200)) };
    assert_eq!(s.to_ansi(), "\x1B[38;5;200m");
    let s = Style { attr: Attr::empty(), fg: None, bg: None };
    assert_eq!(s.to_ansi(), "\x1B[0m");
    let s = Style::new() | Attr::ITALIC() | Color::FgRgb(1, 2, 3) | Color::Bg24(235);
    assert_eq!(s.to_ansi(), "\x1B[0;3;48;5;235;38;2;1;2;3m");
    let s = Style { attr: Attr::all(), fg: None, bg: Some(Color::BgRgb(9, 8, 7)) };
    assert_eq!(s.to_ansi(), "\x1B[0;1;2;3;4;5;6;7;8;9;48;2;9;8;7m");
}

#[test]
fn test_style_bitor() {
    let s = Style::new() | Color::Fg(1) | Color::Fg24(5);
    assert_eq!(s.fg, Some(Color::Fg24(5)));
    assert_eq!(s.bg, None);
    let s = s | Color::BgRgb(1, 1, 1) | Attr::UNDERLINE();
    assert_eq!(s.bg, Some(Color::BgRgb(1, 1, 1)));
    assert_eq!(s.attr.bits(), 0b1_0001);
}

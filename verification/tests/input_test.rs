use rustui::input::{
    decode_input, mouse_report_overflows, parse_escape_sequence, parse_mouse_event, InputEvent,
    Key, MouseButton, MouseEvent,
};

#[test]
fn test_key_is_arrow() {
    // Arrow keys
    assert!(Key::ArrowUp.is_arrow());
    assert!(Key::ArrowDown.is_arrow());
    assert!(Key::ArrowLeft.is_arrow());
    assert!(Key::ArrowRight.is_arrow());

    // Not arrow keys
    assert!(!Key::Home.is_arrow());
    assert!(!Key::Char('a').is_arrow());
    assert!(!Key::F1.is_arrow());
    assert!(!Key::Unknown.is_arrow());
}

#[test]
fn test_key_is_special() {
    // Special keys
    assert!(Key::ArrowUp.is_special());
    assert!(Key::Home.is_special());
    assert!(Key::End.is_special());
    assert!(Key::F1.is_special());
    assert!(Key::PageUp.is_special());
    assert!(Key::Delete.is_special());
    assert!(Key::Escape.is_special());

    // Not special keys
    assert!(!Key::Char('a').is_special());
    assert!(!Key::Char(' ').is_special());
    assert!(!Key::Char('1').is_special());
    assert!(!Key::Unknown.is_special());
}

#[test]
fn test_key_is_printable() {
    // Printable characters
    assert!(Key::Char('a').is_printable());
    assert!(Key::Char('Z').is_printable());
    assert!(Key::Char('1').is_printable());
    assert!(Key::Char(' ').is_printable());
    assert!(Key::Char('!').is_printable());

    // Non-printable
    assert!(!Key::Char('\n').is_printable());
    assert!(!Key::Char('\t').is_printable());
    assert!(!Key::ArrowUp.is_printable());
    assert!(!Key::F1.is_printable());
    assert!(!Key::Unknown.is_printable());
}

#[test]
fn test_parse_mouse_event_press() {
    // Left mouse button press at (10, 20): \x1B[<0;10;20M
    let buf = b"\x1B[<0;10;20M";
    let result = parse_mouse_event(buf, buf.len());

    assert_eq!(
        result,
        Some(MouseEvent::Press {
            button: MouseButton::Left,
            x: 10,
            y: 20
        })
    );
}

#[test]
fn test_parse_mouse_event_release() {
    // Left mouse button release at (15, 25): \x1B[<0;15;25m
    let buf = b"\x1B[<0;15;25m";
    let result = parse_mouse_event(buf, buf.len());

    assert_eq!(
        result,
        Some(MouseEvent::Release {
            button: MouseButton::Left,
            x: 15,
            y: 25
        })
    );
}

#[test]
fn test_parse_mouse_event_wheel() {
    // Wheel up: \x1B[<64;5;5M
    let buf = b"\x1B[<64;5;5M";
    let result = parse_mouse_event(buf, buf.len());

    assert_eq!(
        result,
        Some(MouseEvent::Press {
            button: MouseButton::WheelUp,
            x: 5,
            y: 5
        })
    );

    // Wheel down: \x1B[<65;5;5M
    let buf = b"\x1B[<65;5;5M";
    let result = parse_mouse_event(buf, buf.len());

    assert_eq!(
        result,
        Some(MouseEvent::Press {
            button: MouseButton::WheelDown,
            x: 5,
            y: 5
        })
    );
}

#[test]
fn test_parse_mouse_event_invalid() {
    // Too short
    let buf = b"\x1B[<0";
    assert_eq!(parse_mouse_event(buf, buf.len()), None);

    // Wrong prefix
    let buf = b"\x1B[0;10;20M";
    assert_eq!(parse_mouse_event(buf, buf.len()), None);

    // Invalid end marker
    let buf = b"\x1B[<0;10;20X";
    assert_eq!(parse_mouse_event(buf, buf.len()), None);

    // Invalid format
    let buf = b"\x1B[<0;abc;20M";
    assert_eq!(parse_mouse_event(buf, buf.len()), None);
}

#[test]
fn test_parse_escape_sequence_arrow_keys() {
    // Arrow keys
    assert_eq!(
        parse_escape_sequence(b"\x1B[A", 3),
        InputEvent::Key(Key::ArrowUp)
    );
    assert_eq!(
        parse_escape_sequence(b"\x1B[B", 3),
        InputEvent::Key(Key::ArrowDown)
    );
    assert_eq!(
        parse_escape_sequence(b"\x1B[C", 3),
        InputEvent::Key(Key::ArrowRight)
    );
    assert_eq!(
        parse_escape_sequence(b"\x1B[D", 3),
        InputEvent::Key(Key::ArrowLeft)
    );
}

#[test]
fn test_parse_escape_sequence_function_keys() {
    // Function keys
    assert_eq!(
        parse_escape_sequence(b"\x1B[10~", 5),
        InputEvent::Key(Key::F0)
    );
    assert_eq!(
        parse_escape_sequence(b"\x1B[11~", 5),
        InputEvent::Key(Key::F1)
    );
    assert_eq!(
        parse_escape_sequence(b"\x1BOP", 4),
        InputEvent::Key(Key::F1)
    );
}

#[test]
fn test_parse_escape_sequence_navigation_keys() {
    // Home key variants
    assert_eq!(
        parse_escape_sequence(b"\x1B[H", 3),
        InputEvent::Key(Key::Home)
    );
    assert_eq!(
        parse_escape_sequence(b"\x1B[1~", 4),
        InputEvent::Key(Key::Home)
    );

    // End key variants
    assert_eq!(
        parse_escape_sequence(b"\x1B[F", 3),
        InputEvent::Key(Key::End)
    );
    assert_eq!(
        parse_escape_sequence(b"\x1B[4~", 4),
        InputEvent::Key(Key::End)
    );

    // Other navigation keys
    assert_eq!(
        parse_escape_sequence(b"\x1B[2~", 4),
        InputEvent::Key(Key::Insert)
    );
    assert_eq!(
        parse_escape_sequence(b"\x1B[3~", 4),
        InputEvent::Key(Key::Delete)
    );
    assert_eq!(
        parse_escape_sequence(b"\x1B[5~", 4),
        InputEvent::Key(Key::PageUp)
    );
    assert_eq!(
        parse_escape_sequence(b"\x1B[6~", 4),
        InputEvent::Key(Key::PageDown)
    );
}

#[test]
fn test_parse_escape_sequence_invalid() {
    // Too short sequence should return Escape
    assert_eq!(
        parse_escape_sequence(b"\x1B", 1),
        InputEvent::Key(Key::Escape)
    );
    assert_eq!(
        parse_escape_sequence(b"\x1B[", 2),
        InputEvent::Key(Key::Escape)
    );

    // Unknown sequence should return Unknown
    assert_eq!(
        parse_escape_sequence(b"\x1B[999~", 6),
        InputEvent::Key(Key::Unknown)
    );
}

#[test]
fn test_parse_escape_sequence_more_function_keys() {
    assert_eq!(parse_escape_sequence(b"\x1B[15~", 5), InputEvent::Key(Key::F5));
    assert_eq!(parse_escape_sequence(b"\x1B[17~", 5), InputEvent::Key(Key::F6));
    assert_eq!(parse_escape_sequence(b"\x1B[24~", 5), InputEvent::Key(Key::F12));
    assert_eq!(parse_escape_sequence(b"\x1B[34~", 5), InputEvent::Key(Key::F20));
    assert_eq!(parse_escape_sequence(b"\x1B[16~", 5), InputEvent::Key(Key::Unknown));
    assert_eq!(parse_escape_sequence(b"\x1BOS", 3), InputEvent::Key(Key::F4));
    assert_eq!(parse_escape_sequence(b"\x1BOX", 3), InputEvent::Key(Key::Unknown));
    assert_eq!(parse_escape_sequence(b"\x1BXY", 3), InputEvent::Unknown);
    // A malformed mouse report is an unknown event
    assert_eq!(parse_escape_sequence(b"\x1B[<1;2M", 7), InputEvent::Unknown);
    assert_eq!(
        parse_escape_sequence(b"\x1B[<2;3;4M", 9),
        InputEvent::Mouse(MouseEvent::Press { button: MouseButton::Right, x: 3, y: 4 })
    );
}

#[test]
fn test_parse_mouse_event_more() {
    // Middle button released
    let buf = b"\x1B[<1;7;8m";
    assert_eq!(
        parse_mouse_event(buf, buf.len()),
        Some(MouseEvent::Release { button: MouseButton::Middle, x: 7, y: 8 })
    );
    // Button code 3 (no button) is not an event
    let buf = b"\x1B[<3;7;8M";
    assert_eq!(parse_mouse_event(buf, buf.len()), None);
    // A fourth parameter is not accepted
    let buf = b"\x1B[<0;1;2;3M";
    assert_eq!(parse_mouse_event(buf, buf.len()), None);
    // The largest coordinates
    let buf = b"\x1B[<0;65535;65535M";
    assert_eq!(
        parse_mouse_event(buf, buf.len()),
        Some(MouseEvent::Press { button: MouseButton::Left, x: 65535, y: 65535 })
    );
}

#[test]
fn test_mouse_report_overflows() {
    let buf = b"\x1B[<0;65536;1M";
    assert!(mouse_report_overflows(buf, buf.len()));
    let buf = b"\x1B[<0;65535;1M";
    assert!(!mouse_report_overflows(buf, buf.len()));
    // Malformed before the large number: no overflow is reached
    let buf = b"\x1B[<0;x;99999999M";
    assert!(!mouse_report_overflows(buf, buf.len()));
    let buf = b"\x1B[0;99999999M";
    assert!(!mouse_report_overflows(buf, buf.len()));
}

#[test]
fn test_decode_input() {
    assert_eq!(decode_input(b"q", 1), InputEvent::Key(Key::Char('q')));
    assert_eq!(decode_input(b" ", 1), InputEvent::Key(Key::Char(' ')));
    assert_eq!(decode_input(b"\x01", 1), InputEvent::Key(Key::Ctrl('a')));
    assert_eq!(decode_input(b"\x1A", 1), InputEvent::Key(Key::Ctrl('z')));
    assert_eq!(decode_input(b"\x0D", 1), InputEvent::Key(Key::Enter));
    assert_eq!(decode_input(b"\x7F", 1), InputEvent::Key(Key::Unknown));
    assert_eq!(decode_input(b"\x00", 1), InputEvent::Key(Key::Unknown));
    assert_eq!(decode_input(b"\x1B", 1), InputEvent::Key(Key::Escape));
    assert_eq!(decode_input(b"\x1B[A", 3), InputEvent::Key(Key::ArrowUp));
}

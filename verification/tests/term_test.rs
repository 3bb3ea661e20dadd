use rustui::term::{csi, Cmd};

#[test]
fn test_csi_macro() {
    assert_eq!(csi("?25h"), "\x1B[?25h");
}

#[test]
fn test_cmd_sequences() {
    assert_eq!(Cmd::ShowCursor.sequence(), "\x1B[?25h");
    assert_eq!(Cmd::HideCursor.sequence(), "\x1B[?25l");
    assert_eq!(Cmd::ClearScreen.sequence(), "\x1B[2J");
    assert_eq!(Cmd::EnableAlternativeScreen.sequence(), "\x1B[?1049h");
    assert_eq!(Cmd::DisableAlternativeScreen.sequence(), "\x1B[?1049l");
    assert_eq!(Cmd::EnableMouseReporting.sequence(), "\x1B[?1000h");
    assert_eq!(Cmd::DisableMouseReporting.sequence(), "\x1B[?1000l");
    assert_eq!(Cmd::EnableSgrCoords.sequence(), "\x1B[?1006h");
    assert_eq!(Cmd::DisableSgrCoords.sequence(), "\x1B[?1006l");
}

use rustui::color::Color;

#[test]
fn test_color_default() {
    let color = Color::default();
    assert_eq!(color, Color::NoColor);
}

#[test]
fn test_color_to_ansi() {
    assert!(Color::Black.to_ansi(true).contains("30m"));
    assert!(Color::Red.to_ansi(false).contains("41m"));
    assert!(Color::RGB(255, 0, 0).to_ansi(true).contains("38;2;255;0;0"));
    assert!(Color::HSV(0, 255, 255)
        .to_ansi(true)
        .contains("38;2;255;0;0"));
}

#[test]
fn test_color_to_ansi_exact() {
    assert_eq!(Color::White.to_ansi(true), "\x1B[37m");
    assert_eq!(Color::Cyan.to_ansi(false), "\x1B[46m");
    assert_eq!(Color::NoColor.to_ansi(true), "\x1B[39m");
    assert_eq!(Color::NoColor.to_ansi(false), "\x1B[49m");
    assert_eq!(Color::RGB(1, 20, 255).to_ansi(false), "\x1B[48;2;1;20;255m");
}

#[test]
fn test_color_hsv_conversions() {
    // Hue 85 of 255 is 120 degrees: pure green.
    assert_eq!(Color::HSV(85, 255, 255).to_ansi(true), "\x1B[38;2;0;255;0m");
    // Hue 170 of 255 is 240 degrees: pure blue.
    assert_eq!(Color::HSV(170, 255, 255).to_ansi(false), "\x1B[48;2;0;0;255m");
    // Without saturation the color is the gray of its value.
    assert_eq!(Color::HSV(200, 0, 77).to_ansi(true), "\x1B[38;2;77;77;77m");
    // Hue 43 of 255 is 60 degrees: yellow.
    assert_eq!(Color::HSV(43, 255, 255).to_ansi(true), "\x1B[38;2;255;255;0m");
}

use rustui::attr::Attr;

#[test]
fn test_attr_default() {
    let attr = Attr::default();
    assert_eq!(attr, Attr::NORMAL());
}

#[test]
fn attr_test_attr_to_ansi() {
    let attr = Attr::BOLD() | Attr::UNDERLINE();
    assert_eq!(attr.to_ansi(), "\x1B[1;4m");

    let attr = Attr::empty();
    assert_eq!(attr.to_ansi(), "\x1B[0m");

    let attr = Attr::all();
    assert_eq!(attr.to_ansi(), "\x1B[0;1;2;3;4;5;6;7;8;9;10m");
}

#[test]
fn test_attr_single_flags() {
    assert_eq!(Attr::Normal().to_ansi(), "\x1B[0m");
    assert_eq!(Attr::Italic().to_ansi(), "\x1B[3m");
    assert_eq!(Attr::Primary().to_ansi(), "\x1B[10m");
    assert_eq!(Attr::HIDDEN().to_ansi(), "\x1B[8m");
    assert_eq!(Attr::Remove(), Attr::REMOVE());
}

#[test]
fn test_attr_contains_and_union() {
    let a = Attr::BOLD().union(Attr::BLINK());
    assert!(a.contains(Attr::BOLD()));
    assert!(a.contains(Attr::BLINK()));
    assert!(!a.contains(Attr::ITALIC()));
    assert!(Attr::empty().is_empty());
    assert!(!Attr::THIN().is_empty());
    assert_eq!(a.bits(), 0b10_0010);
    assert_eq!((Attr::FASTBLINK() | Attr::INVERT()).bits(), 0b1100_0000);
}

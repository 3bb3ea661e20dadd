use rustui::attr::Attr;
use rustui::color::Color;
use rustui::framebuffer::{Align, Cell, Framebuffer, RefreshError};

#[test]
fn framebuffer_test_cell_init() {
    let cell = Cell::new();
    assert_eq!(cell.ch, ' ');
    assert_eq!(cell.attrs, Attr::NORMAL());
    assert_eq!(cell.bg, Color::default());
    assert_eq!(cell.fg, Color::default());
}

#[test]
fn framebuffer_test_fb_init() {
    let fb = Framebuffer::new(4, 2);
    assert_eq!(fb.width, 4);
    assert_eq!(fb.height, 2);
    assert_eq!(fb.buffer.len(), 8);
}

#[test]
fn framebuffer_test_fb_clear() {
    let mut fb = Framebuffer::new(4, 2);
    fb.set_char(
        0,
        0,
        'X',
        Attr::default(),
        Color::default(),
        Color::default(),
    );
    fb.clear();
    for cell in fb.buffer {
        assert_eq!(cell.ch, ' ');
        assert_eq!(cell.attrs, Attr::default());
        assert_eq!(cell.bg, Color::default());
        assert_eq!(cell.fg, Color::default());
    }
}

#[test]
fn framebuffer_test_fb_set_char() {
    let mut fb = Framebuffer::new(4, 2);
    fb.set_char(
        0,
        0,
        'X',
        Attr::default(),
        Color::default(),
        Color::default(),
    );
    assert_eq!(fb.buffer[0].ch, 'X');
    assert_eq!(fb.buffer[0].attrs, Attr::default());
    assert_eq!(fb.buffer[0].bg, Color::default());
    assert_eq!(fb.buffer[0].fg, Color::default());
}

#[test]
fn framebuffer_test_fb_set_str() {
    let mut fb = Framebuffer::new(4, 2);
    fb.set_str(
        0,
        0,
        "XY",
        Attr::default(),
        Color::default(),
        Color::default(),
        Align::Left,
    );
    assert_eq!(fb.buffer[0].ch, 'X');
    assert_eq!(fb.buffer[1].ch, 'Y');
}

#[test]
fn framebuffer_test_fb_set_border() {
    let mut fb = Framebuffer::new(4, 3);
    fb.set_border(Attr::default(), Color::White, Color::default());
    assert_eq!(fb.buffer[0].ch, '╭');
    assert_eq!(fb.buffer[1].ch, '─');
    assert_eq!(fb.buffer[2].ch, '─');
    assert_eq!(fb.buffer[3].ch, '╮');
    assert_eq!(fb.buffer[4].ch, '│');
    assert_eq!(fb.buffer[5].ch, ' ');
    assert_eq!(fb.buffer[6].ch, ' ');
    assert_eq!(fb.buffer[7].ch, '│');
    assert_eq!(fb.buffer[8].ch, '╰');
    assert_eq!(fb.buffer[9].ch, '─');
    assert_eq!(fb.buffer[10].ch, '─');
    assert_eq!(fb.buffer[11].ch, '╯');
}

#[test]
fn test_fb_set_named_border() {}

#[test]
fn framebuffer_test_fb_set_vline() {
    let mut fb = Framebuffer::new(4, 3);
    fb.set_vline(1, 0, 3, Attr::default(), Color::default(), Color::default());
    assert_eq!(fb.buffer[1].ch, '│');
    assert_eq!(fb.buffer[5].ch, '│');
    assert_eq!(fb.buffer[9].ch, '│');
}

#[test]
fn framebuffer_test_fb_set_hline() {
    let mut fb = Framebuffer::new(4, 3);
    fb.set_hline(1, 0, 4, Attr::default(), Color::default(), Color::default());
    assert_eq!(fb.buffer[4].ch, '─');
    assert_eq!(fb.buffer[5].ch, '─');
    assert_eq!(fb.buffer[6].ch, '─');
    assert_eq!(fb.buffer[7].ch, '─');
}

#[test]
fn test_fb_set_fg_color() {
    let mut fb = Framebuffer::new(4, 2);
    fb.set_fg_color(Color::Red);
    for cell in &fb.buffer {
        assert_eq!(cell.fg, Color::Red);
    }
}

#[test]
fn test_fb_set_bg_color() {
    let mut fb = Framebuffer::new(4, 2);
    fb.set_bg_color(Color::Blue);
    for cell in &fb.buffer {
        assert_eq!(cell.bg, Color::Blue);
    }
}

#[test]
fn framebuffer_test_fb_combine() {
    let mut fb1 = Framebuffer::new(3, 3);
    fb1.set_border(Attr::default(), Color::default(), Color::default());
    let mut fb2 = Framebuffer::new(1, 1);
    fb2.set_str(
        0,
        0,
        "A",
        Attr::BOLD(),
        Color::default(),
        Color::default(),
        Align::Left,
    );
    fb1.combine(&fb2, 1, 1);
    assert_eq!(fb1.buffer[0].ch, '╭');
    assert_eq!(fb1.buffer[1].ch, '─');
    assert_eq!(fb1.buffer[2].ch, '╮');
    assert_eq!(fb1.buffer[3].ch, '│');
    assert_eq!(fb1.buffer[4].ch, 'A');
    assert_eq!(fb1.buffer[4].attrs, Attr::BOLD());
    assert_eq!(fb1.buffer[5].ch, '│');
    assert_eq!(fb1.buffer[6].ch, '╰');
    assert_eq!(fb1.buffer[7].ch, '─');
    assert_eq!(fb1.buffer[8].ch, '╯');
}

#[test]
fn test_fb_combine_out_of_bounds() {
    let mut fb1 = Framebuffer::new(3, 2);
    let mut fb2 = Framebuffer::new(2, 2);
    fb2.set_char(
        0,
        0,
        'X',
        Attr::default(),
        Color::default(),
        Color::default(),
    );

    // x_offset fully outside: must not panic
    fb1.combine(&fb2, 7, 0);
    // y_offset fully outside: must not panic
    fb1.combine(&fb2, 0, 5);
    // both offsets outside
    fb1.combine(&fb2, 7, 5);
    // fb1 should be unchanged (all spaces)
    for cell in &fb1.buffer {
        assert_eq!(cell.ch, ' ');
    }
}

#[test]
fn test_fb_set_char_out_of_range_is_ignored() {
    let mut fb = Framebuffer::new(2, 2);
    let before = fb.clone();
    fb.set_char(2, 0, 'Z', Attr::BOLD(), Color::Red, Color::Blue);
    fb.set_char(0, 2, 'Z', Attr::BOLD(), Color::Red, Color::Blue);
    assert_eq!(fb, before);
}

#[test]
fn test_fb_set_str_alignment_and_clipping() {
    let mut fb = Framebuffer::new(6, 1);
    fb.set_str(3, 0, "abcd", Attr::NORMAL(), Color::NoColor, Color::NoColor, Align::Center);
    let row: String = fb.buffer.iter().map(|c| c.ch).collect();
    assert_eq!(row, " abcd ");

    let mut fb = Framebuffer::new(6, 1);
    fb.set_str(5, 0, "xyz", Attr::NORMAL(), Color::NoColor, Color::NoColor, Align::Right);
    let row: String = fb.buffer.iter().map(|c| c.ch).collect();
    assert_eq!(row, "  xyz ");

    // Characters beyond the right edge are dropped.
    let mut fb = Framebuffer::new(4, 1);
    fb.set_str(2, 0, "hello", Attr::NORMAL(), Color::NoColor, Color::NoColor, Align::Left);
    let row: String = fb.buffer.iter().map(|c| c.ch).collect();
    assert_eq!(row, "  he");

    // A right-aligned string longer than its anchor column starts at column 0.
    let mut fb = Framebuffer::new(4, 1);
    fb.set_str(1, 0, "abc", Attr::NORMAL(), Color::NoColor, Color::NoColor, Align::Right);
    let row: String = fb.buffer.iter().map(|c| c.ch).collect();
    assert_eq!(row, "abc ");
}

#[test]
fn test_fb_set_named_border_titles() {
    let mut fb = Framebuffer::new(12, 3);
    fb.set_named_border("ab", Align::Left, Attr::NORMAL(), Color::NoColor, Color::NoColor);
    let top: String = fb.buffer[0..12].iter().map(|c| c.ch).collect();
    assert_eq!(top, "╭─ ab ─────╮");

    let mut fb = Framebuffer::new(12, 3);
    fb.set_named_border("ab", Align::Center, Attr::NORMAL(), Color::NoColor, Color::NoColor);
    let top: String = fb.buffer[0..12].iter().map(|c| c.ch).collect();
    assert_eq!(top, "╭─── ab ───╮");

    let mut fb = Framebuffer::new(12, 3);
    fb.set_named_border("ab", Align::Right, Attr::NORMAL(), Color::NoColor, Color::NoColor);
    let top: String = fb.buffer[0..12].iter().map(|c| c.ch).collect();
    assert_eq!(top, "╭───── ab ─╮");

    // A title longer than the width minus six is shortened and marked.
    let mut fb = Framebuffer::new(12, 3);
    fb.set_named_border("abcdefgh", Align::Right, Attr::NORMAL(), Color::NoColor, Color::NoColor);
    let top: String = fb.buffer[0..12].iter().map(|c| c.ch).collect();
    assert_eq!(top, "╭─ abc ...─╮");
}

#[test]
fn test_fb_refresh_diff_output() {
    let mut front = Framebuffer::new(3, 2);
    let mut back = Framebuffer::new(3, 2);
    back.set_char(1, 1, 'Q', Attr::BOLD(), Color::Red, Color::NoColor);
    let out = front.refresh_diff(&back).unwrap();
    assert_eq!(out, "\x1B[0m\x1B[2;2H\x1B[1m\x1B[31mQ");
    assert_eq!(front, back);
    // A second refresh with nothing changed writes nothing.
    assert_eq!(front.refresh_diff(&back).unwrap(), "");
}

#[test]
fn test_fb_refresh_diff_keeps_pen_between_cells() {
    let mut front = Framebuffer::new(3, 1);
    let mut back = Framebuffer::new(3, 1);
    back.set_char(0, 0, 'a', Attr::NORMAL(), Color::Green, Color::NoColor);
    back.set_char(2, 0, 'b', Attr::NORMAL(), Color::Green, Color::Black);
    let out = front.refresh_diff(&back).unwrap();
    assert_eq!(out, "\x1B[0m\x1B[1;1H\x1B[32ma\x1B[1;3H\x1B[40mb");
    assert_eq!(front.buffer, back.buffer);
}

#[test]
fn test_fb_refresh_diff_size_mismatch() {
    let mut front = Framebuffer::new(3, 2);
    let back = Framebuffer::new(2, 3);
    assert_eq!(front.refresh_diff(&back), Err(RefreshError::SizeMismatch));
    assert_eq!(front, Framebuffer::new(3, 2));
}

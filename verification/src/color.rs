//! Terminal colors and their ANSI escape sequences.

use vstd::prelude::*;

use crate::text::{dec, push_char, push_decimal, push_str};

verus! {

/// Represents a color in the terminal.
#[derive(Debug, Clone, Copy, PartialEq, Eq, Structural)]
pub enum Color {
    Black,
    Red,
    Green,
    Yellow,
    Blue,
    Magenta,
    Cyan,
    White,
    RGB(u8, u8, u8),
    HSV(u8, u8, u8),
    /// The terminal's default color: no color is selected.
    NoColor,
}

/// The red, green and blue components (each in 0..=255) of the HSV color
/// `(h, s, v)`, where the hue `h` is scaled so that 255 stands for 360 degrees.
pub open spec fn hsv_to_rgb(h: u8, s: u8, v: u8) -> (int, int, int) {
    let hd = h * 360 / 255;
    let c = v * s / 255;
    let h_mod = hd % 120 - 60;
    let abs_h_mod = if h_mod < 0 { -h_mod } else { h_mod };
    let x = c * (60 - abs_h_mod) / 60;
    let m = v - c;
    let (r, g, b) = if hd < 60 {
        (c, x, 0)
    } else if hd < 120 {
        (x, c, 0)
    } else if hd < 180 {
        (0, c, x)
    } else if hd < 240 {
        (0, x, c)
    } else if hd < 300 {
        (x, 0, c)
    } else {
        (c, 0, x)
    };
    (min255(r + m), min255(g + m), min255(b + m))
}

/// `n` capped at 255.
pub open spec fn min255(n: int) -> int {
    if n < 255 { n } else { 255 }
}

/// The escape sequence `ESC [ 38;2;r;g;b m` (foreground) or
/// `ESC [ 48;2;r;g;b m` (background) for a 24-bit color.
pub open spec fn rgb_ansi(fg: bool, r: nat, g: nat, b: nat) -> Seq<char> {
    "\x1B["@ + (if fg { "38"@ } else { "48"@ }) + ";2;"@ + dec(r) + ";"@ + dec(g) + ";"@ + dec(b)
        + "m"@
}

/// The parameter of one of the eight basic colors (0 for black to 7 for white),
/// followed by `m`, as a foreground (3x) or background (4x) code.
pub open spec fn basic_ansi(fg: bool, n: nat) -> Seq<char> {
    "\x1B["@ + seq![if fg { '3' } else { '4' }, crate::text::digit_char(n), 'm']
}

/// The escape sequence that selects `c` as foreground (`fg`) or background color.
pub open spec fn color_ansi(c: Color, fg: bool) -> Seq<char> {
    match c {
        Color::Black => basic_ansi(fg, 0),
        Color::Red => basic_ansi(fg, 1),
        Color::Green => basic_ansi(fg, 2),
        Color::Yellow => basic_ansi(fg, 3),
        Color::Blue => basic_ansi(fg, 4),
        Color::Magenta => basic_ansi(fg, 5),
        Color::Cyan => basic_ansi(fg, 6),
        Color::White => basic_ansi(fg, 7),
        Color::RGB(r, g, b) => rgb_ansi(fg, r as nat, g as nat, b as nat),
        Color::HSV(h, s, v) => {
            let (r, g, b) = hsv_to_rgb(h, s, v);
            rgb_ansi(fg, r as nat, g as nat, b as nat)
        },
        Color::NoColor => basic_ansi(fg, 9),
    }
}

/// The standard SGR numbering of the eight basic colors: the color numbered `i`
/// (Black, Red, Green, Yellow, Blue, Magenta, Cyan, White, from 0 to 7) is selected
/// by parameter `30 + i` as foreground and `40 + i` as background, and no color
/// (the terminal's default) by `39` and `49`.
pub proof fn lemma_basic_color_codes(fg: bool)
    ensures
        ({
            let order = seq![
                Color::Black,
                Color::Red,
                Color::Green,
                Color::Yellow,
                Color::Blue,
                Color::Magenta,
                Color::Cyan,
                Color::White,
            ];
            let ground = if fg { '3' } else { '4' };
            &&& forall|i: int|
                0 <= i < 8 ==> #[trigger] color_ansi(order[i], fg) == "\x1B["@ + seq![
                    ground,
                    (48 + i) as char,
                    'm',
                ]
            &&& color_ansi(Color::NoColor, fg) == "\x1B["@ + seq![ground, '9', 'm']
        }),
{
    let order = seq![
        Color::Black,
        Color::Red,
        Color::Green,
        Color::Yellow,
        Color::Blue,
        Color::Magenta,
        Color::Cyan,
        Color::White,
    ];
    assert forall|i: int| 0 <= i < 8 implies #[trigger] color_ansi(order[i], fg) == "\x1B["@ + seq![
        if fg { '3' } else { '4' },
        (48 + i) as char,
        'm',
    ] by {
        if i == 0 {
            assert(order[0] == Color::Black);
        } else if i == 1 {
            assert(order[1] == Color::Red);
        } else if i == 2 {
            assert(order[2] == Color::Green);
        } else if i == 3 {
            assert(order[3] == Color::Yellow);
        } else if i == 4 {
            assert(order[4] == Color::Blue);
        } else if i == 5 {
            assert(order[5] == Color::Magenta);
        } else if i == 6 {
            assert(order[6] == Color::Cyan);
        } else {
            assert(order[7] == Color::White);
        }
    }
}

/// Every component of an HSV conversion lies in 0..=255.
pub proof fn lemma_hsv_in_range(h: u8, s: u8, v: u8)
    ensures
        0 <= hsv_to_rgb(h, s, v).0 <= 255,
        0 <= hsv_to_rgb(h, s, v).1 <= 255,
        0 <= hsv_to_rgb(h, s, v).2 <= 255,
{
    lemma_hsv_parts(h, s, v);
}

/// An HSV color without saturation is the gray of its value.
pub proof fn lemma_hsv_gray(h: u8, v: u8)
    ensures
        hsv_to_rgb(h, 0, v) == (v as int, v as int, v as int),
{
    lemma_hsv_parts(h, 0, v);
}

proof fn lemma_hsv_parts(h: u8, s: u8, v: u8)
    ensures
        0 <= h * 360 / 255 <= 360,
        0 <= v * s / 255 <= v,
        ({
            let c = v * s / 255;
            &&& forall|k: int| 0 <= k <= 60 ==> 0 <= #[trigger] (c * k) / 60 <= c
        }),
{
    assert(0 <= h * 360 / 255 <= 360) by (nonlinear_arith)
        requires
            0 <= h <= 255,
    ;
    assert(0 <= v * s / 255 <= v) by (nonlinear_arith)
        requires
            0 <= v <= 255,
            0 <= s <= 255,
    ;
    let c = v * s / 255;
    assert forall|k: int| 0 <= k <= 60 implies 0 <= #[trigger] (c * k) / 60 <= c by {
        assert(0 <= (c * k) / 60 <= c) by (nonlinear_arith)
            requires
                0 <= c,
                0 <= k <= 60,
        ;
    }
}

impl Color {
    /// The red, green and blue components of the HSV color `(h, s, v)`.
    fn hsv_components(h: u8, s: u8, v: u8) -> (rgb: (u32, u32, u32))
        ensures
            rgb.0 == hsv_to_rgb(h, s, v).0,
            rgb.1 == hsv_to_rgb(h, s, v).1,
            rgb.2 == hsv_to_rgb(h, s, v).2,
    {
        proof {
            lemma_hsv_parts(h, s, v);
        }
        let h = h as u32 * 360 / 255;
        let s = s as u32;
        let v = v as u32;
        let c = v * s / 255;
        let h_mod = (h % 120) as i32 - 60;
        let abs_h_mod: u32 = if h_mod < 0 { (-h_mod) as u32 } else { h_mod as u32 };
        assert(c * (60 - abs_h_mod) / 60 <= c);
        let x = c * (60 - abs_h_mod) / 60;
        let m = v - c;
        let (r, g, b) = if h < 60 {
            (c, x, 0)
        } else if h < 120 {
            (x, c, 0)
        } else if h < 180 {
            (0, c, x)
        } else if h < 240 {
            (0, x, c)
        } else if h < 300 {
            (x, 0, c)
        } else {
            (c, 0, x)
        };
        let r = if r + m < 255 { r + m } else { 255 };
        let g = if g + m < 255 { g + m } else { 255 };
        let b = if b + m < 255 { b + m } else { 255 };
        (r, g, b)
    }

    /// Appends the 24-bit color sequence for `(r, g, b)` to `buf`.
    fn push_rgb(buf: &mut String, fg: bool, r: u32, g: u32, b: u32)
        ensures
            final(buf)@ == old(buf)@ + rgb_ansi(fg, r as nat, g as nat, b as nat).subrange(
                2,
                rgb_ansi(fg, r as nat, g as nat, b as nat).len() as int,
            ),
    {
        let ghost start = buf@;
        push_str(buf, if fg { "38" } else { "48" });
        push_str(buf, ";2;");
        push_decimal(buf, r as u64);
        push_char(buf, ';');
        push_decimal(buf, g as u64);
        push_char(buf, ';');
        push_decimal(buf, b as u64);
        push_char(buf, 'm');
        proof {
            reveal_strlit(";");
            reveal_strlit("m");
            reveal_strlit("\x1B[");
            let full = rgb_ansi(fg, r as nat, g as nat, b as nat);
            let tail = (if fg { "38"@ } else { "48"@ }) + ";2;"@ + dec(r as nat) + ";"@ + dec(
                g as nat,
            ) + ";"@ + dec(b as nat) + "m"@;
            assert(full =~= "\x1B["@ + tail);
            assert(full.subrange(2, full.len() as int) =~= tail);
            assert(buf@ =~= start + tail);
        }
    }

    /// Convert the color to an ANSI escape code.
    ///
    /// Returns an ANSI escape code string for the color.
    pub fn to_ansi(&self, fg: bool) -> (r: String)
        ensures
            r@ == color_ansi(*self, fg),
    {
        let mut buf = String::new();
        push_str(&mut buf, "\x1B[");
        proof {
            reveal_strlit("\x1B[");
        }
        match self {
            Color::Black => push_str(&mut buf, if fg { "30m" } else { "40m" }),
            Color::Red => push_str(&mut buf, if fg { "31m" } else { "41m" }),
            Color::Green => push_str(&mut buf, if fg { "32m" } else { "42m" }),
            Color::Yellow => push_str(&mut buf, if fg { "33m" } else { "43m" }),
            Color::Blue => push_str(&mut buf, if fg { "34m" } else { "44m" }),
            Color::Magenta => push_str(&mut buf, if fg { "35m" } else { "45m" }),
            Color::Cyan => push_str(&mut buf, if fg { "36m" } else { "46m" }),
            Color::White => push_str(&mut buf, if fg { "37m" } else { "47m" }),
            Color::RGB(r, g, b) => {
                Color::push_rgb(&mut buf, fg, *r as u32, *g as u32, *b as u32);
            },
            Color::HSV(h, s, v) => {
                let (r, g, b) = Color::hsv_components(*h, *s, *v);
                Color::push_rgb(&mut buf, fg, r, g, b);
            },
            Color::NoColor => push_str(&mut buf, if fg { "39m" } else { "49m" }),
        }
        proof {
            reveal_strlit("30m");
            reveal_strlit("40m");
            reveal_strlit("31m");
            reveal_strlit("41m");
            reveal_strlit("32m");
            reveal_strlit("42m");
            reveal_strlit("33m");
            reveal_strlit("43m");
            reveal_strlit("34m");
            reveal_strlit("44m");
            reveal_strlit("35m");
            reveal_strlit("45m");
            reveal_strlit("36m");
            reveal_strlit("46m");
            reveal_strlit("37m");
            reveal_strlit("47m");
            reveal_strlit("39m");
            reveal_strlit("49m");
            let full = color_ansi(*self, fg);
            match self {
                Color::RGB(..) | Color::HSV(..) => {
                    assert(full =~= "\x1B["@ + full.subrange(2, full.len() as int));
                },
                _ => {
                    assert(buf@ =~= full);
                },
            }
        }
        buf
    }
}

impl Default for Color {
    fn default() -> (r: Color)
        ensures
            r == Color::NoColor,
    {
        Color::NoColor
    }
}

} // verus!

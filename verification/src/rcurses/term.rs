//! Text styles (attributes and 256-color or 24-bit colors) as ANSI escape sequences.

use vstd::prelude::*;
use vstd::std_specs::ops::BitOrSpecImpl;

use crate::text::{dec, join, lemma_join_push, push_char, push_decimal, push_str};

verus! {

/// Terminal attributes as a set of bit flags.
#[derive(Debug, Clone, Copy, PartialEq, Eq, Structural)]
pub struct Attr {
    /// The flag bits; bit `i` stands for the attribute with SGR parameter `i`.
    pub bits: u16,
}

/// The number of distinct attribute flags.
pub const ATTR_FLAG_COUNT: u16 = 10;

impl Attr {
    /// Normal intensity: SGR parameter 0.
    #[allow(non_snake_case)]
    pub fn NORMAL() -> (r: Attr)
        ensures
            r.bits == 0b0000000000000001,
    {
        Attr { bits: 0b0000000000000001 }
    }

    /// Bold: SGR parameter 1.
    #[allow(non_snake_case)]
    pub fn BOLD() -> (r: Attr)
        ensures
            r.bits == 0b0000000000000010,
    {
        Attr { bits: 0b0000000000000010 }
    }

    /// Faint: SGR parameter 2.
    #[allow(non_snake_case)]
    pub fn THIN() -> (r: Attr)
        ensures
            r.bits == 0b0000000000000100,
    {
        Attr { bits: 0b0000000000000100 }
    }

    /// Italic: SGR parameter 3.
    #[allow(non_snake_case)]
    pub fn ITALIC() -> (r: Attr)
        ensures
            r.bits == 0b0000000000001000,
    {
        Attr { bits: 0b0000000000001000 }
    }

    /// Underline: SGR parameter 4.
    #[allow(non_snake_case)]
    pub fn UNDERLINE() -> (r: Attr)
        ensures
            r.bits == 0b0000000000010000,
    {
        Attr { bits: 0b0000000000010000 }
    }

    /// Slow blink: SGR parameter 5.
    #[allow(non_snake_case)]
    pub fn BLINK() -> (r: Attr)
        ensures
            r.bits == 0b0000000000100000,
    {
        Attr { bits: 0b0000000000100000 }
    }

    /// Rapid blink: SGR parameter 6.
    #[allow(non_snake_case)]
    pub fn FASTBLINK() -> (r: Attr)
        ensures
            r.bits == 0b0000000001000000,
    {
        Attr { bits: 0b0000000001000000 }
    }

    /// Reverse video: SGR parameter 7.
    #[allow(non_snake_case)]
    pub fn INVERT() -> (r: Attr)
        ensures
            r.bits == 0b0000000010000000,
    {
        Attr { bits: 0b0000000010000000 }
    }

    /// Concealed: SGR parameter 8.
    #[allow(non_snake_case)]
    pub fn HIDDEN() -> (r: Attr)
        ensures
            r.bits == 0b0000000100000000,
    {
        Attr { bits: 0b0000000100000000 }
    }

    /// Crossed out: SGR parameter 9.
    #[allow(non_snake_case)]
    pub fn REMOVE() -> (r: Attr)
        ensures
            r.bits == 0b0000001000000000,
    {
        Attr { bits: 0b0000001000000000 }
    }

    /// The empty set of attributes.
    pub fn empty() -> (r: Attr)
        ensures
            r.bits == 0,
    {
        Attr { bits: 0 }
    }

    /// The set of all defined attributes.
    pub fn all() -> (r: Attr)
        ensures
            r.bits == 0b0000001111111111,
    {
        Attr { bits: 0b0000001111111111 }
    }

    /// The raw flag bits of this set.
    pub fn bits(&self) -> (r: u16)
        ensures
            r == self.bits,
    {
        self.bits
    }

    /// Whether no attribute is set.
    pub fn is_empty(&self) -> (r: bool)
        ensures
            r == (self.bits == 0),
    {
        self.bits == 0
    }

    /// Whether every attribute of `other` is also set in `self`.
    pub fn contains(&self, other: Attr) -> (r: bool)
        ensures
            r == crate::attr::bits_contain(self.bits, other.bits),
    {
        self.bits & other.bits == other.bits
    }

    /// The attributes set in either `self` or `other`.
    pub fn union(self, other: Attr) -> (r: Attr)
        ensures
            r.bits == self.bits | other.bits,
    {
        Attr { bits: self.bits | other.bits }
    }
}

impl core::ops::BitOr for Attr {
    type Output = Attr;

    fn bitor(self, rhs: Attr) -> (r: Attr)
        ensures
            r.bits == self.bits | rhs.bits,
    {
        Attr { bits: self.bits | rhs.bits }
    }
}

impl BitOrSpecImpl for Attr {
    open spec fn obeys_bitor_spec() -> bool {
        true
    }

    open spec fn bitor_req(self, rhs: Attr) -> bool {
        true
    }

    open spec fn bitor_spec(self, rhs: Attr) -> Attr {
        Attr { bits: (self.bits | rhs.bits) as u16 }
    }
}

#[derive(Debug, Clone, Copy, PartialEq, Eq, Structural)]
pub enum Color {
    Fg(u8),
    Bg(u8),
    Fg24(u8),
    Bg24(u8),
    FgRgb(u8, u8, u8),
    BgRgb(u8, u8, u8),
}

#[derive(Debug, Clone, Copy, PartialEq, Eq, Structural)]
pub struct Style {
    pub attr: Attr,
    pub fg: Option<Color>,
    pub bg: Option<Color>,
}

/// The SGR parameters of the attributes among the first `n` that `bits` holds.
pub open spec fn style_attr_codes(bits: u16, n: int) -> Seq<Seq<char>>
    decreases n,
{
    if n <= 0 {
        Seq::empty()
    } else if crate::attr::bits_contain(bits, crate::attr::flag_bits(n - 1)) {
        style_attr_codes(bits, n - 1).push(crate::attr::attr_code(n - 1))
    } else {
        style_attr_codes(bits, n - 1)
    }
}

/// The parameter list `code`, or nothing when `present` is false.
pub open spec fn opt_code(present: bool, code: Seq<char>) -> Seq<Seq<char>> {
    if present {
        seq![code]
    } else {
        Seq::empty()
    }
}

/// The SGR parameters of a style, in the order in which they are written:
/// the attributes, then an 8-color foreground (`30`-`37`, or `38;5;c` above 7),
/// an 8-color background (`40`-`47`; none above 7), a 256-color foreground
/// (`38;5;c`) and background (`48;5;c`), and a 24-bit foreground (`38;2;r;g;b`)
/// and background (`48;2;r;g;b`).
pub open spec fn style_codes(s: Style) -> Seq<Seq<char>> {
    style_attr_codes(s.attr.bits, ATTR_FLAG_COUNT as int) + match s.fg {
        Some(Color::Fg(c)) => seq![
            if c < 8 {
                dec((c + 30) as nat)
            } else {
                "38;5;"@ + dec(c as nat)
            },
        ],
        _ => Seq::empty(),
    } + match s.bg {
        Some(Color::Bg(c)) => opt_code(c < 8, dec((c + 40) as nat)),
        _ => Seq::empty(),
    } + match s.fg {
        Some(Color::Fg24(c)) => seq!["38;5;"@ + dec(c as nat)],
        _ => Seq::empty(),
    } + match s.bg {
        Some(Color::Bg24(c)) => seq!["48;5;"@ + dec(c as nat)],
        _ => Seq::empty(),
    } + match s.fg {
        Some(Color::FgRgb(r, g, b)) => seq![
            "38;2;"@ + dec(r as nat) + ";"@ + dec(g as nat) + ";"@ + dec(b as nat),
        ],
        _ => Seq::empty(),
    } + match s.bg {
        Some(Color::BgRgb(r, g, b)) => seq![
            "48;2;"@ + dec(r as nat) + ";"@ + dec(g as nat) + ";"@ + dec(b as nat),
        ],
        _ => Seq::empty(),
    }
}

/// The escape sequence that selects style `s`: its parameters joined by `;`,
/// or a reset when it has none.
pub open spec fn style_ansi(s: Style) -> Seq<char> {
    if style_codes(s).len() == 0 {
        "\x1B[0m"@
    } else {
        "\x1B["@ + join(style_codes(s), ';') + "m"@
    }
}

/// Appends one more parameter to the parameter list being written after `ESC [`.
fn push_param(buf: &mut String, codes: Ghost<Seq<Seq<char>>>, count: usize, param: &String)
    requires
        old(buf)@ == "\x1B["@ + join(codes@, ';'),
        count == codes@.len(),
    ensures
        final(buf)@ == "\x1B["@ + join(codes@.push(param@), ';'),
{
    proof {
        lemma_join_push(codes@, ';', param@);
    }
    if count != 0 {
        push_char(buf, ';');
    } else {
        assert(codes@ =~= Seq::<Seq<char>>::empty());
    }
    push_str(buf, param.as_str());
}

/// The parameter `38;5;c` (foreground) or `48;5;c` (background) of a 256-color code.
fn indexed_param(prefix: &str, c: u8) -> (r: String)
    ensures
        r@ == prefix@ + dec(c as nat),
{
    let mut s = String::new();
    push_str(&mut s, prefix);
    push_decimal(&mut s, c as u64);
    s
}

/// The parameter `38;2;r;g;b` (foreground) or `48;2;r;g;b` (background) of a 24-bit color.
fn rgb_param(prefix: &str, r: u8, g: u8, b: u8) -> (res: String)
    ensures
        res@ == prefix@ + dec(r as nat) + ";"@ + dec(g as nat) + ";"@ + dec(b as nat),
{
    let mut s = String::new();
    push_str(&mut s, prefix);
    push_decimal(&mut s, r as u64);
    push_char(&mut s, ';');
    push_decimal(&mut s, g as u64);
    push_char(&mut s, ';');
    push_decimal(&mut s, b as u64);
    proof {
        reveal_strlit(";");
    }
    s
}

impl Style {
    /// A style with normal attributes and no colors.
    pub fn new() -> (r: Style)
        ensures
            r == (Style { attr: Attr { bits: 1 }, fg: None, bg: None }),
    {
        Self { attr: Attr::NORMAL(), fg: None, bg: None }
    }

    /// The ANSI escape sequence that selects this style.
    pub fn to_ansi(&self) -> (r: String)
        ensures
            r@ == style_ansi(*self),
    {
        let mut buf = String::new();
        push_str(&mut buf, "\x1B[");
        let ghost codes: Seq<Seq<char>> = Seq::empty();
        let mut count: usize = 0;
        let mut i: u16 = 0;
        while i < ATTR_FLAG_COUNT
            invariant
                i <= ATTR_FLAG_COUNT,
                codes == style_attr_codes(self.attr.bits, i as int),
                buf@ == "\x1B["@ + join(codes, ';'),
                count == codes.len(),
                count <= i,
            decreases ATTR_FLAG_COUNT - i,
        {
            let flag = Attr { bits: 1u16 << i };
            if self.attr.contains(flag) {
                let mut p = String::new();
                push_decimal(&mut p, i as u64);
                proof {
                    assert(crate::text::dec(i as nat) == crate::attr::attr_code(i as int)) by {
                        reveal_strlit("0");
                        reveal_strlit("1");
                        reveal_strlit("2");
                        reveal_strlit("3");
                        reveal_strlit("4");
                        reveal_strlit("5");
                        reveal_strlit("6");
                        reveal_strlit("7");
                        reveal_strlit("8");
                        reveal_strlit("9");
                    }
                }
                push_param(&mut buf, Ghost(codes), count, &p);
                proof {
                    codes = codes.push(p@);
                }
                count = count + 1;
            }
            i = i + 1;
        }
        let ghost attr_codes = codes;
        match self.fg {
            Some(Color::Fg(c)) => {
                let p = if c < 8 {
                    let mut p = String::new();
                    push_decimal(&mut p, (c + 30) as u64);
                    p
                } else {
                    indexed_param("38;5;", c)
                };
                push_param(&mut buf, Ghost(codes), count, &p);
                proof {
                    codes = codes.push(p@);
                }
                count = count + 1;
            },
            _ => {},
        }
        match self.bg {
            Some(Color::Bg(c)) => {
                if c < 8 {
                    let mut p = String::new();
                    push_decimal(&mut p, (c + 40) as u64);
                    push_param(&mut buf, Ghost(codes), count, &p);
                    proof {
                        codes = codes.push(p@);
                    }
                    count = count + 1;
                }
            },
            _ => {},
        }
        match self.fg {
            Some(Color::Fg24(c)) => {
                let p = indexed_param("38;5;", c);
                push_param(&mut buf, Ghost(codes), count, &p);
                proof {
                    codes = codes.push(p@);
                }
                count = count + 1;
            },
            _ => {},
        }
        match self.bg {
            Some(Color::Bg24(c)) => {
                let p = indexed_param("48;5;", c);
                push_param(&mut buf, Ghost(codes), count, &p);
                proof {
                    codes = codes.push(p@);
                }
                count = count + 1;
            },
            _ => {},
        }
        match self.fg {
            Some(Color::FgRgb(r, g, b)) => {
                let p = rgb_param("38;2;", r, g, b);
                push_param(&mut buf, Ghost(codes), count, &p);
                proof {
                    codes = codes.push(p@);
                }
                count = count + 1;
            },
            _ => {},
        }
        match self.bg {
            Some(Color::BgRgb(r, g, b)) => {
                let p = rgb_param("48;2;", r, g, b);
                push_param(&mut buf, Ghost(codes), count, &p);
                proof {
                    codes = codes.push(p@);
                }
                count = count + 1;
            },
            _ => {},
        }
        proof {
            assert(codes =~= style_codes(*self));
        }
        if count == 0 {
            let mut reset = String::new();
            push_str(&mut reset, "\x1B[0m");
            return reset;
        }
        push_char(&mut buf, 'm');
        proof {
            reveal_strlit("m");
            assert("m"@ == seq!['m']);
        }
        buf
    }
}

impl Default for Style {
    fn default() -> (r: Style)
        ensures
            r == (Style { attr: Attr { bits: 1 }, fg: None, bg: None }),
    {
        Self::new()
    }
}

/// The style `s` with the color `c` set as its foreground or background,
/// according to the kind of `c`.
pub open spec fn with_color(s: Style, c: Color) -> Style {
    match c {
        Color::Fg(_) | Color::Fg24(_) | Color::FgRgb(..) => Style { fg: Some(c), ..s },
        Color::Bg(_) | Color::Bg24(_) | Color::BgRgb(..) => Style { bg: Some(c), ..s },
    }
}

impl core::ops::BitOr<Attr> for Style {
    type Output = Self;

    fn bitor(self, rhs: Attr) -> (r: Style)
        ensures
            r == (Style { attr: Attr { bits: (self.attr.bits | rhs.bits) as u16 }, ..self }),
    {
        let mut s = self;
        s.attr = s.attr | rhs;
        s
    }
}

impl BitOrSpecImpl<Attr> for Style {
    open spec fn obeys_bitor_spec() -> bool {
        true
    }

    open spec fn bitor_req(self, rhs: Attr) -> bool {
        true
    }

    open spec fn bitor_spec(self, rhs: Attr) -> Style {
        Style { attr: Attr { bits: (self.attr.bits | rhs.bits) as u16 }, ..self }
    }
}

impl core::ops::BitOr<Color> for Style {
    type Output = Self;

    fn bitor(self, rhs: Color) -> (r: Style)
        ensures
            r == with_color(self, rhs),
    {
        let mut s = self;
        match rhs {
            Color::Fg(c) => s.fg = Some(Color::Fg(c)),
            Color::Bg(c) => s.bg = Some(Color::Bg(c)),
            Color::Fg24(c) => s.fg = Some(Color::Fg24(c)),
            Color::Bg24(c) => s.bg = Some(Color::Bg24(c)),
            Color::FgRgb(r, g, b) => s.fg = Some(Color::FgRgb(r, g, b)),
            Color::BgRgb(r, g, b) => s.bg = Some(Color::BgRgb(r, g, b)),
        }
        s
    }
}

impl BitOrSpecImpl<Color> for Style {
    open spec fn obeys_bitor_spec() -> bool {
        true
    }

    open spec fn bitor_req(self, rhs: Color) -> bool {
        true
    }

    open spec fn bitor_spec(self, rhs: Color) -> Style {
        with_color(self, rhs)
    }
}

} // verus!

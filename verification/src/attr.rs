//! Text attributes (bold, italic, underline, ...) as a set of flags.

use vstd::prelude::*;
use vstd::std_specs::ops::BitOrSpecImpl;

use crate::text::{join, lemma_join_push, push_char, push_str};

verus! {

/// Represents terminal attributes as a set of bit flags.
#[derive(Debug, Clone, Copy, PartialEq, Eq, Structural)]
pub struct Attr {
    /// The flag bits; bit `i` stands for the attribute with SGR parameter `i`.
    pub bits: u16,
}

/// The number of distinct attribute flags.
pub const ATTR_FLAG_COUNT: u16 = 11;

/// The flag whose bit number is `i`.
pub open spec fn flag_bits(i: int) -> u16 {
    (1u16 << (i as u16)) as u16
}

/// The SGR parameter that selects attribute number `i`.
pub open spec fn attr_code(i: int) -> Seq<char> {
    if i == 0 {
        "0"@
    } else if i == 1 {
        "1"@
    } else if i == 2 {
        "2"@
    } else if i == 3 {
        "3"@
    } else if i == 4 {
        "4"@
    } else if i == 5 {
        "5"@
    } else if i == 6 {
        "6"@
    } else if i == 7 {
        "7"@
    } else if i == 8 {
        "8"@
    } else if i == 9 {
        "9"@
    } else {
        "10"@
    }
}

/// Whether the set `bits` holds every bit of `flag`.
pub open spec fn bits_contain(bits: u16, flag: u16) -> bool {
    bits & flag == flag
}

/// The SGR parameters of the flags among the first `n` that `bits` holds,
/// in flag order.
pub open spec fn attr_codes(bits: u16, n: int) -> Seq<Seq<char>>
    decreases n,
{
    if n <= 0 {
        Seq::empty()
    } else if bits_contain(bits, flag_bits(n - 1)) {
        attr_codes(bits, n - 1).push(attr_code(n - 1))
    } else {
        attr_codes(bits, n - 1)
    }
}

/// The escape sequence that selects the attributes `bits`.
pub open spec fn attr_ansi(bits: u16) -> Seq<char> {
    if bits == 0 {
        "\x1B[0m"@
    } else {
        "\x1B["@ + join(attr_codes(bits, ATTR_FLAG_COUNT as int), ';') + "m"@
    }
}

impl Attr {
    /// Normal intensity: SGR parameter 0 (the upper-case spelling).
    #[allow(non_snake_case)]
    pub fn NORMAL() -> (r: Attr)
        ensures
            r.bits == 0b0000_0000_0000_0001,
    {
        Attr { bits: 0b0000_0000_0000_0001 }
    }
    /// Normal intensity: SGR parameter 0.
    #[allow(non_snake_case)]
    pub fn Normal() -> (r: Attr)
        ensures
            r.bits == 0b0000_0000_0000_0001,
    {
        Attr { bits: 0b0000_0000_0000_0001 }
    }
    /// Bold: SGR parameter 1 (the upper-case spelling).
    #[allow(non_snake_case)]
    pub fn BOLD() -> (r: Attr)
        ensures
            r.bits == 0b0000_0000_0000_0010,
    {
        Attr { bits: 0b0000_0000_0000_0010 }
    }
    /// Bold: SGR parameter 1.
    #[allow(non_snake_case)]
    pub fn Bold() -> (r: Attr)
        ensures
            r.bits == 0b0000_0000_0000_0010,
    {
        Attr { bits: 0b0000_0000_0000_0010 }
    }
    /// Faint: SGR parameter 2 (the upper-case spelling).
    #[allow(non_snake_case)]
    pub fn THIN() -> (r: Attr)
        ensures
            r.bits == 0b0000_0000_0000_0100,
    {
        Attr { bits: 0b0000_0000_0000_0100 }
    }
    /// Faint: SGR parameter 2.
    #[allow(non_snake_case)]
    pub fn Thin() -> (r: Attr)
        ensures
            r.bits == 0b0000_0000_0000_0100,
    {
        Attr { bits: 0b0000_0000_0000_0100 }
    }
    /// Italic: SGR parameter 3 (the upper-case spelling).
    #[allow(non_snake_case)]
    pub fn ITALIC() -> (r: Attr)
        ensures
            r.bits == 0b0000_0000_0000_1000,
    {
        Attr { bits: 0b0000_0000_0000_1000 }
    }
    /// Italic: SGR parameter 3.
    #[allow(non_snake_case)]
    pub fn Italic() -> (r: Attr)
        ensures
            r.bits == 0b0000_0000_0000_1000,
    {
        Attr { bits: 0b0000_0000_0000_1000 }
    }
    /// Underline: SGR parameter 4 (the upper-case spelling).
    #[allow(non_snake_case)]
    pub fn UNDERLINE() -> (r: Attr)
        ensures
            r.bits == 0b0000_0000_0001_0000,
    {
        Attr { bits: 0b0000_0000_0001_0000 }
    }
    /// Underline: SGR parameter 4.
    #[allow(non_snake_case)]
    pub fn Underline() -> (r: Attr)
        ensures
            r.bits == 0b0000_0000_0001_0000,
    {
        Attr { bits: 0b0000_0000_0001_0000 }
    }
    /// Slow blink: SGR parameter 5 (the upper-case spelling).
    #[allow(non_snake_case)]
    pub fn BLINK() -> (r: Attr)
        ensures
            r.bits == 0b0000_0000_0010_0000,
    {
        Attr { bits: 0b0000_0000_0010_0000 }
    }
    /// Slow blink: SGR parameter 5.
    #[allow(non_snake_case)]
    pub fn Blink() -> (r: Attr)
        ensures
            r.bits == 0b0000_0000_0010_0000,
    {
        Attr { bits: 0b0000_0000_0010_0000 }
    }
    /// Rapid blink: SGR parameter 6 (the upper-case spelling).
    #[allow(non_snake_case)]
    pub fn FASTBLINK() -> (r: Attr)
        ensures
            r.bits == 0b0000_0000_0100_0000,
    {
        Attr { bits: 0b0000_0000_0100_0000 }
    }
    /// Rapid blink: SGR parameter 6.
    #[allow(non_snake_case)]
    pub fn FastBlink() -> (r: Attr)
        ensures
            r.bits == 0b0000_0000_0100_0000,
    {
        Attr { bits: 0b0000_0000_0100_0000 }
    }
    /// Reverse video: SGR parameter 7 (the upper-case spelling).
    #[allow(non_snake_case)]
    pub fn INVERT() -> (r: Attr)
        ensures
            r.bits == 0b0000_0000_1000_0000,
    {
        Attr { bits: 0b0000_0000_1000_0000 }
    }
    /// Reverse video: SGR parameter 7.
    #[allow(non_snake_case)]
    pub fn Invert() -> (r: Attr)
        ensures
            r.bits == 0b0000_0000_1000_0000,
    {
        Attr { bits: 0b0000_0000_1000_0000 }
    }
    /// Concealed: SGR parameter 8 (the upper-case spelling).
    #[allow(non_snake_case)]
    pub fn HIDDEN() -> (r: Attr)
        ensures
            r.bits == 0b0000_0001_0000_0000,
    {
        Attr { bits: 0b0000_0001_0000_0000 }
    }
    /// Concealed: SGR parameter 8.
    #[allow(non_snake_case)]
    pub fn Hidden() -> (r: Attr)
        ensures
            r.bits == 0b0000_0001_0000_0000,
    {
        Attr { bits: 0b0000_0001_0000_0000 }
    }
    /// Crossed out: SGR parameter 9 (the upper-case spelling).
    #[allow(non_snake_case)]
    pub fn REMOVE() -> (r: Attr)
        ensures
            r.bits == 0b0000_0010_0000_0000,
    {
        Attr { bits: 0b0000_0010_0000_0000 }
    }
    /// Crossed out: SGR parameter 9.
    #[allow(non_snake_case)]
    pub fn Remove() -> (r: Attr)
        ensures
            r.bits == 0b0000_0010_0000_0000,
    {
        Attr { bits: 0b0000_0010_0000_0000 }
    }
    /// Primary font: SGR parameter 10 (the upper-case spelling).
    #[allow(non_snake_case)]
    pub fn PRIMARY() -> (r: Attr)
        ensures
            r.bits == 0b0000_0100_0000_0000,
    {
        Attr { bits: 0b0000_0100_0000_0000 }
    }
    /// Primary font: SGR parameter 10.
    #[allow(non_snake_case)]
    pub fn Primary() -> (r: Attr)
        ensures
            r.bits == 0b0000_0100_0000_0000,
    {
        Attr { bits: 0b0000_0100_0000_0000 }
    }

    /// The raw flag bits of this set.
    pub fn bits(&self) -> (r: u16)
        ensures
            r == self.bits,
    {
        self.bits
    }

    /// The empty set of attributes.
    pub fn empty() -> (r: Attr)
        ensures
            r.bits == 0,
    {
        Attr { bits: 0 }
    }

    /// The set of all defined attributes.
    pub fn all() -> (r: Attr)
        ensures
            r.bits == 0b0000_0111_1111_1111,
    {
        Attr { bits: 0b0000_0111_1111_1111 }
    }

    /// Whether no attribute is set.
    pub fn is_empty(&self) -> (r: bool)
        ensures
            r == (self.bits == 0),
    {
        self.bits == 0
    }

    /// Whether every attribute of `other` is also set in `self`.
    pub fn contains(&self, other: Attr) -> (r: bool)
        ensures
            r == bits_contain(self.bits, other.bits),
    {
        self.bits & other.bits == other.bits
    }

    /// The attributes set in either `self` or `other`.
    pub fn union(self, other: Attr) -> (r: Attr)
        ensures
            r.bits == self.bits | other.bits,
    {
        Attr { bits: self.bits | other.bits }
    }

    /// The single flag with bit number `i`.
    fn flag(i: u16) -> (r: Attr)
        requires
            i < ATTR_FLAG_COUNT,
        ensures
            r.bits == flag_bits(i as int),
    {
        Attr { bits: 1u16 << i }
    }

    /// The SGR parameter of flag number `i`.
    fn code(i: u16) -> (r: &'static str)
        requires
            i < ATTR_FLAG_COUNT,
        ensures
            r@ == attr_code(i as int),
    {
        if i == 0 {
            "0"
        } else if i == 1 {
            "1"
        } else if i == 2 {
            "2"
        } else if i == 3 {
            "3"
        } else if i == 4 {
            "4"
        } else if i == 5 {
            "5"
        } else if i == 6 {
            "6"
        } else if i == 7 {
            "7"
        } else if i == 8 {
            "8"
        } else if i == 9 {
            "9"
        } else {
            "10"
        }
    }

    /// Convert attributes to ANSI escape codes
    ///
    /// Returns a string containing the ANSI escape codes for the active attributes.
    pub fn to_ansi(&self) -> (r: String)
        ensures
            r@ == attr_ansi(self.bits),
    {
        if self.is_empty() {
            let mut s = String::new();
            push_str(&mut s, "\x1B[0m");
            return s;
        }
        let mut buf = String::new();
        push_str(&mut buf, "\x1B[");
        let mut first = true;
        let mut i: u16 = 0;
        while i < ATTR_FLAG_COUNT
            invariant
                i <= ATTR_FLAG_COUNT,
                buf@ == "\x1B["@ + join(attr_codes(self.bits, i as int), ';'),
                first == (attr_codes(self.bits, i as int).len() == 0),
            decreases ATTR_FLAG_COUNT - i,
        {
            let flag = Attr::flag(i);
            proof {
                lemma_join_push(attr_codes(self.bits, i as int), ';', attr_code(i as int));
            }
            if self.contains(flag) {
                if !first {
                    push_char(&mut buf, ';');
                }
                push_str(&mut buf, Attr::code(i));
                first = false;
                assert(buf@ == "\x1B["@ + join(attr_codes(self.bits, i + 1), ';'));
            }
            i = i + 1;
        }
        push_char(&mut buf, 'm');
        proof {
            reveal_strlit("m");
            assert("m"@ == seq!['m']);
        }
        buf
    }
}

impl Default for Attr {
    fn default() -> (r: Attr)
        ensures
            r.bits == 1,
    {
        Attr::Normal()
    }
}

impl core::ops::BitOr for Attr {
    type Output = Attr;

    fn bitor(self, rhs: Attr) -> (r: Attr)
        ensures
            r.bits == self.bits | rhs.bits,
    {
        Attr { bits: self.bits | rhs.bits }
    }
}

impl BitOrSpecImpl for Attr {
    open spec fn obeys_bitor_spec() -> bool {
        true
    }

    open spec fn bitor_req(self, rhs: Attr) -> bool {
        true
    }

    open spec fn bitor_spec(self, rhs: Attr) -> Attr {
        Attr { bits: (self.bits | rhs.bits) as u16 }
    }
}

} // verus!

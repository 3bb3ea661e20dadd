//! Keys, and their decoding from the bytes that the terminal sends.

use vstd::prelude::*;

verus! {

#[derive(Debug, Clone, Copy, PartialEq, Eq, Structural)]
pub enum Key {
    ArrowUp,
    ArrowDown,
    ArrowRight,
    ArrowLeft,
    Home,
    End,
    Insert,
    Delete,
    PageUp,
    PageDown,
    Char(char),
    Escape,
    Unknown,
}

impl Key {
    /// Whether the key is an arrow key.
    pub fn is_arrow(&self) -> (r: bool)
        ensures
            r == (*self == Key::ArrowUp || *self == Key::ArrowDown || *self == Key::ArrowLeft
                || *self == Key::ArrowRight),
    {
        match self {
            Key::ArrowUp | Key::ArrowDown | Key::ArrowLeft | Key::ArrowRight => true,
            _ => false,
        }
    }

    /// Whether the key is a special key (arrow keys, Home/End, etc.).
    pub fn is_special(&self) -> (r: bool)
        ensures
            r == !(*self is Char || *self is Unknown),
    {
        match self {
            Key::Char(_) | Key::Unknown => false,
            _ => true,
        }
    }

    /// Whether the key is a printable character.
    pub fn is_printable(&self) -> (r: bool)
        ensures
            r == (*self is Char && crate::input::printable_char(self->Char_0)),
    {
        match self {
            Key::Char(c) => (*c >= '!' && *c <= '~') || *c == ' ',
            _ => false,
        }
    }
}

/// The key of an escape sequence whose first `n` bytes were read into `buf`.
/// The bytes after the escape character decide: `[A`, `[B`, `[C`, `[D` are the
/// arrows, `[H` or `OH` Home, `[F` or `OF` End, and `[2~`, `[3~`, `[5~`, `[6~`
/// Insert, Delete, PageUp and PageDown.
pub open spec fn escape_key(buf: Seq<u8>, n: int) -> Key {
    let c1 = crate::input::byte_at(buf, 1);
    let c2 = crate::input::byte_at(buf, 2);
    let c3 = crate::input::byte_at(buf, 3);
    if n < 3 {
        Key::Escape
    } else if c1 == 0x5B && c2 == 0x41 {
        Key::ArrowUp
    } else if c1 == 0x5B && c2 == 0x42 {
        Key::ArrowDown
    } else if c1 == 0x5B && c2 == 0x43 {
        Key::ArrowRight
    } else if c1 == 0x5B && c2 == 0x44 {
        Key::ArrowLeft
    } else if (c1 == 0x5B || c1 == 0x4F) && c2 == 0x48 {
        Key::Home
    } else if (c1 == 0x5B || c1 == 0x4F) && c2 == 0x46 {
        Key::End
    } else if c1 == 0x5B && c2 == 0x32 && c3 == 0x7E {
        Key::Insert
    } else if c1 == 0x5B && c2 == 0x33 && c3 == 0x7E {
        Key::Delete
    } else if c1 == 0x5B && c2 == 0x35 && c3 == 0x7E {
        Key::PageUp
    } else if c1 == 0x5B && c2 == 0x36 && c3 == 0x7E {
        Key::PageDown
    } else {
        Key::Unknown
    }
}

/// The key of the first `n` bytes read from the terminal into `buf`: an escape
/// sequence, an ASCII character, or unknown.
pub open spec fn key_of(buf: Seq<u8>, n: int) -> Key {
    if buf[0] == 0x1B {
        escape_key(buf, n)
    } else if buf[0] < 0x80 {
        Key::Char(buf[0] as char)
    } else {
        Key::Unknown
    }
}

/// Byte `i` of `buf`, or -1 past its end.
fn byte_or_none(buf: &[u8], i: usize) -> (r: i32)
    ensures
        r == crate::input::byte_at(buf@, i as int),
{
    if i < buf.len() {
        buf[i] as i32
    } else {
        -1
    }
}

/// Parse the escape sequence and return the corresponding key.
///
/// * `buf` - The buffer containing the escape sequence.
/// * `n` - The number of bytes read into the buffer.
pub fn parse_escape_sequence(buf: &[u8], n: usize) -> (r: Key)
    requires
        n >= 3 ==> buf@.len() >= 1,
    ensures
        r == escape_key(buf@, n as int),
{
    if n < 3 {
        return Key::Escape;
    }
    // 0x5B is '[', 0x4F is 'O', 0x7E is '~'
    let c1 = byte_or_none(buf, 1);
    let c2 = byte_or_none(buf, 2);
    let c3 = byte_or_none(buf, 3);
    if c1 == 0x5B && c2 == 0x41 {
        Key::ArrowUp
    } else if c1 == 0x5B && c2 == 0x42 {
        Key::ArrowDown
    } else if c1 == 0x5B && c2 == 0x43 {
        Key::ArrowRight
    } else if c1 == 0x5B && c2 == 0x44 {
        Key::ArrowLeft
    } else if (c1 == 0x5B || c1 == 0x4F) && c2 == 0x48 {
        Key::Home
    } else if (c1 == 0x5B || c1 == 0x4F) && c2 == 0x46 {
        Key::End
    } else if c1 == 0x5B && c2 == 0x32 && c3 == 0x7E {
        Key::Insert
    } else if c1 == 0x5B && c2 == 0x33 && c3 == 0x7E {
        Key::Delete
    } else if c1 == 0x5B && c2 == 0x35 && c3 == 0x7E {
        Key::PageUp
    } else if c1 == 0x5B && c2 == 0x36 && c3 == 0x7E {
        Key::PageDown
    } else {
        Key::Unknown
    }
}

/// Decode the bytes that one read from the terminal returned.
///
/// * `buf` - The buffer that the bytes were read into.
/// * `n` - The number of bytes read.
pub fn decode_key(buf: &[u8], n: usize) -> (r: Key)
    requires
        0 < buf@.len(),
    ensures
        r == key_of(buf@, n as int),
{
    let c = buf[0];
    if c == 0x1B {
        parse_escape_sequence(buf, n)
    } else if c < 0x80 {
        Key::Char(c as char)
    } else {
        Key::Unknown
    }
}

} // verus!

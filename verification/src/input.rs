//! Keyboard and mouse input: the events, and their decoding from the bytes
//! that the terminal sends.

use vstd::prelude::*;

verus! {

/// Keyboard key events
#[derive(Debug, Clone, Copy, PartialEq, Eq, Structural)]
pub enum Key {
    ArrowUp,
    ArrowDown,
    ArrowRight,
    ArrowLeft,
    Home,
    End,
    Insert,
    Delete,
    PageUp,
    PageDown,
    Char(char),
    Escape,
    Ctrl(char),
    Enter,  // Ctrl + M
    F0,
    F1,
    F2,
    F3,
    F4,
    F5,
    F6,
    F7,
    F8,
    F9,
    F10,
    F11,
    F12,
    F13,
    F14,
    F15,
    F16,
    F17,
    F18,
    F19,
    F20,
    Unknown,
}

/// Mouse button events
#[derive(Debug, Clone, Copy, PartialEq, Eq, Structural)]
pub enum MouseButton {
    Left,
    Right,
    Middle,
    WheelUp,
    WheelDown,
}

/// Mouse event
#[derive(Debug, Clone, Copy, PartialEq, Eq, Structural)]
pub enum MouseEvent {
    Press { button: MouseButton, x: u16, y: u16 },
    Release { button: MouseButton, x: u16, y: u16 },
    Move { x: u16, y: u16 },
}

/// Input event
#[derive(Debug, Clone, Copy, PartialEq, Eq, Structural)]
pub enum InputEvent {
    Key(Key),
    Mouse(MouseEvent),
    Unknown,
}

/// Whether `c` is a printable ASCII character: a graphic character or the space.
pub open spec fn printable_char(c: char) -> bool {
    ('!' <= c && c <= '~') || c == ' '
}

impl Key {
    /// Check whether the key is an arrow key.
    ///
    /// Returns `true` if the key is an arrow key, `false` otherwise.
    pub fn is_arrow(&self) -> (r: bool)
        ensures
            r == (*self == Key::ArrowUp || *self == Key::ArrowDown || *self == Key::ArrowLeft
                || *self == Key::ArrowRight),
    {
        match self {
            Key::ArrowUp | Key::ArrowDown | Key::ArrowLeft | Key::ArrowRight => true,
            _ => false,
        }
    }

    /// Check whether the key is a special key (arrow keys, Home/End, etc.).
    ///
    /// Returns `true` if the key is a special key, `false` otherwise.
    pub fn is_special(&self) -> (r: bool)
        ensures
            r == !(*self is Char || *self is Unknown),
    {
        match self {
            Key::Char(_) | Key::Unknown => false,
            _ => true,
        }
    }

    /// Check whether the key is a ASCII character.
    ///
    /// Returns `true` if the key is a ASCII character, `false` otherwise.
    pub fn is_printable(&self) -> (r: bool)
        ensures
            r == (*self is Char && printable_char(self->Char_0)),
    {
        match self {
            Key::Char(c) => (*c >= '!' && *c <= '~') || *c == ' ',
            _ => false,
        }
    }
}

/// The outcome of reading the parameters `b;x;y` of an SGR mouse report.
pub enum SgrScan {
    /// The parameters are malformed.
    Invalid,
    /// A parameter exceeds the range of `u16` before the text is found malformed.
    Overflow,
    /// The three parameters.
    Fields(int, int, int),
}

/// Whether `b` is an ASCII decimal digit.
pub open spec fn is_digit(b: u8) -> bool {
    48 <= b <= 57
}

/// Reads `s` from position `i` on, having read `idx` separators so far, the
/// first two parameters `v0` and `v1` where already read, and `cur` the digits
/// of the current parameter.
pub open spec fn sgr_scan(s: Seq<u8>, i: int, idx: int, v0: int, v1: int, cur: int) -> SgrScan
    decreases s.len() - i,
{
    if i >= s.len() || i < 0 {
        if idx == 2 {
            SgrScan::Fields(v0, v1, cur)
        } else {
            SgrScan::Invalid
        }
    } else if s[i] == 59 {
        if idx >= 3 {
            SgrScan::Invalid
        } else {
            sgr_scan(
                s,
                i + 1,
                idx + 1,
                if idx == 0 { cur } else { v0 },
                if idx == 1 { cur } else { v1 },
                0,
            )
        }
    } else if is_digit(s[i]) {
        let nv = cur * 10 + (s[i] - 48);
        if nv > 65535 {
            SgrScan::Overflow
        } else {
            sgr_scan(s, i + 1, idx, v0, v1, nv)
        }
    } else {
        SgrScan::Invalid
    }
}

/// Whether the first `n` bytes of `buf` have the frame of an SGR mouse report:
/// `ESC [ <`, at least six bytes, and `M` (press) or `m` (release) at the end.
pub open spec fn sgr_frame(buf: Seq<u8>, n: int) -> bool {
    &&& n >= 6
    &&& buf[0] == 0x1B
    &&& buf[1] == 91
    &&& buf[2] == 60
    &&& (buf[n - 1] == 77 || buf[n - 1] == 109)
}

/// Whether reading the parameters of the SGR mouse report in the first `n` bytes
/// of `buf` runs past the range of `u16` (where the decoder stops with an
/// arithmetic overflow).
pub open spec fn sgr_overflows(buf: Seq<u8>, n: int) -> bool {
    sgr_frame(buf, n) && sgr_scan(buf.subrange(3, n - 1), 0, 0, 0, 0, 0) is Overflow
}

/// The mouse event of an SGR report with button code `code`, at `(x, y)`,
/// pressed (`press`) or released.
pub open spec fn mouse_of(code: u8, x: u16, y: u16, press: bool) -> Option<MouseEvent> {
    let button = if code & 3 == 0 {
        Some(MouseButton::Left)
    } else if code & 3 == 1 {
        Some(MouseButton::Middle)
    } else if code & 3 == 2 {
        Some(MouseButton::Right)
    } else {
        None
    };
    match button {
        None => None,
        Some(b) => if code & 0x40 != 0 {
            Some(
                MouseEvent::Press {
                    button: if code & 1 == 0 {
                        MouseButton::WheelUp
                    } else {
                        MouseButton::WheelDown
                    },
                    x,
                    y,
                },
            )
        } else if press {
            Some(MouseEvent::Press { button: b, x, y })
        } else {
            Some(MouseEvent::Release { button: b, x, y })
        },
    }
}

/// The mouse event in the first `n` bytes of `buf`, an SGR report
/// `ESC [ < b ; x ; y M` (press) or `... m` (release), if it is one.
pub open spec fn mouse_event(buf: Seq<u8>, n: int) -> Option<MouseEvent> {
    if !sgr_frame(buf, n) {
        None
    } else {
        match sgr_scan(buf.subrange(3, n - 1), 0, 0, 0, 0, 0) {
            SgrScan::Fields(v0, v1, v2) => mouse_of(
                v0 as u8,
                v1 as u16,
                v2 as u16,
                buf[n - 1] == 77,
            ),
            _ => None,
        }
    }
}

/// Parse mouse event from SGR format: \x1B[<b;x;yM or \x1B[<b;x;ym
///
/// * `buf` - The buffer containing the mouse event data.
/// * `n` - The length of the content.
///
/// Returns `Some(MouseEvent)` if the event is valid, `None` otherwise.
pub fn parse_mouse_event(buf: &[u8], n: usize) -> (r: Option<MouseEvent>)
    requires
        n <= buf@.len(),
        !sgr_overflows(buf@, n as int),
    ensures
        r == mouse_event(buf@, n as int),
{
    // 0x5B is '[', 0x3C is '<', 0x4D is 'M', 0x6D is 'm', 0x3B is ';', 0x30..=0x39 are the digits.
    if n < 6 || buf[0] != 0x1B || buf[1] != 0x5B || buf[2] != 0x3C {
        return None;
    }

    let end_marker = buf[n - 1];
    let is_press = end_marker == 0x4D;
    let is_release = end_marker == 0x6D;

    if !is_press && !is_release {
        return None;
    }

    let ghost s = buf@.subrange(3, n - 1);
    let mut v0: u16 = 0;
    let mut v1: u16 = 0;
    let mut value_idx: usize = 0;
    let mut current_value: u16 = 0;

    let mut i: usize = 3;
    while i < n - 1
        invariant
            3 <= i <= n - 1,
            n <= buf@.len(),
            s == buf@.subrange(3, n - 1),
            sgr_scan(s, 0, 0, 0, 0, 0) == sgr_scan(
                s,
                i - 3,
                value_idx as int,
                v0 as int,
                v1 as int,
                current_value as int,
            ),
            !(sgr_scan(s, 0, 0, 0, 0, 0) is Overflow),
        decreases n - 1 - i,
    {
        let byte = buf[i];
        if byte == 0x3B {
            if value_idx >= 3 {
                return None;
            }
            if value_idx == 0 {
                v0 = current_value;
            } else if value_idx == 1 {
                v1 = current_value;
            }
            value_idx += 1;
            current_value = 0;
        } else if byte >= 0x30 && byte <= 0x39 {
            current_value = current_value * 10 + (byte - 0x30) as u16;
        } else {
            return None;
        }
        i = i + 1;
    }

    if value_idx != 2 {
        return None;
    }

    let button_code = v0 as u8;
    let x = v1;
    let y = current_value;

    let button = match button_code & 0x03 {
        0 => MouseButton::Left,
        1 => MouseButton::Middle,
        2 => MouseButton::Right,
        _ => return None,
    };

    // Check for wheel events
    if button_code & 0x40 != 0 {
        let wheel_button = if button_code & 0x01 == 0 {
            MouseButton::WheelUp
        } else {
            MouseButton::WheelDown
        };
        return Some(MouseEvent::Press { button: wheel_button, x, y });
    }

    if is_press {
        Some(MouseEvent::Press { button, x, y })
    } else {
        Some(MouseEvent::Release { button, x, y })
    }
}


/// Byte `i` of `s`, or -1 past its end.
pub open spec fn byte_at(s: Seq<u8>, i: int) -> int {
    if 0 <= i < s.len() {
        s[i] as int
    } else {
        -1
    }
}

/// The function key of the CSI sequence `ESC [ d1 d2 ~`, by its two decimal digits.
pub open spec fn csi_function_key(d1: int, d2: int) -> Option<Key> {
    let code = (d1 - 0x30) * 10 + (d2 - 0x30);
    if !(0x30 <= d1 <= 0x39 && 0x30 <= d2 <= 0x39) {
        None
    } else if code == 10 {
        Some(Key::F0)
    } else if code == 11 {
        Some(Key::F1)
    } else if code == 12 {
        Some(Key::F2)
    } else if code == 13 {
        Some(Key::F3)
    } else if code == 14 {
        Some(Key::F4)
    } else if code == 15 {
        Some(Key::F5)
    } else if code == 17 {
        Some(Key::F6)
    } else if code == 18 {
        Some(Key::F7)
    } else if code == 19 {
        Some(Key::F8)
    } else if code == 20 {
        Some(Key::F9)
    } else if code == 21 {
        Some(Key::F10)
    } else if code == 23 {
        Some(Key::F11)
    } else if code == 24 {
        Some(Key::F12)
    } else if code == 25 {
        Some(Key::F13)
    } else if code == 26 {
        Some(Key::F14)
    } else if code == 28 {
        Some(Key::F15)
    } else if code == 29 {
        Some(Key::F16)
    } else if code == 31 {
        Some(Key::F17)
    } else if code == 32 {
        Some(Key::F18)
    } else if code == 33 {
        Some(Key::F19)
    } else if code == 34 {
        Some(Key::F20)
    } else {
        None
    }
}

/// The key of a CSI sequence `ESC [` followed by the bytes `rest`
/// (only the first three of them decide).
pub open spec fn csi_key(rest: Seq<u8>) -> Key {
    let c0 = byte_at(rest, 0);
    let c1 = byte_at(rest, 1);
    let c2 = byte_at(rest, 2);
    if c0 == 0x41 {
        Key::ArrowUp
    } else if c0 == 0x42 {
        Key::ArrowDown
    } else if c0 == 0x43 {
        Key::ArrowRight
    } else if c0 == 0x44 {
        Key::ArrowLeft
    } else if (c0 == 0x31 && c1 == 0x7E) || c0 == 0x48 {
        Key::Home
    } else if c0 == 0x32 && c1 == 0x7E {
        Key::Insert
    } else if c0 == 0x33 && c1 == 0x7E {
        Key::Delete
    } else if c0 == 0x35 && c1 == 0x7E {
        Key::PageUp
    } else if c0 == 0x36 && c1 == 0x7E {
        Key::PageDown
    } else if (c0 == 0x34 && c1 == 0x7E) || (c0 == 0x37 && c1 == 0x7E) || c0 == 0x46 {
        Key::End
    } else if c2 == 0x7E && csi_function_key(c0, c1) is Some {
        csi_function_key(c0, c1)->0
    } else {
        Key::Unknown
    }
}

/// The key of an SS3 sequence `ESC O b`.
pub open spec fn ss3_key(b: u8) -> Key {
    if b == 0x50 {
        Key::F1
    } else if b == 0x51 {
        Key::F2
    } else if b == 0x52 {
        Key::F3
    } else if b == 0x53 {
        Key::F4
    } else {
        Key::Unknown
    }
}

/// The event of an escape sequence whose first `n` bytes were read into `buf`.
pub open spec fn escape_event(buf: Seq<u8>, n: int) -> InputEvent {
    if n < 3 {
        InputEvent::Key(Key::Escape)
    } else if buf[1] == 0x4F {
        InputEvent::Key(ss3_key(buf[2]))
    } else if buf[1] == 0x5B {
        if buf[2] == 0x3C {
            match mouse_event(buf, n) {
                Some(m) => InputEvent::Mouse(m),
                None => InputEvent::Unknown,
            }
        } else {
            InputEvent::Key(csi_key(buf.subrange(2, buf.len() as int)))
        }
    } else {
        InputEvent::Unknown
    }
}

/// The event of the first `n` bytes read from the terminal into `buf`:
/// control characters, an escape sequence, or a printable character.
pub open spec fn input_event(buf: Seq<u8>, n: int) -> InputEvent {
    let b = buf[0];
    if 0x01 <= b <= 0x1A {
        if b == 0x0D {
            InputEvent::Key(Key::Enter)
        } else {
            InputEvent::Key(Key::Ctrl(((b - 1) + 0x61) as char))
        }
    } else if b == 0x1B {
        escape_event(buf, n)
    } else if 0x20 <= b <= 0x7E {
        InputEvent::Key(Key::Char(b as char))
    } else {
        InputEvent::Key(Key::Unknown)
    }
}

/// Byte `i` of `buf`, or -1 past its end.
fn byte_or_none(buf: &[u8], i: usize) -> (r: i32)
    ensures
        r == byte_at(buf@, i as int),
{
    if i < buf.len() {
        buf[i] as i32
    } else {
        -1
    }
}

/// The function key of `ESC [ d1 d2 ~`.
fn function_key(d1: i32, d2: i32) -> (r: Option<Key>)
    requires
        -1 <= d1 <= 255,
        -1 <= d2 <= 255,
    ensures
        r == csi_function_key(d1 as int, d2 as int),
{
    if !(0x30 <= d1 && d1 <= 0x39 && 0x30 <= d2 && d2 <= 0x39) {
        return None;
    }
    let code = (d1 - 0x30) * 10 + (d2 - 0x30);
    match code {
        10 => Some(Key::F0),
        11 => Some(Key::F1),
        12 => Some(Key::F2),
        13 => Some(Key::F3),
        14 => Some(Key::F4),
        15 => Some(Key::F5),
        17 => Some(Key::F6),
        18 => Some(Key::F7),
        19 => Some(Key::F8),
        20 => Some(Key::F9),
        21 => Some(Key::F10),
        23 => Some(Key::F11),
        24 => Some(Key::F12),
        25 => Some(Key::F13),
        26 => Some(Key::F14),
        28 => Some(Key::F15),
        29 => Some(Key::F16),
        31 => Some(Key::F17),
        32 => Some(Key::F18),
        33 => Some(Key::F19),
        34 => Some(Key::F20),
        _ => None,
    }
}

/// Parse the escape sequence and return the corresponding Key or Mouse event.
///
/// * `buf` - The buffer containing the escape sequence.
/// * `n` - The length of the buffer.
///
/// Returns `InputEvent` corresponding to the escape sequence.
pub fn parse_escape_sequence(buf: &[u8], n: usize) -> (r: InputEvent)
    requires
        n <= buf@.len(),
        !sgr_overflows(buf@, n as int),
    ensures
        r == escape_event(buf@, n as int),
{
    if n < 3 {
        return InputEvent::Key(Key::Escape);
    }

    // We can check this using `showkey -a` command
    // 0x4F is 'O' (SS3), 0x5B is '[' (CSI), 0x3C is '<' (SGR mouse report)
    if buf[1] == 0x4F {
        // Check SS3 sequence
        let key = match buf[2] {
            0x50 => Key::F1,
            0x51 => Key::F2,
            0x52 => Key::F3,
            0x53 => Key::F4,
            _ => Key::Unknown,
        };
        InputEvent::Key(key)
    } else if buf[1] == 0x5B {
        // Check CSI sequence
        if buf[2] == 0x3C {
            // Check for mouse event (SGR format)
            if let Some(mouse_event) = parse_mouse_event(buf, n) {
                InputEvent::Mouse(mouse_event)
            } else {
                InputEvent::Unknown
            }
        } else {
            // Check special keys
            let c0 = byte_or_none(buf, 2);
            let c1 = byte_or_none(buf, 3);
            let c2 = byte_or_none(buf, 4);
            proof {
                let rest = buf@.subrange(2, buf@.len() as int);
                assert(byte_at(rest, 0) == c0);
                assert(byte_at(rest, 1) == c1);
                assert(byte_at(rest, 2) == c2);
            }
            let key = if c0 == 0x41 {
                Key::ArrowUp
            } else if c0 == 0x42 {
                Key::ArrowDown
            } else if c0 == 0x43 {
                Key::ArrowRight
            } else if c0 == 0x44 {
                Key::ArrowLeft
            } else if (c0 == 0x31 && c1 == 0x7E) || c0 == 0x48 {
                Key::Home
            } else if c0 == 0x32 && c1 == 0x7E {
                Key::Insert
            } else if c0 == 0x33 && c1 == 0x7E {
                Key::Delete
            } else if c0 == 0x35 && c1 == 0x7E {
                Key::PageUp
            } else if c0 == 0x36 && c1 == 0x7E {
                Key::PageDown
            } else if (c0 == 0x34 && c1 == 0x7E) || (c0 == 0x37 && c1 == 0x7E) || c0 == 0x46 {
                Key::End
            } else if c2 == 0x7E {
                match function_key(c0, c1) {
                    Some(k) => k,
                    None => Key::Unknown,
                }
            } else {
                Key::Unknown
            };
            InputEvent::Key(key)
        }
    } else {
        InputEvent::Unknown
    }
}

/// Decode the bytes that one read from the terminal returned.
///
/// * `buf` - The buffer that the bytes were read into.
/// * `n` - The number of bytes read.
///
/// Returns the `InputEvent` that the bytes stand for.
pub fn decode_input(buf: &[u8], n: usize) -> (r: InputEvent)
    requires
        0 < n <= buf@.len(),
        !sgr_overflows(buf@, n as int),
    ensures
        r == input_event(buf@, n as int),
{
    let b = buf[0];
    if 0x01 <= b && b <= 0x1A {
        // Ctrl + letter; Ctrl + M is Enter
        let c = ((b - 0x01) + 0x61) as char;
        if b == 0x0D {
            InputEvent::Key(Key::Enter)
        } else {
            InputEvent::Key(Key::Ctrl(c))
        }
    } else if b == 0x1B {
        parse_escape_sequence(buf, n)
    } else if 0x20 <= b && b <= 0x7E {
        InputEvent::Key(Key::Char(b as char))
    } else {
        InputEvent::Key(Key::Unknown)
    }
}

/// Whether the first `n` bytes of `buf` are an SGR mouse report whose
/// parameters run past the range of `u16`.
pub fn mouse_report_overflows(buf: &[u8], n: usize) -> (r: bool)
    requires
        n <= buf@.len(),
    ensures
        r == sgr_overflows(buf@, n as int),
{
    if n < 6 || buf[0] != 0x1B || buf[1] != 0x5B || buf[2] != 0x3C {
        return false;
    }
    let end_marker = buf[n - 1];
    if end_marker != 0x4D && end_marker != 0x6D {
        return false;
    }
    let ghost s = buf@.subrange(3, n - 1);
    let mut v0: u32 = 0;
    let mut v1: u32 = 0;
    let mut value_idx: usize = 0;
    let mut current_value: u32 = 0;
    let mut i: usize = 3;
    while i < n - 1
        invariant
            3 <= i <= n - 1,
            n <= buf@.len(),
            s == buf@.subrange(3, n - 1),
            sgr_frame(buf@, n as int),
            current_value <= 65535,
            v0 <= 65535,
            v1 <= 65535,
            value_idx <= 3,
            sgr_scan(s, 0, 0, 0, 0, 0) == sgr_scan(
                s,
                i - 3,
                value_idx as int,
                v0 as int,
                v1 as int,
                current_value as int,
            ),
        decreases n - 1 - i,
    {
        let byte = buf[i];
        if byte == 0x3B {
            if value_idx >= 3 {
                return false;
            }
            if value_idx == 0 {
                v0 = current_value;
            } else if value_idx == 1 {
                v1 = current_value;
            }
            value_idx += 1;
            current_value = 0;
        } else if byte >= 0x30 && byte <= 0x39 {
            let next = current_value * 10 + (byte - 0x30) as u32;
            if next > 65535 {
                assert(s[i - 3] == byte);
                assert(sgr_scan(s, i - 3, value_idx as int, v0 as int, v1 as int, current_value as int) is Overflow);
                return true;
            }
            current_value = next;
        } else {
            return false;
        }
        i = i + 1;
    }
    false
}

/// Every arrow key is a special key, and no printable key is.
pub proof fn lemma_key_classes(k: Key)
    ensures
        (k == Key::ArrowUp || k == Key::ArrowDown || k == Key::ArrowLeft || k == Key::ArrowRight)
            ==> !(k is Char || k is Unknown),
        (k is Char && printable_char(k->Char_0)) ==> (k is Char || k is Unknown),
{
}


/// The SS3 sequences `ESC O P`, `ESC O Q`, `ESC O R`, `ESC O S` are the function
/// keys F1, F2, F3, F4: `ESC O` followed by the letter `P + i` is key F(1 + i).
pub proof fn lemma_ss3_function_keys(buf: Seq<u8>, n: int)
    requires
        3 <= n <= buf.len(),
        buf[1] == 0x4F,
        0x50 <= buf[2] <= 0x53,
    ensures
        escape_event(buf, n) == InputEvent::Key(seq![Key::F1, Key::F2, Key::F3, Key::F4][buf[2] - 0x50]),
{
}

/// The CSI sequences `ESC [ A`, `ESC [ B`, `ESC [ C`, `ESC [ D` are the arrow keys
/// up, down, right and left.
pub proof fn lemma_csi_arrow_keys(buf: Seq<u8>, n: int)
    requires
        3 <= n <= buf.len(),
        buf[1] == 0x5B,
        0x41 <= buf[2] <= 0x44,
    ensures
        escape_event(buf, n) == InputEvent::Key(
            seq![Key::ArrowUp, Key::ArrowDown, Key::ArrowRight, Key::ArrowLeft][buf[2] - 0x41],
        ),
{
}

/// The function keys F0 to F20 as xterm sends them: `ESC [ d1 d2 ~`, where the
/// two decimal digits give 10, 11, 12, 13, 14, 15, 17, 18, 19, 20, 21, 23, 24,
/// 25, 26, 28, 29, 31, 32, 33, 34 for F0 to F20 in turn.
pub proof fn lemma_csi_function_keys(buf: Seq<u8>, n: int, i: int)
    requires
        3 <= n <= buf.len(),
        buf.len() >= 5,
        buf[1] == 0x5B,
        0 <= i < 21,
        ({
            let code = seq![10int, 11, 12, 13, 14, 15, 17, 18, 19, 20, 21, 23, 24, 25, 26, 28, 29, 31, 32, 33, 34][i];
            &&& buf[2] == 0x30 + code / 10
            &&& buf[3] == 0x30 + code % 10
        }),
        buf[4] == 0x7E,
    ensures
        escape_event(buf, n) == InputEvent::Key(
            seq![
                Key::F0,
                Key::F1,
                Key::F2,
                Key::F3,
                Key::F4,
                Key::F5,
                Key::F6,
                Key::F7,
                Key::F8,
                Key::F9,
                Key::F10,
                Key::F11,
                Key::F12,
                Key::F13,
                Key::F14,
                Key::F15,
                Key::F16,
                Key::F17,
                Key::F18,
                Key::F19,
                Key::F20,
            ][i],
        ),
{
    let rest = buf.subrange(2, buf.len() as int);
    assert(byte_at(rest, 0) == buf[2]);
    assert(byte_at(rest, 1) == buf[3]);
    assert(byte_at(rest, 2) == buf[4]);
}
} // verus!

//! Terminal control sequences.

use vstd::prelude::*;

use crate::text::push_str;

verus! {

/// Create a CSI (Control Sequence Introducer) escape sequence: `ESC [`
/// followed by `x`.
pub fn csi(x: &str) -> (r: String)
    ensures
        r@ == "\x1B["@ + x@,
{
    let mut s = String::new();
    push_str(&mut s, "\x1B[");
    push_str(&mut s, x);
    s
}

/// Represents terminal commands.
#[derive(Debug, Clone, Copy, PartialEq, Eq)]
pub enum Cmd {
    ShowCursor,
    HideCursor,
    ClearScreen,
    EnableAlternativeScreen,
    DisableAlternativeScreen,
    EnableMouseReporting,
    DisableMouseReporting,
    EnableSgrCoords,
    DisableSgrCoords,
}

/// The escape sequence that performs a terminal command.
pub open spec fn cmd_sequence(cmd: Cmd) -> Seq<char> {
    match cmd {
        Cmd::ShowCursor => "\x1B[?25h"@,
        Cmd::HideCursor => "\x1B[?25l"@,
        Cmd::ClearScreen => "\x1B[2J"@,
        Cmd::EnableAlternativeScreen => "\x1B[?1049h"@,
        Cmd::DisableAlternativeScreen => "\x1B[?1049l"@,
        Cmd::EnableMouseReporting => "\x1B[?1000h"@,
        Cmd::DisableMouseReporting => "\x1B[?1000l"@,
        Cmd::EnableSgrCoords => "\x1B[?1006h"@,
        Cmd::DisableSgrCoords => "\x1B[?1006l"@,
    }
}

impl Cmd {
    /// The escape sequence to write to the terminal to execute the command.
    pub fn sequence(&self) -> (r: &'static str)
        ensures
            r@ == cmd_sequence(*self),
    {
        match self {
            Cmd::ShowCursor => "\x1B[?25h",
            Cmd::HideCursor => "\x1B[?25l",
            Cmd::ClearScreen => "\x1B[2J",
            Cmd::EnableAlternativeScreen => "\x1B[?1049h",
            Cmd::DisableAlternativeScreen => "\x1B[?1049l",
            Cmd::EnableMouseReporting => "\x1B[?1000h",
            Cmd::DisableMouseReporting => "\x1B[?1000l",
            Cmd::EnableSgrCoords => "\x1B[?1006h",
            Cmd::DisableSgrCoords => "\x1B[?1006l",
        }
    }
}

} // verus!

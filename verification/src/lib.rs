//! A terminal UI library: character framebuffers with differential
//! rendering, text styling as ANSI escape sequences, and decoding of
//! keyboard and mouse input.
//!
//! - [`framebuffer`] - Character grid for efficient rendering
//! - [`input`] - Keyboard and mouse input decoding
//! - [`attr`], [`color`], [`term`] - Terminal attributes, colors and escape sequences
//! - [`block`], [`field`] - The blocks and the playing field of the Tetris demo
//! - [`rcurses`] - The earlier API that the Tetris demo uses for styling and keys

pub mod attr;
pub mod block;
pub mod color;
pub mod field;
pub mod framebuffer;
pub mod input;
pub mod rcurses;
pub mod term;
pub mod text;

pub use attr::Attr;
pub use color::Color;
pub use framebuffer::{Align, Cell, Framebuffer, RefreshError};
pub use input::{InputEvent, Key, MouseButton, MouseEvent};
pub use term::{csi, Cmd};

//! The first generation of the library's API, which the Tetris demo
//! program is written against: 256-color styles and plain key decoding.

pub mod input;
pub mod term;

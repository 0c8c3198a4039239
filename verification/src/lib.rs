//! The decisions and encodings of a terminal emulator, verified.

pub mod colors;
pub mod digits;
pub mod keys;
pub mod launch;
pub mod mode;
pub mod mouse;
pub mod paste;
pub mod plate_menu;
pub mod render;
pub mod session;
pub mod term;
pub mod utf8;

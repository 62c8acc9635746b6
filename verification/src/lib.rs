//! Terminal emulation core for termojinal: cell model, colors, the cell grid,
//! scrollback, the terminal state machine driven by VT parser callbacks,
//! image protocols (Kitty, iTerm2, Sixel), soft fonts, and the daemon's
//! binary frame codec.

pub mod color;
pub mod cell;
pub mod text;
pub mod image_store;
pub mod apc;
pub mod codec;
pub mod kitty;
pub mod iterm2;
pub mod grid;
pub mod scrollback;
pub mod modes;
pub mod width;
pub mod sgr;
pub mod sixel;
pub mod term;
pub mod frame;
pub mod hotkey;
pub mod emoji;
pub mod glyph;
pub mod persist;
pub mod request;
pub mod sessions;
pub mod session_io;

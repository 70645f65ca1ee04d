//! A small desktop-shell library: the decision logic behind a set of UI
//! command handlers that greet the user, list the system's font families,
//! and open, close, focus and pin a fixed set of application windows.
//!
//! The host window manager and the font catalog live outside this crate;
//! callers read from them and hand plain values in.

pub mod fonts;
pub mod greeting;
pub mod windows;

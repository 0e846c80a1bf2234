//! Pin: keep chosen windows on top of all others.
//!
//! The library holds the platform-free core of the tray utility: the set of
//! pinned windows, the rule that decides which windows may be pinned, the
//! autostart settings file and Run-command handling, the icon pixel
//! conversions and the badge geometry.

pub mod win;
pub mod text;
pub mod autostart;
pub mod pinned;
pub mod resources;
pub mod cursor;
pub mod overlay;
pub mod control;

//! Verified core of a Wayland status bar: maildir and weather summaries,
//! taskbar and tray bookkeeping, theme switching and panel selection.
//!
//! The bar's threads, channels, D-Bus, Wayland and HTTP plumbing live
//! outside this crate; they hand plain values to the functions here and act
//! on what comes back.

pub mod text;
pub mod order;
pub mod mail;
pub mod weather;
pub mod theme_switch;
pub mod taskbar;
pub mod tray;
pub mod panels;

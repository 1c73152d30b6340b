//! Per-terminal-emulator integrations: each binds the configured theme names
//! to that emulator's settings-line prefix and theme-reference syntax.

pub mod alacritty;

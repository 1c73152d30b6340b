//! Switches a terminal emulator's color theme between a dark and a light
//! variant by rewriting a single settings line inside the emulator's
//! configuration file, leaving every other line untouched.
//!
//! The file itself is read and written by the caller; the library works on the
//! file's contents as an ordered sequence of lines and carries the proofs:
//! the rewrite replaces only the first line that starts with the key prefix,
//! is idempotent, and leaves a file without a matching line unchanged.

pub mod config;
pub mod editor;
pub mod hooks;

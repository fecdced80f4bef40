//! A typing-practice session engine.
//!
//! The crate lays out a text as fixed-width display lines, optionally with a
//! row of ideographic glyphs above their Latin transliteration, matches
//! keystrokes against the laid-out text, and keeps live and final speed and
//! accuracy figures.

pub mod error;
pub mod evaluator;
pub mod layout;
pub mod textgen;
pub mod tui;
pub mod typlap;
pub mod utils;

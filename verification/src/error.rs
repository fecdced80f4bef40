//! The failures a typing session can report.

use vstd::prelude::*;

verus! {

/// What can go wrong while a session is built or driven.
#[derive(Clone, Copy, Debug, PartialEq, Eq, Structural)]
pub enum TypingError {
    /// The user typed an ideographic glyph, or one of the full-width
    /// punctuation marks, instead of its Latin transliteration.
    InputMethod,
    /// A character of the source text has no transliteration.
    Encoding,
    /// The terminal is smaller than the smallest usable viewport.
    ViewportTooSmall,
    /// A metric was asked for whose denominator is zero.
    DivisionUndefined,
}

} // verus!

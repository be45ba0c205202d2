//! The library's error kinds.

use vstd::prelude::*;

verus! {

/// What can go wrong around the level state machine.
///
/// Running out of levels is not an error: it is the normal win condition and
/// shows as the session's `finished` flag instead.
#[derive(Clone, Copy, PartialEq, Eq, Structural, Debug)]
pub enum GameError {
    /// The level text holds a glyph outside the recognized set, at the given
    /// row and column (fatal: levels are static assets).
    InvalidLevelChar { glyph: char, row: usize, col: usize },
    /// The level text is legal glyph by glyph but is no well-formed level:
    /// empty, not rectangular, or without exactly one player, one crate and
    /// one goal (fatal, as above).
    MalformedLevel,
    /// A submitted move sequence holds a glyph that names no direction; the
    /// whole line is rejected before any movement (recoverable: the caller
    /// re-prompts).
    InvalidDirectionInput { glyph: char },
}

} // verus!

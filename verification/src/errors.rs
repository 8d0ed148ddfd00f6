//! Failure kinds of the pipeline. Each failure is isolated to the smallest
//! unit of work that caused it: one character, one contour, or one pair.

use vstd::prelude::*;

verus! {

/// Why a glyph, contour, fold step or pair could not be completed.
#[derive(Clone, Copy, PartialEq, Eq, Structural, Debug)]
pub enum GlyphError {
    /// The font has no glyph for the requested character.
    GlyphNotFound,
    /// A contour yielded no usable edge after degenerate curves were dropped.
    DegenerateBoundary,
    /// No contour of the glyph survived assembly.
    EmptyGlyph,
    /// The solid kernel rejected a union, intersection, subtraction or
    /// extrusion step.
    BooleanFailure,
    /// Two contours of one glyph overlap without one containing the other,
    /// so the hole-resolving fold would not compute a correct volume.
    UnsupportedTopology,
}

impl GlyphError {
    /// A short fixed description for operator-facing summaries.
    pub fn describe(&self) -> (s: &'static str)
        ensures
            s@ =~= match *self {
                GlyphError::GlyphNotFound => "glyph not found"@,
                GlyphError::DegenerateBoundary => "degenerate boundary"@,
                GlyphError::EmptyGlyph => "empty glyph"@,
                GlyphError::BooleanFailure => "boolean operation failed"@,
                GlyphError::UnsupportedTopology => "unsupported contour topology"@,
            },
    {
        match self {
            GlyphError::GlyphNotFound => "glyph not found",
            GlyphError::DegenerateBoundary => "degenerate boundary",
            GlyphError::EmptyGlyph => "empty glyph",
            GlyphError::BooleanFailure => "boolean operation failed",
            GlyphError::UnsupportedTopology => "unsupported contour topology",
        }
    }
}

} // verus!

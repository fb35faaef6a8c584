//! The failures that the library reports.

use vstd::prelude::*;
use crate::base::HasDescription;

verus! {

/// Why an operation could not give a result.
#[derive(PartialEq, Eq, Copy, Clone, Hash, Debug, Structural)]
pub enum KordError {
    /// A note would lie outside the ten supported octaves, or would need
    /// more than three flats or sharps.
    InvalidOctaveRange,
    /// A text is not the name of a note with at most two flats or sharps.
    InvalidNote,
    /// A text is not one of the digits `0` to `9`.
    InvalidOctave,
}

/// The result of an operation that can fail.
pub type Res<T> = Result<T, KordError>;

impl HasDescription for KordError {
    /// The message for the one who made the call.
    open spec fn description_spec(&self) -> Seq<char> {
        match self {
            KordError::InvalidOctaveRange => "The note is outside the supported octave range."@,
            KordError::InvalidNote =>
                "Please use fairly standard notes (e.g., don't use triple sharps / flats)."@,
            KordError::InvalidOctave => "Please use a valid octave (0 - 9)."@,
        }
    }

    fn description(&self) -> (s: &'static str) {
        match self {
            KordError::InvalidOctaveRange => "The note is outside the supported octave range.",
            KordError::InvalidNote =>
                "Please use fairly standard notes (e.g., don't use triple sharps / flats).",
            KordError::InvalidOctave => "Please use a valid octave (0 - 9).",
        }
    }
}

} // verus!

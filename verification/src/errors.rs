//! The failure type shared by parsing and inverse conversions.

use vstd::prelude::*;

verus! {

/// Why a textual pitch, a textual note, or an inverse frequency
/// conversion was rejected.
#[derive(Clone, Copy, Debug, PartialEq, Eq, Structural)]
pub enum NoteError {
    /// The leading character of a pitch name is not one of the staff
    /// letters `A`..`G`.
    InvalidLetter,
    /// The characters after the staff letter are not a recognized
    /// accidental spelling.
    InvalidAccidental,
    /// The octave suffix of a note is missing, contains a non-digit, or
    /// puts the note number outside the 8-bit range.
    InvalidOctave,
    /// A frequency is not positive and finite, or resolves to a note
    /// number outside the 8-bit range.
    InvalidFrequency,
}

} // verus!

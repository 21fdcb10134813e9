//! A musical-pitch model.
//!
//! A note is a pitch class (staff letter plus accidental) together with an
//! octave. The library converts losslessly between a note's textual form
//! ("C#4", "Bb3"), its absolute note number (semitone distance from C0,
//! an 8-bit integer), and — through the integer anchors exposed here — a
//! frequency under a tuning strategy. Parsing and formatting, the semitone
//! arithmetic, and the note-number encoding are verified; the floating-point
//! frequency formulas themselves live outside the library and consume the
//! verified integer anchors.

pub mod decimal;
pub mod errors;
pub mod note;
pub mod pitch;
pub mod pitch_symbol;
pub mod tuning;

pub use errors::NoteError;
pub use note::{Note, Notes};
pub use pitch::{NoteLetter, Pitch};
pub use pitch_symbol::PitchSymbol;
pub use tuning::Tuning;

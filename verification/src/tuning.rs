//! Tuning strategies.

use vstd::prelude::*;

verus! {

/// A strategy describing how absolute note numbers map to frequencies,
/// anchored at the reference pitch (A, octave 4) = 440 Hz. Adding a
/// strategy means adding a variant with its own pair of total functions;
/// existing variants are unaffected.
#[derive(Clone, Copy, Debug, PartialEq, Eq, Structural)]
pub enum Tuning {
    /// Each semitone is a fixed frequency ratio of the twelfth root of two.
    EqualTemperament,
}

} // verus!

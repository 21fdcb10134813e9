//! Accidentals and their semitone deltas and spellings.

use vstd::prelude::*;

verus! {

/// An accidental: the part of a pitch name that raises or lowers the
/// staff letter by a fixed number of semitones.
#[derive(Clone, Copy, Debug, PartialEq, Eq, Structural)]
pub enum PitchSymbol {
    /// No alteration (empty spelling).
    Natural,
    /// One semitone up (`#`).
    Sharp,
    /// One semitone down (`b`).
    Flat,
    /// Two semitones up (`##`).
    DoubleSharp,
    /// Two semitones down (`bb`).
    DoubleFlat,
}

impl PitchSymbol {
    /// The semitone delta the accidental contributes to a pitch class.
    pub open spec fn spec_delta(self) -> int {
        match self {
            PitchSymbol::Natural => 0,
            PitchSymbol::Sharp => 1,
            PitchSymbol::Flat => -1,
            PitchSymbol::DoubleSharp => 2,
            PitchSymbol::DoubleFlat => -2,
        }
    }

    /// The canonical spelling of the accidental.
    pub open spec fn spec_chars(self) -> Seq<char> {
        match self {
            PitchSymbol::Natural => Seq::<char>::empty(),
            PitchSymbol::Sharp => seq!['#'],
            PitchSymbol::Flat => seq!['b'],
            PitchSymbol::DoubleSharp => seq!['#', '#'],
            PitchSymbol::DoubleFlat => seq!['b', 'b'],
        }
    }

    /// The accidental spelled by a character sequence, if any; the empty
    /// sequence spells `Natural`.
    pub open spec fn spec_of_chars(t: Seq<char>) -> Option<PitchSymbol> {
        if t.len() == 0 {
            Some(PitchSymbol::Natural)
        } else if t.len() == 1 {
            if t[0] == '#' {
                Some(PitchSymbol::Sharp)
            } else if t[0] == 'b' {
                Some(PitchSymbol::Flat)
            } else {
                None
            }
        } else if t.len() == 2 {
            if t[0] == '#' && t[1] == '#' {
                Some(PitchSymbol::DoubleSharp)
            } else if t[0] == 'b' && t[1] == 'b' {
                Some(PitchSymbol::DoubleFlat)
            } else {
                None
            }
        } else {
            None
        }
    }

    /// The semitone delta, as an executable value.
    pub fn delta(self) -> (d: i8)
        ensures
            d as int == self.spec_delta(),
    {
        match self {
            PitchSymbol::Natural => 0,
            PitchSymbol::Sharp => 1,
            PitchSymbol::Flat => -1,
            PitchSymbol::DoubleSharp => 2,
            PitchSymbol::DoubleFlat => -2,
        }
    }

    /// The canonical spelling, as text.
    pub fn format(self) -> (s: &'static str)
        ensures
            s@ == self.spec_chars(),
    {
        match self {
            PitchSymbol::Natural => {
                let s = "";
                proof {
                    reveal_strlit("");
                    assert(s@ =~= self.spec_chars());
                }
                s
            },
            PitchSymbol::Sharp => {
                let s = "#";
                proof {
                    reveal_strlit("#");
                    assert(s@ =~= self.spec_chars());
                }
                s
            },
            PitchSymbol::Flat => {
                let s = "b";
                proof {
                    reveal_strlit("b");
                    assert(s@ =~= self.spec_chars());
                }
                s
            },
            PitchSymbol::DoubleSharp => {
                let s = "##";
                proof {
                    reveal_strlit("##");
                    assert(s@ =~= self.spec_chars());
                }
                s
            },
            PitchSymbol::DoubleFlat => {
                let s = "bb";
                proof {
                    reveal_strlit("bb");
                    assert(s@ =~= self.spec_chars());
                }
                s
            },
        }
    }
}

/// The canonical spelling of an accidental spells that accidental back:
/// `spec_of_chars` inverts `spec_chars`.
pub proof fn lemma_symbol_of_own_chars(s: PitchSymbol)
    ensures
        PitchSymbol::spec_of_chars(s.spec_chars()) == Some(s),
{
}

} // verus!

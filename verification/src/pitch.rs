//! Staff letters and pitch classes: parsing, formatting, and semitone
//! arithmetic.

use vstd::prelude::*;
use vstd::string::StrSliceExecFns;
use vstd::string::StringExecFns;
use crate::errors::NoteError;
use crate::pitch_symbol::PitchSymbol;

verus! {

/// A staff letter name.
#[derive(Clone, Copy, Debug, PartialEq, Eq, Structural)]
pub enum NoteLetter {
    /// The letter A.
    A,
    /// The letter B.
    B,
    /// The letter C.
    C,
    /// The letter D.
    D,
    /// The letter E.
    E,
    /// The letter F.
    F,
    /// The letter G.
    G,
}

impl NoteLetter {
    /// The natural semitone offset of the letter within an octave, on the
    /// conventional keyboard layout (C = 0 .. B = 11).
    pub open spec fn spec_offset(self) -> int {
        match self {
            NoteLetter::C => 0,
            NoteLetter::D => 2,
            NoteLetter::E => 4,
            NoteLetter::F => 5,
            NoteLetter::G => 7,
            NoteLetter::A => 9,
            NoteLetter::B => 11,
        }
    }

    /// The letter's one-character upper-case spelling.
    pub open spec fn spec_char(self) -> char {
        match self {
            NoteLetter::A => 'A',
            NoteLetter::B => 'B',
            NoteLetter::C => 'C',
            NoteLetter::D => 'D',
            NoteLetter::E => 'E',
            NoteLetter::F => 'F',
            NoteLetter::G => 'G',
        }
    }

    /// The letter spelled by a character, if any. Letters are accepted in
    /// upper case only.
    pub open spec fn spec_of_char(c: char) -> Option<NoteLetter> {
        if c == 'A' {
            Some(NoteLetter::A)
        } else if c == 'B' {
            Some(NoteLetter::B)
        } else if c == 'C' {
            Some(NoteLetter::C)
        } else if c == 'D' {
            Some(NoteLetter::D)
        } else if c == 'E' {
            Some(NoteLetter::E)
        } else if c == 'F' {
            Some(NoteLetter::F)
        } else if c == 'G' {
            Some(NoteLetter::G)
        } else {
            None
        }
    }

    /// The natural semitone offset, as an executable value.
    pub fn offset(self) -> (n: u8)
        ensures
            n as int == self.spec_offset(),
    {
        match self {
            NoteLetter::C => 0,
            NoteLetter::D => 2,
            NoteLetter::E => 4,
            NoteLetter::F => 5,
            NoteLetter::G => 7,
            NoteLetter::A => 9,
            NoteLetter::B => 11,
        }
    }

    /// The letter spelled by a character, as an executable value.
    pub fn of_char(c: char) -> (r: Option<NoteLetter>)
        ensures
            r == NoteLetter::spec_of_char(c),
    {
        if c == 'A' {
            Some(NoteLetter::A)
        } else if c == 'B' {
            Some(NoteLetter::B)
        } else if c == 'C' {
            Some(NoteLetter::C)
        } else if c == 'D' {
            Some(NoteLetter::D)
        } else if c == 'E' {
            Some(NoteLetter::E)
        } else if c == 'F' {
            Some(NoteLetter::F)
        } else if c == 'G' {
            Some(NoteLetter::G)
        } else {
            None
        }
    }

    /// The letter's spelling, as text.
    pub fn format(self) -> (s: &'static str)
        ensures
            s@ == seq![self.spec_char()],
    {
        match self {
            NoteLetter::A => {
                let s = "A";
                proof {
                    reveal_strlit("A");
                    assert(s@ =~= seq![self.spec_char()]);
                }
                s
            },
            NoteLetter::B => {
                let s = "B";
                proof {
                    reveal_strlit("B");
                    assert(s@ =~= seq![self.spec_char()]);
                }
                s
            },
            NoteLetter::C => {
                let s = "C";
                proof {
                    reveal_strlit("C");
                    assert(s@ =~= seq![self.spec_char()]);
                }
                s
            },
            NoteLetter::D => {
                let s = "D";
                proof {
                    reveal_strlit("D");
                    assert(s@ =~= seq![self.spec_char()]);
                }
                s
            },
            NoteLetter::E => {
                let s = "E";
                proof {
                    reveal_strlit("E");
                    assert(s@ =~= seq![self.spec_char()]);
                }
                s
            },
            NoteLetter::F => {
                let s = "F";
                proof {
                    reveal_strlit("F");
                    assert(s@ =~= seq![self.spec_char()]);
                }
                s
            },
            NoteLetter::G => {
                let s = "G";
                proof {
                    reveal_strlit("G");
                    assert(s@ =~= seq![self.spec_char()]);
                }
                s
            },
        }
    }
}

/// A pitch class: a staff letter and an accidental. Enharmonic pairs
/// (C# and Db) share a semitone class but stay distinct values, so the
/// spelling survives formatting.
#[derive(Clone, Copy, Debug, PartialEq, Eq, Structural)]
pub struct Pitch {
    /// The staff letter.
    pub letter: NoteLetter,
    /// The accidental.
    pub symbol: PitchSymbol,
}

impl Pitch {
    /// The pitch's semitone class: letter offset plus accidental delta,
    /// floor-reduced into [0, 11] (a flat on C wraps to 11).
    pub open spec fn spec_semitone_class(self) -> int {
        (self.letter.spec_offset() + self.symbol.spec_delta()) % 12
    }

    /// The pitch's canonical spelling: the letter followed by the
    /// accidental.
    pub open spec fn spec_format(self) -> Seq<char> {
        seq![self.letter.spec_char()] + self.symbol.spec_chars()
    }

    /// The pitch spelled by a character sequence: the first character must
    /// spell a letter, the remainder an accidental.
    pub open spec fn spec_parse(t: Seq<char>) -> Result<Pitch, NoteError> {
        if t.len() == 0 {
            Err(NoteError::InvalidLetter)
        } else {
            match NoteLetter::spec_of_char(t[0]) {
                None => Err(NoteError::InvalidLetter),
                Some(letter) => match PitchSymbol::spec_of_chars(
                    t.subrange(1, t.len() as int),
                ) {
                    None => Err(NoteError::InvalidAccidental),
                    Some(symbol) => Ok(Pitch { letter, symbol }),
                },
            }
        }
    }

    /// The canonical pitch of a semitone class: a natural letter where one
    /// exists, else the sharp of the letter below. Decoding is a one-way
    /// canonicalization: an enharmonic spelling such as Db is never
    /// produced.
    pub open spec fn spec_from_class(n: int) -> Pitch {
        if n == 0 {
            Pitch { letter: NoteLetter::C, symbol: PitchSymbol::Natural }
        } else if n == 1 {
            Pitch { letter: NoteLetter::C, symbol: PitchSymbol::Sharp }
        } else if n == 2 {
            Pitch { letter: NoteLetter::D, symbol: PitchSymbol::Natural }
        } else if n == 3 {
            Pitch { letter: NoteLetter::D, symbol: PitchSymbol::Sharp }
        } else if n == 4 {
            Pitch { letter: NoteLetter::E, symbol: PitchSymbol::Natural }
        } else if n == 5 {
            Pitch { letter: NoteLetter::F, symbol: PitchSymbol::Natural }
        } else if n == 6 {
            Pitch { letter: NoteLetter::F, symbol: PitchSymbol::Sharp }
        } else if n == 7 {
            Pitch { letter: NoteLetter::G, symbol: PitchSymbol::Natural }
        } else if n == 8 {
            Pitch { letter: NoteLetter::G, symbol: PitchSymbol::Sharp }
        } else if n == 9 {
            Pitch { letter: NoteLetter::A, symbol: PitchSymbol::Natural }
        } else if n == 10 {
            Pitch { letter: NoteLetter::A, symbol: PitchSymbol::Sharp }
        } else {
            Pitch { letter: NoteLetter::B, symbol: PitchSymbol::Natural }
        }
    }

    /// The semitone class, as an executable value, always in [0, 11].
    pub fn semitone_class(&self) -> (n: u8)
        ensures
            n as int == self.spec_semitone_class(),
            n < 12,
    {
        let o = self.letter.offset() as i16;
        let d = self.symbol.delta() as i16;
        let t = o + d;
        let t = if t < 0 {
            t + 12
        } else {
            t
        };
        (t % 12) as u8
    }

    /// The canonical pitch of a semitone class, as an executable value.
    pub fn from_semitone_class(n: u8) -> (p: Pitch)
        requires
            n < 12,
        ensures
            p == Pitch::spec_from_class(n as int),
    {
        if n == 0 {
            Pitch { letter: NoteLetter::C, symbol: PitchSymbol::Natural }
        } else if n == 1 {
            Pitch { letter: NoteLetter::C, symbol: PitchSymbol::Sharp }
        } else if n == 2 {
            Pitch { letter: NoteLetter::D, symbol: PitchSymbol::Natural }
        } else if n == 3 {
            Pitch { letter: NoteLetter::D, symbol: PitchSymbol::Sharp }
        } else if n == 4 {
            Pitch { letter: NoteLetter::E, symbol: PitchSymbol::Natural }
        } else if n == 5 {
            Pitch { letter: NoteLetter::F, symbol: PitchSymbol::Natural }
        } else if n == 6 {
            Pitch { letter: NoteLetter::F, symbol: PitchSymbol::Sharp }
        } else if n == 7 {
            Pitch { letter: NoteLetter::G, symbol: PitchSymbol::Natural }
        } else if n == 8 {
            Pitch { letter: NoteLetter::G, symbol: PitchSymbol::Sharp }
        } else if n == 9 {
            Pitch { letter: NoteLetter::A, symbol: PitchSymbol::Natural }
        } else if n == 10 {
            Pitch { letter: NoteLetter::A, symbol: PitchSymbol::Sharp }
        } else {
            Pitch { letter: NoteLetter::B, symbol: PitchSymbol::Natural }
        }
    }

    /// Parse a textual pitch name: an upper-case letter A..G followed by
    /// an accidental spelling ("", "#", "b", "##", "bb").
    pub fn parse(s: &str) -> (r: Result<Pitch, NoteError>)
        ensures
            r == Pitch::spec_parse(s@),
    {
        let len = s.unicode_len();
        if len == 0 {
            return Err(NoteError::InvalidLetter);
        }
        let letter = match NoteLetter::of_char(s.get_char(0)) {
            Some(letter) => letter,
            None => {
                return Err(NoteError::InvalidLetter);
            },
        };
        let ghost rest = s@.subrange(1, s@.len() as int);
        if len == 1 {
            proof {
                assert(rest =~= Seq::<char>::empty());
            }
            Ok(Pitch { letter, symbol: PitchSymbol::Natural })
        } else if len == 2 {
            let c = s.get_char(1);
            proof {
                assert(rest.len() == 1 && rest[0] == s@[1]);
            }
            if c == '#' {
                Ok(Pitch { letter, symbol: PitchSymbol::Sharp })
            } else if c == 'b' {
                Ok(Pitch { letter, symbol: PitchSymbol::Flat })
            } else {
                Err(NoteError::InvalidAccidental)
            }
        } else if len == 3 {
            let c1 = s.get_char(1);
            let c2 = s.get_char(2);
            proof {
                assert(rest.len() == 2 && rest[0] == s@[1] && rest[1] == s@[2]);
            }
            if c1 == '#' && c2 == '#' {
                Ok(Pitch { letter, symbol: PitchSymbol::DoubleSharp })
            } else if c1 == 'b' && c2 == 'b' {
                Ok(Pitch { letter, symbol: PitchSymbol::DoubleFlat })
            } else {
                Err(NoteError::InvalidAccidental)
            }
        } else {
            Err(NoteError::InvalidAccidental)
        }
    }

    /// Format the pitch as text: the letter followed by the accidental.
    pub fn format(&self) -> (s: String)
        ensures
            s@ == self.spec_format(),
    {
        let mut s = String::from_str(self.letter.format());
        s.append(self.symbol.format());
        proof {
            assert(s@ =~= self.spec_format());
        }
        s
    }
}

/// The canonical pitch of a semitone class has exactly that class:
/// decoding inverts the class projection.
pub proof fn lemma_from_class_class(n: int)
    requires
        0 <= n < 12,
    ensures
        Pitch::spec_from_class(n).spec_semitone_class() == n,
{
}

/// Parsing the formatted spelling of any pitch gives back exactly that
/// pitch: `format` loses nothing, enharmonic spellings included.
pub proof fn lemma_pitch_parse_format(p: Pitch)
    ensures
        Pitch::spec_parse(p.spec_format()) == Ok::<Pitch, NoteError>(p),
{
    let t = p.spec_format();
    assert(t[0] == p.letter.spec_char());
    assert(NoteLetter::spec_of_char(t[0]) == Some(p.letter));
    assert(t.subrange(1, t.len() as int) =~= p.symbol.spec_chars());
    crate::pitch_symbol::lemma_symbol_of_own_chars(p.symbol);
}

} // verus!

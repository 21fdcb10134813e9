//! Notes: a pitch class with an octave, and the conversions between text,
//! note numbers, and the integer anchors of frequency conversion.

use vstd::prelude::*;
use vstd::string::StrSliceExecFns;
use crate::decimal::all_digits;
use crate::decimal::dec_val;
use crate::decimal::is_digit;
use crate::decimal::lemma_dec_digits_val;
use crate::decimal::lemma_dec_val_prefix;
use crate::decimal::push_dec;
use crate::decimal::spec_dec_digits;
use crate::errors::NoteError;
use crate::pitch::lemma_pitch_parse_format;
use crate::pitch::Pitch;

verus! {

/// The note number of the reference pitch (A, octave 4): 9 + 12 * 4.
pub const A4_NOTE_NR: u8 = 57;

/// A note: a pitch and an octave in standard notation (octave 4 holds the
/// reference A). Its note number is `semitone class + 12 * octave`; the
/// supported range is the 8-bit note numbers 0..=255.
#[derive(Clone, Copy, Debug, PartialEq, Eq, Structural)]
pub struct Note {
    /// The pitch of the note (A, B, C#, etc).
    pub pitch: Pitch,
    /// The octave of the note in standard notation.
    pub octave: u8,
}

/// The number of leading characters of `t` before its first decimal
/// digit (the whole length when no digit occurs).
pub open spec fn split_idx(t: Seq<char>) -> int
    decreases t.len(),
{
    if t.len() == 0 {
        0
    } else if is_digit(t[0]) {
        0
    } else {
        1 + split_idx(t.drop_first())
    }
}

/// `split_idx` is the position of the first digit: it is the one index
/// with no digit before it that sits on a digit or at the end.
pub proof fn lemma_split_idx_is(t: Seq<char>, i: int)
    requires
        0 <= i <= t.len(),
        forall|j: int| 0 <= j < i ==> !is_digit(#[trigger] t[j]),
        i < t.len() ==> is_digit(t[i]),
    ensures
        split_idx(t) == i,
    decreases t.len(),
{
    if t.len() == 0 {
    } else if is_digit(t[0]) {
        assert(i == 0);
    } else {
        let r = t.drop_first();
        assert(forall|j: int| 0 <= j < i - 1 ==> #[trigger] r[j] == t[j + 1]);
        lemma_split_idx_is(r, i - 1);
    }
}

impl Note {
    /// The note's absolute note number: semitone class plus twelve per
    /// octave, counted from C0 = 0.
    pub open spec fn spec_note_nr(self) -> int {
        self.pitch.spec_semitone_class() + 12 * self.octave
    }

    /// A note is well formed when its note number fits the 8-bit range.
    pub open spec fn wf(self) -> bool {
        self.spec_note_nr() <= 255
    }

    /// The note a note number decodes to: the canonical pitch of the
    /// class, and the octave by division.
    pub open spec fn spec_from_note_nr(nr: u8) -> Note {
        Note {
            pitch: Pitch::spec_from_class(nr as int % 12),
            octave: (nr as int / 12) as u8,
        }
    }

    /// The note's canonical text: the pitch followed by the decimal
    /// octave, with no separator.
    pub open spec fn spec_format(self) -> Seq<char> {
        self.pitch.spec_format() + spec_dec_digits(self.octave as int)
    }

    /// The note a character sequence parses to: everything before the
    /// first digit is the pitch, everything from it on is the octave. The
    /// octave must be present, all digits, and keep the note number within
    /// the 8-bit range.
    pub open spec fn spec_parse(t: Seq<char>) -> Result<Note, NoteError> {
        let k = split_idx(t);
        match Pitch::spec_parse(t.subrange(0, k)) {
            Err(e) => Err(e),
            Ok(pitch) => Note::octave_result(pitch, t.subrange(k, t.len() as int)),
        }
    }

    /// Create a new note.
    pub fn new(pitch: Pitch, octave: u8) -> (n: Note)
        ensures
            n == (Note { pitch, octave }),
    {
        Note { pitch, octave }
    }

    /// Parse a textual note: a pitch name immediately followed by a
    /// non-negative decimal octave, e.g. "A4", "C#4", "Bb3".
    pub fn from_string(s: &str) -> (r: Result<Note, NoteError>)
        ensures
            r == Note::spec_parse(s@),
    {
        let len = s.unicode_len();
        let k = split_point(s);
        let head = s.substring_char(0, k);
        let pitch = match Pitch::parse(head) {
            Ok(pitch) => pitch,
            Err(e) => {
                return Err(e);
            },
        };
        let ghost suffix = s@.subrange(k as int, s@.len() as int);
        if k == len {
            return Err(NoteError::InvalidOctave);
        }
        let mut i: usize = k;
        let mut acc: u32 = 0;
        while i < len
            invariant
                k <= i <= len,
                len == s@.len(),
                suffix == s@.subrange(k as int, s@.len() as int),
                k < len,
                Note::spec_parse(s@) == (Note::octave_result(pitch, suffix)),
                all_digits(suffix.subrange(0, i - k)),
                acc == dec_val(suffix.subrange(0, i - k)),
                acc <= 255,
            decreases len - i,
        {
            let c = s.get_char(i);
            let u = c as u32;
            proof {
                assert(suffix[i - k] == s@[i as int]);
            }
            if !(48 <= u && u <= 57) {
                proof {
                    assert(!is_digit(suffix[i - k]));
                }
                return Err(NoteError::InvalidOctave);
            }
            let d = u - 48;
            let next: u32 = acc * 10 + d;
            proof {
                let pre = suffix.subrange(0, i - k);
                let pre1 = suffix.subrange(0, i + 1 - k);
                assert(pre1.drop_last() =~= pre);
                assert(pre1.last() == suffix[i - k]);
                assert(dec_val(pre1) == 10 * dec_val(pre) + d);
                assert(all_digits(pre1));
            }
            if next > 255 {
                proof {
                    if all_digits(suffix) {
                        lemma_dec_val_prefix(suffix, i + 1 - k);
                        assert(dec_val(suffix) >= next > 255);
                    }
                }
                return Err(NoteError::InvalidOctave);
            }
            acc = next;
            i = i + 1;
        }
        proof {
            assert(suffix.subrange(0, i - k) =~= suffix);
        }
        let cls = pitch.semitone_class();
        if cls as u32 + 12 * acc > 255 {
            return Err(NoteError::InvalidOctave);
        }
        Ok(Note { pitch, octave: acc as u8 })
    }

    /// What parsing returns once the pitch part has parsed to `pitch` and
    /// the octave suffix is `suffix`.
    pub open spec fn octave_result(pitch: Pitch, suffix: Seq<char>) -> Result<
        Note,
        NoteError,
    > {
        if suffix.len() == 0 {
            Err(NoteError::InvalidOctave)
        } else if !all_digits(suffix) {
            Err(NoteError::InvalidOctave)
        } else if pitch.spec_semitone_class() + 12 * dec_val(suffix) > 255 {
            Err(NoteError::InvalidOctave)
        } else {
            Ok(Note { pitch, octave: dec_val(suffix) as u8 })
        }
    }

    /// Decode a note number: the canonical pitch of `nr mod 12` and the
    /// octave `nr / 12`. Decoding cannot recover an enharmonic spelling;
    /// the canonical (sharp-preferring) one is produced. The decoded note
    /// always encodes back to `nr`.
    pub fn from_note_nr(nr: u8) -> (n: Note)
        ensures
            n == Note::spec_from_note_nr(nr),
            n.wf(),
            n.spec_note_nr() == nr as int,
    {
        let pitch_class = Pitch::from_semitone_class(nr % 12);
        let octave = nr / 12;
        proof {
            crate::pitch::lemma_from_class_class(nr as int % 12);
        }
        Note::new(pitch_class, octave)
    }

    /// Encode the note as its absolute note number.
    pub fn to_note_nr(self) -> (nr: u8)
        requires
            self.wf(),
        ensures
            nr as int == self.spec_note_nr(),
    {
        self.pitch.semitone_class() + 12 * self.octave
    }

    /// The note number if it fits the 8-bit range, else `None`. This is
    /// the total form of `to_note_nr`, for callers that cannot know the
    /// note is well formed.
    pub fn checked_note_nr(&self) -> (r: Option<u8>)
        ensures
            self.wf() ==> r == Some(self.spec_note_nr() as u8),
            !self.wf() ==> r is None,
    {
        let cls = self.pitch.semitone_class();
        let nr: u32 = cls as u32 + 12 * (self.octave as u32);
        if nr <= 255 {
            Some(nr as u8)
        } else {
            None
        }
    }

    /// The note's signed semitone distance from the reference pitch
    /// (A, octave 4): the integer half of a frequency conversion. A tuning
    /// strategy turns this offset into a frequency.
    pub fn a4_offset(self) -> (d: i16)
        requires
            self.wf(),
        ensures
            d as int == self.spec_note_nr() - 57,
    {
        self.to_note_nr() as i16 - (A4_NOTE_NR as i16)
    }

    /// Decode a signed semitone distance from the reference pitch
    /// (A, octave 4) — the rounded integer a tuning strategy reads off a
    /// frequency — into a note, rejecting offsets whose note number falls
    /// outside the 8-bit range.
    pub fn from_a4_offset(offset: i16) -> (r: Result<Note, NoteError>)
        ensures
            0 <= offset + 57 <= 255 ==> r == Ok::<Note, NoteError>(
                Note::spec_from_note_nr((offset + 57) as u8),
            ),
            !(0 <= offset + 57 <= 255) ==> r == Err::<Note, NoteError>(
                NoteError::InvalidFrequency,
            ),
    {
        if offset < -(A4_NOTE_NR as i16) || offset > 255 - (A4_NOTE_NR as i16) {
            Err(NoteError::InvalidFrequency)
        } else {
            Ok(Note::from_note_nr((offset + (A4_NOTE_NR as i16)) as u8))
        }
    }

    /// Format the note as text: the pitch followed by the decimal octave.
    pub fn format(&self) -> (s: String)
        ensures
            s@ == self.spec_format(),
    {
        let mut s = self.pitch.format();
        push_dec(self.octave, &mut s);
        s
    }
}

/// The index of the first decimal digit of `s` (its length when no digit
/// occurs).
fn split_point(s: &str) -> (k: usize)
    ensures
        k as int == split_idx(s@),
        k <= s@.len(),
{
    let len = s.unicode_len();
    let mut i: usize = 0;
    while i < len
        invariant
            i <= len,
            len == s@.len(),
            forall|j: int| 0 <= j < i ==> !is_digit(#[trigger] s@[j]),
        decreases len - i,
    {
        let c = s.get_char(i);
        let u = c as u32;
        if 48 <= u && u <= 57 {
            proof {
                lemma_split_idx_is(s@, i as int);
            }
            return i;
        }
        i = i + 1;
    }
    proof {
        lemma_split_idx_is(s@, i as int);
    }
    i
}

/// The integer half of the frequency round trip: a semitone offset that
/// decodes to a note is exactly the offset that note hands back to a
/// tuning strategy. (That a tuning's frequency formula and its rounded
/// inverse preserve the offset is floating-point arithmetic and lives
/// outside the library.)
pub proof fn lemma_a4_offset_round_trip(offset: int)
    requires
        -57 <= offset <= 198,
    ensures
        Note::spec_from_note_nr((offset + 57) as u8).spec_note_nr() == offset + 57,
{
    crate::pitch::lemma_from_class_class(((offset + 57) as u8) as int % 12);
}

/// The spelling of a pitch contains no decimal digit, so the digits of a
/// formatted note all belong to its octave.
proof fn lemma_pitch_format_no_digits(p: Pitch)
    ensures
        forall|j: int|
            0 <= j < p.spec_format().len() ==> !is_digit(#[trigger] p.spec_format()[j]),
{
    let t = p.spec_format();
    assert(!is_digit(p.letter.spec_char()));
    assert(forall|j: int| 1 <= j < t.len() ==> #[trigger] t[j] == p.symbol.spec_chars()[j - 1]);
    assert(forall|j: int|
        0 <= j < p.symbol.spec_chars().len() ==> !is_digit(#[trigger] p.symbol.spec_chars()[j]));
}

/// Formatting a well-formed note and parsing the text yields exactly that
/// note back: octave and pitch spelling both survive the round trip, with
/// no canonicalization applied.
pub proof fn lemma_note_parse_format(n: Note)
    requires
        n.wf(),
    ensures
        Note::spec_parse(n.spec_format()) == Ok::<Note, NoteError>(n),
{
    let t = n.spec_format();
    let pf = n.pitch.spec_format();
    let dd = spec_dec_digits(n.octave as int);
    lemma_dec_digits_val(n.octave as int);
    lemma_pitch_format_no_digits(n.pitch);
    assert(forall|j: int| 0 <= j < pf.len() ==> #[trigger] t[j] == pf[j]);
    assert(t[pf.len() as int] == dd[0]);
    assert(is_digit(dd[0]));
    lemma_split_idx_is(t, pf.len() as int);
    assert(t.subrange(0, pf.len() as int) =~= pf);
    assert(t.subrange(pf.len() as int, t.len() as int) =~= dd);
    lemma_pitch_parse_format(n.pitch);
    assert(Note::octave_result(n.pitch, dd) == Ok::<Note, NoteError>(n));
}

/// A type that can produce a sequence of notes.
pub trait Notes {
    /// Get the sequence of notes.
    fn notes(&self) -> Vec<Note>;
}

} // verus!

use pitches::{Note, NoteError, NoteLetter, Pitch, PitchSymbol};

fn all_letters() -> Vec<NoteLetter> {
    vec![
        NoteLetter::A,
        NoteLetter::B,
        NoteLetter::C,
        NoteLetter::D,
        NoteLetter::E,
        NoteLetter::F,
        NoteLetter::G,
    ]
}

fn all_symbols() -> Vec<PitchSymbol> {
    vec![
        PitchSymbol::Natural,
        PitchSymbol::Sharp,
        PitchSymbol::Flat,
        PitchSymbol::DoubleSharp,
        PitchSymbol::DoubleFlat,
    ]
}

#[test]
fn pitch_parse_inverts_format_for_every_pitch() {
    for letter in all_letters() {
        for symbol in all_symbols() {
            let pitch = Pitch { letter, symbol };
            let text = pitch.format();
            assert_eq!(Pitch::parse(&text), Ok(pitch));
        }
    }
}

#[test]
fn pitch_format_spellings() {
    let c_sharp = Pitch { letter: NoteLetter::C, symbol: PitchSymbol::Sharp };
    assert_eq!(c_sharp.format(), "C#");
    let b_flat = Pitch { letter: NoteLetter::B, symbol: PitchSymbol::Flat };
    assert_eq!(b_flat.format(), "Bb");
    let f_natural = Pitch { letter: NoteLetter::F, symbol: PitchSymbol::Natural };
    assert_eq!(f_natural.format(), "F");
    let g_double_sharp = Pitch { letter: NoteLetter::G, symbol: PitchSymbol::DoubleSharp };
    assert_eq!(g_double_sharp.format(), "G##");
    let e_double_flat = Pitch { letter: NoteLetter::E, symbol: PitchSymbol::DoubleFlat };
    assert_eq!(e_double_flat.format(), "Ebb");
}

#[test]
fn pitch_parse_rejects_bad_letters() {
    assert_eq!(Pitch::parse("H"), Err(NoteError::InvalidLetter));
    assert_eq!(Pitch::parse(""), Err(NoteError::InvalidLetter));
    // Letters are accepted in upper case only.
    assert_eq!(Pitch::parse("c"), Err(NoteError::InvalidLetter));
}

#[test]
fn pitch_parse_rejects_bad_accidentals() {
    assert_eq!(Pitch::parse("Cx"), Err(NoteError::InvalidAccidental));
    assert_eq!(Pitch::parse("C#b"), Err(NoteError::InvalidAccidental));
    assert_eq!(Pitch::parse("C###"), Err(NoteError::InvalidAccidental));
}

#[test]
fn note_parse_inverts_format() {
    let cases = vec![
        Note::new(Pitch { letter: NoteLetter::A, symbol: PitchSymbol::Natural }, 4),
        Note::new(Pitch { letter: NoteLetter::C, symbol: PitchSymbol::Sharp }, 4),
        Note::new(Pitch { letter: NoteLetter::B, symbol: PitchSymbol::Flat }, 3),
        Note::new(Pitch { letter: NoteLetter::C, symbol: PitchSymbol::DoubleFlat }, 0),
        Note::new(Pitch { letter: NoteLetter::B, symbol: PitchSymbol::Natural }, 20),
    ];
    for note in cases {
        let text = note.format();
        assert_eq!(Note::from_string(&text), Ok(note));
    }
}

#[test]
fn note_format_spellings() {
    let c_sharp_4 = Note::new(Pitch { letter: NoteLetter::C, symbol: PitchSymbol::Sharp }, 4);
    assert_eq!(c_sharp_4.format(), "C#4");
    let b_flat_3 = Note::new(Pitch { letter: NoteLetter::B, symbol: PitchSymbol::Flat }, 3);
    assert_eq!(b_flat_3.format(), "Bb3");
    let c_0 = Note::new(Pitch { letter: NoteLetter::C, symbol: PitchSymbol::Natural }, 0);
    assert_eq!(c_0.format(), "C0");
}

#[test]
fn note_parse_examples() {
    let a4 = Note::from_string("A4").unwrap();
    assert_eq!(a4.pitch, Pitch { letter: NoteLetter::A, symbol: PitchSymbol::Natural });
    assert_eq!(a4.octave, 4);
    let b_flat_3 = Note::from_string("Bb3").unwrap();
    assert_eq!(b_flat_3.pitch, Pitch { letter: NoteLetter::B, symbol: PitchSymbol::Flat });
    assert_eq!(b_flat_3.octave, 3);
    // Leading zeros in the octave are accepted.
    let c_04 = Note::from_string("C04").unwrap();
    assert_eq!(c_04.octave, 4);
}

#[test]
fn note_parse_rejects_invalid_letter() {
    assert_eq!(Note::from_string("H4"), Err(NoteError::InvalidLetter));
    assert_eq!(Note::from_string("4"), Err(NoteError::InvalidLetter));
    assert_eq!(Note::from_string(""), Err(NoteError::InvalidLetter));
}

#[test]
fn note_parse_rejects_invalid_accidental() {
    assert_eq!(Note::from_string("Cx4"), Err(NoteError::InvalidAccidental));
}

#[test]
fn note_parse_rejects_missing_or_bad_octave() {
    // A pitch with no octave suffix fails rather than defaulting.
    assert_eq!(Note::from_string("C#"), Err(NoteError::InvalidOctave));
    // A digit followed by a non-digit is a malformed octave suffix.
    assert_eq!(Note::from_string("C4b"), Err(NoteError::InvalidOctave));
    // A huge octave does not wrap.
    assert_eq!(
        Note::from_string("C99999999999999999999"),
        Err(NoteError::InvalidOctave)
    );
}

#[test]
fn note_parse_enforces_note_number_range() {
    // 255 = 12 * 21 + 3, so octave 21 holds classes 0..=3 only.
    let c_21 = Note::from_string("C21").unwrap();
    assert_eq!(c_21.to_note_nr(), 252);
    assert_eq!(Note::from_string("E21"), Err(NoteError::InvalidOctave));
    assert_eq!(Note::from_string("B255"), Err(NoteError::InvalidOctave));
}

#[test]
fn enharmonic_pitches_share_a_class_but_differ() {
    let c_sharp = Pitch::parse("C#").unwrap();
    let d_flat = Pitch::parse("Db").unwrap();
    assert_eq!(c_sharp.semitone_class(), d_flat.semitone_class());
    assert_ne!(c_sharp, d_flat);
}

use pitches::{Note, NoteError, NoteLetter, Notes, Pitch, PitchSymbol, Tuning};

/// The equal-temperament frequency of a semitone offset from A4, as the
/// presentation layer computes it from the library's integer anchor.
fn equal_temperament_freq(offset: i16) -> f32 {
    2f32.powf(offset as f32 / 12.0) * 440.0
}

/// The rounded semitone offset from A4 of a frequency, as the
/// presentation layer computes it before handing the integer to the
/// library.
fn equal_temperament_offset(freq: f32) -> i16 {
    (12.0 * (freq / 440.0).log2()).round() as i16
}

#[test]
fn semitone_classes_follow_the_keyboard() {
    let classes = vec![
        ("C", 0),
        ("C#", 1),
        ("Db", 1),
        ("D", 2),
        ("E", 4),
        ("F", 5),
        ("G", 7),
        ("A", 9),
        ("B", 11),
        // Floor modulo: a flat on C wraps to the top of the octave.
        ("Cb", 11),
        ("Cbb", 10),
        ("B#", 0),
        ("B##", 1),
    ];
    for (text, class) in classes {
        assert_eq!(Pitch::parse(text).unwrap().semitone_class(), class, "{}", text);
    }
}

#[test]
fn note_number_round_trips_over_the_whole_range() {
    for nr in 0u16..=255u16 {
        let note = Note::from_note_nr(nr as u8);
        assert_eq!(note.to_note_nr(), nr as u8);
    }
}

#[test]
fn note_number_decoding_canonicalizes_to_sharps() {
    assert_eq!(Note::from_note_nr(48).format(), "C4");
    assert_eq!(Note::from_note_nr(49).format(), "C#4");
    assert_eq!(Note::from_note_nr(0).format(), "C0");
    assert_eq!(Note::from_note_nr(255).format(), "D#21");
    // Decoding the number of a flat spelling yields the sharp spelling.
    let d_flat_4 = Note::from_string("Db4").unwrap();
    assert_eq!(Note::from_note_nr(d_flat_4.to_note_nr()).format(), "C#4");
}

#[test]
fn known_note_numbers() {
    assert_eq!(Note::from_string("C4").unwrap().to_note_nr(), 48);
    assert_eq!(Note::from_string("A4").unwrap().to_note_nr(), 57);
    assert_eq!(Note::from_string("C0").unwrap().to_note_nr(), 0);
}

#[test]
fn checked_note_nr_is_total() {
    let a4 = Note::new(Pitch { letter: NoteLetter::A, symbol: PitchSymbol::Natural }, 4);
    assert_eq!(a4.checked_note_nr(), Some(57));
    let too_high = Note::new(Pitch { letter: NoteLetter::B, symbol: PitchSymbol::Natural }, 255);
    assert_eq!(too_high.checked_note_nr(), None);
}

#[test]
fn reference_pitch_is_exactly_440_hz() {
    let a4 = Note::from_string("A4").unwrap();
    assert_eq!(a4.a4_offset(), 0);
    // 2^0 is exact in floating point, so the anchor frequency is exact.
    assert_eq!(
        equal_temperament_freq(a4.a4_offset()),
        440.0,
        "equal temperament must anchor A4 at 440 Hz exactly"
    );
    assert_eq!(Tuning::EqualTemperament, Tuning::EqualTemperament);
}

#[test]
fn one_octave_up_doubles_the_frequency() {
    let a5 = Note::from_string("A5").unwrap();
    assert_eq!(a5.a4_offset(), 12);
    assert_eq!(equal_temperament_freq(a5.a4_offset()), 880.0);
}

#[test]
fn frequency_of_880_hz_decodes_to_a5() {
    let offset = equal_temperament_offset(880.0);
    assert_eq!(offset, 12);
    let note = Note::from_a4_offset(offset).unwrap();
    assert_eq!(note.format(), "A5");
}

#[test]
fn frequency_note_number_round_trip() {
    // Through every note number in range: frequency and back, within the
    // round-to-nearest-semitone rule.
    for nr in 0u16..=255u16 {
        let note = Note::from_note_nr(nr as u8);
        let freq = equal_temperament_freq(note.a4_offset());
        let offset = equal_temperament_offset(freq);
        let back = Note::from_a4_offset(offset).unwrap();
        assert_eq!(back.to_note_nr(), nr as u8);
    }
}

#[test]
fn slightly_detuned_frequencies_round_to_the_nearest_semitone() {
    // 445 Hz is closest to A4, 430 Hz as well.
    assert_eq!(Note::from_a4_offset(equal_temperament_offset(445.0)).unwrap().format(), "A4");
    assert_eq!(Note::from_a4_offset(equal_temperament_offset(430.0)).unwrap().format(), "A4");
}

#[test]
fn offsets_outside_the_note_range_are_invalid_frequencies() {
    assert_eq!(Note::from_a4_offset(-58), Err(NoteError::InvalidFrequency));
    assert_eq!(Note::from_a4_offset(199), Err(NoteError::InvalidFrequency));
    assert_eq!(Note::from_a4_offset(-57).unwrap().format(), "C0");
    assert_eq!(Note::from_a4_offset(198).unwrap().format(), "D#21");
}

struct CMajor;

impl Notes for CMajor {
    fn notes(&self) -> Vec<Note> {
        vec![
            Note::from_note_nr(48),
            Note::from_note_nr(52),
            Note::from_note_nr(55),
        ]
    }
}

#[test]
fn notes_trait_produces_a_sequence() {
    let triad = CMajor.notes();
    assert_eq!(triad.len(), 3);
    let spelled: Vec<String> = triad.iter().map(|n| n.pitch.format()).collect();
    assert_eq!(spelled, vec!["C", "E", "G"]);
}

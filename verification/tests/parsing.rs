use kord::base::{HasDescription, HasStaticName};
use kord::error::KordError;
use kord::named_pitch::NamedPitch;
use kord::note::Note;
use kord::octave::Octave;
use kord::parser::{note_str_to_note, octave_str_to_octave, ChordParser};

fn spelled(text: &str) -> NamedPitch {
    let note = note_str_to_note(text).unwrap();
    assert_eq!(note.octave, Octave::Four);
    note.named_pitch
}

#[test]
fn note_names_are_read() {
    assert_eq!(spelled("A"), NamedPitch::A);
    assert_eq!(spelled("A#"), NamedPitch::ASharp);
    assert_eq!(spelled("A\u{266f}"), NamedPitch::ASharp);
    assert_eq!(spelled("A##"), NamedPitch::ADoubleSharp);
    assert_eq!(spelled("A\u{1d12a}"), NamedPitch::ADoubleSharp);
    assert_eq!(spelled("Ab"), NamedPitch::AFlat);
    assert_eq!(spelled("A\u{266d}"), NamedPitch::AFlat);
    assert_eq!(spelled("Abb"), NamedPitch::ADoubleFlat);
    assert_eq!(spelled("A\u{1d12b}"), NamedPitch::ADoubleFlat);
    assert_eq!(spelled("B"), NamedPitch::B);
    assert_eq!(spelled("Bb"), NamedPitch::BFlat);
    assert_eq!(spelled("Bbb"), NamedPitch::BDoubleFlat);
    assert_eq!(spelled("C"), NamedPitch::C);
    assert_eq!(spelled("C#"), NamedPitch::CSharp);
    assert_eq!(spelled("D\u{1d12b}"), NamedPitch::DDoubleFlat);
    assert_eq!(spelled("E##"), NamedPitch::EDoubleSharp);
    assert_eq!(spelled("F\u{266d}"), NamedPitch::FFlat);
    assert_eq!(spelled("G\u{1d12a}"), NamedPitch::GDoubleSharp);
}

#[test]
fn every_letter_takes_every_sign() {
    let signs: [(&str, i8); 9] = [
        ("", 0),
        ("#", 1),
        ("\u{266f}", 1),
        ("##", 2),
        ("\u{1d12a}", 2),
        ("b", -1),
        ("\u{266d}", -1),
        ("bb", -2),
        ("\u{1d12b}", -2),
    ];
    for (number, letter) in ["C", "D", "E", "F", "G", "A", "B"].iter().enumerate() {
        for (sign, accidental) in signs {
            let pitch = spelled(&format!("{}{}", letter, sign));
            assert_eq!(pitch.letter_number() as usize, number);
            assert_eq!(pitch.accidental_count(), accidental);
        }
    }
}

#[test]
fn other_texts_are_no_notes() {
    for text in ["", "H", "c", "C###", "Cbbb", "C#b", "Cb#", "C\u{266f}\u{266f}", "#", "C4", " C", "CC"] {
        assert_eq!(note_str_to_note(text), Err(KordError::InvalidNote), "{}", text);
    }
    assert_eq!(
        KordError::InvalidNote.description(),
        "Please use fairly standard notes (e.g., don't use triple sharps / flats)."
    );
}

#[test]
fn octaves_are_read() {
    let all = [
        Octave::Zero,
        Octave::One,
        Octave::Two,
        Octave::Three,
        Octave::Four,
        Octave::Five,
        Octave::Six,
        Octave::Seven,
        Octave::Eight,
        Octave::Nine,
    ];
    for (number, octave) in all.iter().enumerate() {
        assert_eq!(octave_str_to_octave(&number.to_string()), Ok(*octave));
        assert_eq!(octave.static_name(), number.to_string());
    }
    for text in ["", "10", "a", "-1", "4 ", "\u{0664}"] {
        assert_eq!(octave_str_to_octave(text), Err(KordError::InvalidOctave), "{}", text);
    }
    assert_eq!(KordError::InvalidOctave.description(), "Please use a valid octave (0 - 9).");
}

#[test]
fn notes_with_octaves_are_read() {
    let parsed = ChordParser::parse_note("E\u{266d}3").unwrap();
    assert_eq!(parsed.named_pitch, NamedPitch::EFlat);
    assert_eq!(parsed.octave, Octave::Three);
    let plain = ChordParser::parse_note("Bb").unwrap();
    assert_eq!(plain.named_pitch, NamedPitch::BFlat);
    assert_eq!(plain.octave, Octave::Four);
    assert!(ChordParser::parse_note("C##9").unwrap() == Note::new(NamedPitch::CDoubleSharp, Octave::Nine));
    for text in ["", "4", "C44", "X4", "C###4", "C 4"] {
        assert_eq!(ChordParser::parse_note(text), Err(KordError::InvalidNote), "{}", text);
    }
}

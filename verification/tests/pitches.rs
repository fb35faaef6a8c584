use kord::base::HasStaticName;
use kord::named_pitch::{HasLetter, HasNamedPitch, NamedPitch};
use kord::pitch::{HasPitch, Pitch};

#[test]
fn spellings_sound_their_pitch_class() {
    assert_eq!(NamedPitch::FTripleFlat.pitch(), Pitch::D);
    assert_eq!(NamedPitch::CTripleFlat.pitch(), Pitch::A);
    assert_eq!(NamedPitch::BDoubleFlat.pitch(), Pitch::A);
    assert_eq!(NamedPitch::CFlat.pitch(), Pitch::B);
    assert_eq!(NamedPitch::C.pitch(), Pitch::C);
    assert_eq!(NamedPitch::ESharp.pitch(), Pitch::F);
    assert_eq!(NamedPitch::BSharp.pitch(), Pitch::C);
    assert_eq!(NamedPitch::GDoubleSharp.pitch(), Pitch::A);
    assert_eq!(NamedPitch::BTripleSharp.pitch(), Pitch::D);
}

#[test]
fn pitch_is_letter_plus_accidental_for_every_spelling() {
    let bases: [i16; 7] = [0, 2, 4, 5, 7, 9, 11];
    for index in 0..49u8 {
        let spelling = NamedPitch::from_index(index);
        assert_eq!(spelling.index(), index);
        let letter = spelling.letter_number() as usize;
        let semitone = (bases[letter] + spelling.accidental_count() as i16 + 12) % 12;
        assert_eq!(spelling.pitch().semitone_value() as i16, semitone);
    }
}

#[test]
fn letters_and_names_are_written() {
    assert_eq!(NamedPitch::FTripleFlat.letter(), "F");
    assert_eq!(NamedPitch::BSharp.letter(), "B");
    assert_eq!(NamedPitch::FTripleFlat.static_name(), "F\u{266d}\u{1d12b}");
    assert_eq!(NamedPitch::ADoubleFlat.static_name(), "A\u{1d12b}");
    assert_eq!(NamedPitch::EFlat.static_name(), "E\u{266d}");
    assert_eq!(NamedPitch::G.static_name(), "G");
    assert_eq!(NamedPitch::CSharp.static_name(), "C\u{266f}");
    assert_eq!(NamedPitch::DDoubleSharp.static_name(), "D\u{1d12a}");
    assert_eq!(NamedPitch::BTripleSharp.static_name(), "B\u{266f}\u{1d12a}");
}

#[test]
fn names_are_letter_then_accidental_for_every_spelling() {
    let signs = ["\u{266d}\u{1d12b}", "\u{1d12b}", "\u{266d}", "", "\u{266f}", "\u{1d12a}", "\u{266f}\u{1d12a}"];
    for index in 0..49u8 {
        let spelling = NamedPitch::from_index(index);
        let sign = signs[(spelling.accidental_count() + 3) as usize];
        assert_eq!(spelling.static_name(), format!("{}{}", spelling.letter(), sign));
    }
}

#[test]
fn adding_moves_along_the_line_of_fifths() {
    assert_eq!(NamedPitch::C + 1, NamedPitch::G);
    assert_eq!(NamedPitch::C + 7, NamedPitch::CSharp);
    assert_eq!(NamedPitch::F + -1, NamedPitch::BFlat);
    assert_eq!(NamedPitch::FTripleFlat + 48, NamedPitch::BTripleSharp);
    assert_eq!(NamedPitch::C.checked_add(4), Some(NamedPitch::E));
    assert_eq!(NamedPitch::BTripleSharp.checked_add(1), None);
    assert_eq!(NamedPitch::FTripleFlat.checked_add(-1), None);
}

#[test]
fn letter_and_accidental_make_a_spelling() {
    assert_eq!(NamedPitch::from_letter_accidental(0, 0), Some(NamedPitch::C));
    assert_eq!(NamedPitch::from_letter_accidental(3, 1), Some(NamedPitch::FSharp));
    assert_eq!(NamedPitch::from_letter_accidental(6, -2), Some(NamedPitch::BDoubleFlat));
    assert_eq!(NamedPitch::from_letter_accidental(2, 4), None);
    assert_eq!(NamedPitch::from_letter_accidental(2, -4), None);
    assert!(NamedPitch::D.is_natural());
    assert!(!NamedPitch::DFlat.is_natural());
}

#[test]
fn pitch_classes_have_their_usual_spellings() {
    let usual = [
        NamedPitch::C,
        NamedPitch::DFlat,
        NamedPitch::D,
        NamedPitch::EFlat,
        NamedPitch::E,
        NamedPitch::F,
        NamedPitch::FSharp,
        NamedPitch::G,
        NamedPitch::AFlat,
        NamedPitch::A,
        NamedPitch::BFlat,
        NamedPitch::B,
    ];
    for semitone in 0..12u8 {
        let pitch = Pitch::from_semitone(semitone);
        assert_eq!(pitch.semitone_value(), semitone);
        assert_eq!(pitch.named_pitch(), usual[semitone as usize]);
        assert_eq!(pitch.named_pitch().pitch(), pitch);
        assert_eq!(pitch.sharp_spelling().pitch(), pitch);
        assert_eq!(pitch.flat_spelling().pitch(), pitch);
        assert_eq!(pitch.is_natural(), pitch.named_pitch().is_natural());
    }
    assert_eq!(Pitch::CSharp.sharp_spelling(), NamedPitch::CSharp);
    assert_eq!(Pitch::FSharp.flat_spelling(), NamedPitch::GFlat);
    assert_eq!(Pitch::from_semitone(25), Pitch::CSharp);
}

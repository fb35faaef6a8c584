use kord::base::{HasDescription, HasName, HasStaticName};
use kord::chord::{lowest_note_id, place_below, Chord};
use kord::error::KordError;
use kord::interval::Interval;
use kord::modifier::{Degree, Extension, ExtensionSet, Modifier, ModifierSet};
use kord::named_pitch::NamedPitch;
use kord::note::Note;
use kord::note_set::NoteSet;
use kord::octave::Octave;

fn c4() -> Note {
    Note::new(NamedPitch::C, Octave::Four)
}

fn names(notes: &[Note]) -> Vec<String> {
    notes.iter().map(|n| n.name()).collect()
}

fn built(chord: &Chord) -> Vec<String> {
    names(&chord.build().unwrap())
}

#[test]
fn a_new_chord_is_a_major_triad() {
    let chord = Chord::new(c4());
    assert!(chord.root() == c4());
    assert!(chord.modifiers().is_empty());
    assert!(chord.extensions().is_empty());
    assert!(chord.slash().is_none());
    assert_eq!(chord.inversion(), 0);
    assert!(!chord.is_crunchy());
    assert_eq!(chord.name(), "C");
    assert_eq!(chord.precise_name(), "C4");
    assert_eq!(built(&chord), vec!["C4", "E4", "G4"]);
    assert_eq!(
        chord.degree_list(),
        vec![Interval::PerfectUnison, Interval::MajorThird, Interval::PerfectFifth]
    );
}

#[test]
fn modifiers_change_the_tones() {
    let chord = Chord::new(c4());
    assert_eq!(built(&chord.with_modifier(Modifier::Minor)), vec!["C4", "E\u{266d}4", "G4"]);
    assert_eq!(
        built(&chord.with_modifier(Modifier::Diminished)),
        vec!["C4", "E\u{266d}4", "G\u{266d}4"]
    );
    assert_eq!(built(&chord.with_modifier(Modifier::Augmented5)), vec!["C4", "E4", "G\u{266f}4"]);
    assert_eq!(built(&chord.with_modifier(Modifier::Flat5)), vec!["C4", "E4", "G\u{266d}4"]);
    assert_eq!(built(&chord.with_modifier(Modifier::Major7)), vec!["C4", "E4", "G4", "B4"]);
    assert_eq!(
        built(&chord.with_modifier(Modifier::Dominant(Degree::Seven))),
        vec!["C4", "E4", "G4", "B\u{266d}4"]
    );
    assert_eq!(
        built(&chord.with_modifier(Modifier::Dominant(Degree::Nine))),
        vec!["C4", "E4", "G4", "B\u{266d}4", "D5"]
    );
    assert_eq!(
        built(&chord.with_modifier(Modifier::Dominant(Degree::Eleven))),
        vec!["C4", "E4", "G4", "B\u{266d}4", "D5", "F5"]
    );
    assert_eq!(
        built(
            &chord.with_modifier(Modifier::Diminished).with_modifier(Modifier::Dominant(Degree::Seven))
        ),
        vec!["C4", "E\u{266d}4", "G\u{266d}4", "B\u{1d12b}4"]
    );
    assert_eq!(
        built(
            &chord
                .with_modifier(Modifier::Dominant(Degree::Seven))
                .with_modifier(Modifier::Flat9)
                .with_modifier(Modifier::Sharp9)
                .with_modifier(Modifier::Sharp11)
        ),
        vec!["C4", "E4", "G4", "B\u{266d}4", "D\u{266d}5", "D\u{266f}5", "F\u{266f}5"]
    );
}

#[test]
fn extensions_add_their_tones() {
    let chord = Chord::new(c4());
    assert_eq!(built(&chord.with_extension(Extension::Add9)), vec!["C4", "E4", "G4", "D5"]);
    assert_eq!(built(&chord.with_extension(Extension::Add11)), vec!["C4", "E4", "G4", "F5"]);
    assert_eq!(built(&chord.with_extension(Extension::Add13)), vec!["C4", "E4", "G4", "A5"]);
    assert_eq!(built(&chord.with_extension(Extension::Flat11)), vec!["C4", "E4", "G4", "F\u{266d}5"]);
    assert_eq!(built(&chord.with_extension(Extension::Flat13)), vec!["C4", "E4", "G4", "A\u{266d}5"]);
    assert_eq!(built(&chord.with_extension(Extension::Sharp13)), vec!["C4", "E4", "G4", "A\u{266f}5"]);
}

#[test]
fn names_follow_one_order() {
    let chord = Chord::new(Note::new(NamedPitch::BFlat, Octave::Four));
    assert_eq!(chord.with_modifier(Modifier::Minor).name(), "B\u{266d}m");
    assert_eq!(
        chord.with_modifier(Modifier::Dominant(Degree::Seven)).with_modifier(Modifier::Minor).name(),
        "B\u{266d}m7"
    );
    assert_eq!(
        chord
            .with_modifier(Modifier::Flat5)
            .with_modifier(Modifier::Dominant(Degree::Seven))
            .with_modifier(Modifier::Minor)
            .name(),
        "B\u{266d}m7(\u{266d}5)"
    );
    assert_eq!(chord.with_modifier(Modifier::Major7).name(), "B\u{266d}maj7");
    assert_eq!(chord.with_modifier(Modifier::Augmented5).name(), "B\u{266d}+");
    assert_eq!(
        chord.with_modifier(Modifier::Diminished).with_modifier(Modifier::Dominant(Degree::Seven)).name(),
        "B\u{266d}dim7"
    );
    assert_eq!(
        chord
            .with_extension(Extension::Flat13)
            .with_extension(Extension::Add9)
            .with_modifier(Modifier::Dominant(Degree::Thirteen))
            .name(),
        "B\u{266d}13(add9)(\u{266d}13)"
    );
    assert_eq!(
        chord.with_modifier(Modifier::Sharp11).with_modifier(Modifier::Sharp9).name(),
        "B\u{266d}(\u{266f}9)(\u{266f}11)"
    );
    assert_eq!(chord.with_modifier(Modifier::Minor).precise_name(), "B\u{266d}4m");
}

#[test]
fn inversions_put_low_tones_an_octave_higher() {
    let chord = Chord::new(c4()).with_modifier(Modifier::Dominant(Degree::Seven));
    assert_eq!(built(&chord.with_inversion(1)), vec!["E4", "G4", "B\u{266d}4", "C5"]);
    assert_eq!(built(&chord.with_inversion(2)), vec!["G4", "B\u{266d}4", "C5", "E5"]);
    assert_eq!(built(&chord.with_inversion(3)), vec!["B\u{266d}4", "C5", "E5", "G5"]);
    assert_eq!(built(&chord.with_inversion(4)), built(&chord));
    assert_eq!(built(&chord.with_inversion(5)), built(&chord.with_inversion(1)));
    assert_eq!(chord.with_inversion(1).name(), "C7/E");
    assert_eq!(chord.with_inversion(3).name(), "C7/B\u{266d}");
    assert_eq!(chord.with_inversion(4).name(), "C7");
}

#[test]
fn a_slash_note_comes_first_and_lowest() {
    let chord = Chord::new(c4()).with_slash(Note::new(NamedPitch::D, Octave::Seven));
    assert_eq!(chord.name(), "C/D");
    assert_eq!(built(&chord), vec!["D3", "C4", "E4", "G4"]);
    let over_b = Chord::new(c4()).with_slash(Note::new(NamedPitch::B, Octave::Zero));
    assert_eq!(built(&over_b), vec!["B3", "C4", "E4", "G4"]);
    let inverted = chord.with_inversion(1);
    assert_eq!(built(&inverted), vec!["D4", "E4", "G4", "C5"]);
    assert_eq!(inverted.name(), "C/D");
    let high = Chord::new(Note::new(NamedPitch::C, Octave::Nine))
        .with_slash(Note::new(NamedPitch::C, Octave::Zero));
    assert_eq!(built(&high)[0], "C8");
}

#[test]
fn voicing_keeps_the_pitch_classes() {
    let chord = Chord::new(c4())
        .with_modifier(Modifier::Minor)
        .with_modifier(Modifier::Dominant(Degree::Thirteen))
        .with_modifier(Modifier::Sharp11);
    let spread = chord.build().unwrap();
    let close = chord.with_crunchy(true).build().unwrap();
    assert_eq!(
        names(&close),
        vec!["C4", "D4", "E\u{266d}4", "F4", "F\u{266f}4", "G4", "A4", "B\u{266d}4"]
    );
    assert_eq!(spread.len(), close.len());
    let a = NoteSet::from_notes(&spread).pitch_classes();
    let b = NoteSet::from_notes(&close).pitch_classes();
    for class in 0..12u8 {
        assert_eq!(a.contains(class), b.contains(class));
    }
    assert!(spread.windows(2).all(|w| w[0].id() < w[1].id()));
    assert!(close.windows(2).all(|w| w[0].id() <= w[1].id()));
}

#[test]
fn chords_out_of_range_cannot_be_built() {
    let high = Chord::new(Note::new(NamedPitch::A, Octave::Nine));
    assert_eq!(high.build(), Err(KordError::InvalidOctaveRange));
    assert_eq!(high.tone_note_list(), Err(KordError::InvalidOctaveRange));
    let rotated = Chord::new(Note::new(NamedPitch::C, Octave::Nine)).with_inversion(1);
    assert_eq!(rotated.build(), Err(KordError::InvalidOctaveRange));
    assert!(rotated.with_inversion(0).build().is_ok());
    let low = Chord::new(Note::new(NamedPitch::C, Octave::Zero))
        .with_slash(Note::new(NamedPitch::D, Octave::Four));
    assert_eq!(low.build(), Err(KordError::InvalidOctaveRange));
    let spelled = Chord::new(Note::new(NamedPitch::BTripleSharp, Octave::Four))
        .with_modifier(Modifier::Augmented5);
    assert_eq!(spelled.build(), Err(KordError::InvalidOctaveRange));
    assert_eq!(
        KordError::InvalidOctaveRange.description(),
        "The note is outside the supported octave range."
    );
}

#[test]
fn a_close_voicing_names_the_tone_it_puts_first() {
    let ninth = Chord::new(c4()).with_modifier(Modifier::Dominant(Degree::Nine)).with_crunchy(true);
    assert_eq!(built(&ninth), vec!["C4", "D4", "E4", "G4", "B\u{266d}4"]);
    assert_eq!(
        ninth.voicing_list(),
        vec![
            Interval::PerfectUnison,
            Interval::MajorNinth,
            Interval::MajorThird,
            Interval::PerfectFifth,
            Interval::MinorSeventh
        ]
    );
    assert_eq!(ninth.with_inversion(1).name(), "C9/D");
    assert_eq!(built(&ninth.with_inversion(1)), vec!["D4", "E4", "G4", "B\u{266d}4", "C5"]);
    assert_eq!(ninth.with_inversion(4).name(), "C9/B\u{266d}");
    assert_eq!(built(&ninth.with_inversion(4))[0], "B\u{266d}4");
    let spread = ninth.with_crunchy(false);
    assert_eq!(spread.with_inversion(4).name(), "C9/D");
    assert_eq!(built(&spread.with_inversion(4)), vec!["D5", "C5", "E5", "G5", "B\u{266d}5"]);
}

#[test]
fn with_octave_moves_the_root() {
    let chord = Chord::new(c4()).with_octave(Octave::Two);
    assert_eq!(built(&chord), vec!["C2", "E2", "G2"]);
    assert_eq!(chord.precise_name(), "C2");
}

#[test]
fn placing_below() {
    assert_eq!(place_below(NamedPitch::C, 52).unwrap().name(), "C4");
    assert_eq!(place_below(NamedPitch::C, 51).unwrap().name(), "C3");
    assert_eq!(place_below(NamedPitch::C, 128).unwrap().name(), "C9");
    assert_eq!(place_below(NamedPitch::C, 3), Err(KordError::InvalidOctaveRange));
    assert_eq!(place_below(NamedPitch::CTripleFlat, 1).unwrap().name(), "C\u{266d}\u{1d12b}0");
    assert_eq!(lowest_note_id(&vec![]), 128);
    assert_eq!(lowest_note_id(&vec![c4(), Note::new(NamedPitch::A, Octave::Three), c4()]), 48);
}

#[test]
fn sets_of_modifiers_and_extensions() {
    let set = ModifierSet::from_slice(&[Modifier::Sharp9, Modifier::Minor, Modifier::Sharp9]);
    assert!(set.contains(Modifier::Minor));
    assert!(set.contains(Modifier::Sharp9));
    assert!(!set.contains(Modifier::Major7));
    assert_eq!(set.count(), 2);
    assert_eq!(set.to_vec(), vec![Modifier::Minor, Modifier::Sharp9]);
    assert!(!set.is_dominant());
    assert!(set.with(Modifier::Dominant(Degree::Nine)).is_dominant());
    assert_eq!(ModifierSet::empty().count(), 0);
    let extensions = ExtensionSet::from_slice(&[Extension::Flat13, Extension::Add9]);
    assert_eq!(extensions.to_vec(), vec![Extension::Add9, Extension::Flat13]);
    assert_eq!(extensions.count(), 2);
    assert_eq!(extensions.altered_count(), 1);
    assert!(Extension::Sharp13.is_altered());
    assert!(!Extension::Add11.is_altered());
    for rank in 0..12u8 {
        assert_eq!(Modifier::from_rank(rank).rank(), rank);
    }
    for rank in 0..6u8 {
        assert_eq!(Extension::from_rank(rank).rank(), rank);
    }
    assert_eq!(Modifier::Dominant(Degree::Thirteen).static_name(), "13");
    assert_eq!(Modifier::Flat5.description(), "flat fifth");
    assert_eq!(Extension::Add13.description(), "added thirteenth");
    assert_eq!(Interval::AugmentedEleventh.static_name(), "augmented eleventh");
}

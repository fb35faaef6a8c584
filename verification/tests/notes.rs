use kord::base::HasName;
use kord::error::KordError;
use kord::interval::Interval;
use kord::named_pitch::{HasLetter, HasNamedPitch, NamedPitch};
use kord::note::{Note, HIGHEST_NOTE_ID, LOWEST_NOTE_ID, REFERENCE_NOTE_ID};
use kord::octave::{HasOctave, Octave};
use kord::pitch::{HasPitch, Pitch};

#[test]
fn identities_count_semitones() {
    assert_eq!(Note::new(NamedPitch::CTripleFlat, Octave::Zero).id(), LOWEST_NOTE_ID);
    assert_eq!(Note::new(NamedPitch::C, Octave::Zero).id(), 3);
    assert_eq!(Note::new(NamedPitch::C, Octave::Four).id(), 51);
    assert_eq!(Note::new(NamedPitch::A, Octave::Four).id(), REFERENCE_NOTE_ID);
    assert_eq!(Note::new(NamedPitch::BTripleSharp, Octave::Nine).id(), HIGHEST_NOTE_ID);
    assert_eq!(Note::new(NamedPitch::CFlat, Octave::Four).id(), 50);
    assert_eq!(Note::new(NamedPitch::B, Octave::Three).id(), 50);
}

#[test]
fn identity_is_one_to_one_on_what_sounds() {
    for octave in 0..10u8 {
        for index in 0..49u8 {
            let note = Note::new(NamedPitch::from_index(index), Octave::from_value(octave).unwrap());
            assert!(note.id() <= 125);
            assert_eq!(note.pitch_class_value(), note.pitch().semitone_value());
            assert_eq!((note.id() + 9) % 12, note.pitch_class_value());
        }
    }
}

#[test]
fn notes_compare_by_what_sounds() {
    let c_sharp = Note::new(NamedPitch::CSharp, Octave::Four);
    let d_flat = Note::new(NamedPitch::DFlat, Octave::Four);
    let d = Note::new(NamedPitch::D, Octave::Four);
    assert!(c_sharp == d_flat);
    assert_ne!(c_sharp.name(), d_flat.name());
    assert!(c_sharp < d);
    assert!(d > d_flat);
    assert!(c_sharp <= d_flat && c_sharp >= d_flat);
    assert!(Note::new(NamedPitch::BSharp, Octave::Three) == Note::new(NamedPitch::C, Octave::Four));
}

#[test]
fn names_and_parts() {
    let note = Note::new(NamedPitch::EFlat, Octave::Three);
    assert_eq!(note.name(), "E\u{266d}3");
    assert_eq!(note.letter(), "E");
    assert_eq!(note.named_pitch(), NamedPitch::EFlat);
    assert_eq!(note.octave(), Octave::Three);
    assert_eq!(note.pitch(), Pitch::DSharp);
    assert_eq!(note.with_octave(Octave::Five).name(), "E\u{266d}5");
    assert_eq!(Octave::default(), Octave::Four);
    assert_eq!(Octave::from_value(10), None);
    assert_eq!(Octave::Seven.value(), 7);
}

#[test]
fn intervals_transpose_and_spell() {
    let c = Note::new(NamedPitch::C, Octave::Four);
    assert_eq!(c.add_interval(Interval::MajorThird).unwrap().name(), "E4");
    assert_eq!(c.add_interval(Interval::MinorThird).unwrap().name(), "E\u{266d}4");
    assert_eq!(c.add_interval(Interval::AugmentedFourth).unwrap().name(), "F\u{266f}4");
    assert_eq!(c.add_interval(Interval::DiminishedFifth).unwrap().name(), "G\u{266d}4");
    assert_eq!(c.add_interval(Interval::DiminishedSeventh).unwrap().name(), "B\u{1d12b}4");
    assert_eq!(c.add_interval(Interval::PerfectOctave).unwrap().name(), "C5");
    assert_eq!(c.add_interval(Interval::MajorNinth).unwrap().name(), "D5");
    assert_eq!(c.add_interval(Interval::AugmentedThirteenth).unwrap().name(), "A\u{266f}5");
    let b = Note::new(NamedPitch::B, Octave::Four);
    assert_eq!(b.add_interval(Interval::MinorSecond).unwrap().name(), "C5");
    assert_eq!(b.add_interval(Interval::PerfectFifth).unwrap().name(), "F\u{266f}5");
    assert_eq!(b.add_interval(Interval::PerfectUnison).unwrap().name(), "B4");
}

#[test]
fn transposing_adds_the_semitones_of_every_interval() {
    let all = [
        Interval::PerfectUnison,
        Interval::MinorSecond,
        Interval::MajorSecond,
        Interval::AugmentedSecond,
        Interval::MinorThird,
        Interval::MajorThird,
        Interval::DiminishedFourth,
        Interval::PerfectFourth,
        Interval::AugmentedFourth,
        Interval::DiminishedFifth,
        Interval::PerfectFifth,
        Interval::AugmentedFifth,
        Interval::MinorSixth,
        Interval::MajorSixth,
        Interval::AugmentedSixth,
        Interval::DiminishedSeventh,
        Interval::MinorSeventh,
        Interval::MajorSeventh,
        Interval::PerfectOctave,
        Interval::MinorNinth,
        Interval::MajorNinth,
        Interval::AugmentedNinth,
        Interval::DiminishedEleventh,
        Interval::PerfectEleventh,
        Interval::AugmentedEleventh,
        Interval::MinorThirteenth,
        Interval::MajorThirteenth,
        Interval::AugmentedThirteenth,
    ];
    for index in 0..49u8 {
        let note = Note::new(NamedPitch::from_index(index), Octave::Four);
        for interval in all {
            if let Ok(higher) = note.add_interval(interval) {
                assert_eq!(higher.id(), note.id() + interval.semitones());
                assert_eq!(
                    higher.named_pitch.letter_number(),
                    (note.named_pitch.letter_number() + interval.steps()) % 7
                );
                assert_eq!(note.semitones_to(&higher), interval.semitones() as i16);
                assert_eq!(note.distance_mod12(&higher), interval.semitones() % 12);
            }
            assert_eq!(interval.simple().semitones(), interval.semitones() % 12);
        }
    }
}

#[test]
fn leaving_the_range_is_reported() {
    let high = Note::new(NamedPitch::A, Octave::Nine);
    assert_eq!(high.add_interval(Interval::MajorThird), Err(KordError::InvalidOctaveRange));
    assert!(high.add_interval(Interval::MajorSecond).is_ok());
    let sharp = Note::new(NamedPitch::BTripleSharp, Octave::Four);
    assert_eq!(sharp.add_interval(Interval::AugmentedFifth), Err(KordError::InvalidOctaveRange));
    let flat = Note::new(NamedPitch::CTripleFlat, Octave::Four);
    assert_eq!(flat.add_interval(Interval::DiminishedSeventh), Err(KordError::InvalidOctaveRange));
}

#[test]
fn distances_between_notes() {
    let c4 = Note::new(NamedPitch::C, Octave::Four);
    let g3 = Note::new(NamedPitch::G, Octave::Three);
    let a4 = Note::new(NamedPitch::A, Octave::Four);
    assert_eq!(c4.semitones_to(&g3), -5);
    assert_eq!(g3.semitones_to(&c4), 5);
    assert_eq!(c4.distance_mod12(&g3), 7);
    assert_eq!(g3.distance_mod12(&c4), 5);
    assert_eq!(c4.distance_mod12(&c4.with_octave(Octave::Seven)), 0);
    assert_eq!(a4.semitones_from_reference(), 0);
    assert_eq!(c4.semitones_from_reference(), -9);
    assert_eq!(a4.with_octave(Octave::Five).semitones_from_reference(), 12);
}

#[test]
fn distances_have_their_names() {
    assert_eq!(Interval::named(0), vec![Interval::PerfectUnison]);
    assert_eq!(Interval::named(3), vec![Interval::MinorThird]);
    assert_eq!(Interval::named(6), vec![Interval::AugmentedFourth, Interval::DiminishedFifth]);
    assert_eq!(Interval::named(11), vec![Interval::MajorSeventh]);
    assert_eq!(Interval::named(19), vec![Interval::PerfectFifth]);
    for distance in 0..12u8 {
        for interval in Interval::named(distance) {
            assert_eq!(interval.semitones(), distance);
        }
    }
}

#[test]
fn the_interval_between_notes_is_the_one_that_leads_there() {
    let c4 = Note::new(NamedPitch::C, Octave::Four);
    assert_eq!(c4.interval_to(&Note::new(NamedPitch::E, Octave::Four)), Some(Interval::MajorThird));
    assert_eq!(c4.interval_to(&Note::new(NamedPitch::EFlat, Octave::Four)), Some(Interval::MinorThird));
    assert_eq!(
        c4.interval_to(&Note::new(NamedPitch::DSharp, Octave::Four)),
        Some(Interval::AugmentedSecond)
    );
    assert_eq!(c4.interval_to(&c4), Some(Interval::PerfectUnison));
    assert_eq!(c4.interval_to(&Note::new(NamedPitch::C, Octave::Five)), Some(Interval::PerfectOctave));
    assert_eq!(c4.interval_to(&Note::new(NamedPitch::D, Octave::Five)), Some(Interval::MajorNinth));
    assert_eq!(c4.interval_to(&Note::new(NamedPitch::B, Octave::Three)), None);
    assert_eq!(c4.interval_to(&Note::new(NamedPitch::C, Octave::Six)), None);
    assert_eq!(c4.interval_to(&Note::new(NamedPitch::EDoubleSharp, Octave::Four)), None);
    assert_eq!(c4.interval_to(&Note::new(NamedPitch::BSharp, Octave::Four)), None);
    for rank in 0..28u8 {
        let interval = Interval::from_rank(rank);
        assert_eq!(interval.rank(), rank);
        let higher = c4.add_interval(interval).unwrap();
        assert_eq!(c4.interval_to(&higher), Some(interval));
    }
    assert_eq!(Interval::from_rank(200), Interval::AugmentedThirteenth);
}

#[test]
fn places_beyond_the_end_give_the_last() {
    assert_eq!(NamedPitch::from_index(49), NamedPitch::BTripleSharp);
    assert_eq!(NamedPitch::from_index(255), NamedPitch::BTripleSharp);
    assert_eq!(NamedPitch::from_letter_accidental(7, 0), Some(NamedPitch::C));
    assert_eq!(NamedPitch::from_letter_accidental(255, 1), Some(NamedPitch::FSharp));
    assert_eq!(kord::note::letter_semitones(6), 11);
    assert_eq!(kord::note::letter_semitones(9), 11);
}

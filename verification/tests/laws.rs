use kord::chord::Chord;
use kord::identify::{identify, interpret_classes, IdentifyStatus};
use kord::named_pitch::{HasNamedPitch, NamedPitch};
use kord::note::Note;
use kord::note_set::{NoteSet, PitchClassSet};
use kord::octave::Octave;
use kord::pitch::Pitch;

fn classes_of_mask(mask: u16) -> PitchClassSet {
    let mut set = PitchClassSet::new();
    for class in 0..12u8 {
        if mask & (1 << class) != 0 {
            set = set.insert(class);
        }
    }
    set
}

fn notes_of_mask(mask: u16, octave: Octave) -> Vec<Note> {
    (0..12u8)
        .filter(|class| mask & (1 << class) != 0)
        .map(|class| Note::new(Pitch::from_semitone(class).named_pitch(), octave))
        .collect()
}

fn mask_of(notes: &[Note]) -> u16 {
    let classes = NoteSet::from_notes(notes).pitch_classes();
    (0..12u8).filter(|class| classes.contains(*class)).fold(0, |mask, class| mask | (1 << class))
}

#[test]
fn every_identified_chord_builds_back_to_its_pitch_classes() {
    let mut found = 0usize;
    for mask in 1u16..4096 {
        if mask.count_ones() == 1 {
            continue;
        }
        for chord in interpret_classes(&classes_of_mask(mask), None) {
            let built = chord.build().unwrap();
            assert_eq!(mask_of(&built), mask);
            found += 1;
        }
    }
    assert!(found > 1000);
}

#[test]
fn every_identified_chord_builds_back_with_a_bass() {
    for mask in 1u16..4096 {
        for bass_class in 0..12u8 {
            let bass = Note::new(Pitch::from_semitone(bass_class).named_pitch(), Octave::Two);
            let all = mask | (1 << bass_class);
            if all.count_ones() == 1 {
                continue;
            }
            let notes = NoteSet::from_notes(&notes_of_mask(mask, Octave::Five));
            let found = identify(&notes, Some(bass));
            for interpretation in &found.interpretations {
                let built = interpretation.chord.build().unwrap();
                assert_eq!(mask_of(&built), all);
                assert_eq!(built[0].pitch_class_value(), bass_class);
                if interpretation.chord.slash.is_some() {
                    assert!(built[1..].iter().all(|n| n.id() > built[0].id()));
                    assert!(built[1..].iter().any(|n| n.id() <= built[0].id() + 12));
                }
            }
            if !found.interpretations.is_empty() {
                assert_eq!(found.status, IdentifyStatus::Resolved);
            }
        }
    }
}

#[test]
fn the_first_chord_is_found_first_again() {
    for mask in 1u16..4096 {
        let found = interpret_classes(&classes_of_mask(mask), None);
        if let Some(top) = found.first() {
            let again = identify(&NoteSet::from_notes(&top.build().unwrap()), None);
            assert_eq!(again.interpretations[0].chord, *top);
            assert_eq!(again.interpretations[0].chord.root.named_pitch, top.root.named_pitch);
        }
    }
}

#[test]
fn a_chord_need_not_be_first_for_its_own_notes() {
    let a_minor_seventh = Chord::new(Note::new(NamedPitch::A, Octave::Four))
        .with_modifier(kord::modifier::Modifier::Minor)
        .with_modifier(kord::modifier::Modifier::Dominant(kord::modifier::Degree::Seven));
    let found = identify(&NoteSet::from_notes(&a_minor_seventh.build().unwrap()), None);
    assert_eq!(found.interpretations[0].canonical_name, "C(add13)");
    assert_eq!(found.interpretations[1].chord, a_minor_seventh);
}

#[test]
fn one_pitch_class_gives_one_bare_root() {
    for class in 0..12u8 {
        for octave in 0..10u8 {
            let note = Note::new(
                Pitch::from_semitone(class).named_pitch(),
                Octave::from_value(octave).unwrap(),
            );
            let found = identify(&NoteSet::new().insert(&note), None);
            assert_eq!(found.interpretations.len(), 1);
            let chord = found.interpretations[0].chord;
            assert_eq!(chord.root.pitch_class_value(), class);
            assert_eq!(chord.modifiers.count(), 0);
            assert_eq!(chord.extensions.count(), 0);
            assert_eq!(chord.inversion, 0);
            assert!(chord.slash.is_none());
        }
    }
}

#[test]
fn a_bare_root_builds_a_major_triad() {
    let found = identify(&NoteSet::new().insert(&Note::new(NamedPitch::C, Octave::Four)), None);
    let built = found.interpretations[0].chord.build().unwrap();
    assert_eq!(mask_of(&built), 0b0000_1001_0001);
}

#[test]
fn respelling_changes_nothing_but_the_spelling_of_a_slash_note() {
    let sharp = [
        Note::new(NamedPitch::CSharp, Octave::Four),
        Note::new(NamedPitch::ESharp, Octave::Four),
        Note::new(NamedPitch::GSharp, Octave::Four),
    ];
    let flat = [
        Note::new(NamedPitch::DFlat, Octave::Four),
        Note::new(NamedPitch::F, Octave::Four),
        Note::new(NamedPitch::AFlat, Octave::Four),
    ];
    assert_eq!(NoteSet::from_notes(&sharp), NoteSet::from_notes(&flat));
    let a = identify(&NoteSet::from_notes(&sharp), Some(Note::new(NamedPitch::D, Octave::Three)));
    let b =
        identify(&NoteSet::from_notes(&flat), Some(Note::new(NamedPitch::EDoubleFlat, Octave::Three)));
    assert_eq!(a.interpretations.len(), b.interpretations.len());
    assert_eq!(a.status, b.status);
    for (x, y) in a.interpretations.iter().zip(b.interpretations.iter()) {
        assert_eq!(x.chord.root.named_pitch, y.chord.root.named_pitch);
        assert_eq!(x.chord.modifiers, y.chord.modifiers);
        assert_eq!(x.chord.extensions, y.chord.extensions);
        assert_eq!(x.chord.inversion, y.chord.inversion);
        assert_eq!(x.chord, y.chord);
    }
    assert_eq!(a.interpretations[0].canonical_name, "D\u{266d}/D");
    assert_eq!(b.interpretations[0].canonical_name, "D\u{266d}/E\u{1d12b}");
    assert_eq!(a.interpretations[0].alternate_names, vec!["C\u{266f}/D".to_string()]);
    assert_eq!(
        a.interpretations[0].chord.slash.unwrap().id(),
        b.interpretations[0].chord.slash.unwrap().id()
    );
    let ninth_a = identify(&NoteSet::from_notes(&sharp), Some(Note::new(NamedPitch::DSharp, Octave::Three)));
    let ninth_b = identify(&NoteSet::from_notes(&flat), Some(Note::new(NamedPitch::EFlat, Octave::Three)));
    assert_eq!(ninth_a.interpretations[0].canonical_name, "D\u{266d}(add9)/E\u{266d}");
    assert_eq!(ninth_b.interpretations[0].canonical_name, "D\u{266d}(add9)/E\u{266d}");
}

#[test]
fn octaves_of_the_input_do_not_matter() {
    for mask in [0b1001_0001u16, 0b0100_1001_0001, 0b0010_0100_1001, 0b1010_1010_1010] {
        let low = identify(&NoteSet::from_notes(&notes_of_mask(mask, Octave::One)), None);
        let high = identify(&NoteSet::from_notes(&notes_of_mask(mask, Octave::Eight)), None);
        let low_chords: Vec<Chord> = low.interpretations.iter().map(|i| i.chord).collect();
        let high_chords: Vec<Chord> = high.interpretations.iter().map(|i| i.chord).collect();
        assert_eq!(low_chords, high_chords);
        assert!(low_chords.iter().all(|c| c.root.octave == Octave::Four));
    }
}

#[test]
fn the_name_tells_the_bass_that_is_built() {
    for mask in 1u16..4096 {
        for chord in interpret_classes(&classes_of_mask(mask), None) {
            let tones = chord.degree_list().len() as u8;
            for crunchy in [false, true] {
                for inversion in 0..tones + 2 {
                    let turned = chord.with_crunchy(crunchy).with_inversion(inversion);
                    let built = turned.build().unwrap();
                    assert_eq!(built.len(), tones as usize);
                    match turned.bass() {
                        Some(pitch) => assert_eq!(built[0].named_pitch, pitch),
                        None => {
                            assert_eq!(built[0].named_pitch, chord.root.named_pitch);
                            assert_eq!(built[0].id(), chord.root.id());
                        }
                    }
                    if mask.count_ones() > 1 {
                        assert_eq!(mask_of(&built), mask);
                    }
                    assert_eq!(turned.voicing_list().len(), tones as usize);
                }
            }
        }
    }
}

#[test]
fn tones_rise_before_inversion() {
    for mask in 1u16..4096 {
        for chord in interpret_classes(&classes_of_mask(mask), None) {
            let spread = chord.tone_note_list().unwrap();
            assert!(spread.windows(2).all(|w| w[0].id() < w[1].id()));
            assert_eq!(spread[0].id(), chord.root.id());
            let close = chord.with_crunchy(true).tone_note_list().unwrap();
            assert!(close.windows(2).all(|w| w[0].id() <= w[1].id()));
            assert!(close.iter().all(|n| n.id() < chord.root.id() + 12));
        }
    }
}

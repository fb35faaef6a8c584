use kord::base::HasName;
use kord::catalog::{catalog, catalog_entry, extension_for, find_best_entry, match_entry, CATALOG_SIZE};
use kord::chord::Chord;
use kord::identify::{
    find_candidate, find_class_spelling, find_lowest_note, generate, identify, identify_notes,
    interpret, interpret_classes, rank, resolve, spell_root, IdentifyStatus,
};
use kord::modifier::{Degree, Extension, ExtensionSet, Modifier, ModifierSet};
use kord::named_pitch::NamedPitch;
use kord::note::Note;
use kord::note_set::{NoteSet, PitchClassSet};
use kord::octave::Octave;

fn note(pitch: NamedPitch) -> Note {
    Note::new(pitch, Octave::Four)
}

fn set_of(pitches: &[NamedPitch]) -> NoteSet {
    let notes: Vec<Note> = pitches.iter().map(|p| note(*p)).collect();
    NoteSet::from_notes(&notes)
}

fn classes_of(classes: &[u8]) -> PitchClassSet {
    let mut set = PitchClassSet::new();
    for class in classes {
        set = set.insert(*class);
    }
    set
}

fn names(notes: &[Note]) -> Vec<String> {
    notes.iter().map(|n| n.name()).collect()
}

fn found_names(pitches: &[NamedPitch], bass: Option<Note>) -> Vec<String> {
    identify(&set_of(pitches), bass).interpretations.iter().map(|i| i.canonical_name.clone()).collect()
}

#[test]
fn c_major_triad_is_named_c() {
    let found = identify(&set_of(&[NamedPitch::C, NamedPitch::E, NamedPitch::G]), None);
    assert_eq!(found.status, IdentifyStatus::AmbiguousWithoutBassHint);
    assert_eq!(found.interpretations.len(), 1);
    let top = &found.interpretations[0];
    assert_eq!(top.chord.root.named_pitch, NamedPitch::C);
    assert_eq!(top.chord.root.octave, Octave::Four);
    assert!(top.chord.modifiers().is_empty());
    assert!(top.chord.extensions().is_empty());
    assert_eq!(top.chord.inversion, 0);
    assert!(top.chord.slash.is_none());
    assert!(!top.chord.crunchy);
    assert_eq!(top.canonical_name, "C");
    assert!(top.alternate_names.is_empty());
}

#[test]
fn dominant_seventh_is_named_c7() {
    let found = identify(
        &set_of(&[NamedPitch::C, NamedPitch::E, NamedPitch::G, NamedPitch::BFlat]),
        None,
    );
    let top = &found.interpretations[0];
    assert_eq!(top.chord.root.named_pitch, NamedPitch::C);
    assert_eq!(top.chord.modifiers(), vec![Modifier::Dominant(Degree::Seven)]);
    assert!(top.chord.extensions().is_empty());
    assert_eq!(top.chord.inversion, 0);
    assert_eq!(top.canonical_name, "C7");
}

#[test]
fn bass_on_the_third_gives_first_inversion() {
    let found = identify(
        &set_of(&[NamedPitch::C, NamedPitch::E, NamedPitch::G]),
        Some(Note::new(NamedPitch::E, Octave::Three)),
    );
    assert_eq!(found.status, IdentifyStatus::Resolved);
    let top = &found.interpretations[0];
    assert_eq!(top.chord.root.named_pitch, NamedPitch::C);
    assert_eq!(top.chord.inversion, 1);
    assert!(top.chord.slash.is_none());
    assert_eq!(top.canonical_name, "C/E");
    assert_eq!(names(&top.chord.build().unwrap()), vec!["E4", "G4", "C5"]);
}

#[test]
fn bass_on_the_root_gives_root_position() {
    let found = identify(
        &set_of(&[NamedPitch::C, NamedPitch::E, NamedPitch::G]),
        Some(Note::new(NamedPitch::C, Octave::Two)),
    );
    assert_eq!(found.status, IdentifyStatus::Resolved);
    assert_eq!(found.interpretations[0].chord.inversion, 0);
    assert!(found.interpretations[0].chord.slash.is_none());
    assert_eq!(found.interpretations[0].canonical_name, "C");
}

#[test]
fn diminished_triad_is_named_cdim() {
    let found = identify(&set_of(&[NamedPitch::C, NamedPitch::EFlat, NamedPitch::GFlat]), None);
    let top = &found.interpretations[0];
    assert_eq!(top.chord.root.named_pitch, NamedPitch::C);
    assert_eq!(top.chord.modifiers(), vec![Modifier::Diminished]);
    assert!(top.chord.extensions().is_empty());
    assert_eq!(top.canonical_name, "Cdim");
    assert_eq!(names(&top.chord.build().unwrap()), vec!["C4", "E\u{266d}4", "G\u{266d}4"]);
}

#[test]
fn triad_without_third_has_no_interpretation() {
    let found = identify(&set_of(&[NamedPitch::C, NamedPitch::D, NamedPitch::G]), None);
    assert!(found.interpretations.is_empty());
    assert_eq!(found.status, IdentifyStatus::NoInterpretation);
    let with_bass = identify(&set_of(&[NamedPitch::C, NamedPitch::D, NamedPitch::G]), Some(note(NamedPitch::C)));
    assert!(with_bass.interpretations.is_empty());
    assert_eq!(with_bass.status, IdentifyStatus::NoInterpretation);
}

#[test]
fn two_notes_have_no_interpretation() {
    assert!(found_names(&[NamedPitch::C, NamedPitch::G], None).is_empty());
    assert!(found_names(&[NamedPitch::C], Some(note(NamedPitch::E))).is_empty());
}

#[test]
fn single_note_is_a_bare_root() {
    let found = identify(&set_of(&[NamedPitch::FSharp]), None);
    assert_eq!(found.interpretations.len(), 1);
    assert_eq!(found.status, IdentifyStatus::AmbiguousWithoutBassHint);
    let only = &found.interpretations[0];
    assert_eq!(only.chord.root.named_pitch, NamedPitch::FSharp);
    assert!(only.chord.modifiers().is_empty());
    assert!(only.chord.extensions().is_empty());
    assert_eq!(only.canonical_name, "F\u{266f}");
    assert_eq!(only.alternate_names, vec!["G\u{266d}".to_string()]);
    let octaves = NoteSet::from_notes(&[
        Note::new(NamedPitch::D, Octave::Two),
        Note::new(NamedPitch::D, Octave::Six),
    ]);
    assert_eq!(identify(&octaves, Some(note(NamedPitch::D))).interpretations.len(), 1);
}

#[test]
fn empty_set_has_no_interpretation() {
    let found = identify(&NoteSet::new(), None);
    assert!(found.interpretations.is_empty());
    assert_eq!(found.status, IdentifyStatus::NoInterpretation);
}

#[test]
fn bass_outside_the_chord_becomes_slash() {
    let found = identify(
        &set_of(&[NamedPitch::C, NamedPitch::E, NamedPitch::G]),
        Some(Note::new(NamedPitch::FSharp, Octave::Two)),
    );
    let top = &found.interpretations[0];
    assert_eq!(top.canonical_name, "C/F\u{266f}");
    assert_eq!(top.chord.inversion, 0);
    assert_eq!(top.chord.slash.unwrap().named_pitch, NamedPitch::FSharp);
    assert_eq!(names(&top.chord.build().unwrap()), vec!["F\u{266f}3", "C4", "E4", "G4"]);
}

#[test]
fn fewer_modifiers_and_extensions_come_first() {
    assert_eq!(
        found_names(&[NamedPitch::C, NamedPitch::E, NamedPitch::G, NamedPitch::A], None),
        vec!["C(add13)", "Am7"]
    );
    assert_eq!(
        found_names(&[NamedPitch::C, NamedPitch::E, NamedPitch::G, NamedPitch::BFlat], None),
        vec!["C7", "Edim(\u{266d}13)"]
    );
}

#[test]
fn natural_roots_come_before_others() {
    let found = found_names(&[NamedPitch::C, NamedPitch::E, NamedPitch::GSharp], None);
    assert_eq!(found, vec!["C+", "E+", "A\u{266d}+"]);
    let diminished = found_names(
        &[NamedPitch::C, NamedPitch::EFlat, NamedPitch::GFlat, NamedPitch::A],
        None,
    );
    assert_eq!(diminished, vec!["Cdim7", "Adim7", "E\u{266d}dim7", "F\u{266f}dim7"]);
}

#[test]
fn unaltered_extensions_are_preferred() {
    let classes = classes_of(&[0, 4, 7, 10]);
    let (entry, extensions) = find_best_entry(&classes, 0, None).unwrap();
    assert_eq!(catalog_entry(entry).modifiers.to_vec(), vec![Modifier::Dominant(Degree::Seven)]);
    assert_eq!(extensions.count(), 0);
    let major = ModifierSet::empty();
    assert_eq!(match_entry(&major, &classes, 0, None).unwrap().to_vec(), vec![Extension::Sharp13]);
    assert_eq!(match_entry(&major, &classes, 0, Some(10)).unwrap().count(), 0);
    assert_eq!(match_entry(&major.with(Modifier::Minor), &classes, 0, None), None);
    assert_eq!(match_entry(&major, &classes_of(&[0, 1, 4, 7]), 0, None), None);
}

#[test]
fn the_catalog_is_declared_in_order() {
    let entries = catalog();
    assert_eq!(entries.len(), CATALOG_SIZE);
    assert_eq!(entries[0].modifiers.count(), 0);
    assert_eq!(entries[1].modifiers.to_vec(), vec![Modifier::Minor]);
    assert_eq!(
        entries[2].modifiers.to_vec(),
        vec![Modifier::Diminished, Modifier::Dominant(Degree::Seven)]
    );
    assert_eq!(entries[3].modifiers.to_vec(), vec![Modifier::Diminished]);
    for index in 0..CATALOG_SIZE {
        assert_eq!(entries[index], catalog_entry(index));
        for other in 0..index {
            assert_ne!(entries[index], entries[other]);
        }
    }
    assert_eq!(extension_for(2), Some(Extension::Add9));
    assert_eq!(extension_for(5), Some(Extension::Add11));
    assert_eq!(extension_for(9), Some(Extension::Add13));
    assert_eq!(extension_for(4), Some(Extension::Flat11));
    assert_eq!(extension_for(8), Some(Extension::Flat13));
    assert_eq!(extension_for(10), Some(Extension::Sharp13));
    for distance in [0u8, 1, 3, 6, 7, 11, 12] {
        assert_eq!(extension_for(distance), None);
    }
}

#[test]
fn candidates_stand_by_root_and_are_ranked_by_key() {
    let classes = classes_of(&[0, 4, 7, 9]);
    let candidates = generate(&classes, None);
    assert_eq!(candidates.len(), 2);
    assert_eq!(candidates[0].chord.root.named_pitch, NamedPitch::C);
    assert_eq!(candidates[1].chord.root.named_pitch, NamedPitch::A);
    assert_eq!(candidates[0].key, 4096);
    assert_eq!(candidates[1].key, 2 * 4096 + 12 * 8 + 9);
    assert!(find_candidate(&classes, None, 4).is_none());
    assert!(find_candidate(&classes, None, 12).is_none());
    assert_eq!(find_best_entry(&classes, 12, None), find_best_entry(&classes, 0, None));
    assert_eq!(catalog_entry(CATALOG_SIZE), catalog_entry(0));
    assert!(find_candidate(&classes, None, 1).is_none());
    let mut reversed = candidates.clone();
    reversed.reverse();
    let ranked = rank(&reversed);
    assert_eq!(ranked[0].key, candidates[0].key);
    assert_eq!(ranked[1].key, candidates[1].key);
    let accidental = find_candidate(&classes_of(&[1, 5, 8]), None, 1).unwrap();
    assert_eq!(accidental.key, 2048 + 1);
    assert_eq!(interpret_classes(&classes, None).len(), 2);
}

#[test]
fn resolving_a_bass() {
    let seventh = Chord::new(note(NamedPitch::C)).with_modifier(Modifier::Dominant(Degree::Seven));
    assert_eq!(resolve(&seventh, None), seventh);
    assert_eq!(resolve(&seventh.with_inversion(2), None), seventh);
    assert_eq!(resolve(&seventh, Some(note(NamedPitch::C))).inversion, 0);
    assert_eq!(resolve(&seventh, Some(note(NamedPitch::E))).inversion, 1);
    assert_eq!(resolve(&seventh, Some(note(NamedPitch::G))).inversion, 2);
    assert_eq!(resolve(&seventh, Some(note(NamedPitch::ASharp))).inversion, 3);
    let slashed = resolve(&seventh, Some(note(NamedPitch::D)));
    assert_eq!(slashed.inversion, 0);
    assert_eq!(slashed.slash.unwrap().named_pitch, NamedPitch::D);
    let ninth = seventh.with_extension(Extension::Add9);
    assert_eq!(resolve(&ninth, Some(note(NamedPitch::D))).inversion, 4);
    assert!(resolve(&ninth, Some(note(NamedPitch::D))).slash.is_none());
}

#[test]
fn interpretations_carry_their_names() {
    let chord = Chord::new(note(NamedPitch::EFlat)).with_modifier(Modifier::Minor);
    let named = interpret(chord);
    assert_eq!(named.canonical_name, "E\u{266d}m");
    assert_eq!(named.alternate_names, vec!["D\u{266f}m".to_string()]);
    let odd = interpret(Chord::new(note(NamedPitch::BSharp)).with_inversion(1));
    assert_eq!(odd.canonical_name, "B\u{266f}/D\u{1d12a}");
    assert_eq!(odd.alternate_names, vec!["C/D\u{1d12a}".to_string()]);
    assert_eq!(odd.chord, Chord::new(Note::new(NamedPitch::C, Octave::Five)).with_inversion(1));
    assert_ne!(odd.chord, Chord::new(note(NamedPitch::C)).with_inversion(1));
    let _ = ExtensionSet::empty();
}

#[test]
fn notes_are_identified_with_the_lowest_as_bass() {
    let notes = [
        Note::new(NamedPitch::G, Octave::Three),
        Note::new(NamedPitch::C, Octave::Four),
        Note::new(NamedPitch::E, Octave::Four),
    ];
    assert_eq!(find_lowest_note(&notes).unwrap().name(), "G3");
    assert!(find_lowest_note(&[]).is_none());
    let found = identify_notes(&notes);
    assert_eq!(found.status, IdentifyStatus::Resolved);
    assert_eq!(found.interpretations[0].canonical_name, "C/G");
    assert_eq!(found.interpretations[0].chord.inversion, 2);
    assert_eq!(names(&found.interpretations[0].chord.build().unwrap()), vec!["G4", "C5", "E5"]);
    assert!(identify_notes(&[]).interpretations.is_empty());
    assert_eq!(identify_notes(&[]).status, IdentifyStatus::NoInterpretation);
}

#[test]
fn roots_are_spelled_as_the_notes_spell_them() {
    let sharp = [note(NamedPitch::CSharp), note(NamedPitch::ESharp), note(NamedPitch::GSharp)];
    let flat = [note(NamedPitch::DFlat), note(NamedPitch::F), note(NamedPitch::AFlat)];
    let a = identify_notes(&sharp);
    let b = identify_notes(&flat);
    assert_eq!(a.interpretations[0].canonical_name, "C\u{266f}");
    assert_eq!(a.interpretations[0].alternate_names, vec!["D\u{266d}".to_string()]);
    assert_eq!(b.interpretations[0].canonical_name, "D\u{266d}");
    assert_eq!(b.interpretations[0].alternate_names, vec!["C\u{266f}".to_string()]);
    assert_eq!(a.interpretations.len(), b.interpretations.len());
    assert_eq!(a.interpretations[0].chord, b.interpretations[0].chord);
    assert_eq!(a.interpretations[0].chord.root.id(), b.interpretations[0].chord.root.id());
    assert_eq!(
        names(&a.interpretations[0].chord.build().unwrap()),
        vec!["C\u{266f}4", "E\u{266f}4", "G\u{266f}4"]
    );
    assert_eq!(
        names(&b.interpretations[0].chord.build().unwrap()),
        vec!["D\u{266d}4", "F4", "A\u{266d}4"]
    );
    let odd = [note(NamedPitch::BSharp), note(NamedPitch::E), note(NamedPitch::G)];
    let c = identify_notes(&odd);
    assert_eq!(c.interpretations[0].canonical_name, "B\u{266f}/D\u{1d12a}");
    assert_eq!(c.interpretations[0].chord.root.name(), "B\u{266f}3");
    assert_eq!(c.interpretations[0].chord.root.id(), 51);
    assert_eq!(find_class_spelling(&odd, 0), Some(NamedPitch::BSharp));
    assert_eq!(find_class_spelling(&odd, 1), None);
    assert_eq!(spell_root(&odd, note(NamedPitch::C)).name(), "B\u{266f}3");
    assert_eq!(spell_root(&odd, note(NamedPitch::D)).name(), "D4");
    assert_eq!(
        spell_root(&[note(NamedPitch::DDoubleFlat)], Note::new(NamedPitch::BSharp, Octave::Nine)).name(),
        "B\u{266f}9"
    );
}

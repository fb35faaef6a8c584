use kord::named_pitch::NamedPitch;
use kord::note::Note;
use kord::note_set::{id_mask, NoteSet, PitchClassSet};
use kord::octave::Octave;

fn note(pitch: NamedPitch, octave: Octave) -> Note {
    Note::new(pitch, octave)
}

#[test]
fn empty_set() {
    let set = NoteSet::new();
    assert_eq!(set.bits(), 0);
    assert_eq!(set.len(), 0);
    assert!(set.is_empty());
    assert!(!set.contains_id(0));
    assert!(!set.contains_id(200));
}

#[test]
fn inserting_and_asking() {
    let c4 = note(NamedPitch::C, Octave::Four);
    let set = NoteSet::new().insert(&c4);
    assert_eq!(set.bits(), 1u128 << 51);
    assert!(set.contains(&c4));
    assert!(set.contains(&note(NamedPitch::BSharp, Octave::Three)));
    assert!(!set.contains(&note(NamedPitch::C, Octave::Five)));
    assert_eq!(set.len(), 1);
    assert!(!set.is_empty());
    assert_eq!(set.insert(&c4), set);
    assert_eq!(set.insert_id(128), set);
    assert_eq!(set.insert_id(255), set);
    let top = NoteSet::new().insert_id(127);
    assert!(top.contains_id(127));
    assert_eq!(top.bits(), 1u128 << 127);
    assert_eq!(NoteSet::from_bits(5).len(), 2);
}

#[test]
fn union_and_intersection() {
    let a = NoteSet::from_bits(0b0110);
    let b = NoteSet::from_bits(0b1100);
    assert_eq!(a.union(&b).bits(), 0b1110);
    assert_eq!(a.intersection(&b).bits(), 0b0100);
    assert_eq!(a.union(&b).len(), 3);
    assert_eq!(a.intersection(&NoteSet::new()).len(), 0);
    assert_eq!(NoteSet::from_bits(u128::MAX).len(), 128);
}

#[test]
fn sets_forget_spelling_and_order() {
    let sharp = [note(NamedPitch::CSharp, Octave::Four), note(NamedPitch::E, Octave::Two)];
    let flat = [note(NamedPitch::FFlat, Octave::Two), note(NamedPitch::DFlat, Octave::Four)];
    assert_eq!(NoteSet::from_notes(&sharp), NoteSet::from_notes(&flat));
    assert_eq!(id_mask(&sharp), (1u128 << 52) | (1u128 << 31));
    assert_eq!(id_mask(&flat), id_mask(&sharp));
    assert_eq!(NoteSet::from_notes(&[]).bits(), 0);
}

#[test]
fn pitch_classes_leave_octaves_out() {
    let notes = [
        note(NamedPitch::C, Octave::Two),
        note(NamedPitch::C, Octave::Six),
        note(NamedPitch::GFlat, Octave::Four),
    ];
    let classes = NoteSet::from_notes(&notes).pitch_classes();
    assert_eq!(classes.len(), 2);
    assert!(classes.contains(0));
    assert!(classes.contains(6));
    assert!(!classes.contains(1));
    assert!(!classes.contains(12));
    let more = classes.insert(11);
    assert_eq!(more.len(), 3);
    assert_eq!(more.insert(12).len(), 3);
    assert_eq!(PitchClassSet::new().len(), 0);
}

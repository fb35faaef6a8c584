//! Why a chord that is built sounds what it says: the steps from the tones
//! of a chord to the pitch classes of its notes.

use vstd::prelude::*;
use crate::chord::{lowest_id, rotated, Chord};
use crate::identify::root_note;
use crate::interval::Interval;
use crate::named_pitch::{letter_base, NamedPitch};
use crate::note::Note;
use crate::note_set::{ids_of, pitch_class_of_id, pitch_classes_of};
use crate::octave::Octave;
use crate::pitch::Pitch;
use crate::tones::{lemma_orders, lemma_sounds_at, sounds_at, spread_tone, tone_at, uses_tone, voiced};

verus! {

/// The pitch classes of the notes of a sequence.
pub open spec fn note_classes(notes: Seq<Note>) -> Set<int> {
    Set::new(
        |p: int| exists|k: int| 0 <= k < notes.len() && #[trigger] notes[k].pitch_class() == p,
    )
}

/// The pitch classes of a set of identities made from notes are the pitch
/// classes of those notes.
pub proof fn lemma_classes_of_notes(notes: Seq<Note>)
    ensures
        pitch_classes_of(ids_of(notes)) == note_classes(notes),
{
    assert forall|p: int| pitch_classes_of(ids_of(notes)).contains(p) == note_classes(
        notes,
    ).contains(p) by {
        if pitch_classes_of(ids_of(notes)).contains(p) {
            let id = choose|id: int|
                0 <= id < 128 && #[trigger] ids_of(notes).contains(id) && pitch_class_of_id(id)
                    == p;
            let k = choose|k: int| 0 <= k < notes.len() && #[trigger] notes[k].id_spec() == id;
            assert(notes[k].pitch_class() == p);
        }
        if note_classes(notes).contains(p) {
            let k = choose|k: int| 0 <= k < notes.len() && #[trigger] notes[k].pitch_class() == p;
            Note::lemma_id(notes[k]);
            assert(ids_of(notes).contains(notes[k].id_spec()));
        }
    }
    assert(pitch_classes_of(ids_of(notes)) =~= note_classes(notes));
}

/// The root of an identified chord sounds the pitch class it stands for,
/// in octave 4, spelled with at most one flat or sharp.
pub proof fn lemma_root_note(root: int)
    requires
        0 <= root < 12,
    ensures
        root_note(root).pitch_class() == root,
        root_note(root).id_spec() == 51 + root,
        -1 <= root_note(root).named_pitch.accidental() <= 1,
{
    Pitch::lemma_semitone_round_trip(Pitch::C, root);
    Pitch::lemma_spellings(Pitch::of_semitone(root));
}

/// Every chord tone can be placed above the root of an identified chord:
/// it lies in octave 6 at most and needs no more than three flats or sharps.
pub proof fn lemma_root_transposes(root: int, place: int)
    requires
        0 <= root < 12,
        0 <= place < 18,
    ensures
        root_note(root).transposed(spread_tone(place)) is Some,
        root_note(root).transposed(spread_tone(place)).unwrap().octave.number() <= 6,
        root_note(root).transposed(spread_tone(place)).unwrap().id_spec() == 51 + root
            + spread_tone(place).semitones_spec(),
        root_note(root).transposed(spread_tone(place)).unwrap().pitch_class() == (root
            + spread_tone(place).semitones_spec()) % 12,
{
    let note = root_note(root);
    let tone = spread_tone(place);
    lemma_root_note(root);
    NamedPitch::lemma_ranges(note.named_pitch);
    let letter = note.named_pitch.letter_index();
    let steps = tone.steps_spec();
    let semitones = tone.semitones_spec();
    let octave = 4 + (letter + steps) / 7;
    let natural = letter_base((letter + steps) % 7) + 12 * ((letter + steps) / 7) - letter_base(
        letter,
    );
    assert(-2 <= semitones - natural <= 2) by {
        lemma_tone_quality(letter, place);
    }
    let accidental = note.id_spec() + semitones - 3 - 12 * octave - letter_base(
        (letter + steps) % 7,
    );
    assert(accidental == note.named_pitch.accidental() + semitones - natural);
    Note::lemma_raised_exists(note, steps, semitones);
    assert(note.transposed(tone) is Some);
    Note::lemma_transposed(note, tone);
    Note::lemma_raised(note, steps, semitones);
}

/// A chord tone is at most two semitones narrower or wider than the
/// interval between the natural notes of its letters.
pub proof fn lemma_tone_quality(letter: int, place: int)
    requires
        0 <= letter < 7,
        0 <= place < 18,
    ensures
        -2 <= spread_tone(place).semitones_spec() - (letter_base(
            (letter + spread_tone(place).steps_spec()) % 7,
        ) + 12 * ((letter + spread_tone(place).steps_spec()) / 7) - letter_base(letter)) <= 2,
        0 <= spread_tone(place).steps_spec() <= 12,
{
}

/// The tones of an identified chord can all be placed: they lie in
/// octave 6 at most, and none below the root's octave.
pub proof fn lemma_spread_tones(chord: Chord, root: int, n: nat)
    requires
        0 <= root < 12,
        chord.root == root_note(root),
        !chord.crunchy,
        n <= 18,
    ensures
        chord.tone_notes_upto(n) is Some,
        forall|k: int|
            0 <= k < chord.tone_notes_upto(n).unwrap().len() ==> (#[trigger] chord.tone_notes_upto(
                n,
            ).unwrap()[k]).octave.number() <= 6 && chord.tone_notes_upto(n).unwrap()[k].id_spec()
                >= 51,
    decreases n,
{
    if n > 0 {
        lemma_spread_tones(chord, root, (n - 1) as nat);
        let before = chord.tone_notes_upto((n - 1) as nat).unwrap();
        let tone = spread_tone(n - 1);
        lemma_root_transposes(root, n - 1);
        let now = chord.tone_notes_upto(n).unwrap();
        if uses_tone(chord.modifiers, chord.extensions, tone) {
            let note = chord.root.transposed(tone).unwrap();
            assert(now == before.push(note));
            assert forall|k: int| 0 <= k < now.len() implies (#[trigger] now[k]).octave.number()
                <= 6 && now[k].id_spec() >= 51 by {
                if k < before.len() {
                    assert(now[k] == before[k]);
                }
            }
        } else {
            assert(now == before);
        }
    }
}

/// The notes of the tones of a chord each sound at a distance from the
/// root at which the chord sounds, and every tone of the chord has its note
/// among them.
pub proof fn lemma_tones_sound(chord: Chord, n: nat)
    requires
        n <= 18,
        chord.tone_notes_upto(n) is Some,
    ensures
        forall|k: int|
            0 <= k < chord.tone_notes_upto(n).unwrap().len() ==> sounds_at(
                chord.modifiers,
                chord.extensions,
                ((#[trigger] chord.tone_notes_upto(n).unwrap()[k]).pitch_class()
                    - chord.root.pitch_class()) % 12,
            ),
        forall|place: int|
            0 <= place < n && uses_tone(
                chord.modifiers,
                chord.extensions,
                tone_at(chord.crunchy, place),
            ) ==> note_classes(chord.tone_notes_upto(n).unwrap()).contains(
                (chord.root.pitch_class() + #[trigger] tone_at(
                    chord.crunchy,
                    place,
                ).semitones_spec()) % 12,
            ),
    decreases n,
{
    if n > 0 {
        let root = chord.root.pitch_class();
        Note::lemma_id(chord.root);
        let tone = tone_at(chord.crunchy, n - 1);
        let used = uses_tone(chord.modifiers, chord.extensions, tone);
        assert(chord.tone_notes_upto((n - 1) as nat) is Some);
        lemma_tones_sound(chord, (n - 1) as nat);
        let before = chord.tone_notes_upto((n - 1) as nat).unwrap();
        let now = chord.tone_notes_upto(n).unwrap();
        if used {
            let interval = voiced(chord.crunchy, tone);
            let note = chord.root.transposed(interval).unwrap();
            assert(now == before.push(note));
            Note::lemma_transposed(chord.root, interval);
            Interval::lemma_simple(tone);
            lemma_sounds_at(chord.modifiers, chord.extensions, tone, 0);
            let class = (root + tone.semitones_spec()) % 12;
            assert(note.pitch_class() == class) by {
                crate::note::lemma_add_mod12(root, tone.semitones_spec());
                crate::note::lemma_add_mod12(root, interval.semitones_spec());
            }
            lemma_distance_back(root, tone.semitones_spec());
            assert forall|k: int| 0 <= k < now.len() implies sounds_at(
                chord.modifiers,
                chord.extensions,
                ((#[trigger] now[k]).pitch_class() - root) % 12,
            ) by {
                if k < before.len() {
                    assert(now[k] == before[k]);
                }
            }
            assert forall|place: int|
                0 <= place < n && uses_tone(
                    chord.modifiers,
                    chord.extensions,
                    tone_at(chord.crunchy, place),
                ) implies note_classes(now).contains(
                (root + #[trigger] tone_at(chord.crunchy, place).semitones_spec()) % 12,
            ) by {
                let wanted = (root + tone_at(chord.crunchy, place).semitones_spec()) % 12;
                if place < n - 1 {
                    assert(note_classes(before).contains(wanted));
                    let k = choose|k: int|
                        0 <= k < before.len() && #[trigger] before[k].pitch_class() == wanted;
                    assert(now[k].pitch_class() == wanted);
                } else {
                    assert(now[before.len() as int].pitch_class() == wanted);
                }
            }
        } else {
            assert(now == before);
        }
    }
}

/// The distance from a pitch class up to the pitch class a number of
/// semitones above it is that number, octaves left out.
pub proof fn lemma_distance_back(root: int, semitones: int)
    requires
        0 <= root < 12,
    ensures
        ((root + semitones) % 12 - root) % 12 == semitones % 12,
        0 <= semitones < 12 ==> ((root + semitones) % 12 - root) % 12 == semitones,
{
}

/// A pitch class lies where its distance from another one leads.
pub proof fn lemma_distance_forth(root: int, p: int, semitones: int)
    requires
        0 <= root < 12,
        0 <= p < 12,
        semitones % 12 == (p - root) % 12,
    ensures
        (root + semitones) % 12 == p,
        (root + (p - root) % 12) % 12 == p,
{
}

/// The lowest notes can be put an octave higher as long as they lie below
/// octave 9.
pub proof fn lemma_rotated(notes: Seq<Note>, count: nat)
    requires
        count <= notes.len(),
        forall|k: int| 0 <= k < count ==> (#[trigger] notes[k]).octave.number() <= 8,
        forall|k: int| 0 <= k < notes.len() ==> (#[trigger] notes[k]).id_spec() >= 51,
    ensures
        rotated(notes, count) is Some,
        forall|k: int|
            0 <= k < rotated(notes, count).unwrap().len() ==> (#[trigger] rotated(
                notes,
                count,
            ).unwrap()[k]).id_spec() >= 51,
    decreases count,
{
    if count > 0 {
        let first = notes[0];
        NamedPitch::lemma_ranges(first.named_pitch);
        Octave::lemma_number_round_trip(first.octave);
        let letter = first.named_pitch.letter_index();
        assert((letter + 7) / 7 == 1 && (letter + 7) % 7 == letter);
        Note::lemma_raised_exists(first, 7, 12);
        assert(first.transposed(Interval::PerfectOctave) is Some);
        Note::lemma_transposed(first, Interval::PerfectOctave);
        let top = first.transposed(Interval::PerfectOctave).unwrap();
        let next = notes.drop_first().push(top);
        assert forall|k: int| 0 <= k < count - 1 implies (#[trigger] next[k]).octave.number()
            <= 8 by {
            assert(next[k] == notes[k + 1]);
        }
        assert forall|k: int| 0 <= k < next.len() implies (#[trigger] next[k]).id_spec() >= 51 by {
            if k < next.len() - 1 {
                assert(next[k] == notes[k + 1]);
            }
        }
        lemma_rotated(next, (count - 1) as nat);
    }
}

/// Putting the lowest notes an octave higher changes neither the number of
/// the notes nor their pitch classes.
pub proof fn lemma_rotated_classes(notes: Seq<Note>, count: nat)
    requires
        rotated(notes, count) is Some,
    ensures
        rotated(notes, count).unwrap().len() == notes.len(),
        note_classes(rotated(notes, count).unwrap()) == note_classes(notes),
    decreases count,
{
    if count > 0 && notes.len() > 0 {
        let first = notes[0];
        Note::lemma_transposed(first, Interval::PerfectOctave);
        let top = first.transposed(Interval::PerfectOctave).unwrap();
        crate::note::lemma_add_mod12(first.pitch_class(), 12);
        Note::lemma_id(first);
        assert(top.pitch_class() == first.pitch_class());
        let next = notes.drop_first().push(top);
        lemma_rotated_classes(next, (count - 1) as nat);
        assert forall|p: int| note_classes(next).contains(p) == note_classes(notes).contains(p) by {
            if note_classes(next).contains(p) {
                let k = choose|k: int| 0 <= k < next.len() && #[trigger] next[k].pitch_class() == p;
                if k < next.len() - 1 {
                    assert(notes[k + 1].pitch_class() == p);
                } else {
                    assert(notes[0].pitch_class() == p);
                }
            }
            if note_classes(notes).contains(p) {
                let k = choose|k: int|
                    0 <= k < notes.len() && #[trigger] notes[k].pitch_class() == p;
                if k > 0 {
                    assert(next[k - 1].pitch_class() == p);
                } else {
                    assert(next[next.len() - 1].pitch_class() == p);
                }
            }
        }
        assert(note_classes(next) =~= note_classes(notes));
    }
}

/// The lowest identity among notes lies no higher than that of any of
/// them, and no lower than a bound below all of them.
pub proof fn lemma_lowest_id(notes: Seq<Note>, bound: int)
    requires
        bound <= 128,
        forall|k: int| 0 <= k < notes.len() ==> (#[trigger] notes[k]).id_spec() >= bound,
    ensures
        lowest_id(notes) >= bound,
        forall|k: int| 0 <= k < notes.len() ==> lowest_id(notes) <= (#[trigger] notes[k]).id_spec(),
    decreases notes.len(),
{
    if notes.len() > 0 {
        assert forall|k: int| 0 <= k < notes.drop_last().len() implies (
        #[trigger] notes.drop_last()[k]).id_spec() >= bound by {
            assert(notes.drop_last()[k] == notes[k]);
        }
        lemma_lowest_id(notes.drop_last(), bound);
        assert forall|k: int| 0 <= k < notes.len() implies lowest_id(notes) <= (
        #[trigger] notes[k]).id_spec() by {
            if k < notes.len() - 1 {
                assert(notes.drop_last()[k] == notes[k]);
            }
        }
    }
}

/// The lowest identity among notes is that of one of them.
pub proof fn lemma_lowest_id_reached(notes: Seq<Note>) -> (k: int)
    requires
        notes.len() > 0,
        forall|i: int| 0 <= i < notes.len() ==> (#[trigger] notes[i]).id_spec() < 128,
    ensures
        0 <= k < notes.len(),
        notes[k].id_spec() == lowest_id(notes),
    decreases notes.len(),
{
    let rest = notes.drop_last();
    if notes.last().id_spec() < lowest_id(rest) {
        notes.len() - 1
    } else {
        if rest.len() == 0 {
            assert(false);
        }
        assert forall|i: int| 0 <= i < rest.len() implies (#[trigger] rest[i]).id_spec() < 128 by {
            assert(rest[i] == notes[i]);
        }
        let k = lemma_lowest_id_reached(rest);
        assert(rest[k] == notes[k]);
        k
    }
}

/// The notes of the tones of a chord sound the pitch classes at which the
/// chord sounds, and no other.
pub proof fn lemma_tone_classes(chord: Chord, p: int)
    requires
        chord.tone_notes() is Some,
    ensures
        note_classes(chord.tone_notes().unwrap()).contains(p) <==> (0 <= p < 12 && sounds_at(
            chord.modifiers,
            chord.extensions,
            (p - chord.root.pitch_class()) % 12,
        )),
{
    let root = chord.root.pitch_class();
    Note::lemma_id(chord.root);
    lemma_tones_sound(chord, 18);
    let notes = chord.tone_notes().unwrap();
    if note_classes(notes).contains(p) {
        let k = choose|k: int| 0 <= k < notes.len() && #[trigger] notes[k].pitch_class() == p;
        Note::lemma_id(notes[k]);
    }
    if 0 <= p < 12 && sounds_at(chord.modifiers, chord.extensions, (p - root) % 12) {
        let distance = (p - root) % 12;
        let tone = crate::tones::tone_sounding_at(chord.modifiers, chord.extensions, distance);
        lemma_sounds_at(chord.modifiers, chord.extensions, tone, distance);
        lemma_orders(chord.crunchy, tone, 0);
        let place = crate::tones::place_of(chord.crunchy, tone);
        assert(tone_at(chord.crunchy, place) == tone);
        assert((root + tone.semitones_spec()) % 12 == p) by {
            lemma_distance_forth(root, p, tone.semitones_spec());
        }
    }
}

/// A chord on the root of an identified chord, in spread voicing, can be
/// built whatever its inversion and its slash note.
pub proof fn lemma_built(chord: Chord, root: int)
    requires
        0 <= root < 12,
        chord.root == root_note(root),
        !chord.crunchy,
    ensures
        chord.built() is Some,
{
    lemma_spread_tones(chord, root, 18);
    chord.lemma_degrees_len(18);
    lemma_tones_count(chord, 18);
    let tones = chord.tone_notes().unwrap();
    let count = crate::chord::turns(chord.inversion as nat, tones.len());
    crate::chord::lemma_turns(chord.inversion as nat, tones.len());
    lemma_rotated(tones, count);
    let inverted = rotated(tones, count).unwrap();
    if chord.slash is Some {
        lemma_lowest_id(inverted, 51);
        NamedPitch::lemma_ranges(chord.slash.unwrap().named_pitch);
    }
}

/// A chord has at least one tone note, that of its root.
pub proof fn lemma_tones_count(chord: Chord, n: nat)
    requires
        n <= 18,
        chord.tone_notes_upto(n) is Some,
    ensures
        n >= 1 ==> chord.tone_notes_upto(n).unwrap().len() >= 1,
    decreases n,
{
    if n > 1 {
        lemma_tones_count(chord, (n - 1) as nat);
    } else if n == 1 {
        reveal_with_fuel(Chord::tone_notes_upto, 2);
    }
}

/// Notes of one spelling sound one pitch class, whatever their octaves.
pub proof fn lemma_same_spelling(a: Note, b: Note)
    requires
        a.named_pitch == b.named_pitch,
    ensures
        a.pitch_class() == b.pitch_class(),
{
    Octave::lemma_number_round_trip(a.octave);
    Octave::lemma_number_round_trip(b.octave);
}

/// A note put before others adds its pitch class to theirs.
pub proof fn lemma_classes_prepend(first: Note, rest: Seq<Note>)
    ensures
        forall|p: int| #[trigger]
            note_classes(seq![first] + rest).contains(p) <==> (note_classes(rest).contains(p)
                || first.pitch_class() == p),
{
    let all = seq![first] + rest;
    assert forall|p: int| #[trigger]
        note_classes(all).contains(p) <==> (note_classes(rest).contains(p) || first.pitch_class()
            == p) by {
        if note_classes(all).contains(p) {
            let k = choose|k: int| 0 <= k < all.len() && #[trigger] all[k].pitch_class() == p;
            if k > 0 {
                assert(rest[k - 1].pitch_class() == p);
            }
        }
        if note_classes(rest).contains(p) {
            let k = choose|k: int| 0 <= k < rest.len() && #[trigger] rest[k].pitch_class() == p;
            assert(all[k + 1].pitch_class() == p);
        }
        if first.pitch_class() == p {
            assert(all[0].pitch_class() == p);
        }
    }
}

/// The tones of a chord rise: before inversion no note of a tone lies
/// below the note of the tone before it.  Each lies above the root by the
/// interval at which one of the first `n` tones is voiced.
pub proof fn lemma_tones_rise(chord: Chord, n: nat)
    requires
        n <= 18,
        chord.tone_notes_upto(n) is Some,
    ensures
        forall|i: int, j: int|
            0 <= i <= j < chord.tone_notes_upto(n).unwrap().len() ==> (
            #[trigger] chord.tone_notes_upto(n).unwrap()[i]).id_spec() <= (
            #[trigger] chord.tone_notes_upto(n).unwrap()[j]).id_spec(),
        forall|k: int|
            0 <= k < chord.tone_notes_upto(n).unwrap().len() ==> exists|place: int|
                0 <= place < n && (#[trigger] chord.tone_notes_upto(n).unwrap()[k]).id_spec()
                    == chord.root.id_spec() + (#[trigger] voiced(
                    chord.crunchy,
                    tone_at(chord.crunchy, place),
                )).semitones_spec(),
    decreases n,
{
    if n > 0 {
        assert(chord.tone_notes_upto((n - 1) as nat) is Some);
        lemma_tones_rise(chord, (n - 1) as nat);
        let before = chord.tone_notes_upto((n - 1) as nat).unwrap();
        let now = chord.tone_notes_upto(n).unwrap();
        let tone = tone_at(chord.crunchy, n - 1);
        if uses_tone(chord.modifiers, chord.extensions, tone) {
            let interval = voiced(chord.crunchy, tone);
            let note = chord.root.transposed(interval).unwrap();
            Note::lemma_transposed(chord.root, interval);
            assert(now == before.push(note));
            assert forall|k: int| 0 <= k < now.len() implies exists|place: int|
                0 <= place < n && (#[trigger] now[k]).id_spec() == chord.root.id_spec() + (
                #[trigger] voiced(chord.crunchy, tone_at(chord.crunchy, place))).semitones_spec() by {
                if k < before.len() {
                    assert(now[k] == before[k]);
                    let place = choose|place: int|
                        0 <= place < n - 1 && before[k].id_spec() == chord.root.id_spec() + (
                        #[trigger] voiced(
                            chord.crunchy,
                            tone_at(chord.crunchy, place),
                        )).semitones_spec();
                    assert(0 <= place < n);
                } else {
                    assert(now[k].id_spec() == chord.root.id_spec() + voiced(
                        chord.crunchy,
                        tone_at(chord.crunchy, n - 1),
                    ).semitones_spec());
                }
            }
            assert forall|i: int, j: int| 0 <= i <= j < now.len() implies (#[trigger] now[i]).id_spec()
                <= (#[trigger] now[j]).id_spec() by {
                if j < before.len() {
                    assert(now[i] == before[i] && now[j] == before[j]);
                } else if i < before.len() {
                    assert(now[i] == before[i]);
                    let place = choose|place: int|
                        0 <= place < n - 1 && before[i].id_spec() == chord.root.id_spec() + (
                        #[trigger] voiced(
                            chord.crunchy,
                            tone_at(chord.crunchy, place),
                        )).semitones_spec();
                    crate::tones::lemma_orders_rise(place, n - 1);
                }
            }
        } else {
            assert(now == before);
        }
    }
}

/// The first tone of a chord is its root.
pub proof fn lemma_first_tone(chord: Chord, n: nat)
    requires
        1 <= n <= 18,
        chord.tone_notes_upto(n) is Some,
    ensures
        chord.tone_notes_upto(n).unwrap().len() >= 1,
        chord.tone_notes_upto(n).unwrap()[0] == chord.root,
    decreases n,
{
    if n > 1 {
        assert(chord.tone_notes_upto((n - 1) as nat) is Some);
        lemma_first_tone(chord, (n - 1) as nat);
    } else {
        reveal_with_fuel(Chord::tone_notes_upto, 2);
        Note::lemma_unison(chord.root);
    }
}

/// In spread voicing the notes of the tones of a chord are the notes of its
/// degrees, one for one.
pub proof fn lemma_tones_match_degrees(chord: Chord, n: nat)
    requires
        n <= 18,
        !chord.crunchy,
        chord.tone_notes_upto(n) is Some,
    ensures
        chord.tone_notes_upto(n).unwrap().len() == chord.degrees_upto(n).len(),
        forall|k: int|
            0 <= k < chord.degrees_upto(n).len() ==> chord.root.transposed(
                #[trigger] chord.degrees_upto(n)[k],
            ) == Some(chord.tone_notes_upto(n).unwrap()[k]),
    decreases n,
{
    if n > 0 {
        assert(chord.tone_notes_upto((n - 1) as nat) is Some);
        lemma_tones_match_degrees(chord, (n - 1) as nat);
        let before = chord.degrees_upto((n - 1) as nat);
        let now = chord.degrees_upto(n);
        assert forall|k: int| 0 <= k < now.len() implies chord.root.transposed(#[trigger] now[k])
            == Some(chord.tone_notes_upto(n).unwrap()[k]) by {
            if k < before.len() {
                assert(now[k] == before[k]);
            }
        }
    }
}

/// After the lowest notes have been put an octave higher, the note that
/// followed them comes first.
pub proof fn lemma_rotated_first(notes: Seq<Note>, count: nat)
    requires
        count < notes.len(),
        rotated(notes, count) is Some,
    ensures
        rotated(notes, count).unwrap().len() == notes.len(),
        rotated(notes, count).unwrap()[0] == notes[count as int],
    decreases count,
{
    if count > 0 {
        let top = notes[0].transposed(Interval::PerfectOctave).unwrap();
        let next = notes.drop_first().push(top);
        lemma_rotated_first(next, (count - 1) as nat);
        assert(next[count - 1] == notes[count as int]);
    }
}

/// The notes of the tones of a chord are the notes of the tones in the
/// order of its voicing, one for one.
pub proof fn lemma_tones_match_voicing(chord: Chord, n: nat)
    requires
        n <= 18,
        chord.tone_notes_upto(n) is Some,
    ensures
        chord.tone_notes_upto(n).unwrap().len() == chord.voicing_upto(n).len(),
        forall|k: int|
            0 <= k < chord.voicing_upto(n).len() ==> chord.root.transposed(
                voiced(chord.crunchy, #[trigger] chord.voicing_upto(n)[k]),
            ) == Some(chord.tone_notes_upto(n).unwrap()[k]),
    decreases n,
{
    if n > 0 {
        assert(chord.tone_notes_upto((n - 1) as nat) is Some);
        lemma_tones_match_voicing(chord, (n - 1) as nat);
        let before = chord.voicing_upto((n - 1) as nat);
        let now = chord.voicing_upto(n);
        assert forall|k: int| 0 <= k < now.len() implies chord.root.transposed(
            voiced(chord.crunchy, #[trigger] now[k]),
        ) == Some(chord.tone_notes_upto(n).unwrap()[k]) by {
            if k < before.len() {
                assert(now[k] == before[k]);
            }
        }
    }
}

/// The spelling of a note does not depend on the octave from which it is
/// reached, nor on a whole octave in the interval that leads to it.
pub proof fn lemma_spelling_of_raised(root: Note, steps: int, semitones: int, octaves: int)
    requires
        0 <= steps <= 12,
        0 <= octaves <= 1,
        root.raised(steps, semitones) is Some,
    ensures
        root.with_octave_spec(Octave::Zero).raised(steps + 7 * octaves, semitones + 12 * octaves)
            is Some,
        root.with_octave_spec(Octave::Zero).raised(
            steps + 7 * octaves,
            semitones + 12 * octaves,
        ).unwrap().named_pitch == root.raised(steps, semitones).unwrap().named_pitch,
{
    let low = root.with_octave_spec(Octave::Zero);
    let letter = root.named_pitch.letter_index() + steps;
    NamedPitch::lemma_ranges(root.named_pitch);
    Octave::lemma_number_round_trip(root.octave);
    Note::lemma_raised_exists(root, steps, semitones);
    Note::lemma_raised_exists(low, steps + 7 * octaves, semitones + 12 * octaves);
    if octaves == 1 {
        assert((letter + 7) / 7 == letter / 7 + 1);
        assert((letter + 7) % 7 == letter % 7);
    }
    Note::lemma_raised_spelling(root, steps, semitones);
    Note::lemma_raised_spelling(low, steps + 7 * octaves, semitones + 12 * octaves);
}

/// The spelling under which a tone is named is the spelling of the note
/// with which the tone is voiced.
pub proof fn lemma_spelling_of_tone(chord: Chord, tone: Interval)
    requires
        chord.root.transposed(voiced(chord.crunchy, tone)) is Some,
    ensures
        chord.tone_pitch(tone) == chord.root.transposed(
            voiced(chord.crunchy, tone),
        ).unwrap().named_pitch,
{
    let interval = voiced(chord.crunchy, tone);
    Interval::lemma_simple(tone);
    lemma_compound(tone);
    let octaves = (tone.steps_spec() - interval.steps_spec()) / 7;
    NamedPitch::lemma_ranges(chord.root.named_pitch);
    lemma_spelling_of_raised(chord.root, interval.steps_spec(), interval.semitones_spec(), octaves);
}

/// An interval is its simple interval and whole octaves, in letters and in
/// semitones alike.
pub proof fn lemma_compound(tone: Interval)
    ensures
        0 <= (tone.steps_spec() - tone.simple_spec().steps_spec()) / 7 <= 1,
        tone.steps_spec() == tone.simple_spec().steps_spec() + 7 * ((tone.steps_spec()
            - tone.simple_spec().steps_spec()) / 7),
        tone.semitones_spec() == tone.simple_spec().semitones_spec() + 12 * ((tone.steps_spec()
            - tone.simple_spec().steps_spec()) / 7),
{
}

} // verus!

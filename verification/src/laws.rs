//! What holds of identification and construction together.

use vstd::prelude::*;
use crate::build_proofs::{
    lemma_classes_of_notes, lemma_classes_prepend, lemma_first_tone, lemma_lowest_id,
    lemma_lowest_id_reached, lemma_root_note, lemma_rotated_classes, lemma_rotated_first,
    lemma_same_spelling, lemma_spelling_of_tone, lemma_tone_classes, lemma_tones_count,
    lemma_tones_match_voicing, lemma_tones_rise, note_classes,
};
use crate::chord::{lemma_turns, lowest_id, placed_below, rotated, turns, Chord};
use crate::identify::{
    candidates_upto, interpretations, least_class, lemma_candidates, lemma_ranked,
    lemma_ranked_member, lemma_root_spelled, lowest_note, respelled, sounding_classes,
};
use crate::identify_proofs::{
    lemma_bare_root_again, lemma_candidate_bass_first, lemma_candidate_round_trip,
    lemma_candidates_alike, lemma_classes_finite, lemma_lowest_alike, lemma_note_set_finite,
    lemma_ranked_alike, same_pitch, same_structure, sounds_alike,
};
use crate::modifier::{ExtensionSet, ModifierSet};
use crate::named_pitch::NamedPitch;
use crate::note::Note;
use crate::note_set::{ids_of, lemma_same_members, pitch_class_of_id, pitch_classes_of, NoteSet};
use crate::octave::Octave;
use crate::tones::{sounds_at, voiced};

verus! {

/// One pitch class stands for one chord: where all that sounds, notes and
/// bass, is of one pitch class, exactly one chord is identified, the bare
/// root on that pitch class, without modifiers or extensions, in root
/// position.
pub proof fn law_single_class(notes: NoteSet, bass: Option<Note>)
    requires
        sounding_classes(notes@, bass).len() == 1,
    ensures
        interpretations(sounding_classes(notes@, bass), bass).len() == 1,
        interpretations(sounding_classes(notes@, bass), bass)[0] == Chord::major(
            interpretations(sounding_classes(notes@, bass), bass)[0].root,
        ),
        sounding_classes(notes@, bass).contains(
            interpretations(sounding_classes(notes@, bass), bass)[0].root.pitch_class(),
        ),
{
    let classes = sounding_classes(notes@, bass);
    lemma_classes_finite(notes@, bass);
    Set::lemma_is_singleton(classes);
    assert(classes.contains(classes.choose()));
    let class = least_class(classes);
    assert(classes.contains(class));
    lemma_root_note(class);
}

/// Singleton completeness: a set of one note stands for exactly one chord,
/// the bare root on that note's pitch class, without modifiers or
/// extensions, in root position.
pub proof fn law_singleton_completeness(notes: NoteSet)
    requires
        notes@.len() == 1,
    ensures
        interpretations(sounding_classes(notes@, None), None).len() == 1,
        interpretations(sounding_classes(notes@, None), None)[0].modifiers
            == ModifierSet::empty_spec(),
        interpretations(sounding_classes(notes@, None), None)[0].extensions
            == ExtensionSet::empty_spec(),
        interpretations(sounding_classes(notes@, None), None)[0].inversion == 0,
        interpretations(sounding_classes(notes@, None), None)[0].slash is None,
        forall|id: int|
            notes@.contains(id) ==> interpretations(
                sounding_classes(notes@, None),
                None,
            )[0].root.pitch_class() == pitch_class_of_id(id),
{
    lemma_note_set_finite(notes);
    Set::lemma_is_singleton(notes@);
    let id = notes@.choose();
    assert(notes@.contains(id));
    let class = pitch_class_of_id(id);
    let classes = sounding_classes(notes@, None);
    assert forall|p: int| classes.contains(p) == (p == class) by {
        if classes.contains(p) {
            let other = choose|other: int|
                0 <= other < 128 && #[trigger] notes@.contains(other) && pitch_class_of_id(other)
                    == p;
            assert(other == id);
        }
    }
    assert(classes =~= Set::<int>::empty().insert(class));
    assert(classes.len() == 1);
    assert(least_class(classes) == class);
    lemma_root_note(class);
}

/// Enharmonic invariance: notes that are spelled otherwise but sound alike
/// make the same set, and the chords identified differ at most in how a
/// slash note is spelled.
pub proof fn law_enharmonic_invariance(
    a: Seq<Note>,
    b: Seq<Note>,
    bass_a: Option<Note>,
    bass_b: Option<Note>,
)
    requires
        a.len() == b.len(),
        forall|k: int| 0 <= k < a.len() ==> (#[trigger] a[k]).id_spec() == b[k].id_spec(),
        same_pitch(bass_a, bass_b),
    ensures
        ids_of(a) == ids_of(b),
        interpretations(sounding_classes(ids_of(a), bass_a), bass_a).len() == interpretations(
            sounding_classes(ids_of(b), bass_b),
            bass_b,
        ).len(),
        forall|i: int|
            0 <= i < interpretations(sounding_classes(ids_of(a), bass_a), bass_a).len()
                ==> same_structure(
                #[trigger] interpretations(sounding_classes(ids_of(a), bass_a), bass_a)[i],
                interpretations(sounding_classes(ids_of(b), bass_b), bass_b)[i],
            ),
{
    assert forall|id: int| ids_of(a).contains(id) == ids_of(b).contains(id) by {
        if ids_of(a).contains(id) {
            let k = choose|k: int| 0 <= k < a.len() && #[trigger] a[k].id_spec() == id;
            assert(b[k].id_spec() == id);
        }
        if ids_of(b).contains(id) {
            let k = choose|k: int| 0 <= k < b.len() && #[trigger] b[k].id_spec() == id;
            assert(a[k].id_spec() == id);
        }
    }
    assert(ids_of(a) =~= ids_of(b));
    let classes = sounding_classes(ids_of(a), bass_a);
    assert(sounding_classes(ids_of(b), bass_b) == classes);
    if classes.len() != 1 {
        lemma_candidates_alike(classes, bass_a, bass_b, 12);
        lemma_ranked_alike(
            candidates_upto(classes, bass_a, 12),
            candidates_upto(classes, bass_b, 12),
        );
    }
}

/// No chord without a third and a fifth: where no bass is given, every
/// chord that is identified for more than one pitch class has, among the
/// pitch classes that sound, a third and a fifth above its root.
pub proof fn law_third_and_fifth(notes: NoteSet, i: int)
    requires
        sounding_classes(notes@, None).len() != 1,
        0 <= i < interpretations(sounding_classes(notes@, None), None).len(),
    ensures
        ({
            let classes = sounding_classes(notes@, None);
            let root = interpretations(classes, None)[i].root.pitch_class();
            (classes.contains((root + 3) % 12) || classes.contains((root + 4) % 12)) && (
            classes.contains((root + 6) % 12) || classes.contains((root + 7) % 12)
                || classes.contains((root + 8) % 12))
        }),
{
    let classes = sounding_classes(notes@, None);
    let candidates = candidates_upto(classes, None, 12);
    lemma_ranked(candidates);
    let j = lemma_ranked_member(candidates, i);
    let root = lemma_candidates(classes, None, 12, j);
    let distances = crate::catalog::distances_from(classes, root, None);
    let entry = crate::catalog::best_entry(distances).unwrap();
    crate::catalog::lemma_best_entry(distances, crate::catalog::CATALOG_SIZE as nat);
    crate::catalog::lemma_match_has_triad(crate::catalog::entry_at(entry), distances);
    lemma_root_note(root);
    assert(interpretations(classes, None)[i] == candidates[j].chord);
}

/// Respelling changes the spelling alone: where notes are spelled otherwise
/// but sound alike, the chords identified for them, with their roots
/// spelled as the notes spell them, differ at most in how their roots and
/// their slash notes are spelled.
pub proof fn law_respelling_keeps_chords(a: Seq<Note>, b: Seq<Note>)
    requires
        a.len() == b.len(),
        forall|k: int| 0 <= k < a.len() ==> (#[trigger] a[k]).id_spec() == b[k].id_spec(),
    ensures
        respelled(
            interpretations(
                sounding_classes(ids_of(a), lowest_note(a)),
                lowest_note(a),
            ),
            a,
        ).len() == respelled(
            interpretations(
                sounding_classes(ids_of(b), lowest_note(b)),
                lowest_note(b),
            ),
            b,
        ).len(),
        forall|i: int|
            0 <= i < respelled(
                interpretations(
                    sounding_classes(ids_of(a), lowest_note(a)),
                    lowest_note(a),
                ),
                a,
            ).len() ==> sounds_alike(
                #[trigger] respelled(
                    interpretations(
                        sounding_classes(ids_of(a), lowest_note(a)),
                        lowest_note(a),
                    ),
                    a,
                )[i],
                respelled(
                    interpretations(
                        sounding_classes(ids_of(b), lowest_note(b)),
                        lowest_note(b),
                    ),
                    b,
                )[i],
            ),
{
    let bass_a = lowest_note(a);
    let bass_b = lowest_note(b);
    lemma_lowest_alike(a, b);
    law_enharmonic_invariance(a, b, bass_a, bass_b);
    let x = interpretations(sounding_classes(ids_of(a), bass_a), bass_a);
    let y = interpretations(sounding_classes(ids_of(b), bass_b), bass_b);
    assert forall|i: int| 0 <= i < x.len() implies sounds_alike(
        #[trigger] respelled(x, a)[i],
        respelled(y, b)[i],
    ) by {
        assert(same_structure(x[i], y[i]));
        lemma_root_spelled(a, x[i].root);
        lemma_root_spelled(b, y[i].root);
    }
}

/// Respelling keeps the bits: two note sets made from notes that sound
/// alike are the same set, bit for bit, however the notes are spelled.
pub proof fn law_respelling_keeps_bits(a: Seq<Note>, b: Seq<Note>, x: NoteSet, y: NoteSet)
    requires
        a.len() == b.len(),
        forall|k: int| 0 <= k < a.len() ==> (#[trigger] a[k]).id_spec() == b[k].id_spec(),
        x@ == ids_of(a),
        y@ == ids_of(b),
    ensures
        x == y,
        x.bits == y.bits,
{
    law_enharmonic_invariance(a, b, None, None);
    lemma_same_members(x, y);
}

/// Round trip: each chord that is identified for notes of more than one
/// pitch class can be built, and its notes sound the pitch classes that
/// were identified, those of the bass among them, and no other.
pub proof fn law_round_trip(notes: NoteSet, bass: Option<Note>, i: int)
    requires
        sounding_classes(notes@, bass).len() != 1,
        0 <= i < interpretations(sounding_classes(notes@, bass), bass).len(),
    ensures
        interpretations(sounding_classes(notes@, bass), bass)[i].built() is Some,
        pitch_classes_of(
            ids_of(interpretations(sounding_classes(notes@, bass), bass)[i].built().unwrap()),
        ) == sounding_classes(notes@, bass),
{
    let classes = sounding_classes(notes@, bass);
    lemma_classes_finite(notes@, bass);
    let candidates = candidates_upto(classes, bass, 12);
    lemma_ranked(candidates);
    let j = lemma_ranked_member(candidates, i);
    let root = lemma_candidates(classes, bass, 12, j);
    if bass is Some {
        assert(classes.contains(bass.unwrap().pitch_class()));
    }
    lemma_candidate_round_trip(classes, bass, root);
    let chord = interpretations(classes, bass)[i];
    assert(chord == candidates[j].chord);
    lemma_classes_of_notes(chord.built().unwrap());
}

/// Idempotence: the chord that is ranked first for a set of notes, built
/// and identified again, is ranked first again.
pub proof fn law_idempotence(notes: NoteSet)
    requires
        interpretations(sounding_classes(notes@, None), None).len() > 0,
    ensures
        interpretations(sounding_classes(notes@, None), None)[0].built() is Some,
        interpretations(
            sounding_classes(
                ids_of(interpretations(sounding_classes(notes@, None), None)[0].built().unwrap()),
                None,
            ),
            None,
        ).len() > 0,
        interpretations(
            sounding_classes(
                ids_of(interpretations(sounding_classes(notes@, None), None)[0].built().unwrap()),
                None,
            ),
            None,
        )[0] == interpretations(sounding_classes(notes@, None), None)[0],
{
    let classes = sounding_classes(notes@, None);
    lemma_classes_finite(notes@, None);
    let top = interpretations(classes, None)[0];
    if classes.len() != 1 {
        law_round_trip(notes, None, 0);
    } else {
        let root = least_class(classes);
        Set::lemma_is_singleton(classes);
        assert(classes.contains(classes.choose()));
        assert(classes.contains(root));
        lemma_bare_root_again(root);
        lemma_classes_of_notes(top.built().unwrap());
    }
}

/// The notes of a chord sound the pitch classes of the chord and no other:
/// those at which the chord sounds above its root, and that of its slash
/// note.  Inversion and voicing change none of them.
pub proof fn law_build_classes(chord: Chord)
    requires
        chord.built() is Some,
    ensures
        forall|p: int| #[trigger]
            note_classes(chord.built().unwrap()).contains(p) <==> chord.sounds(p),
{
    let tones = chord.tone_notes().unwrap();
    lemma_tones_count(chord, 18);
    let count = turns(chord.inversion as nat, tones.len());
    lemma_turns(chord.inversion as nat, tones.len());
    lemma_rotated_classes(tones, count);
    let inverted = rotated(tones, count).unwrap();
    assert forall|p: int| #[trigger]
        note_classes(inverted).contains(p) <==> (0 <= p < 12 && sounds_at(
            chord.modifiers,
            chord.extensions,
            (p - chord.root.pitch_class()) % 12,
        )) by {
        lemma_tone_classes(chord, p);
        assert(note_classes(inverted).contains(p) == note_classes(tones).contains(p));
    }
    match chord.slash {
        None => {
            assert(chord.built() == Some(inverted));
        },
        Some(b) => {
            let lowest = placed_below(b.named_pitch, lowest_id(inverted)).unwrap();
            assert(lowest.named_pitch == b.named_pitch);
            assert(lowest.pitch_class() == b.pitch_class()) by {
                lemma_same_spelling(lowest, b);
            }
            Note::lemma_id(b);
            let built = chord.built().unwrap();
            assert(built == seq![lowest] + inverted);
            lemma_classes_prepend(lowest, inverted);
            assert forall|p: int| #[trigger]
                note_classes(built).contains(p) <==> chord.sounds(p) by {
                assert(note_classes(built).contains(p) <==> (note_classes(inverted).contains(p)
                    || lowest.pitch_class() == p));
            }
        },
    }
}

/// The voicing changes no pitch class: a chord in close voicing and the
/// same chord in spread voicing sound the same pitch classes.
pub proof fn law_voicing_keeps_classes(chord: Chord)
    requires
        (Chord { crunchy: true, ..chord }).built() is Some,
        (Chord { crunchy: false, ..chord }).built() is Some,
    ensures
        note_classes((Chord { crunchy: true, ..chord }).built().unwrap()) == note_classes(
            (Chord { crunchy: false, ..chord }).built().unwrap(),
        ),
        pitch_classes_of(ids_of((Chord { crunchy: true, ..chord }).built().unwrap()))
            == pitch_classes_of(ids_of((Chord { crunchy: false, ..chord }).built().unwrap())),
{
    let close = Chord { crunchy: true, ..chord };
    let spread = Chord { crunchy: false, ..chord };
    law_build_classes(close);
    law_build_classes(spread);
    assert forall|p: int|
        note_classes(close.built().unwrap()).contains(p) == note_classes(
            spread.built().unwrap(),
        ).contains(p) by {
        assert(close.sounds(p) == spread.sounds(p));
    }
    assert(note_classes(close.built().unwrap()) =~= note_classes(spread.built().unwrap()));
    lemma_classes_of_notes(close.built().unwrap());
    lemma_classes_of_notes(spread.built().unwrap());
}

/// Before inversion the notes of a chord's tones rise, the root first.
pub proof fn law_tones_rise(chord: Chord)
    requires
        chord.tone_notes() is Some,
    ensures
        chord.tone_notes().unwrap().len() >= 1,
        chord.tone_notes().unwrap()[0] == chord.root,
        forall|i: int, j: int|
            0 <= i <= j < chord.tone_notes().unwrap().len() ==> (
            #[trigger] chord.tone_notes().unwrap()[i]).id_spec() <= (
            #[trigger] chord.tone_notes().unwrap()[j]).id_spec(),
{
    lemma_tones_rise(chord, 18);
    lemma_first_tone(chord, 18);
}

/// The slash note of a chord that is built sounds below every other note
/// of the chord, in the highest octave in which it does.
pub proof fn law_slash_is_lowest(chord: Chord)
    requires
        chord.slash is Some,
        chord.built() is Some,
    ensures
        chord.built().unwrap().len() >= 2,
        chord.built().unwrap()[0].named_pitch == chord.slash.unwrap().named_pitch,
        forall|k: int|
            1 <= k < chord.built().unwrap().len() ==> chord.built().unwrap()[0].id_spec() < (
            #[trigger] chord.built().unwrap()[k]).id_spec(),
        chord.built().unwrap()[0].octave.number() == 9 || exists|k: int|
            1 <= k < chord.built().unwrap().len()
                && (#[trigger] chord.built().unwrap()[k]).id_spec()
                <= chord.built().unwrap()[0].id_spec() + 12,
{
    let tones = chord.tone_notes().unwrap();
    lemma_tones_count(chord, 18);
    let count = turns(chord.inversion as nat, tones.len());
    lemma_turns(chord.inversion as nat, tones.len());
    lemma_rotated_classes(tones, count);
    let inverted = rotated(tones, count).unwrap();
    let b = chord.slash.unwrap();
    let limit = lowest_id(inverted);
    assert forall|k: int| 0 <= k < inverted.len() implies 0 <= (#[trigger] inverted[k]).id_spec()
        < 128 by {
        Note::lemma_id(inverted[k]);
    }
    lemma_lowest_id(inverted, 0);
    let k0 = lemma_lowest_id_reached(inverted);
    let lowest = placed_below(b.named_pitch, limit).unwrap();
    NamedPitch::lemma_ranges(b.named_pitch);
    Octave::lemma_number_round_trip(lowest.octave);
    let built = chord.built().unwrap();
    assert(built == seq![lowest] + inverted);
    assert forall|k: int| 1 <= k < built.len() implies built[0].id_spec() < (
    #[trigger] built[k]).id_spec() by {
        assert(built[k] == inverted[k - 1]);
    }
    if lowest.octave.number() != 9 {
        assert(built[k0 + 1] == inverted[k0]);
    }
}

/// The bass sounds first: each chord that is identified over a bass for
/// more than one pitch class is built with a note of the bass's pitch class
/// as the first of its notes, be it the root, the tone that the inversion
/// puts first, or the slash note.
pub proof fn law_bass_sounds_first(notes: NoteSet, bass: Note, i: int)
    requires
        sounding_classes(notes@, Some(bass)).len() != 1,
        0 <= i < interpretations(sounding_classes(notes@, Some(bass)), Some(bass)).len(),
    ensures
        interpretations(sounding_classes(notes@, Some(bass)), Some(bass))[i].built() is Some,
        interpretations(sounding_classes(notes@, Some(bass)), Some(bass))[i].built().unwrap().len()
            >= 1,
        interpretations(
            sounding_classes(notes@, Some(bass)),
            Some(bass),
        )[i].built().unwrap()[0].pitch_class() == bass.pitch_class(),
{
    let classes = sounding_classes(notes@, Some(bass));
    let candidates = candidates_upto(classes, Some(bass), 12);
    lemma_ranked(candidates);
    let j = lemma_ranked_member(candidates, i);
    let root = lemma_candidates(classes, Some(bass), 12, j);
    lemma_candidate_bass_first(classes, bass, root);
    assert(interpretations(classes, Some(bass))[i] == candidates[j].chord);
}

/// The name tells the bass: the first note of a chord that is built is
/// spelled as the bass of the chord's name, or is the root where the name
/// tells no bass.
pub proof fn law_name_tells_bass(chord: Chord)
    requires
        chord.built() is Some,
    ensures
        chord.built().unwrap().len() >= 1,
        match chord.bass_pitch() {
            Some(pitch) => chord.built().unwrap()[0].named_pitch == pitch,
            None => chord.built().unwrap()[0] == chord.root,
        },
{
    let tones = chord.tone_notes().unwrap();
    lemma_tones_count(chord, 18);
    lemma_first_tone(chord, 18);
    lemma_tones_match_voicing(chord, 18);
    let count = turns(chord.inversion as nat, tones.len());
    lemma_turns(chord.inversion as nat, tones.len());
    lemma_rotated_first(tones, count);
    if chord.slash is Some {
        law_slash_is_lowest(chord);
    } else if count > 0 {
        let tone = chord.voicing()[count as int];
        assert(chord.root.transposed(voiced(chord.crunchy, tone)) == Some(
            tones[count as int],
        ));
        lemma_spelling_of_tone(chord, tone);
    }
}

} // verus!

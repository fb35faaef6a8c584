//! Why identification finds what it says: the steps from the catalog and
//! the ranking to the chords that are reported.

use vstd::prelude::*;
use crate::build_proofs::{
    lemma_built, lemma_distance_forth, lemma_root_note, note_classes,
};
use crate::catalog::{best_entry, distances_from, entry_at, extras_of};
use crate::chord::Chord;
use crate::identify::{
    bass_distance, candidate_for, candidate_with, candidates_upto, first_degree_at, interpretations,
    lemma_candidates, lemma_ranked, lemma_ranked_member, lemma_slot_for, ranked, resolved,
    root_note, slot_for, sounding_classes, Candidate,
};
use crate::interval::Interval;
use crate::laws::law_build_classes;
use crate::modifier::{ExtensionSet, ModifierSet};
use crate::note::Note;
use crate::note_set::{pitch_classes_of, NoteSet};
use crate::tones::{lemma_orders, lemma_sounds_at, sounds_at, spread_tone, uses_tone};

verus! {

/// Whether two chords differ at most in how their slash notes are spelled.
pub open spec fn same_structure(a: Chord, b: Chord) -> bool {
    &&& a.root == b.root
    &&& a.modifiers == b.modifiers
    &&& a.extensions == b.extensions
    &&& a.inversion == b.inversion
    &&& a.crunchy == b.crunchy
    &&& same_pitch(a.slash, b.slash)
}

/// Whether two chords differ at most in how their notes are spelled: their
/// roots sound alike, their slash notes sound alike, and all else is the
/// same.
pub open spec fn sounds_alike(a: Chord, b: Chord) -> bool {
    &&& a.root.id_spec() == b.root.id_spec()
    &&& a.modifiers == b.modifiers
    &&& a.extensions == b.extensions
    &&& a.inversion == b.inversion
    &&& a.crunchy == b.crunchy
    &&& same_pitch(a.slash, b.slash)
}

/// Whether two notes, if there are any, sound alike.
pub open spec fn same_pitch(a: Option<Note>, b: Option<Note>) -> bool {
    match (a, b) {
        (None, None) => true,
        (Some(x), Some(y)) => x.id_spec() == y.id_spec(),
        _ => false,
    }
}

/// A note set has at most 128 members, each an identity in `0..128`.
pub proof fn lemma_note_set_finite(notes: NoteSet)
    ensures
        notes@.finite(),
        notes@.len() <= 128,
        forall|id: int| notes@.contains(id) ==> 0 <= id < 128,
{
    vstd::set_lib::lemma_int_range(0, 128);
    assert(notes@.subset_of(vstd::set_lib::set_int_range(0, 128)));
    vstd::set_lib::lemma_len_subset(notes@, vstd::set_lib::set_int_range(0, 128));
}

/// Pitch classes are numbers in `0..12`, so there are at most twelve.
pub proof fn lemma_classes_finite(ids: Set<int>, bass: Option<Note>)
    ensures
        sounding_classes(ids, bass).finite(),
        forall|p: int| sounding_classes(ids, bass).contains(p) ==> 0 <= p < 12,
        forall|p: int| pitch_classes_of(ids).contains(p) ==> 0 <= p < 12,
{
    vstd::set_lib::lemma_int_range(0, 12);
    assert(sounding_classes(ids, bass).subset_of(vstd::set_lib::set_int_range(0, 12)));
    vstd::set_lib::lemma_len_subset(sounding_classes(ids, bass), vstd::set_lib::set_int_range(0, 12));
}

/// The candidates over two basses that sound alike differ at most in how
/// their slash notes are spelled.
pub proof fn lemma_candidates_alike(classes: Set<int>, a: Option<Note>, b: Option<Note>, n: nat)
    requires
        same_pitch(a, b),
    ensures
        candidates_upto(classes, a, n).len() == candidates_upto(classes, b, n).len(),
        forall|i: int|
            0 <= i < candidates_upto(classes, a, n).len() ==> (#[trigger] candidates_upto(
                classes,
                a,
                n,
            )[i]).key == candidates_upto(classes, b, n)[i].key && same_structure(
                candidates_upto(classes, a, n)[i].chord,
                candidates_upto(classes, b, n)[i].chord,
            ),
    decreases n,
{
    if n > 0 {
        lemma_candidates_alike(classes, a, b, (n - 1) as nat);
        let root = n - 1;
        assert(bass_distance(a, root) == bass_distance(b, root));
        match candidate_for(classes, a, root) {
            Some(x) => {
                let y = candidate_for(classes, b, root).unwrap();
                if best_entry(distances_from(classes, root, None)) is Some {
                    let entry = best_entry(distances_from(classes, root, None)).unwrap();
                    let extensions = extras_of(entry_at(entry), distances_from(classes, root, None));
                    lemma_candidate_alike(root, entry, extensions, a, b);
                } else {
                    let reserved = bass_distance(a, root);
                    let entry = best_entry(distances_from(classes, root, reserved)).unwrap();
                    let extensions = extras_of(
                        entry_at(entry),
                        distances_from(classes, root, reserved),
                    );
                    lemma_candidate_alike(root, entry, extensions, a, b);
                }
            },
            None => {},
        }
    }
}

/// The candidate of one root and one catalog entry over two basses that
/// sound alike differs at most in how its slash note is spelled.
pub proof fn lemma_candidate_alike(
    root: int,
    entry: int,
    extensions: ExtensionSet,
    a: Option<Note>,
    b: Option<Note>,
)
    requires
        same_pitch(a, b),
    ensures
        candidate_with(root, entry, extensions, a).key == candidate_with(
            root,
            entry,
            extensions,
            b,
        ).key,
        same_structure(
            candidate_with(root, entry, extensions, a).chord,
            candidate_with(root, entry, extensions, b).chord,
        ),
{
}

/// Ranking goes by the keys alone: two sequences of candidates with the
/// same keys are ranked alike.
pub proof fn lemma_ranked_alike(x: Seq<Candidate>, y: Seq<Candidate>)
    requires
        x.len() == y.len(),
        forall|i: int|
            0 <= i < x.len() ==> (#[trigger] x[i]).key == y[i].key && same_structure(
                x[i].chord,
                y[i].chord,
            ),
    ensures
        ranked(x).len() == ranked(y).len(),
        ranked(x).len() == x.len(),
        forall|i: int|
            0 <= i < ranked(x).len() ==> (#[trigger] ranked(x)[i]).key == ranked(y)[i].key
                && same_structure(ranked(x)[i].chord, ranked(y)[i].chord),
    decreases x.len(),
{
    if x.len() > 0 {
        let rx = ranked(x.drop_last());
        let ry = ranked(y.drop_last());
        assert forall|i: int| 0 <= i < x.drop_last().len() implies (#[trigger] x.drop_last()[i]).key
            == y.drop_last()[i].key && same_structure(
            x.drop_last()[i].chord,
            y.drop_last()[i].chord,
        ) by {
            assert(x.drop_last()[i] == x[i]);
        }
        lemma_ranked_alike(x.drop_last(), y.drop_last());
        assert(x.last() == x[x.len() - 1]);
        lemma_slots_alike(rx, ry, x.last().key);
        lemma_slot_for(rx, x.last().key);
    }
}

/// The place at which a key goes in depends on the keys alone.
pub proof fn lemma_slots_alike(x: Seq<Candidate>, y: Seq<Candidate>, key: u32)
    requires
        x.len() == y.len(),
        forall|i: int| 0 <= i < x.len() ==> (#[trigger] x[i]).key == y[i].key,
    ensures
        slot_for(x, key) == slot_for(y, key),
    decreases x.len(),
{
    if x.len() > 0 {
        assert(x.last() == x[x.len() - 1]);
        assert forall|i: int| 0 <= i < x.drop_last().len() implies (#[trigger] x.drop_last()[i]).key
            == y.drop_last()[i].key by {
            assert(x.drop_last()[i] == x[i]);
        }
        lemma_slots_alike(x.drop_last(), y.drop_last(), key);
    }
}

/// The degrees of a chord are tones of the chord.
pub proof fn lemma_degrees_used(chord: Chord, n: nat)
    requires
        n <= 18,
    ensures
        forall|k: int|
            0 <= k < chord.degrees_upto(n).len() ==> uses_tone(
                chord.modifiers,
                chord.extensions,
                #[trigger] chord.degrees_upto(n)[k],
            ),
    decreases n,
{
    if n > 0 {
        lemma_degrees_used(chord, (n - 1) as nat);
        let before = chord.degrees_upto((n - 1) as nat);
        assert forall|k: int| 0 <= k < chord.degrees_upto(n).len() implies uses_tone(
            chord.modifiers,
            chord.extensions,
            #[trigger] chord.degrees_upto(n)[k],
        ) by {
            if k < before.len() {
                assert(chord.degrees_upto(n)[k] == before[k]);
            }
        }
    }
}

/// The first degree at a distance, where there is one, lies at that
/// distance.
pub proof fn lemma_first_degree(degrees: Seq<Interval>, distance: int, from: nat)
    ensures
        from <= first_degree_at(degrees, distance, from) || first_degree_at(degrees, distance, from)
            == degrees.len(),
        first_degree_at(degrees, distance, from) <= degrees.len() || from > degrees.len(),
        first_degree_at(degrees, distance, from) < degrees.len() ==> degrees[first_degree_at(
            degrees,
            distance,
            from,
        ) as int].semitones_spec() % 12 == distance,
    decreases degrees.len() - from,
{
    if from < degrees.len() && degrees[from as int].semitones_spec() % 12 != distance {
        lemma_first_degree(degrees, distance, from + 1);
    }
}

/// The degrees hold every tone of the chord.
pub proof fn lemma_degrees_complete(chord: Chord, n: nat, place: int)
    requires
        n <= 18,
        0 <= place < n,
        uses_tone(chord.modifiers, chord.extensions, spread_tone(place)),
    ensures
        chord.degrees_upto(n).contains(spread_tone(place)),
    decreases n,
{
    let before = chord.degrees_upto((n - 1) as nat);
    let now = chord.degrees_upto(n);
    if place < n - 1 {
        lemma_degrees_complete(chord, (n - 1) as nat, place);
        let k = choose|k: int| 0 <= k < before.len() && before[k] == spread_tone(place);
        assert(now[k] == spread_tone(place));
    } else {
        assert(now[before.len() as int] == spread_tone(place));
    }
}

/// Where a degree lies at a distance, the first degree at that distance is
/// found no later.
pub proof fn lemma_first_degree_found(degrees: Seq<Interval>, distance: int, from: nat, k: int)
    requires
        from <= k < degrees.len(),
        degrees[k].semitones_spec() % 12 == distance,
    ensures
        first_degree_at(degrees, distance, from) <= k,
    decreases degrees.len() - from,
{
    if degrees[from as int].semitones_spec() % 12 != distance {
        lemma_first_degree_found(degrees, distance, from + 1, k);
    }
}

/// Taking the bass into account changes the inversion and the slash note
/// alone; the bass becomes the slash note exactly where it is not on the
/// root and the chord does not sound at its distance from the root.
pub proof fn lemma_resolved(chord: Chord, bass: Option<Note>)
    ensures
        resolved(chord, bass).root == chord.root,
        resolved(chord, bass).modifiers == chord.modifiers,
        resolved(chord, bass).extensions == chord.extensions,
        resolved(chord, bass).crunchy == chord.crunchy,
        resolved(chord, bass).slash is Some ==> resolved(chord, bass).slash == bass,
        resolved(chord, bass).slash is Some <==> (bass is Some && !sounds_at(
            chord.modifiers,
            chord.extensions,
            (bass.unwrap().pitch_class() - chord.root.pitch_class()) % 12,
        )),
{
    if bass is Some {
        let b = bass.unwrap();
        let distance = (b.pitch_class() - chord.root.pitch_class()) % 12;
        let degrees = chord.degrees();
        let place = first_degree_at(degrees, distance, 0);
        lemma_sounds_at(chord.modifiers, chord.extensions, Interval::PerfectUnison, 0);
        lemma_first_degree(degrees, distance, 0);
        lemma_degrees_used(chord, 18);
        if place < degrees.len() {
            lemma_sounds_at(chord.modifiers, chord.extensions, degrees[place as int], distance);
        }
        if sounds_at(chord.modifiers, chord.extensions, distance) && distance != 0 {
            let tone = crate::tones::tone_sounding_at(chord.modifiers, chord.extensions, distance);
            lemma_sounds_at(chord.modifiers, chord.extensions, tone, distance);
            lemma_orders(false, tone, 0);
            lemma_degrees_complete(chord, 18, crate::tones::place_of(false, tone));
            let k = choose|k: int| 0 <= k < degrees.len() && degrees[k] == tone;
            lemma_first_degree_found(degrees, distance, 0, k);
        }
    }
}

/// The chord with which a root explains the pitch classes that sound can
/// be built, and its notes sound those pitch classes and no other.
pub proof fn lemma_candidate_round_trip(classes: Set<int>, bass: Option<Note>, root: int)
    requires
        0 <= root < 12,
        forall|p: int| classes.contains(p) ==> 0 <= p < 12,
        bass matches Some(b) ==> classes.contains(b.pitch_class()),
        candidate_for(classes, bass, root) is Some,
    ensures
        candidate_for(classes, bass, root).unwrap().chord.built() is Some,
        note_classes(candidate_for(classes, bass, root).unwrap().chord.built().unwrap())
            == classes,
{
    let chord = candidate_for(classes, bass, root).unwrap().chord;
    let full = distances_from(classes, root, None);
    let reserved: Option<int> = if best_entry(full) is Some {
        None
    } else {
        bass_distance(bass, root)
    };
    let distances = distances_from(classes, root, reserved);
    let entry = best_entry(distances).unwrap();
    let modifiers = entry_at(entry);
    let extensions = extras_of(modifiers, distances);
    let plain = Chord {
        root: root_note(root),
        modifiers,
        extensions,
        slash: None,
        inversion: 0,
        crunchy: false,
    };
    assert(chord == resolved(plain, bass));
    assert(crate::catalog::entry_match(modifiers, distances) == Some(extensions)) by {
        crate::catalog::lemma_best_entry(distances, crate::catalog::CATALOG_SIZE as nat);
        crate::catalog::lemma_match_covers(modifiers, distances, 1);
    }
    lemma_root_note(root);
    lemma_resolved(plain, bass);
    lemma_built(chord, root);
    law_build_classes(chord);
    let built = chord.built().unwrap();
    assert forall|p: int| note_classes(built).contains(p) == classes.contains(p) by {
        if 0 <= p < 12 {
            lemma_round_trip_class(classes, bass, root, reserved, modifiers, extensions, chord, p);
        }
    }
    assert(note_classes(built) =~= classes);
}

/// One pitch class of the round trip: it sounds in the chord or is that of
/// the slash note exactly where it is among the pitch classes explained.
pub proof fn lemma_round_trip_class(
    classes: Set<int>,
    bass: Option<Note>,
    root: int,
    reserved: Option<int>,
    modifiers: ModifierSet,
    extensions: ExtensionSet,
    chord: Chord,
    p: int,
)
    requires
        0 <= root < 12,
        0 <= p < 12,
        classes.contains(root),
        bass matches Some(b) ==> classes.contains(b.pitch_class()),
        reserved is None || reserved == bass_distance(bass, root),
        crate::catalog::entry_match(modifiers, distances_from(classes, root, reserved)) == Some(
            extensions,
        ),
        chord.slash is Some ==> chord.slash == bass,
        chord.slash is Some <==> (bass is Some && !sounds_at(
            modifiers,
            extensions,
            (bass.unwrap().pitch_class() - root) % 12,
        )),
    ensures
        classes.contains(p) == (sounds_at(modifiers, extensions, (p - root) % 12) || (chord.slash
            is Some && chord.slash.unwrap().pitch_class() == p)),
{
    let distances = distances_from(classes, root, reserved);
    let distance = (p - root) % 12;
    lemma_distance_forth(root, p, distance);
    lemma_sounds_at(modifiers, extensions, Interval::PerfectUnison, 0);
    if distance != 0 {
        crate::catalog::lemma_match_covers(modifiers, distances, distance);
    }
    if bass is Some {
        let b = bass.unwrap();
        Note::lemma_id(b);
        let d = (b.pitch_class() - root) % 12;
        lemma_distance_forth(root, b.pitch_class(), d);
        if d != 0 {
            crate::catalog::lemma_match_covers(modifiers, distances, d);
        }
    }
}

/// The degrees of a chord depend on its modifiers and extensions alone.
pub proof fn lemma_degrees_alike(a: Chord, b: Chord, n: nat)
    requires
        a.modifiers == b.modifiers,
        a.extensions == b.extensions,
    ensures
        a.degrees_upto(n) == b.degrees_upto(n),
    decreases n,
{
    if n > 0 {
        lemma_degrees_alike(a, b, (n - 1) as nat);
    }
}

/// A set of modifiers or of extensions without members is the empty set.
pub proof fn lemma_count_zero(modifiers: ModifierSet, extensions: ExtensionSet)
    ensures
        0 <= modifiers.count_spec() <= 12,
        0 <= extensions.count_spec() <= 6,
        modifiers.count_spec() == 0 <==> modifiers == ModifierSet::empty_spec(),
        extensions.count_spec() == 0 <==> extensions == ExtensionSet::empty_spec(),
{
    reveal_with_fuel(ModifierSet::count_upto, 13);
    reveal_with_fuel(ExtensionSet::count_upto, 7);
}

/// The rank key fits its 32 bits, and its leading part is the number of
/// modifiers and extensions.
pub proof fn lemma_rank_key(root: int, entry: int, modifiers: ModifierSet, extensions: ExtensionSet)
    requires
        0 <= root < 12,
        0 <= entry < crate::catalog::CATALOG_SIZE,
    ensures
        0 <= crate::identify::rank_key(root, entry, modifiers, extensions) < 0x1_0000_0000,
        crate::identify::rank_key(root, entry, modifiers, extensions) / 4096
            == modifiers.count_spec() + extensions.count_spec(),
{
    lemma_count_zero(modifiers, extensions);
}

/// The rank key orders as it says: by the number of modifiers and
/// extensions, then a root on a natural before one on a flat or sharp,
/// then by the place of the catalog entry, then by the root's pitch class.
pub proof fn lemma_rank_order(
    root: int,
    entry: int,
    modifiers: ModifierSet,
    extensions: ExtensionSet,
    other_root: int,
    other_entry: int,
    other_modifiers: ModifierSet,
    other_extensions: ExtensionSet,
)
    requires
        0 <= root < 12,
        0 <= other_root < 12,
        0 <= entry < crate::catalog::CATALOG_SIZE,
        0 <= other_entry < crate::catalog::CATALOG_SIZE,
    ensures
        ({
            let count = modifiers.count_spec() + extensions.count_spec();
            let other_count = other_modifiers.count_spec() + other_extensions.count_spec();
            let natural = crate::pitch::Pitch::of_semitone(root).is_natural_spec();
            let other_natural = crate::pitch::Pitch::of_semitone(other_root).is_natural_spec();
            crate::identify::rank_key(root, entry, modifiers, extensions)
                < crate::identify::rank_key(
                other_root,
                other_entry,
                other_modifiers,
                other_extensions,
            ) <==> (count < other_count || (count == other_count && ((natural && !other_natural)
                || (natural == other_natural && (entry < other_entry || (entry == other_entry
                && root < other_root))))))
        }),
{
    lemma_count_zero(modifiers, extensions);
    lemma_count_zero(other_modifiers, other_extensions);
}

/// The cost of a match orders as it says: by the number of modifiers and
/// extensions, then by the number of altered extensions.
pub proof fn lemma_cost_order(
    modifiers: ModifierSet,
    extensions: ExtensionSet,
    other_modifiers: ModifierSet,
    other_extensions: ExtensionSet,
)
    ensures
        ({
            let count = modifiers.count_spec() + extensions.count_spec();
            let other_count = other_modifiers.count_spec() + other_extensions.count_spec();
            crate::catalog::match_cost(modifiers, extensions) < crate::catalog::match_cost(
                other_modifiers,
                other_extensions,
            ) <==> (count < other_count || (count == other_count
                && extensions.altered_count_spec() < other_extensions.altered_count_spec()))
        }),
{
    lemma_count_zero(modifiers, extensions);
    lemma_count_zero(other_modifiers, other_extensions);
}

/// The pitch classes of the major triad on `root`.
pub open spec fn triad_classes(root: int) -> Set<int> {
    Set::new(|p: int| p == root || p == (root + 4) % 12 || p == (root + 7) % 12)
}

/// Seen from its root, a major triad lies at the distances 4 and 7.
pub proof fn lemma_triad_distances(root: int, d: int)
    requires
        0 <= root < 12,
    ensures
        distances_from(triad_classes(root), root, None).contains(d) <==> (d == 4 || d == 7),
{
}

/// Two major triads with the same pitch classes have the same root.
pub proof fn lemma_triad_root(root: int, other: int)
    requires
        0 <= root < 12,
        0 <= other < 12,
        triad_classes(root).contains(other),
        triad_classes(root).contains((other + 4) % 12),
        triad_classes(root).contains((other + 7) % 12),
    ensures
        root == other,
{
}

/// The chord without modifiers and extensions sounds at the distances 0, 4
/// and 7 from its root.
pub proof fn lemma_major_sounds(d: int)
    ensures
        sounds_at(ModifierSet::empty_spec(), ExtensionSet::empty_spec(), d) <==> (d == 0 || d == 4
            || d == 7),
{
    reveal(sounds_at);
}

/// A match costs nothing only where it has neither modifiers nor
/// extensions.
pub proof fn lemma_match_cost(modifiers: ModifierSet, extensions: ExtensionSet)
    ensures
        crate::catalog::match_cost(modifiers, extensions) >= 0,
        crate::catalog::match_cost(modifiers, extensions) == 0 <==> (modifiers
            == ModifierSet::empty_spec() && extensions == ExtensionSet::empty_spec()),
{
    lemma_count_zero(modifiers, extensions);
}

/// In the pitch classes of a major triad the root of the triad finds the
/// first entry of the catalog, the major triad.
pub proof fn lemma_triad_entry(root: int)
    requires
        0 <= root < 12,
    ensures
        best_entry(distances_from(triad_classes(root), root, None)) == Some(0int),
        entry_at(0) == ModifierSet::empty_spec(),
        extras_of(entry_at(0), distances_from(triad_classes(root), root, None))
            == ExtensionSet::empty_spec(),
{
    let distances = distances_from(triad_classes(root), root, None);
    assert forall|d: int| distances.contains(d) <==> (d == 4 || d == 7) by {
        lemma_triad_distances(root, d);
    }
    crate::catalog::lemma_major_entry(distances);
    crate::catalog::lemma_match_extras(entry_at(0), distances);
    crate::catalog::lemma_best_entry(distances, crate::catalog::CATALOG_SIZE as nat);
    let best = best_entry(distances).unwrap();
    lemma_match_cost(entry_at(best), extras_of(entry_at(best), distances));
    lemma_match_cost(entry_at(0), extras_of(entry_at(0), distances));
    assert(crate::catalog::entry_match(entry_at(0), distances) is Some);
}

/// In the pitch classes of a major triad the root of the triad finds the
/// major triad, with a key below that of any chord with a modifier or an
/// extension.
pub proof fn lemma_triad_own(root: int)
    requires
        0 <= root < 12,
    ensures
        candidate_for(triad_classes(root), None, root) is Some,
        candidate_for(triad_classes(root), None, root).unwrap().chord == Chord::major(
            root_note(root),
        ),
        candidate_for(triad_classes(root), None, root).unwrap().key < 4096,
{
    lemma_triad_entry(root);
    lemma_rank_key(root, 0, ModifierSet::empty_spec(), ExtensionSet::empty_spec());
    lemma_count_zero(ModifierSet::empty_spec(), ExtensionSet::empty_spec());
}

/// In the pitch classes of a major triad every other root finds nothing,
/// or a chord with a modifier or an extension.
pub proof fn lemma_triad_other(root: int, other: int)
    requires
        0 <= root < 12,
        0 <= other < 12,
        other != root,
        candidate_for(triad_classes(root), None, other) is Some,
    ensures
        candidate_for(triad_classes(root), None, other).unwrap().key >= 4096,
{
    let classes = triad_classes(root);
    let distances = distances_from(classes, other, None);
    let entry = best_entry(distances).unwrap();
    crate::catalog::lemma_best_entry(distances, crate::catalog::CATALOG_SIZE as nat);
    let modifiers = entry_at(entry);
    let extensions = extras_of(modifiers, distances);
    crate::catalog::lemma_match_extras(modifiers, distances);
    lemma_rank_key(other, entry, modifiers, extensions);
    lemma_count_zero(modifiers, extensions);
    if modifiers.count_spec() + extensions.count_spec() == 0 {
        lemma_major_sounds(4);
        lemma_major_sounds(7);
        crate::catalog::lemma_match_covers(modifiers, distances, 4);
        crate::catalog::lemma_match_covers(modifiers, distances, 7);
        assert(classes.contains((other + 4) % 12));
        assert(classes.contains((other + 7) % 12));
        lemma_triad_root(root, other);
    }
}

/// The bare root on a pitch class, built, is the major triad on it.
pub proof fn lemma_bare_root_built(root: int)
    requires
        0 <= root < 12,
    ensures
        Chord::major(root_note(root)).built() is Some,
        note_classes(Chord::major(root_note(root)).built().unwrap()) == triad_classes(root),
{
    let chord = Chord::major(root_note(root));
    lemma_root_note(root);
    lemma_built(chord, root);
    law_build_classes(chord);
    let classes = note_classes(chord.built().unwrap());
    assert forall|p: int| classes.contains(p) == triad_classes(root).contains(p) by {
        lemma_major_sounds((p - root) % 12);
        lemma_triad_class(root, p);
    }
    assert(classes =~= triad_classes(root));
}

/// A major triad has more than one pitch class.
pub proof fn lemma_triad_size(root: int)
    requires
        0 <= root < 12,
    ensures
        triad_classes(root).finite(),
        triad_classes(root).len() != 1,
{
    let classes = triad_classes(root);
    vstd::set_lib::lemma_int_range(0, 12);
    assert(classes.subset_of(vstd::set_lib::set_int_range(0, 12)));
    vstd::set_lib::lemma_len_subset(classes, vstd::set_lib::set_int_range(0, 12));
    if classes.len() == 1 {
        Set::lemma_is_singleton(classes);
        assert(classes.contains(root));
        assert(classes.contains((root + 4) % 12));
    }
}

/// Among the candidates for the pitch classes of a major triad the major
/// triad on its root is ranked first.
pub proof fn lemma_triad_first(root: int)
    requires
        0 <= root < 12,
    ensures
        ranked(candidates_upto(triad_classes(root), None, 12)).len() > 0,
        ranked(candidates_upto(triad_classes(root), None, 12))[0].chord == Chord::major(
            root_note(root),
        ),
{
    broadcast use vstd::seq_lib::group_to_multiset_ensures;

    let classes = triad_classes(root);
    let candidates = candidates_upto(classes, None, 12);
    lemma_triad_own(root);
    let own = candidate_for(classes, None, root).unwrap();
    lemma_candidate_listed(classes, None, 12, root);
    lemma_ranked(candidates);
    assert(candidates.contains(own));
    assert(ranked(candidates).to_multiset().count(own) > 0);
    assert(ranked(candidates).contains(own));
    let k = choose|k: int| 0 <= k < ranked(candidates).len() && ranked(candidates)[k] == own;
    let first = ranked(candidates)[0];
    assert(first.key <= ranked(candidates)[k].key);
    let j = lemma_ranked_member(candidates, 0);
    let other = lemma_candidates(classes, None, 12, j);
    if other != root {
        lemma_triad_other(root, other);
    }
}

/// The bare root on a pitch class, built, is a major triad, and the major
/// triad is identified as the chord that the bare root is.
pub proof fn lemma_bare_root_again(root: int)
    requires
        0 <= root < 12,
    ensures
        Chord::major(root_note(root)).built() is Some,
        interpretations(
            note_classes(Chord::major(root_note(root)).built().unwrap()),
            None,
        ).len() > 0,
        interpretations(note_classes(Chord::major(root_note(root)).built().unwrap()), None)[0]
            == Chord::major(root_note(root)),
{
    lemma_bare_root_built(root);
    lemma_triad_size(root);
    lemma_triad_first(root);
}

/// A pitch class belongs to a major triad where it lies 0, 4 or 7
/// semitones above the root, octaves left out.
pub proof fn lemma_triad_class(root: int, p: int)
    requires
        0 <= root < 12,
    ensures
        triad_classes(root).contains(p) <==> (0 <= p < 12 && ((p - root) % 12 == 0 || (p - root)
            % 12 == 4 || (p - root) % 12 == 7)),
{
}

/// The candidate of a root is among the candidates.
pub proof fn lemma_candidate_listed(classes: Set<int>, bass: Option<Note>, n: nat, root: int)
    requires
        0 <= root < n,
        candidate_for(classes, bass, root) is Some,
    ensures
        candidates_upto(classes, bass, n).contains(candidate_for(classes, bass, root).unwrap()),
    decreases n,
{
    let before = candidates_upto(classes, bass, (n - 1) as nat);
    let now = candidates_upto(classes, bass, n);
    let wanted = candidate_for(classes, bass, root).unwrap();
    if root < n - 1 {
        lemma_candidate_listed(classes, bass, (n - 1) as nat, root);
        let k = choose|k: int| 0 <= k < before.len() && before[k] == wanted;
        assert(now[k] == wanted);
    } else {
        assert(now[before.len() as int] == wanted);
    }
}

/// A chord in spread voicing without a slash note is built with the tone
/// first that its inversion names.
pub proof fn lemma_inversion_first(chord: Chord)
    requires
        !chord.crunchy,
        chord.slash is None,
        chord.inversion < chord.degrees().len(),
        chord.built() is Some,
    ensures
        chord.built().unwrap().len() >= 1,
        chord.root.transposed(chord.degrees()[chord.inversion as int]) == Some(
            chord.built().unwrap()[0],
        ),
{
    let tones = chord.tone_notes().unwrap();
    crate::build_proofs::lemma_tones_match_degrees(chord, 18);
    crate::chord::lemma_turns(chord.inversion as nat, tones.len());
    crate::build_proofs::lemma_rotated_first(tones, chord.inversion as nat);
}

/// What taking the bass into account leaves of a chord: a slash note that
/// is the bass, or root position over a bass on the root, or the inversion
/// that names the first degree at the distance of the bass.
pub proof fn lemma_resolved_shape(chord: Chord, b: Note)
    ensures
        resolved(chord, Some(b)).root == chord.root,
        resolved(chord, Some(b)).modifiers == chord.modifiers,
        resolved(chord, Some(b)).extensions == chord.extensions,
        resolved(chord, Some(b)).crunchy == chord.crunchy,
        resolved(chord, Some(b)).slash == Some(b) || (resolved(chord, Some(b)).slash is None
            && resolved(chord, Some(b)).inversion == 0 && (b.pitch_class()
            - chord.root.pitch_class()) % 12 == 0) || (resolved(chord, Some(b)).slash is None
            && resolved(chord, Some(b)).inversion < chord.degrees().len()
                && chord.degrees()[resolved(
            chord,
            Some(b),
        ).inversion as int].semitones_spec() % 12 == (b.pitch_class() - chord.root.pitch_class())
            % 12),
{
    let distance = (b.pitch_class() - chord.root.pitch_class()) % 12;
    lemma_first_degree(chord.degrees(), distance, 0);
    chord.lemma_degrees_len(18);
}

/// A chord on the root of an identified chord, with the bass taken into
/// account, has a note of the bass's pitch class as the first of its
/// notes.
pub proof fn lemma_bass_first(plain: Chord, root: int, b: Note)
    requires
        0 <= root < 12,
        plain.root == root_note(root),
        !plain.crunchy,
    ensures
        resolved(plain, Some(b)).built() is Some,
        resolved(plain, Some(b)).built().unwrap().len() >= 1,
        resolved(plain, Some(b)).built().unwrap()[0].pitch_class() == b.pitch_class(),
{
    let chord = resolved(plain, Some(b));
    lemma_resolved_shape(plain, b);
    lemma_root_note(root);
    lemma_built(chord, root);
    lemma_degrees_alike(plain, chord, 18);
    chord.lemma_degrees_len(18);
    Note::lemma_id(b);
    if chord.slash is Some {
        crate::laws::law_slash_is_lowest(chord);
        crate::build_proofs::lemma_same_spelling(chord.built().unwrap()[0], b);
    } else {
        lemma_inversion_first(chord);
        let degree = chord.degrees()[chord.inversion as int];
        let first = chord.built().unwrap()[0];
        assert(chord.root.transposed(degree) == Some(first));
        Note::lemma_transposed(chord.root, degree);
        let semitones = degree.semitones_spec();
        assert(first.pitch_class() == (root + semitones) % 12);
        assert(semitones % 12 == (b.pitch_class() - root) % 12) by {
            if chord.inversion == 0 {
                assert(degree == Interval::PerfectUnison);
            }
        }
        lemma_distance_forth(root, b.pitch_class(), semitones);
    }
}

/// The chord with which a root explains the pitch classes that sound has a
/// note of the bass's pitch class as the first of its notes.
pub proof fn lemma_candidate_bass_first(classes: Set<int>, b: Note, root: int)
    requires
        0 <= root < 12,
        candidate_for(classes, Some(b), root) is Some,
    ensures
        candidate_for(classes, Some(b), root).unwrap().chord.built() is Some,
        candidate_for(classes, Some(b), root).unwrap().chord.built().unwrap().len() >= 1,
        candidate_for(classes, Some(b), root).unwrap().chord.built().unwrap()[0].pitch_class()
            == b.pitch_class(),
{
    let bass = Some(b);
    let full = distances_from(classes, root, None);
    let reserved: Option<int> = if best_entry(full) is Some {
        None
    } else {
        bass_distance(bass, root)
    };
    let distances = distances_from(classes, root, reserved);
    let entry = best_entry(distances).unwrap();
    let plain = Chord {
        root: root_note(root),
        modifiers: entry_at(entry),
        extensions: extras_of(entry_at(entry), distances),
        slash: None,
        inversion: 0,
        crunchy: false,
    };
    assert(candidate_for(classes, bass, root).unwrap().chord == resolved(plain, bass));
    lemma_bass_first(plain, root, b);
}

/// The lowest notes of two sequences of notes that sound alike sound
/// alike.
pub proof fn lemma_lowest_alike(a: Seq<Note>, b: Seq<Note>)
    requires
        a.len() == b.len(),
        forall|k: int| 0 <= k < a.len() ==> (#[trigger] a[k]).id_spec() == b[k].id_spec(),
    ensures
        same_pitch(crate::identify::lowest_note(a), crate::identify::lowest_note(b)),
    decreases a.len(),
{
    if a.len() > 0 {
        assert forall|k: int| 0 <= k < a.drop_last().len() implies (
        #[trigger] a.drop_last()[k]).id_spec() == b.drop_last()[k].id_spec() by {
            assert(a.drop_last()[k] == a[k]);
            assert(b.drop_last()[k] == b[k]);
        }
        lemma_lowest_alike(a.drop_last(), b.drop_last());
        assert(a.last() == a[a.len() - 1]);
        assert(b.last() == b[b.len() - 1]);
    }
}

} // verus!

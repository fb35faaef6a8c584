//! Identification: from a set of notes to the chords it can stand for.
//!
//! A set is taken without its octaves, as the pitch classes that sound,
//! that of the bass among them.  Each pitch class is tried as the root:
//! the other pitch classes, as distances above it, are matched against the
//! catalog.  A root that no entry matches gets a second try with the bass
//! set aside, where a bass is given that is not on the root; the bass is
//! then the slash note.  A matched chord takes the bass into account: a
//! bass on a tone of the chord gives the inversion that puts that tone
//! first.  The chords found are ranked by the number of their modifiers
//! and extensions, then roots on naturals before roots on flats or sharps,
//! then by the order of the catalog, then by the root's pitch class.  One
//! pitch class alone stands for its bare root, the one chord on it without
//! modifiers or extensions.  Every chord is reported with its root in
//! octave 4, spelled in the usual way, in spread voicing.

use vstd::prelude::*;
use crate::base::HasName;
use crate::catalog::{
    best_entry, catalog_entry, distances_from, entry_at, extras_of, find_best_entry, CATALOG_SIZE,
};
use crate::chord::Chord;
use crate::interval::Interval;
use crate::modifier::{ExtensionSet, ModifierSet};
use crate::named_pitch::{HasNamedPitch, NamedPitch};
use crate::note::Note;
use crate::note_set::{pitch_classes_of, NoteSet, PitchClassSet};
use crate::octave::Octave;
use crate::pitch::{HasPitch, Pitch};

verus! {

/// How an identification ended.
#[derive(PartialEq, Eq, Copy, Clone, Hash, Debug, Structural)]
pub enum IdentifyStatus {
    /// A bass was given and at least one chord was found.
    Resolved,
    /// No chord of the catalog stands for the notes, whatever the root.
    /// This is an outcome, not a failure.
    NoInterpretation,
    /// Chords were found, but no bass was given: inversion and slash note
    /// could not be told, and every chord is reported in root position.
    AmbiguousWithoutBassHint,
}

/// One chord that the notes can stand for, with the key by which the
/// chords are ranked.
#[derive(Copy, Clone, Debug)]
pub struct Candidate {
    /// The chord.
    pub chord: Chord,
    /// The rank: a lower key comes first.
    pub key: u32,
}

/// One chord that the notes can stand for, with its names.
#[derive(Clone, Debug)]
pub struct Interpretation {
    /// The chord.
    pub chord: Chord,
    /// The name of the chord.
    pub canonical_name: String,
    /// The names of the chord with its root spelled otherwise.
    pub alternate_names: Vec<String>,
}

/// What an identification found.
#[derive(Clone, Debug)]
pub struct Identification {
    /// The chords that the notes can stand for, the best first.
    pub interpretations: Vec<Interpretation>,
    /// How the identification ended.
    pub status: IdentifyStatus,
}

/// The note that stands for the pitch class `root` as the root of an
/// identified chord: its usual spelling, in octave 4.
pub open spec fn root_note(root: int) -> Note {
    Note { named_pitch: Pitch::of_semitone(root).named_pitch_spec(), octave: Octave::Four }
}

/// The key by which identified chords are ranked, a lower key first: by
/// the number of modifiers and extensions, then a root on a natural before
/// one on a flat or sharp, then by the place of the catalog entry, then by
/// the root's pitch class.
pub open spec fn rank_key(
    root: int,
    entry: int,
    modifiers: ModifierSet,
    extensions: ExtensionSet,
) -> int {
    4096 * (modifiers.count_spec() + extensions.count_spec()) + (if Pitch::of_semitone(
        root,
    ).is_natural_spec() {
        0int
    } else {
        2048int
    }) + 12 * entry + root
}

/// The first place at or after `from` at which the degrees hold a tone
/// that lies `distance` semitones above the root, octaves left out; the
/// number of degrees where there is none.
pub open spec fn first_degree_at(degrees: Seq<Interval>, distance: int, from: nat) -> nat
    decreases degrees.len() - from,
{
    if from >= degrees.len() {
        degrees.len()
    } else if degrees[from as int].semitones_spec() % 12 == distance {
        from
    } else {
        first_degree_at(degrees, distance, from + 1)
    }
}

/// The chord with the bass taken into account.
///
/// Without a bass the chord stands in root position, without a slash note.
/// A bass on the root leaves it so.  A bass on another tone of the chord
/// gives the inversion that puts that tone first: the place of the tone
/// among the chord's degrees.  A bass that is no tone of the chord becomes
/// the slash note, and the chord stays in root position.
pub open spec fn resolved(chord: Chord, bass: Option<Note>) -> Chord {
    match bass {
        None => Chord { inversion: 0, slash: None, ..chord },
        Some(b) => {
            let distance = (b.pitch_class() - chord.root.pitch_class()) % 12;
            let place = first_degree_at(chord.degrees(), distance, 0);
            if distance == 0 {
                Chord { inversion: 0, slash: None, ..chord }
            } else if place < chord.degrees().len() {
                Chord { inversion: place as u8, slash: None, ..chord }
            } else {
                Chord { inversion: 0, slash: Some(b), ..chord }
            }
        },
    }
}

/// The candidate on `root` with the quality of a catalog entry and the
/// given extensions: the chord on the root's note, with the bass taken
/// into account, and its key.
pub open spec fn candidate_with(
    root: int,
    entry: int,
    extensions: ExtensionSet,
    bass: Option<Note>,
) -> Candidate {
    Candidate {
        chord: resolved(
            Chord {
                root: root_note(root),
                modifiers: entry_at(entry),
                extensions,
                slash: None,
                inversion: 0,
                crunchy: false,
            },
            bass,
        ),
        key: rank_key(root, entry, entry_at(entry), extensions) as u32,
    }
}

/// The candidate on `root` with the quality of a catalog entry, and with
/// the extensions with which the entry matches.
pub open spec fn candidate_of(
    classes: Set<int>,
    bass: Option<Note>,
    root: int,
    reserved: Option<int>,
    entry: int,
) -> Candidate {
    candidate_with(
        root,
        entry,
        extras_of(entry_at(entry), distances_from(classes, root, reserved)),
        bass,
    )
}

/// The distance from the pitch class `root` up to the bass, where the bass
/// is not on the root.
pub open spec fn bass_distance(bass: Option<Note>, root: int) -> Option<int> {
    match bass {
        None => None,
        Some(b) => if (b.pitch_class() - root) % 12 == 0 {
            None
        } else {
            Some((b.pitch_class() - root) % 12)
        },
    }
}

/// The chord with which the pitch class `root` explains the pitch classes
/// `classes`, if there is one.
///
/// The root has to be among the pitch classes.  Where a catalog entry
/// matches all of them, the chord has the quality of the best such entry.
/// Where none does and a bass is given that is not on the root, the bass
/// is set aside: where an entry matches the other pitch classes, the chord
/// has the quality of the best such entry.  Either way the bass is then
/// taken into account.
pub open spec fn candidate_for(
    classes: Set<int>,
    bass: Option<Note>,
    root: int,
) -> Option<Candidate> {
    if !classes.contains(root) {
        None
    } else {
        match best_entry(distances_from(classes, root, None)) {
            Some(entry) => Some(candidate_of(classes, bass, root, None, entry)),
            None => match bass_distance(bass, root) {
                None => None,
                Some(distance) => match best_entry(distances_from(classes, root, Some(distance))) {
                    Some(entry) => Some(candidate_of(classes, bass, root, Some(distance), entry)),
                    None => None,
                },
            },
        }
    }
}

/// The candidates of the roots among the first `n` pitch classes, by
/// rising pitch class.
pub open spec fn candidates_upto(classes: Set<int>, bass: Option<Note>, n: nat) -> Seq<Candidate>
    decreases n,
{
    if n == 0 {
        Seq::empty()
    } else {
        match candidate_for(classes, bass, n - 1) {
            Some(candidate) => candidates_upto(classes, bass, (n - 1) as nat).push(candidate),
            None => candidates_upto(classes, bass, (n - 1) as nat),
        }
    }
}

/// The place at which a candidate with the given key goes into a ranked
/// sequence: behind the last one whose key is not greater.
pub open spec fn slot_for(ranked: Seq<Candidate>, key: u32) -> int
    decreases ranked.len(),
{
    if ranked.len() == 0 {
        0
    } else if ranked.last().key <= key {
        ranked.len() as int
    } else {
        slot_for(ranked.drop_last(), key)
    }
}

/// The candidates by rising key; candidates of one key keep their order.
pub open spec fn ranked(candidates: Seq<Candidate>) -> Seq<Candidate>
    decreases candidates.len(),
{
    if candidates.len() == 0 {
        Seq::empty()
    } else {
        let before = ranked(candidates.drop_last());
        before.insert(slot_for(before, candidates.last().key), candidates.last())
    }
}

/// The chords of a sequence of candidates.
pub open spec fn chords_of(candidates: Seq<Candidate>) -> Seq<Chord> {
    Seq::new(candidates.len(), |i: int| candidates[i].chord)
}

/// The pitch classes that sound: those of the notes, and that of the bass.
pub open spec fn sounding_classes(notes: Set<int>, bass: Option<Note>) -> Set<int> {
    match bass {
        Some(b) => pitch_classes_of(notes).insert(b.pitch_class()),
        None => pitch_classes_of(notes),
    }
}

/// The lowest pitch class of a set; 11 where the set is empty.
pub open spec fn least_class(classes: Set<int>) -> int {
    if classes.contains(0) {
        0
    } else if classes.contains(1) {
        1
    } else if classes.contains(2) {
        2
    } else if classes.contains(3) {
        3
    } else if classes.contains(4) {
        4
    } else if classes.contains(5) {
        5
    } else if classes.contains(6) {
        6
    } else if classes.contains(7) {
        7
    } else if classes.contains(8) {
        8
    } else if classes.contains(9) {
        9
    } else if classes.contains(10) {
        10
    } else {
        11
    }
}

/// The chords that the pitch classes `classes` can stand for over the
/// given bass, the best first.
///
/// A single pitch class stands for its bare root: the one chord on it,
/// without modifiers or extensions.  Otherwise each pitch class is tried as
/// the root, and the chords found are ranked.  Every chord is reported on
/// octave 4.
pub open spec fn interpretations(classes: Set<int>, bass: Option<Note>) -> Seq<Chord> {
    if classes.len() == 1 {
        seq![Chord::major(root_note(least_class(classes)))]
    } else {
        chords_of(ranked(candidates_upto(classes, bass, 12)))
    }
}

/// The lowest of the notes, and among notes that sound alike the first;
/// `None` where there is no note.
pub open spec fn lowest_note(notes: Seq<Note>) -> Option<Note>
    decreases notes.len(),
{
    if notes.len() == 0 {
        None
    } else {
        match lowest_note(notes.drop_last()) {
            None => Some(notes.last()),
            Some(lowest) => if notes.last().id_spec() < lowest.id_spec() {
                Some(notes.last())
            } else {
                Some(lowest)
            },
        }
    }
}

/// The spelling of the first of the notes that sounds the pitch class
/// `class`; `None` where none of them does.
pub open spec fn class_spelling(notes: Seq<Note>, class: int) -> Option<NamedPitch>
    decreases notes.len(),
{
    if notes.len() == 0 {
        None
    } else {
        match class_spelling(notes.drop_last(), class) {
            Some(spelling) => Some(spelling),
            None => if notes.last().pitch_class() == class {
                Some(notes.last().named_pitch)
            } else {
                None
            },
        }
    }
}

/// The note that sounds like `root` and is spelled as the given notes
/// spell its pitch class: as the first of them that sounds that pitch
/// class is spelled.  The root itself where none of them sounds its pitch
/// class, or where that spelling would leave the supported octaves.
pub open spec fn root_spelled(notes: Seq<Note>, root: Note) -> Note {
    match class_spelling(notes, root.pitch_class()) {
        Some(spelling) => {
            let octave = (root.id_spec() - 3 - spelling.offset()) / 12;
            if 0 <= octave <= 9 {
                Note { named_pitch: spelling, octave: Octave::of_number(octave) }
            } else {
                root
            }
        },
        None => root,
    }
}

/// The chords with their roots spelled as the given notes spell them.
pub open spec fn respelled(chords: Seq<Chord>, notes: Seq<Note>) -> Seq<Chord> {
    Seq::new(
        chords.len(),
        |i: int| Chord { root: root_spelled(notes, chords[i].root), ..chords[i] },
    )
}

/// The other spellings of a root: the one with a sharp and the one with a
/// flat, without the root's own spelling.
pub open spec fn alternate_roots(root: NamedPitch) -> Seq<NamedPitch> {
    let sharp = root.pitch_spec().sharp_spelling_spec();
    let flat = root.pitch_spec().flat_spelling_spec();
    (if sharp != root {
        seq![sharp]
    } else {
        Seq::empty()
    }) + (if flat != root && flat != sharp {
        seq![flat]
    } else {
        Seq::empty()
    })
}

/// The status of an identification that found `count` chords.
pub open spec fn status_of(count: nat, bass: Option<Note>) -> IdentifyStatus {
    if count == 0 {
        IdentifyStatus::NoInterpretation
    } else if bass is None {
        IdentifyStatus::AmbiguousWithoutBassHint
    } else {
        IdentifyStatus::Resolved
    }
}

impl Identification {
    /// The chords found, the best first.
    pub open spec fn chords(self) -> Seq<Chord> {
        Seq::new(self.interpretations@.len(), |i: int| self.interpretations@[i].chord)
    }

    /// Whether each chord found carries its own names.
    pub open spec fn named(self) -> bool {
        forall|i: int|
            0 <= i < self.interpretations@.len()
                ==> (#[trigger] self.interpretations@[i]).is_named()
    }
}

impl Interpretation {
    /// Whether the names are those of the chord.
    pub open spec fn is_named(self) -> bool {
        &&& self.canonical_name@ == self.chord.name_spec()
        &&& self.alternate_names@.len() == alternate_roots(self.chord.root.named_pitch).len()
        &&& forall|k: int|
            0 <= k < self.alternate_names@.len() ==> (#[trigger] self.alternate_names@[k])@
                == self.chord.name_with_root(alternate_roots(self.chord.root.named_pitch)[k])
    }
}

/// Returns the note that stands for the pitch class `root` as the root of
/// an identified chord.
pub fn make_root(root: u8) -> (n: Note)
    ensures
        n == root_note(root as int),
{
    Note::new(Pitch::from_semitone(root).named_pitch(), Octave::Four)
}

/// Returns the key by which an identified chord is ranked.
fn make_key(
    root: u8,
    entry: usize,
    modifiers: &ModifierSet,
    extensions: &ExtensionSet,
) -> (k: u32)
    requires
        root < 12,
        entry < CATALOG_SIZE,
    ensures
        k == rank_key(root as int, entry as int, *modifiers, *extensions),
{
    let count: u32 = modifiers.count() as u32 + extensions.count() as u32;
    let accidental: u32 = if Pitch::from_semitone(root).is_natural() {
        0
    } else {
        2048
    };
    4096 * count + accidental + 12 * (entry as u32) + root as u32
}

/// Takes the bass into account: returns the chord in the inversion that
/// puts the bass first, or over the bass as its slash note where the bass
/// is no tone of the chord, or in root position where no bass is given.
pub fn resolve(chord: &Chord, bass: Option<Note>) -> (r: Chord)
    ensures
        r == resolved(*chord, bass),
{
    match bass {
        None => Chord { inversion: 0, slash: None, ..*chord },
        Some(b) => {
            let distance = chord.root.distance_mod12(&b);
            assert(distance == (b.pitch_class() - chord.root.pitch_class()) % 12) by {
                lemma_class_distance(b.id_spec(), chord.root.id_spec());
            }
            if distance == 0 {
                return Chord { inversion: 0, slash: None, ..*chord };
            }
            let degrees = chord.degree_list();
            proof {
                chord.lemma_degrees_len(18);
            }
            let mut place: usize = 0;
            while place < degrees.len()
                invariant
                    place <= degrees.len(),
                    degrees@ == chord.degrees(),
                    degrees@.len() <= 18,
                    bass == Some(b),
                    distance != 0,
                    distance == (b.pitch_class() - chord.root.pitch_class()) % 12,
                    first_degree_at(degrees@, distance as int, 0) == first_degree_at(
                        degrees@,
                        distance as int,
                        place as nat,
                    ),
                decreases degrees.len() - place,
            {
                if degrees[place].semitones() % 12 == distance {
                    return Chord { inversion: place as u8, slash: None, ..*chord };
                }
                place = place + 1;
            }
            Chord { inversion: 0, slash: Some(b), ..*chord }
        },
    }
}

/// Returns the distance from the pitch class `root` up to the bass, where
/// a bass is given that is not on the root.
fn distance_to_bass(bass: Option<Note>, root: u8) -> (d: Option<u8>)
    requires
        root < 12,
    ensures
        bass_distance(bass, root as int) == match d {
            Some(v) => Some(v as int),
            None => None,
        },
        d matches Some(v) ==> 1 <= v < 12,
{
    match bass {
        None => None,
        Some(b) => {
            let distance = (b.pitch_class_value() + 12 - root) % 12;
            if distance == 0 {
                None
            } else {
                Some(distance)
            }
        },
    }
}

/// Returns the chord with which the pitch class `root` explains the pitch
/// classes, if there is one.
pub fn find_candidate(
    classes: &PitchClassSet,
    bass: Option<Note>,
    root: u8,
) -> (c: Option<Candidate>)
    ensures
        c == candidate_for(classes@, bass, root as int),
{
    if !classes.contains(root) {
        return None;
    }
    match find_best_entry(classes, root, None) {
        Some((entry, extensions)) => Some(make_candidate(root, entry, extensions, bass)),
        None => {
            let reserved = distance_to_bass(bass, root);
            match reserved {
                None => None,
                Some(distance) => match find_best_entry(classes, root, reserved) {
                    Some((entry, extensions)) => Some(make_candidate(root, entry, extensions, bass)),
                    None => None,
                },
            }
        },
    }
}

/// Returns the candidate on `root` with the quality of a catalog entry and
/// the given extensions.
fn make_candidate(root: u8, entry: usize, extensions: ExtensionSet, bass: Option<Note>) -> (c:
    Candidate)
    requires
        root < 12,
        entry < CATALOG_SIZE,
    ensures
        c == candidate_with(root as int, entry as int, extensions, bass),
{
    let modifiers = catalog_entry(entry).modifiers;
    let chord = Chord {
        root: make_root(root),
        modifiers,
        extensions,
        slash: None,
        inversion: 0,
        crunchy: false,
    };
    Candidate { chord: resolve(&chord, bass), key: make_key(root, entry, &modifiers, &extensions) }
}

/// Returns the candidates of all twelve roots, by rising pitch class.
pub fn generate(classes: &PitchClassSet, bass: Option<Note>) -> (v: Vec<Candidate>)
    ensures
        v@ == candidates_upto(classes@, bass, 12),
{
    let mut v: Vec<Candidate> = Vec::new();
    let mut root: u8 = 0;
    while root < 12
        invariant
            root <= 12,
            v@ == candidates_upto(classes@, bass, root as nat),
        decreases 12 - root,
    {
        match find_candidate(classes, bass, root) {
            Some(candidate) => {
                v.push(candidate);
            },
            None => {},
        }
        root = root + 1;
    }
    v
}

/// Returns the candidates by rising key; candidates of one key keep their
/// order.
pub fn rank(candidates: &Vec<Candidate>) -> (r: Vec<Candidate>)
    ensures
        r@ == ranked(candidates@),
        r@.len() == candidates@.len(),
        r@.to_multiset() == candidates@.to_multiset(),
        forall|i: int, j: int| 0 <= i <= j < r@.len()
            ==> (#[trigger] r@[i]).key <= (#[trigger] r@[j]).key,
{
    let mut r: Vec<Candidate> = Vec::new();
    let mut k: usize = 0;
    assert(candidates@.take(0) =~= Seq::<Candidate>::empty());
    while k < candidates.len()
        invariant
            k <= candidates.len(),
            r@ == ranked(candidates@.take(k as int)),
        decreases candidates.len() - k,
    {
        let candidate = candidates[k];
        let mut slot: usize = r.len();
        assert(r@.take(slot as int) =~= r@);
        while slot > 0 && r[slot - 1].key > candidate.key
            invariant
                slot <= r.len(),
                slot_for(r@, candidate.key) == slot_for(r@.take(slot as int), candidate.key),
            decreases slot,
        {
            assert(r@.take(slot as int).drop_last() =~= r@.take(slot as int - 1));
            slot = slot - 1;
        }
        assert(slot_for(r@.take(slot as int), candidate.key) == slot);
        assert(candidates@.take(k as int + 1).drop_last() =~= candidates@.take(k as int));
        r.insert(slot, candidate);
        k = k + 1;
    }
    assert(candidates@.take(candidates@.len() as int) =~= candidates@);
    proof {
        lemma_ranked(candidates@);
    }
    r
}

/// Returns the lowest pitch class of the set; 11 where the set is empty.
pub fn least_member(classes: &PitchClassSet) -> (p: u8)
    ensures
        p == least_class(classes@),
        p < 12,
{
    let mut p: u8 = 0;
    while p < 11
        invariant
            p <= 11,
            forall|q: int| 0 <= q < p ==> !classes@.contains(q),
        decreases 11 - p,
    {
        if classes.contains(p) {
            return p;
        }
        p = p + 1;
    }
    p
}

/// Returns the chords that the pitch classes can stand for over the given
/// bass, the best first.
pub fn interpret_classes(classes: &PitchClassSet, bass: Option<Note>) -> (v: Vec<Chord>)
    ensures
        v@ == interpretations(classes@, bass),
{
    if classes.len() == 1 {
        let mut v: Vec<Chord> = Vec::new();
        v.push(Chord::new(make_root(least_member(classes))));
        assert(v@ =~= interpretations(classes@, bass));
        v
    } else {
        let ranked = rank(&generate(classes, bass));
        let mut v: Vec<Chord> = Vec::new();
        let mut k: usize = 0;
        while k < ranked.len()
            invariant
                k <= ranked.len(),
                v@.len() == k,
                forall|i: int| 0 <= i < k ==> v@[i] == ranked@[i].chord,
            decreases ranked.len() - k,
        {
            v.push(ranked[k].chord);
            k = k + 1;
        }
        assert(v@ =~= chords_of(ranked@));
        v
    }
}

/// Returns the other spellings of a root.
pub fn other_roots(root: NamedPitch) -> (v: Vec<NamedPitch>)
    ensures
        v@ == alternate_roots(root),
{
    let pitch = root.pitch();
    let sharp = pitch.sharp_spelling();
    let flat = pitch.flat_spelling();
    let own = root.index();
    let mut v: Vec<NamedPitch> = Vec::new();
    proof {
        NamedPitch::lemma_index_round_trip(root, 0);
        NamedPitch::lemma_index_round_trip(sharp, 0);
        NamedPitch::lemma_index_round_trip(flat, 0);
    }
    if sharp.index() != own {
        v.push(sharp);
    }
    if flat.index() != own && flat.index() != sharp.index() {
        v.push(flat);
    }
    assert(v@ =~= alternate_roots(root));
    v
}

/// Returns the chord with its names.
pub fn interpret(chord: Chord) -> (i: Interpretation)
    ensures
        i.chord == chord,
        i.is_named(),
{
    let canonical_name = chord.name();
    let roots = other_roots(chord.root.named_pitch);
    let mut alternate_names: Vec<String> = Vec::new();
    let mut k: usize = 0;
    while k < roots.len()
        invariant
            k <= roots.len(),
            roots@ == alternate_roots(chord.root.named_pitch),
            alternate_names@.len() == k,
            forall|j: int|
                0 <= j < k ==> (#[trigger] alternate_names@[j])@ == chord.name_with_root(roots@[j]),
        decreases roots.len() - k,
    {
        alternate_names.push(chord.render(roots[k]));
        k = k + 1;
    }
    Interpretation { chord, canonical_name, alternate_names }
}

/// Identifies the chords that a set of notes can stand for, the best
/// first, each with its names.
///
/// The set is taken without its octaves.  The bass, where one is given, is
/// taken to sound too, whether or not it is in the set.  A single pitch
/// class stands for its bare root: one chord, without modifiers or
/// extensions.  Otherwise each pitch class is tried as the root against the
/// catalog, the bass is taken into account, and the chords found are ranked
/// by [`rank_key`].  Every chord is reported on octave 4, in spread
/// voicing.
///
/// That no chord is found is an outcome, not a failure: the status is then
/// [`IdentifyStatus::NoInterpretation`].  Without a bass every chord is
/// reported in root position and the status says so.
pub fn identify(notes: &NoteSet, bass: Option<Note>) -> (r: Identification)
    ensures
        r.chords() == interpretations(sounding_classes(notes@, bass), bass),
        r.named(),
        r.status == status_of(r.interpretations@.len(), bass),
{
    let classes = match bass {
        Some(b) => notes.pitch_classes().insert(b.pitch_class_value()),
        None => notes.pitch_classes(),
    };
    let chords = interpret_classes(&classes, bass);
    let mut interpretations: Vec<Interpretation> = Vec::new();
    let mut k: usize = 0;
    while k < chords.len()
        invariant
            k <= chords.len(),
            interpretations@.len() == k,
            forall|i: int|
                0 <= i < k ==> (#[trigger] interpretations@[i]).chord == chords@[i]
                    && interpretations@[i].is_named(),
        decreases chords.len() - k,
    {
        interpretations.push(interpret(chords[k]));
        k = k + 1;
    }
    let status = if interpretations.len() == 0 {
        IdentifyStatus::NoInterpretation
    } else if bass.is_none() {
        IdentifyStatus::AmbiguousWithoutBassHint
    } else {
        IdentifyStatus::Resolved
    };
    let r = Identification { interpretations, status };
    assert(r.chords() =~= chords@);
    r
}

/// The distance between two pitch classes is the distance between any two
/// notes of them, octaves left out.
pub proof fn lemma_class_distance(a: int, b: int)
    ensures
        ((a + 9) % 12 - (b + 9) % 12) % 12 == (a - b) % 12,
{
}

/// Returns the lowest of the notes, and among notes that sound alike the
/// first.
pub fn find_lowest_note(notes: &[Note]) -> (lowest: Option<Note>)
    ensures
        lowest == lowest_note(notes@),
{
    let mut lowest: Option<Note> = None;
    let mut k: usize = 0;
    assert(notes@.take(0) =~= Seq::<Note>::empty());
    while k < notes.len()
        invariant
            k <= notes.len(),
            lowest == lowest_note(notes@.take(k as int)),
        decreases notes.len() - k,
    {
        assert(notes@.take(k as int + 1).drop_last() =~= notes@.take(k as int));
        lowest = match lowest {
            None => Some(notes[k]),
            Some(found) => if notes[k].id() < found.id() {
                Some(notes[k])
            } else {
                Some(found)
            },
        };
        k = k + 1;
    }
    assert(notes@.take(notes@.len() as int) =~= notes@);
    lowest
}

/// Returns the spelling of the first of the notes that sounds the pitch
/// class `class`.
pub fn find_class_spelling(notes: &[Note], class: u8) -> (spelling: Option<NamedPitch>)
    ensures
        spelling == class_spelling(notes@, class as int),
{
    let mut spelling: Option<NamedPitch> = None;
    let mut k: usize = 0;
    assert(notes@.take(0) =~= Seq::<Note>::empty());
    while k < notes.len()
        invariant
            k <= notes.len(),
            spelling == class_spelling(notes@.take(k as int), class as int),
        decreases notes.len() - k,
    {
        assert(notes@.take(k as int + 1).drop_last() =~= notes@.take(k as int));
        if spelling.is_none() && notes[k].pitch_class_value() == class {
            spelling = Some(notes[k].named_pitch);
        }
        k = k + 1;
    }
    assert(notes@.take(notes@.len() as int) =~= notes@);
    spelling
}

/// Returns the note that sounds like `root` and is spelled as the given
/// notes spell its pitch class.
pub fn spell_root(notes: &[Note], root: Note) -> (r: Note)
    ensures
        r == root_spelled(notes@, root),
        r.id_spec() == root.id_spec(),
{
    proof {
        lemma_root_spelled(notes@, root);
    }
    match find_class_spelling(notes, root.pitch_class_value()) {
        None => root,
        Some(spelling) => {
            proof {
                NamedPitch::lemma_ranges(spelling);
            }
            let base: i16 = Note::new(spelling, Octave::Zero).id() as i16;
            let above: i16 = root.id() as i16 - base;
            if above < 0 || above > 119 {
                root
            } else {
                match Octave::from_value((above / 12) as u8) {
                    Some(octave) => Note::new(spelling, octave),
                    None => root,
                }
            }
        },
    }
}

/// Identifies the chords that the given notes can stand for, with the
/// lowest of them as the bass, and with each root spelled as the notes
/// spell it.
///
/// The chords are those that [`identify`] finds for the set of the notes.
/// Each root sounds as it does there, and is spelled as the first of the
/// notes that sounds its pitch class.
pub fn identify_notes(notes: &[Note]) -> (r: Identification)
    ensures
        r.chords() == respelled(
            interpretations(
                sounding_classes(crate::note_set::ids_of(notes@), lowest_note(notes@)),
                lowest_note(notes@),
            ),
            notes@,
        ),
        r.named(),
        r.status == status_of(r.interpretations@.len(), lowest_note(notes@)),
{
    let bass = find_lowest_note(notes);
    let found = identify(&NoteSet::from_notes(notes), bass);
    let ghost chords = found.chords();
    let mut interpretations: Vec<Interpretation> = Vec::new();
    let mut k: usize = 0;
    while k < found.interpretations.len()
        invariant
            k <= found.interpretations@.len(),
            chords == found.chords(),
            interpretations@.len() == k,
            forall|i: int|
                0 <= i < k ==> (#[trigger] interpretations@[i]).chord == (Chord {
                    root: root_spelled(notes@, chords[i].root),
                    ..chords[i]
                }) && interpretations@[i].is_named(),
        decreases found.interpretations.len() - k,
    {
        let chord = found.interpretations[k].chord;
        assert(chord == chords[k as int]);
        interpretations.push(interpret(Chord { root: spell_root(notes, chord.root), ..chord }));
        k = k + 1;
    }
    let r = Identification { interpretations, status: found.status };
    assert(r.chords() =~= respelled(chords, notes@));
    r
}

/// A root that is spelled as given notes spell it sounds as before.
pub proof fn lemma_root_spelled(notes: Seq<Note>, root: Note)
    ensures
        root_spelled(notes, root).id_spec() == root.id_spec(),
{
    match class_spelling(notes, root.pitch_class()) {
        None => {},
        Some(spelling) => {
            lemma_class_spelling(notes, root.pitch_class());
            NamedPitch::lemma_pitch_is_letter_plus_accidental(spelling);
            Note::lemma_id(root);
            let above = root.id_spec() - 3 - spelling.offset();
            let octave = above / 12;
            assert(above % 12 == 0) by {
                crate::note::lemma_whole_octaves(root.id_spec() - 3, 1);
                lemma_same_class(root.id_spec() - 3, spelling.offset());
            }
            assert(above == 12 * octave);
            if 0 <= octave <= 9 {
                let spelled = Note { named_pitch: spelling, octave: Octave::of_number(octave) };
                Octave::lemma_number_round_trip(spelled.octave);
                assert(spelled.octave.number() == octave);
                assert(spelled.id_spec() == 12 * octave + spelling.offset() + 3);
            }
        },
    }
}

/// Two numbers of semitones that name one pitch class lie whole octaves
/// apart.
pub proof fn lemma_same_class(a: int, b: int)
    requires
        a % 12 == b % 12,
    ensures
        (a - b) % 12 == 0,
{
}

/// The spelling found for a pitch class sounds that pitch class.
pub proof fn lemma_class_spelling(notes: Seq<Note>, class: int)
    ensures
        class_spelling(notes, class) matches Some(spelling) ==> spelling.pitch_spec().semitone()
            == class,
    decreases notes.len(),
{
    if notes.len() > 0 {
        lemma_class_spelling(notes.drop_last(), class);
        Note::lemma_id(notes.last());
    }
}

/// A candidate goes in behind every candidate whose key is not greater than
/// its own, and before every candidate with a greater key behind that place.
pub proof fn lemma_slot_for(ranked: Seq<Candidate>, key: u32)
    ensures
        0 <= slot_for(ranked, key) <= ranked.len(),
        forall|i: int| slot_for(ranked, key) <= i < ranked.len()
            ==> (#[trigger] ranked[i]).key > key,
        slot_for(ranked, key) > 0 ==> ranked[slot_for(ranked, key) - 1].key <= key,
    decreases ranked.len(),
{
    if ranked.len() > 0 && ranked.last().key > key {
        lemma_slot_for(ranked.drop_last(), key);
        let slot = slot_for(ranked, key);
        assert forall|i: int| slot <= i < ranked.len() implies (#[trigger] ranked[i]).key > key by {
            if i < ranked.len() - 1 {
                assert(ranked.drop_last()[i] == ranked[i]);
            }
        }
        if slot > 0 {
            assert(ranked.drop_last()[slot - 1] == ranked[slot - 1]);
        }
    }
}

/// Ranking keeps every candidate, each as often as it was there.
pub proof fn lemma_ranked_keeps(candidates: Seq<Candidate>)
    ensures
        ranked(candidates).len() == candidates.len(),
        ranked(candidates).to_multiset() == candidates.to_multiset(),
    decreases candidates.len(),
{
    if candidates.len() == 0 {
        assert(ranked(candidates) =~= candidates);
    } else {
        let rest = candidates.drop_last();
        let last = candidates.last();
        let before = ranked(rest);
        let slot = slot_for(before, last.key);
        let after = ranked(candidates);
        lemma_ranked_keeps(rest);
        lemma_slot_for(before, last.key);
        assert(after == before.insert(slot, last));
        assert(after.remove(slot) =~= before);
        assert(after[slot] == last);
        assert(candidates =~= rest.push(last));
        assert(after.to_multiset() =~= before.to_multiset().insert(last)) by {
            vstd::seq_lib::to_multiset_remove(after, slot);
            after.to_multiset_ensures();
            assert(after.contains(last));
        }
        assert(candidates.to_multiset() =~= rest.to_multiset().insert(last)) by {
            vstd::seq_lib::to_multiset_build(rest, last);
        }
    }
}

/// Ranking puts the candidates in the order of their keys.
pub proof fn lemma_ranked_rises(candidates: Seq<Candidate>)
    ensures
        forall|i: int, j: int|
            0 <= i <= j < ranked(candidates).len() ==> (#[trigger] ranked(candidates)[i]).key <= (
            #[trigger] ranked(candidates)[j]).key,
    decreases candidates.len(),
{
    if candidates.len() > 0 {
        let rest = candidates.drop_last();
        let last = candidates.last();
        let before = ranked(rest);
        let slot = slot_for(before, last.key);
        let after = ranked(candidates);
        lemma_ranked_rises(rest);
        lemma_slot_for(before, last.key);
        assert(after == before.insert(slot, last));
        assert forall|i: int, j: int| 0 <= i <= j < after.len() implies (#[trigger] after[i]).key
            <= (#[trigger] after[j]).key by {
            let a = if i < slot {
                before[i]
            } else if i == slot {
                last
            } else {
                before[i - 1]
            };
            let b = if j < slot {
                before[j]
            } else if j == slot {
                last
            } else {
                before[j - 1]
            };
            assert(after[i] == a);
            assert(after[j] == b);
            if i < slot && j == slot {
                assert(before[i].key <= before[slot - 1].key);
            }
        }
    }
}

/// Ranking keeps every candidate, each as often as it was there, and puts
/// them in the order of their keys.
pub proof fn lemma_ranked(candidates: Seq<Candidate>)
    ensures
        ranked(candidates).len() == candidates.len(),
        ranked(candidates).to_multiset() == candidates.to_multiset(),
        forall|i: int, j: int|
            0 <= i <= j < candidates.len() ==> (#[trigger] ranked(candidates)[i]).key <= (
            #[trigger] ranked(candidates)[j]).key,
{
    lemma_ranked_keeps(candidates);
    lemma_ranked_rises(candidates);
}

/// Every ranked candidate is one of the candidates.
pub proof fn lemma_ranked_member(candidates: Seq<Candidate>, i: int) -> (j: int)
    requires
        0 <= i < ranked(candidates).len(),
    ensures
        0 <= j < candidates.len(),
        candidates[j] == ranked(candidates)[i],
{
    broadcast use vstd::seq_lib::group_to_multiset_ensures;

    lemma_ranked(candidates);
    let found = ranked(candidates)[i];
    assert(ranked(candidates).contains(found));
    assert(candidates.to_multiset().count(found) > 0);
    assert(candidates.contains(found));
    choose|j: int| 0 <= j < candidates.len() && candidates[j] == found
}

/// Every candidate is the candidate of one root, and the candidates stand
/// by rising root.
pub proof fn lemma_candidates(classes: Set<int>, bass: Option<Note>, n: nat, i: int) -> (root: int)
    requires
        0 <= i < candidates_upto(classes, bass, n).len(),
    ensures
        0 <= root < n,
        candidate_for(classes, bass, root) == Some(candidates_upto(classes, bass, n)[i]),
    decreases n,
{
    let before = candidates_upto(classes, bass, (n - 1) as nat);
    if i < before.len() {
        lemma_candidates(classes, bass, (n - 1) as nat, i)
    } else {
        n - 1
    }
}

} // verus!

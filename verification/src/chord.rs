//! Chords: a root with modifiers and extensions, and the notes it stands for.

use vstd::prelude::*;
use crate::base::{HasName, HasStaticName};
use crate::error::KordError;
use crate::interval::Interval;
use crate::modifier::{Extension, ExtensionSet, Modifier, ModifierSet};
use crate::named_pitch::{HasNamedPitch, NamedPitch};
use crate::note::Note;
use crate::octave::Octave;
use crate::pitch::Pitch;
use crate::tones::{has_tone, tone_at, tone_in_order, uses_tone, voiced, TONE_COUNT};

verus! {

/// The notes after the lowest `count` of them have each been put an octave
/// higher, one after the other, behind the rest; `None` where one of them
/// would leave the supported octaves.
pub open spec fn rotated(notes: Seq<Note>, count: nat) -> Option<Seq<Note>>
    decreases count,
{
    if count == 0 || notes.len() == 0 {
        Some(notes)
    } else {
        match notes[0].transposed(Interval::PerfectOctave) {
            Some(top) => rotated(notes.drop_first().push(top), (count - 1) as nat),
            None => None,
        }
    }
}

/// The number of notes that an inversion puts an octave higher: the
/// inversion counted round the number of the notes.
#[verifier::opaque]
pub open spec fn turns(inversion: nat, notes: nat) -> nat {
    if notes == 0 {
        0
    } else {
        inversion % notes
    }
}

/// An inversion turns fewer notes than there are, and as many as it says
/// where it says fewer than there are.
pub proof fn lemma_turns(inversion: nat, notes: nat)
    ensures
        notes > 0 ==> turns(inversion, notes) < notes,
        inversion < notes ==> turns(inversion, notes) == inversion,
        notes > 0 ==> turns(inversion, notes) == inversion % notes,
{
    reveal(turns);
    if notes > 0 {
        vstd::arithmetic::div_mod::lemma_mod_bound(inversion as int, notes as int);
    }
    if inversion < notes {
        vstd::arithmetic::div_mod::lemma_small_mod(inversion, notes);
    }
}

/// The lowest identity among the notes; 128 where there is no note.
pub open spec fn lowest_id(notes: Seq<Note>) -> int
    decreases notes.len(),
{
    if notes.len() == 0 {
        128
    } else {
        let rest = lowest_id(notes.drop_last());
        if notes.last().id_spec() < rest {
            notes.last().id_spec()
        } else {
            rest
        }
    }
}

/// The highest note with the given spelling that lies below the identity
/// `limit`; `None` where there is none.
pub open spec fn placed_below(named_pitch: NamedPitch, limit: int) -> Option<Note> {
    let base = named_pitch.offset() + 3;
    if base >= limit {
        None
    } else {
        let octave = if (limit - 1 - base) / 12 > 9 {
            9
        } else {
            (limit - 1 - base) / 12
        };
        Some(Note { named_pitch, octave: Octave::of_number(octave) })
    }
}

/// A chord: what a chord symbol says, as a value.
///
/// The descriptor holds the root, the set of modifiers and the set of
/// extensions, a slash note if the bass is no tone of the chord, the
/// inversion (0 for root position), and whether the voicing is close
/// (`crunchy`) or spread.  A descriptor is never changed: each `with_`
/// method gives a new one.
#[derive(Copy, Clone, Debug, PartialEq, Eq)]
pub struct Chord {
    /// The root, in the octave in which the chord is built.
    pub root: Note,
    /// The modifiers.
    pub modifiers: ModifierSet,
    /// The extensions.
    pub extensions: ExtensionSet,
    /// The note under the chord, where it is no tone of the chord.
    pub slash: Option<Note>,
    /// How many of the lowest tones sound an octave higher.
    pub inversion: u8,
    /// Whether the tones above the seventh sound an octave lower.
    pub crunchy: bool,
}

impl Chord {
    /// The major triad on `root` in root position and spread voicing.
    pub open spec fn major(root: Note) -> Chord {
        Chord {
            root,
            modifiers: ModifierSet::empty_spec(),
            extensions: ExtensionSet::empty_spec(),
            slash: None,
            inversion: 0,
            crunchy: false,
        }
    }

    /// The chord tones among the first `n` degrees, from the lowest degree
    /// up.
    pub open spec fn degrees_upto(self, n: nat) -> Seq<Interval>
        decreases n,
    {
        if n == 0 {
            Seq::empty()
        } else if uses_tone(self.modifiers, self.extensions, tone_at(false, n - 1)) {
            self.degrees_upto((n - 1) as nat).push(tone_at(false, n - 1))
        } else {
            self.degrees_upto((n - 1) as nat)
        }
    }

    /// The chord tones from the lowest degree up: root, third, fifth,
    /// seventh, ninth and so on.
    pub open spec fn degrees(self) -> Seq<Interval> {
        self.degrees_upto(18)
    }

    /// The chord tones among the first `n` places of the voicing's order.
    pub open spec fn voicing_upto(self, n: nat) -> Seq<Interval>
        decreases n,
    {
        if n == 0 {
            Seq::empty()
        } else if uses_tone(self.modifiers, self.extensions, tone_at(self.crunchy, n - 1)) {
            self.voicing_upto((n - 1) as nat).push(tone_at(self.crunchy, n - 1))
        } else {
            self.voicing_upto((n - 1) as nat)
        }
    }

    /// The chord tones in the order in which they are voiced: by degree in
    /// a spread voicing, by the height of the simple intervals in a close
    /// one.
    pub open spec fn voicing(self) -> Seq<Interval> {
        self.voicing_upto(18)
    }

    /// The notes of the chord tones among the first `n` places of the
    /// voicing's order; `None` where one of them would leave the supported
    /// octaves or would need more than three flats or sharps.
    pub open spec fn tone_notes_upto(self, n: nat) -> Option<Seq<Note>>
        decreases n,
    {
        if n == 0 {
            Some(Seq::empty())
        } else {
            match self.tone_notes_upto((n - 1) as nat) {
                None => None,
                Some(notes) => {
                    let tone = tone_at(self.crunchy, n - 1);
                    if uses_tone(self.modifiers, self.extensions, tone) {
                        match self.root.transposed(voiced(self.crunchy, tone)) {
                            Some(note) => Some(notes.push(note)),
                            None => None,
                        }
                    } else {
                        Some(notes)
                    }
                },
            }
        }
    }

    /// The notes of the chord tones, rising: each tone is the root moved by
    /// the interval at which the tone is voiced.
    pub open spec fn tone_notes(self) -> Option<Seq<Note>> {
        self.tone_notes_upto(18)
    }

    /// The notes of the chord, from the tones by inversion and slash note.
    ///
    /// The lowest `inversion` tones (counted round the number of tones) are
    /// put an octave higher behind the others.  A slash note then comes
    /// first, in the highest octave in which it lies below every tone.
    /// `None` where a note would leave the supported octaves or would need
    /// more than three flats or sharps.
    pub open spec fn built(self) -> Option<Seq<Note>> {
        match self.tone_notes() {
            None => None,
            Some(tones) => match rotated(tones, turns(self.inversion as nat, tones.len())) {
                None => None,
                Some(inverted) => match self.slash {
                    None => Some(inverted),
                    Some(bass) => match placed_below(bass.named_pitch, lowest_id(inverted)) {
                        None => None,
                        Some(lowest) => Some(seq![lowest] + inverted),
                    },
                },
            },
        }
    }

    /// Whether the chord sounds the pitch class `p`: as one of its tones, at
    /// a distance above the root at which the chord sounds, or as its slash
    /// note.
    pub open spec fn sounds(self, p: int) -> bool {
        0 <= p < 12 && (crate::tones::sounds_at(
            self.modifiers,
            self.extensions,
            (p - self.root.pitch_class()) % 12,
        ) || (self.slash is Some && self.slash.unwrap().pitch_class() == p))
    }

    /// The spelling of the tone that lies `tone` above the root: spelled by
    /// the interval's name, or, where that would need more than three flats
    /// or sharps, by the usual spelling of its pitch class.
    pub open spec fn tone_pitch(self, tone: Interval) -> NamedPitch {
        match self.root.with_octave_spec(Octave::Zero).transposed(tone) {
            Some(note) => note.named_pitch,
            None => Pitch::of_semitone(
                self.root.pitch_class() + tone.semitones_spec(),
            ).named_pitch_spec(),
        }
    }

    /// The spelling of the bass, where it is not the root: the slash note,
    /// or else the tone that the inversion puts first.
    pub open spec fn bass_pitch(self) -> Option<NamedPitch> {
        match self.slash {
            Some(bass) => Some(bass.named_pitch),
            None => {
                let place = turns(self.inversion as nat, self.voicing().len());
                if place == 0 {
                    None
                } else {
                    Some(self.tone_pitch(self.voicing()[place as int]))
                }
            },
        }
    }

    /// The part of the name that tells the bass: a stroke and the spelling
    /// of the bass, or nothing where the root is the bass.
    pub open spec fn bass_text(self) -> Seq<char> {
        match self.bass_pitch() {
            Some(pitch) => "/"@ + pitch.static_name_spec(),
            None => Seq::empty(),
        }
    }

    /// The name with the root spelled as `root`.
    pub open spec fn name_with_root(self, root: NamedPitch) -> Seq<char> {
        root.static_name_spec() + self.modifiers.text() + self.extensions.text() + self.bass_text()
    }

    /// Returns the major triad on `root` in root position and spread
    /// voicing.
    pub fn new(root: Note) -> (c: Chord)
        ensures
            c == Chord::major(root),
    {
        Chord {
            root,
            modifiers: ModifierSet::empty(),
            extensions: ExtensionSet::empty(),
            slash: None,
            inversion: 0,
            crunchy: false,
        }
    }

    /// Returns the chord with one more modifier.
    pub fn with_modifier(&self, modifier: Modifier) -> (c: Chord)
        ensures
            c == (Chord { modifiers: self.modifiers.with_spec(modifier), ..*self }),
    {
        Chord { modifiers: self.modifiers.with(modifier), ..*self }
    }

    /// Returns the chord with one more extension.
    pub fn with_extension(&self, extension: Extension) -> (c: Chord)
        ensures
            c == (Chord { extensions: self.extensions.with_spec(extension), ..*self }),
    {
        Chord { extensions: self.extensions.with(extension), ..*self }
    }

    /// Returns the chord with the given inversion.
    pub fn with_inversion(&self, inversion: u8) -> (c: Chord)
        ensures
            c == (Chord { inversion, ..*self }),
    {
        Chord { inversion, ..*self }
    }

    /// Returns the chord over the given slash note.
    pub fn with_slash(&self, slash: Note) -> (c: Chord)
        ensures
            c == (Chord { slash: Some(slash), ..*self }),
    {
        Chord { slash: Some(slash), ..*self }
    }

    /// Returns the chord with its root in the given octave.
    pub fn with_octave(&self, octave: Octave) -> (c: Chord)
        ensures
            c == (Chord { root: self.root.with_octave_spec(octave), ..*self }),
    {
        Chord { root: self.root.with_octave(octave), ..*self }
    }

    /// Returns the chord in close (`true`) or spread (`false`) voicing.
    pub fn with_crunchy(&self, crunchy: bool) -> (c: Chord)
        ensures
            c == (Chord { crunchy, ..*self }),
    {
        Chord { crunchy, ..*self }
    }

    /// Returns the root.
    pub fn root(&self) -> (n: Note)
        ensures
            n == self.root,
    {
        self.root
    }

    /// Returns the slash note, if there is one.
    pub fn slash(&self) -> (n: Option<Note>)
        ensures
            n == self.slash,
    {
        self.slash
    }

    /// Returns the inversion.
    pub fn inversion(&self) -> (i: u8)
        ensures
            i == self.inversion,
    {
        self.inversion
    }

    /// Tells whether the voicing is close.
    pub fn is_crunchy(&self) -> (b: bool)
        ensures
            b == self.crunchy,
    {
        self.crunchy
    }

    /// Returns the modifiers in the order in which they are written.
    pub fn modifiers(&self) -> (v: Vec<Modifier>)
        ensures
            v@ == self.modifiers.listed(),
    {
        self.modifiers.to_vec()
    }

    /// Returns the extensions in the order in which they are written.
    pub fn extensions(&self) -> (v: Vec<Extension>)
        ensures
            v@ == self.extensions.listed(),
    {
        self.extensions.to_vec()
    }

    /// Returns the chord tones in the order in which they are voiced.
    pub fn voicing_list(&self) -> (v: Vec<Interval>)
        ensures
            v@ == self.voicing(),
            v@.len() >= 1,
    {
        let mut v: Vec<Interval> = Vec::new();
        let mut place: u8 = 0;
        while place < TONE_COUNT
            invariant
                place <= TONE_COUNT,
                v@ == self.voicing_upto(place as nat),
                place >= 1 ==> v@.len() >= 1,
            decreases TONE_COUNT - place,
        {
            let tone = tone_in_order(self.crunchy, place);
            if has_tone(&self.modifiers, &self.extensions, tone) {
                v.push(tone);
            }
            place = place + 1;
        }
        v
    }

    /// Returns the chord tones from the lowest degree up.
    pub fn degree_list(&self) -> (v: Vec<Interval>)
        ensures
            v@ == self.degrees(),
            v@.len() >= 3,
    {
        let mut v: Vec<Interval> = Vec::new();
        let mut place: u8 = 0;
        while place < TONE_COUNT
            invariant
                place <= TONE_COUNT,
                v@ == self.degrees_upto(place as nat),
            decreases TONE_COUNT - place,
        {
            let tone = tone_in_order(false, place);
            if has_tone(&self.modifiers, &self.extensions, tone) {
                v.push(tone);
            }
            place = place + 1;
        }
        proof {
            self.lemma_degrees_len(18);
        }
        v
    }

    /// A chord has at least three tones: a root, a third and a fifth.
    pub proof fn lemma_degrees_len(self, n: nat)
        requires
            n <= 18,
        ensures
            self.degrees_upto(n).len() <= n,
            n >= 6 ==> self.degrees_upto(n).len() >= 3,
            n >= 1 ==> self.degrees_upto(n).len() >= 1 && self.degrees_upto(n)[0]
                == Interval::PerfectUnison,
        decreases n,
    {
        if n == 6 {
            reveal_with_fuel(Chord::degrees_upto, 7);
            crate::tones::lemma_triad(self.modifiers, self.extensions);
        } else if n == 1 {
            reveal_with_fuel(Chord::degrees_upto, 2);
        } else if n > 0 {
            self.lemma_degrees_len((n - 1) as nat);
        }
    }
}

/// Returns the lowest identity among the notes; 128 where there is none.
pub fn lowest_note_id(notes: &Vec<Note>) -> (id: u8)
    ensures
        id == lowest_id(notes@),
        id <= 128,
{
    let mut id: u8 = 128;
    let mut k: usize = 0;
    assert(notes@.take(0) =~= Seq::<Note>::empty());
    while k < notes.len()
        invariant
            k <= notes.len(),
            id == lowest_id(notes@.take(k as int)),
            id <= 128,
        decreases notes.len() - k,
    {
        assert(notes@.take(k as int + 1).drop_last() =~= notes@.take(k as int));
        let here = notes[k].id();
        if here < id {
            id = here;
        }
        k = k + 1;
    }
    assert(notes@.take(notes@.len() as int) =~= notes@);
    id
}

/// Returns the highest note with the given spelling that lies below the
/// identity `limit`.
///
/// Fails with [`KordError::InvalidOctaveRange`] where there is no such note.
pub fn place_below(named_pitch: NamedPitch, limit: u8) -> (r: Result<Note, KordError>)
    ensures
        match placed_below(named_pitch, limit as int) {
            Some(note) => r == Ok::<Note, KordError>(note),
            None => r == Err::<Note, KordError>(KordError::InvalidOctaveRange),
        },
{
    let base: u8 = Note::new(named_pitch, Octave::Zero).id();
    if base >= limit {
        Err(KordError::InvalidOctaveRange)
    } else {
        let wanted: u8 = (limit - 1 - base) / 12;
        let number: u8 = if wanted > 9 {
            9
        } else {
            wanted
        };
        match Octave::from_value(number) {
            Some(octave) => Ok(Note::new(named_pitch, octave)),
            None => Err(KordError::InvalidOctaveRange),
        }
    }
}

impl Chord {
    /// Returns the notes of the chord tones, rising.
    ///
    /// Fails with [`KordError::InvalidOctaveRange`] where a tone would
    /// leave the supported octaves or would need more than three flats or
    /// sharps.
    pub fn tone_note_list(&self) -> (r: Result<Vec<Note>, KordError>)
        ensures
            match self.tone_notes() {
                Some(notes) => r matches Ok(v) && v@ == notes && v@.len() >= 1,
                None => r matches Err(e) && e == KordError::InvalidOctaveRange,
            },
    {
        let mut notes: Vec<Note> = Vec::new();
        let mut place: u8 = 0;
        while place < TONE_COUNT
            invariant
                place <= TONE_COUNT,
                self.tone_notes_upto(place as nat) == Some(notes@),
                place >= 1 ==> notes@.len() >= 1,
            decreases TONE_COUNT - place,
        {
            let tone = tone_in_order(self.crunchy, place);
            if has_tone(&self.modifiers, &self.extensions, tone) {
                let interval = if self.crunchy {
                    tone.simple()
                } else {
                    tone
                };
                match self.root.add_interval(interval) {
                    Ok(note) => {
                        notes.push(note);
                    },
                    Err(e) => {
                        proof {
                            self.lemma_tone_notes_stay_none((place + 1) as nat, 18);
                        }
                        return Err(e);
                    },
                }
            }
            place = place + 1;
        }
        Ok(notes)
    }

    /// Returns the notes of the chord: its tones, rising, after inversion,
    /// over its slash note if it has one.
    ///
    /// The lowest `inversion` tones (counted round the number of tones) are
    /// put an octave higher behind the others.  A slash note then comes
    /// first, in the highest octave in which it lies below every tone.
    /// Fails with [`KordError::InvalidOctaveRange`] where a note would
    /// leave the supported octaves or would need more than three flats or
    /// sharps.
    pub fn build(&self) -> (r: Result<Vec<Note>, KordError>)
        ensures
            match self.built() {
                Some(notes) => r matches Ok(v) && v@ == notes,
                None => r matches Err(e) && e == KordError::InvalidOctaveRange,
            },
            r matches Ok(v) ==> forall|p: int| #[trigger]
                crate::build_proofs::note_classes(v@).contains(p) <==> self.sounds(p),
            r matches Ok(v) ==> self.slash is Some ==> v@.len() >= 2 && v@[0].named_pitch
                == self.slash.unwrap().named_pitch && forall|k: int|
                1 <= k < v@.len() ==> v@[0].id_spec() < (#[trigger] v@[k]).id_spec(),
    {
        proof {
            if self.built() is Some {
                crate::laws::law_build_classes(*self);
                if self.slash is Some {
                    crate::laws::law_slash_is_lowest(*self);
                }
            }
        }
        let mut notes = match self.tone_note_list() {
            Ok(notes) => notes,
            Err(e) => {
                return Err(e);
            },
        };
        let ghost tones = notes@;
        let count: usize = (self.inversion as usize) % notes.len();
        proof {
            lemma_turns(self.inversion as nat, tones.len());
        }
        let mut done: usize = 0;
        while done < count
            invariant
                done <= count,
                notes@.len() == tones.len(),
                notes@.len() >= 1,
                self.tone_notes() == Some(tones),
                count as nat == turns(self.inversion as nat, tones.len()),
                rotated(tones, count as nat) == rotated(notes@, (count - done) as nat),
            decreases count - done,
        {
            let top = match notes[0].add_interval(Interval::PerfectOctave) {
                Ok(top) => top,
                Err(e) => {
                    return Err(e);
                },
            };
            let ghost before = notes@;
            notes.remove(0);
            notes.push(top);
            assert(notes@ =~= before.drop_first().push(top));
            done = done + 1;
        }
        match self.slash {
            None => Ok(notes),
            Some(bass) => {
                let limit = lowest_note_id(&notes);
                match place_below(bass.named_pitch, limit) {
                    Ok(lowest) => {
                        let ghost inverted = notes@;
                        notes.insert(0, lowest);
                        assert(notes@ =~= seq![lowest] + inverted);
                        Ok(notes)
                    },
                    Err(e) => Err(e),
                }
            },
        }
    }

    /// Returns the spelling of the tone that lies `tone` above the root.
    pub fn spell_tone(&self, tone: Interval) -> (p: NamedPitch)
        ensures
            p == self.tone_pitch(tone),
    {
        match self.root.with_octave(Octave::Zero).add_interval(tone) {
            Ok(note) => note.named_pitch,
            Err(_) => {
                proof {
                    Note::lemma_id(self.root);
                }
                Pitch::from_semitone(self.root.pitch_class_value() + tone.semitones()).named_pitch()
            },
        }
    }

    /// Returns the spelling of the bass, where it is not the root.
    pub fn bass(&self) -> (p: Option<NamedPitch>)
        ensures
            p == self.bass_pitch(),
    {
        match self.slash {
            Some(bass) => Some(bass.named_pitch),
            None => {
                let tones = self.voicing_list();
                proof {
                    lemma_turns(self.inversion as nat, tones@.len());
                }
                let place: usize = (self.inversion as usize) % tones.len();
                if place == 0 {
                    None
                } else {
                    Some(self.spell_tone(tones[place]))
                }
            },
        }
    }

    /// Returns the name with the root spelled as `root`.
    pub fn render(&self, root: NamedPitch) -> (s: String)
        ensures
            s@ == self.name_with_root(root),
    {
        let mut s = String::from_str(root.static_name());
        self.modifiers.append_text(&mut s);
        self.extensions.append_text(&mut s);
        match self.bass() {
            Some(pitch) => {
                s.append("/");
                s.append(pitch.static_name());
                assert(s@ =~= self.name_with_root(root));
            },
            None => {
                assert(s@ =~= self.name_with_root(root));
            },
        }
        s
    }

    /// Once a tone cannot be placed, the tones cannot be placed.
    pub proof fn lemma_tone_notes_stay_none(self, n: nat, m: nat)
        requires
            n <= m,
            self.tone_notes_upto(n) is None,
        ensures
            self.tone_notes_upto(m) is None,
        decreases m,
    {
        if n < m {
            self.lemma_tone_notes_stay_none(n, (m - 1) as nat);
        }
    }
}

impl Chord {
    /// The name with the root's octave written behind the root, as in
    /// `C4maj7`.
    pub open spec fn precise_name_spec(self) -> Seq<char> {
        self.root.name_spec() + self.modifiers.text() + self.extensions.text() + self.bass_text()
    }

    /// Returns the name with the root's octave written behind the root.
    pub fn precise_name(&self) -> (s: String)
        ensures
            s@ == self.precise_name_spec(),
    {
        let mut s = self.root.name();
        self.modifiers.append_text(&mut s);
        self.extensions.append_text(&mut s);
        match self.bass() {
            Some(pitch) => {
                s.append("/");
                s.append(pitch.static_name());
                assert(s@ =~= self.precise_name_spec());
            },
            None => {
                assert(s@ =~= self.precise_name_spec());
            },
        }
        s
    }
}

impl HasName for Chord {
    /// The root's spelling, then the signs of the modifiers and of the
    /// extensions in their order of listing, then a stroke and the bass
    /// where the bass is not the root.
    open spec fn name_spec(&self) -> Seq<char> {
        self.name_with_root(self.root.named_pitch)
    }

    fn name(&self) -> (s: String) {
        self.render(self.root.named_pitch)
    }
}

} // verus!

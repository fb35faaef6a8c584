//! Notes: a spelled pitch in an octave.

use vstd::prelude::*;
use crate::base::{HasName, HasStaticName};
use crate::error::KordError;
use crate::interval::Interval;
use crate::named_pitch::{letter_base, HasLetter, HasNamedPitch, NamedPitch};
use crate::octave::{HasOctave, Octave};
use crate::pitch::{HasPitch, Pitch};
use core::cmp::Ordering;
use vstd::std_specs::cmp::{PartialEqSpecImpl, PartialOrdSpecImpl};

verus! {

/// The identity of the lowest note, `C` triple flat in octave 0.
pub const LOWEST_NOTE_ID: u8 = 0;

/// The identity of the highest note, `B` triple sharp in octave 9.
pub const HIGHEST_NOTE_ID: u8 = 125;

/// The identity of `A` in octave 4, the note of 440 Hz.
pub const REFERENCE_NOTE_ID: u8 = 60;

/// A spelled pitch in one of the ten octaves.
///
/// Two notes are equal, and are ordered, by their identity: `C♯4` and `D♭4`
/// are equal notes that are written differently.
#[derive(Copy, Clone, Debug)]
pub struct Note {
    /// The spelling.
    pub named_pitch: NamedPitch,
    /// The octave in which the letter lies.
    pub octave: Octave,
}

impl Note {
    /// The identity: the number of semitones above `C` triple flat in
    /// octave 0.  Notes that sound alike share it; it lies in `0..=125`.
    pub open spec fn id_spec(self) -> int {
        12 * self.octave.number() + self.named_pitch.offset() + 3
    }

    /// The pitch class, as semitones above `C`, in `0..12`.
    pub open spec fn pitch_class(self) -> int {
        (self.id_spec() + 9) % 12
    }

    /// The note that lies `semitones` higher and `steps` letters further on;
    /// `None` where that note would lie above octave 9 or would need more
    /// than three flats or sharps.
    #[verifier::opaque]
    pub open spec fn raised(self, steps: int, semitones: int) -> Option<Note> {
        let letter = self.named_pitch.letter_index() + steps;
        let octave = self.octave.number() + letter / 7;
        let accidental = self.id_spec() + semitones - 3 - 12 * octave - letter_base(letter % 7);
        if -3 <= accidental <= 3 && octave <= 9 {
            Some(
                Note {
                    named_pitch: NamedPitch::of_letter_accidental(letter % 7, accidental),
                    octave: Octave::of_number(octave),
                },
            )
        } else {
            None
        }
    }

    /// The note that lies `interval` above this one, spelled as the
    /// interval's name asks; `None` where that note would lie above octave 9
    /// or would need more than three flats or sharps.
    pub open spec fn transposed(self, interval: Interval) -> Option<Note> {
        self.raised(interval.steps_spec(), interval.semitones_spec())
    }

    /// The first of the first `n` intervals, in their order of declaration,
    /// that leads from this note to `other`, spelling and octave and all;
    /// `None` where none of them does.
    pub open spec fn interval_among(self, other: Note, n: nat) -> Option<Interval>
        decreases n,
    {
        if n == 0 {
            None
        } else {
            match self.interval_among(other, (n - 1) as nat) {
                Some(interval) => Some(interval),
                None => if self.transposed(Interval::at_rank(n - 1)) == Some(other) {
                    Some(Interval::at_rank(n - 1))
                } else {
                    None
                },
            }
        }
    }

    /// The interval that leads from this note up to `other`, spelling and
    /// octave and all; `None` where no named interval does.
    pub open spec fn interval_up_to(self, other: Note) -> Option<Interval> {
        self.interval_among(other, 28)
    }

    /// The same spelling in another octave.
    pub open spec fn with_octave_spec(self, octave: Octave) -> Note {
        Note { named_pitch: self.named_pitch, octave }
    }

    /// Makes the note with the given spelling in the given octave.
    pub fn new(named_pitch: NamedPitch, octave: Octave) -> (n: Note)
        ensures
            n.named_pitch == named_pitch,
            n.octave == octave,
    {
        Note { named_pitch, octave }
    }

    /// Returns the identity of the note.
    pub fn id(&self) -> (i: u8)
        ensures
            i == self.id_spec(),
            i <= HIGHEST_NOTE_ID,
    {
        proof {
            NamedPitch::lemma_ranges(self.named_pitch);
        }
        let base: i16 = letter_semitones(self.named_pitch.letter_number()) as i16;
        let offset: i16 = base + self.named_pitch.accidental_count() as i16;
        let i: i16 = 12 * (self.octave.value() as i16) + offset + 3;
        i as u8
    }

    /// Returns the pitch class as semitones above `C`.
    pub fn pitch_class_value(&self) -> (p: u8)
        ensures
            p == self.pitch_class(),
            p == self.pitch_spec().semitone(),
            p < 12,
    {
        proof {
            Note::lemma_id(*self);
        }
        (self.id() + 9) % 12
    }

    /// Returns the same spelling in another octave.
    pub fn with_octave(&self, octave: Octave) -> (n: Note)
        ensures
            n == self.with_octave_spec(octave),
    {
        Note { named_pitch: self.named_pitch, octave }
    }

    /// Returns the note that lies `interval` above this one.
    ///
    /// The upper note is spelled by the interval's name: a third above `C`
    /// is some `E`.  Fails with [`KordError::InvalidOctaveRange`]
    /// where the upper note would lie above octave 9 or would need more than
    /// three flats or sharps.
    pub fn add_interval(&self, interval: Interval) -> (r: Result<Note, KordError>)
        ensures
            r matches Ok(n) ==> self.transposed(interval) == Some(n) && n.id_spec()
                == self.id_spec() + interval.semitones_spec(),
            r matches Err(e) ==> self.transposed(interval) is None && e
                == KordError::InvalidOctaveRange,
    {
        proof {
            reveal(Note::raised);
            NamedPitch::lemma_ranges(self.named_pitch);
            if self.transposed(interval) is Some {
                Note::lemma_transposed(*self, interval);
            }
        }
        let letter: u8 = self.named_pitch.letter_number() + interval.steps();
        let octave: u8 = self.octave.value() + letter / 7;
        let target: i16 = self.id() as i16 + interval.semitones() as i16;
        let natural: i16 = 12 * (octave as i16) + letter_semitones(letter % 7) as i16 + 3;
        let accidental: i16 = target - natural;
        if accidental < -3 || accidental > 3 {
            return Err(KordError::InvalidOctaveRange);
        }
        let spelling = NamedPitch::from_letter_accidental(letter % 7, accidental as i8);
        match (spelling, Octave::from_value(octave)) {
            (Some(named_pitch), Some(octave)) => Ok(Note { named_pitch, octave }),
            _ => Err(KordError::InvalidOctaveRange),
        }
    }

    /// Returns the named interval that leads from this note up to `other`:
    /// the interval that, added to this note, gives `other` with its
    /// spelling and its octave.  There is none where `other` lies lower or
    /// more than an augmented thirteenth higher, or is spelled as no named
    /// interval spells it.
    pub fn interval_to(&self, other: &Note) -> (r: Option<Interval>)
        ensures
            r == self.interval_up_to(*other),
            r matches Some(interval) ==> self.transposed(interval) == Some(*other),
            forall|interval: Interval|
                self.transposed(interval) == Some(*other) ==> r == Some(interval),
    {
        let mut found: Option<Interval> = None;
        let mut rank: u8 = 0;
        while rank < 28
            invariant
                rank <= 28,
                found == self.interval_among(*other, rank as nat),
            decreases 28 - rank,
        {
            if found.is_none() {
                let interval = Interval::from_rank(rank);
                match self.add_interval(interval) {
                    Ok(note) => {
                        proof {
                            NamedPitch::lemma_index_round_trip(note.named_pitch, 0);
                            NamedPitch::lemma_index_round_trip(other.named_pitch, 0);
                            Octave::lemma_number_round_trip(note.octave);
                            Octave::lemma_number_round_trip(other.octave);
                        }
                        if note.named_pitch.index() == other.named_pitch.index()
                            && note.octave.value() == other.octave.value() {
                            found = Some(interval);
                        }
                    },
                    Err(_) => {},
                }
            }
            rank = rank + 1;
        }
        proof {
            Note::lemma_interval_among(*self, *other, 28);
            assert forall|interval: Interval|
                self.transposed(interval) == Some(*other) implies found == Some(interval) by {
                Interval::lemma_rank_round_trip(interval, 0);
                Note::lemma_interval_found(*self, *other, 28, interval);
            }
        }
        found
    }

    /// The interval found among the first intervals leads to the other note.
    pub proof fn lemma_interval_among(a: Note, b: Note, n: nat)
        ensures
            a.interval_among(b, n) matches Some(interval) ==> a.transposed(interval) == Some(b),
        decreases n,
    {
        if n > 0 {
            Note::lemma_interval_among(a, b, (n - 1) as nat);
        }
    }

    /// An interval that leads to the other note is the interval found.
    pub proof fn lemma_interval_found(a: Note, b: Note, n: nat, interval: Interval)
        requires
            a.transposed(interval) == Some(b),
            interval.rank_spec() < n,
        ensures
            a.interval_among(b, n) == Some(interval),
        decreases n,
    {
        Note::lemma_interval_among(a, b, (n - 1) as nat);
        if interval.rank_spec() < n - 1 {
            Note::lemma_interval_found(a, b, (n - 1) as nat, interval);
        } else {
            Interval::lemma_rank_round_trip(interval, 0);
            match a.interval_among(b, (n - 1) as nat) {
                Some(earlier) => {
                    Note::lemma_one_interval(a, b, earlier, interval);
                },
                None => {},
            }
        }
    }

    /// At most one interval leads from one note to another.
    pub proof fn lemma_one_interval(a: Note, b: Note, first: Interval, second: Interval)
        requires
            a.transposed(first) == Some(b),
            a.transposed(second) == Some(b),
        ensures
            first == second,
    {
        Interval::lemma_simple(first);
        Interval::lemma_simple(second);
        Note::lemma_raised(a, first.steps_spec(), first.semitones_spec());
        Note::lemma_raised(a, second.steps_spec(), second.semitones_spec());
        NamedPitch::lemma_ranges(a.named_pitch);
        let letter = a.named_pitch.letter_index();
        let x = letter + first.steps_spec();
        let y = letter + second.steps_spec();
        assert(x / 7 == y / 7 && x % 7 == y % 7);
        assert(x == y);
        Interval::lemma_determined(first, second);
    }

    /// Returns the signed number of semitones from `A` in octave 4, the note
    /// of 440 Hz, up to this note.  The frequency of the note is 440 Hz
    /// times two to the power of a twelfth of this number.
    pub fn semitones_from_reference(&self) -> (d: i16)
        ensures
            d == self.id_spec() - REFERENCE_NOTE_ID,
            -60 <= d <= 65,
    {
        self.id() as i16 - REFERENCE_NOTE_ID as i16
    }

    /// Returns the signed number of semitones from this note up to `other`.
    pub fn semitones_to(&self, other: &Note) -> (d: i16)
        ensures
            d == other.id_spec() - self.id_spec(),
            -125 <= d <= 125,
    {
        other.id() as i16 - self.id() as i16
    }

    /// Returns the distance from this note up to the next note of `other`'s
    /// pitch class, in `0..12`: the distance with the octaves left out.
    pub fn distance_mod12(&self, other: &Note) -> (d: u8)
        ensures
            d == (other.id_spec() - self.id_spec()) % 12,
            d < 12,
    {
        let delta: i16 = other.id() as i16 - self.id() as i16;
        ((delta + 132) % 12) as u8
    }

    /// The identity tells the pitch class, and lies within the 128 places of
    /// a note set.
    pub proof fn lemma_id(n: Note)
        ensures
            0 <= n.id_spec() <= 125,
            n.pitch_class() == n.pitch_spec().semitone(),
            0 <= n.pitch_class() < 12,
    {
        NamedPitch::lemma_ranges(n.named_pitch);
        NamedPitch::lemma_pitch_is_letter_plus_accidental(n.named_pitch);
        Octave::lemma_number_round_trip(n.octave);
        let offset = n.named_pitch.offset();
        let octave = n.octave.number();
        assert(n.id_spec() + 9 == offset + 12 * (octave + 1));
        assert((offset + 12 * (octave + 1)) % 12 == offset % 12) by {
            lemma_whole_octaves(offset, octave + 1);
        }
    }

    /// A raised note lies the given semitones higher, on the letter the
    /// given steps lead to.
    pub proof fn lemma_raised(n: Note, steps: int, semitones: int)
        requires
            0 <= steps,
            n.raised(steps, semitones) is Some,
        ensures
            n.raised(steps, semitones).unwrap().id_spec() == n.id_spec() + semitones,
            n.raised(steps, semitones).unwrap().named_pitch.letter_index() == (
            n.named_pitch.letter_index() + steps) % 7,
            n.raised(steps, semitones).unwrap().octave.number() == n.octave.number() + (
            n.named_pitch.letter_index() + steps) / 7,
    {
        reveal(Note::raised);
        let letter = n.named_pitch.letter_index() + steps;
        let octave = n.octave.number() + letter / 7;
        let accidental = n.id_spec() + semitones - 3 - 12 * octave - letter_base(letter % 7);
        let m = n.raised(steps, semitones).unwrap();
        NamedPitch::lemma_ranges(n.named_pitch);
        Octave::lemma_number_round_trip(n.octave);
        NamedPitch::lemma_letter_accidental(letter % 7, accidental);
        NamedPitch::lemma_ranges(m.named_pitch);
    }

    /// A note can be raised exactly where the note it leads to lies in the
    /// supported octaves and needs at most three flats or sharps.
    pub proof fn lemma_raised_exists(n: Note, steps: int, semitones: int)
        ensures
            n.raised(steps, semitones) is Some <==> (n.octave.number() + (
            n.named_pitch.letter_index() + steps) / 7 <= 9 && -3 <= n.named_pitch.offset()
                + semitones - 12 * ((n.named_pitch.letter_index() + steps) / 7) - letter_base(
                (n.named_pitch.letter_index() + steps) % 7,
            ) <= 3),
    {
        reveal(Note::raised);
    }

    /// A raised note is spelled with the letter that the steps lead to, and
    /// with the accidental that the semitones then ask for.
    pub proof fn lemma_raised_spelling(n: Note, steps: int, semitones: int)
        requires
            n.raised(steps, semitones) is Some,
        ensures
            n.raised(steps, semitones).unwrap().named_pitch == NamedPitch::of_letter_accidental(
                (n.named_pitch.letter_index() + steps) % 7,
                n.named_pitch.offset() + semitones - 12 * ((n.named_pitch.letter_index() + steps)
                    / 7) - letter_base((n.named_pitch.letter_index() + steps) % 7),
            ),
    {
        reveal(Note::raised);
    }

    /// A note is the note a unison above it.
    pub proof fn lemma_unison(n: Note)
        ensures
            n.transposed(Interval::PerfectUnison) == Some(n),
    {
        reveal(Note::raised);
        NamedPitch::lemma_ranges(n.named_pitch);
        NamedPitch::lemma_spelling_round_trip(n.named_pitch);
        Octave::lemma_number_round_trip(n.octave);
        let letter = n.named_pitch.letter_index();
        let octave = n.octave.number();
        assert(letter / 7 == 0);
        assert(letter % 7 == letter);
        let accidental = n.id_spec() + 0 - 3 - 12 * octave - letter_base(letter);
        assert(accidental == n.named_pitch.accidental());
        assert(n.raised(0, 0) == Some(
            Note {
                named_pitch: NamedPitch::of_letter_accidental(letter, accidental),
                octave: Octave::of_number(octave),
            },
        ));
    }

    /// A transposed note lies the interval's semitones higher, on the letter
    /// the interval's steps lead to.
    pub proof fn lemma_transposed(n: Note, interval: Interval)
        requires
            n.transposed(interval) is Some,
        ensures
            n.transposed(interval).unwrap().id_spec() == n.id_spec() + interval.semitones_spec(),
            n.transposed(interval).unwrap().named_pitch.letter_index() == (
            n.named_pitch.letter_index() + interval.steps_spec()) % 7,
            n.transposed(interval).unwrap().pitch_class() == (n.pitch_class()
                + interval.semitones_spec()) % 12,
    {
        let steps = interval.steps_spec();
        let semitones = interval.semitones_spec();
        Interval::lemma_simple(interval);
        Note::lemma_raised(n, steps, semitones);
        lemma_add_mod12(n.id_spec() + 9, semitones);
    }
}

/// Whole octaves do not change a pitch class.
pub proof fn lemma_whole_octaves(semitones: int, octaves: int)
    ensures
        (semitones + 12 * octaves) % 12 == semitones % 12,
{
}

/// Adding before or after reducing to one octave gives the same pitch class.
pub proof fn lemma_add_mod12(a: int, b: int)
    ensures
        (a + b) % 12 == (a % 12 + b) % 12,
        (a + b) % 12 == (a % 12 + b % 12) % 12,
        (a + 12) % 12 == a % 12,
        0 <= a % 12 < 12,
{
}

/// Returns the semitones from `C` up to the natural pitch of a letter
/// numbered from `C` (0) to `B` (6 and beyond).
pub fn letter_semitones(letter: u8) -> (s: u8)
    ensures
        s == letter_base(letter as int),
        s <= 11,
{
    if letter == 0 {
        0
    } else if letter == 1 {
        2
    } else if letter == 2 {
        4
    } else if letter == 3 {
        5
    } else if letter == 4 {
        7
    } else if letter == 5 {
        9
    } else {
        11
    }
}

impl PartialEq for Note {
    fn eq(&self, other: &Note) -> (b: bool) {
        self.id() == other.id()
    }
}

impl Eq for Note {

}

impl PartialEqSpecImpl for Note {
    open spec fn obeys_eq_spec() -> bool {
        true
    }

    open spec fn eq_spec(&self, other: &Note) -> bool {
        self.id_spec() == other.id_spec()
    }
}

impl PartialOrd for Note {
    fn partial_cmp(&self, other: &Note) -> (o: Option<Ordering>) {
        let a = self.id();
        let b = other.id();
        if a < b {
            Some(Ordering::Less)
        } else if a == b {
            Some(Ordering::Equal)
        } else {
            Some(Ordering::Greater)
        }
    }
}

impl PartialOrdSpecImpl for Note {
    open spec fn obeys_partial_cmp_spec() -> bool {
        true
    }

    open spec fn partial_cmp_spec(&self, other: &Note) -> Option<Ordering> {
        if self.id_spec() < other.id_spec() {
            Some(Ordering::Less)
        } else if self.id_spec() == other.id_spec() {
            Some(Ordering::Equal)
        } else {
            Some(Ordering::Greater)
        }
    }
}

impl HasNamedPitch for Note {
    open spec fn named_pitch_spec(&self) -> NamedPitch {
        self.named_pitch
    }

    fn named_pitch(&self) -> (p: NamedPitch) {
        self.named_pitch
    }
}

impl HasOctave for Note {
    open spec fn octave_spec(&self) -> Octave {
        self.octave
    }

    fn octave(&self) -> (o: Octave) {
        self.octave
    }
}

impl HasPitch for Note {
    open spec fn pitch_spec(&self) -> Pitch {
        self.named_pitch.pitch_spec()
    }

    fn pitch(&self) -> (p: Pitch) {
        self.named_pitch.pitch()
    }
}

impl HasLetter for Note {
    open spec fn letter_spec(&self) -> Seq<char> {
        self.named_pitch.letter_spec()
    }

    fn letter(&self) -> (s: &'static str) {
        self.named_pitch.letter()
    }
}

impl HasName for Note {
    /// The spelling followed by the octave's digit, as in `C♯4`.
    open spec fn name_spec(&self) -> Seq<char> {
        self.named_pitch.static_name_spec() + self.octave.static_name_spec()
    }

    fn name(&self) -> (s: String) {
        let mut s = String::from_str(self.named_pitch.static_name());
        s.append(self.octave.static_name());
        s
    }
}

} // verus!

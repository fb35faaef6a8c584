//! Named intervals: a distance in semitones together with a distance in letters.

use vstd::prelude::*;
use crate::base::HasStaticName;

verus! {

/// A rising interval with its conventional name.
///
/// The name fixes two distances: the semitones, and the number of letters
/// stepped over, which decides how the upper note is spelled.
#[derive(PartialEq, Eq, Copy, Clone, Hash, Debug, Ord, PartialOrd, Structural)]
pub enum Interval {
    PerfectUnison,
    MinorSecond,
    MajorSecond,
    AugmentedSecond,
    MinorThird,
    MajorThird,
    DiminishedFourth,
    PerfectFourth,
    AugmentedFourth,
    DiminishedFifth,
    PerfectFifth,
    AugmentedFifth,
    MinorSixth,
    MajorSixth,
    AugmentedSixth,
    DiminishedSeventh,
    MinorSeventh,
    MajorSeventh,
    PerfectOctave,
    MinorNinth,
    MajorNinth,
    AugmentedNinth,
    DiminishedEleventh,
    PerfectEleventh,
    AugmentedEleventh,
    MinorThirteenth,
    MajorThirteenth,
    AugmentedThirteenth,
}

impl Interval {
    /// The distance in semitones.
    pub open spec fn semitones_spec(self) -> int {
        match self {
            Interval::PerfectUnison => 0,
            Interval::MinorSecond => 1,
            Interval::MajorSecond => 2,
            Interval::AugmentedSecond => 3,
            Interval::MinorThird => 3,
            Interval::MajorThird => 4,
            Interval::DiminishedFourth => 4,
            Interval::PerfectFourth => 5,
            Interval::AugmentedFourth => 6,
            Interval::DiminishedFifth => 6,
            Interval::PerfectFifth => 7,
            Interval::AugmentedFifth => 8,
            Interval::MinorSixth => 8,
            Interval::MajorSixth => 9,
            Interval::AugmentedSixth => 10,
            Interval::DiminishedSeventh => 9,
            Interval::MinorSeventh => 10,
            Interval::MajorSeventh => 11,
            Interval::PerfectOctave => 12,
            Interval::MinorNinth => 13,
            Interval::MajorNinth => 14,
            Interval::AugmentedNinth => 15,
            Interval::DiminishedEleventh => 16,
            Interval::PerfectEleventh => 17,
            Interval::AugmentedEleventh => 18,
            Interval::MinorThirteenth => 20,
            Interval::MajorThirteenth => 21,
            Interval::AugmentedThirteenth => 22,
        }
    }

    /// The distance in letters: 0 for a unison, 2 for a third, 8 for a ninth.
    pub open spec fn steps_spec(self) -> int {
        match self {
            Interval::PerfectUnison => 0,
            Interval::MinorSecond => 1,
            Interval::MajorSecond => 1,
            Interval::AugmentedSecond => 1,
            Interval::MinorThird => 2,
            Interval::MajorThird => 2,
            Interval::DiminishedFourth => 3,
            Interval::PerfectFourth => 3,
            Interval::AugmentedFourth => 3,
            Interval::DiminishedFifth => 4,
            Interval::PerfectFifth => 4,
            Interval::AugmentedFifth => 4,
            Interval::MinorSixth => 5,
            Interval::MajorSixth => 5,
            Interval::AugmentedSixth => 5,
            Interval::DiminishedSeventh => 6,
            Interval::MinorSeventh => 6,
            Interval::MajorSeventh => 6,
            Interval::PerfectOctave => 7,
            Interval::MinorNinth => 8,
            Interval::MajorNinth => 8,
            Interval::AugmentedNinth => 8,
            Interval::DiminishedEleventh => 10,
            Interval::PerfectEleventh => 10,
            Interval::AugmentedEleventh => 10,
            Interval::MinorThirteenth => 12,
            Interval::MajorThirteenth => 12,
            Interval::AugmentedThirteenth => 12,
        }
    }

    /// The interval brought within one octave: a ninth becomes a second, an
    /// octave a unison.
    pub open spec fn simple_spec(self) -> Interval {
        match self {
            Interval::PerfectUnison => Interval::PerfectUnison,
            Interval::MinorSecond => Interval::MinorSecond,
            Interval::MajorSecond => Interval::MajorSecond,
            Interval::AugmentedSecond => Interval::AugmentedSecond,
            Interval::MinorThird => Interval::MinorThird,
            Interval::MajorThird => Interval::MajorThird,
            Interval::DiminishedFourth => Interval::DiminishedFourth,
            Interval::PerfectFourth => Interval::PerfectFourth,
            Interval::AugmentedFourth => Interval::AugmentedFourth,
            Interval::DiminishedFifth => Interval::DiminishedFifth,
            Interval::PerfectFifth => Interval::PerfectFifth,
            Interval::AugmentedFifth => Interval::AugmentedFifth,
            Interval::MinorSixth => Interval::MinorSixth,
            Interval::MajorSixth => Interval::MajorSixth,
            Interval::AugmentedSixth => Interval::AugmentedSixth,
            Interval::DiminishedSeventh => Interval::DiminishedSeventh,
            Interval::MinorSeventh => Interval::MinorSeventh,
            Interval::MajorSeventh => Interval::MajorSeventh,
            Interval::PerfectOctave => Interval::PerfectUnison,
            Interval::MinorNinth => Interval::MinorSecond,
            Interval::MajorNinth => Interval::MajorSecond,
            Interval::AugmentedNinth => Interval::AugmentedSecond,
            Interval::DiminishedEleventh => Interval::DiminishedFourth,
            Interval::PerfectEleventh => Interval::PerfectFourth,
            Interval::AugmentedEleventh => Interval::AugmentedFourth,
            Interval::MinorThirteenth => Interval::MinorSixth,
            Interval::MajorThirteenth => Interval::MajorSixth,
            Interval::AugmentedThirteenth => Interval::AugmentedSixth,
        }
    }

    /// The conventional names of a distance of `distance` semitones within
    /// one octave.  The tritone has two; every other distance has one.
    pub open spec fn names_of_distance(distance: int) -> Seq<Interval> {
        if distance == 0 {
            seq![Interval::PerfectUnison]
        } else if distance == 1 {
            seq![Interval::MinorSecond]
        } else if distance == 2 {
            seq![Interval::MajorSecond]
        } else if distance == 3 {
            seq![Interval::MinorThird]
        } else if distance == 4 {
            seq![Interval::MajorThird]
        } else if distance == 5 {
            seq![Interval::PerfectFourth]
        } else if distance == 6 {
            seq![Interval::AugmentedFourth, Interval::DiminishedFifth]
        } else if distance == 7 {
            seq![Interval::PerfectFifth]
        } else if distance == 8 {
            seq![Interval::MinorSixth]
        } else if distance == 9 {
            seq![Interval::MajorSixth]
        } else if distance == 10 {
            seq![Interval::MinorSeventh]
        } else {
            seq![Interval::MajorSeventh]
        }
    }

    /// Returns the distance in semitones.
    pub fn semitones(&self) -> (n: u8)
        ensures
            n == self.semitones_spec(),
            n <= 22,
    {
        match self {
            Interval::PerfectUnison => 0,
            Interval::MinorSecond => 1,
            Interval::MajorSecond => 2,
            Interval::AugmentedSecond => 3,
            Interval::MinorThird => 3,
            Interval::MajorThird => 4,
            Interval::DiminishedFourth => 4,
            Interval::PerfectFourth => 5,
            Interval::AugmentedFourth => 6,
            Interval::DiminishedFifth => 6,
            Interval::PerfectFifth => 7,
            Interval::AugmentedFifth => 8,
            Interval::MinorSixth => 8,
            Interval::MajorSixth => 9,
            Interval::AugmentedSixth => 10,
            Interval::DiminishedSeventh => 9,
            Interval::MinorSeventh => 10,
            Interval::MajorSeventh => 11,
            Interval::PerfectOctave => 12,
            Interval::MinorNinth => 13,
            Interval::MajorNinth => 14,
            Interval::AugmentedNinth => 15,
            Interval::DiminishedEleventh => 16,
            Interval::PerfectEleventh => 17,
            Interval::AugmentedEleventh => 18,
            Interval::MinorThirteenth => 20,
            Interval::MajorThirteenth => 21,
            Interval::AugmentedThirteenth => 22,
        }
    }

    /// Returns the distance in letters.
    pub fn steps(&self) -> (n: u8)
        ensures
            n == self.steps_spec(),
            n <= 12,
    {
        match self {
            Interval::PerfectUnison => 0,
            Interval::MinorSecond => 1,
            Interval::MajorSecond => 1,
            Interval::AugmentedSecond => 1,
            Interval::MinorThird => 2,
            Interval::MajorThird => 2,
            Interval::DiminishedFourth => 3,
            Interval::PerfectFourth => 3,
            Interval::AugmentedFourth => 3,
            Interval::DiminishedFifth => 4,
            Interval::PerfectFifth => 4,
            Interval::AugmentedFifth => 4,
            Interval::MinorSixth => 5,
            Interval::MajorSixth => 5,
            Interval::AugmentedSixth => 5,
            Interval::DiminishedSeventh => 6,
            Interval::MinorSeventh => 6,
            Interval::MajorSeventh => 6,
            Interval::PerfectOctave => 7,
            Interval::MinorNinth => 8,
            Interval::MajorNinth => 8,
            Interval::AugmentedNinth => 8,
            Interval::DiminishedEleventh => 10,
            Interval::PerfectEleventh => 10,
            Interval::AugmentedEleventh => 10,
            Interval::MinorThirteenth => 12,
            Interval::MajorThirteenth => 12,
            Interval::AugmentedThirteenth => 12,
        }
    }

    /// Returns the interval brought within one octave.
    pub fn simple(&self) -> (i: Interval)
        ensures
            i == self.simple_spec(),
            i.semitones_spec() == self.semitones_spec() % 12,
            i.steps_spec() == self.steps_spec() % 7,
    {
        match self {
            Interval::PerfectUnison => Interval::PerfectUnison,
            Interval::MinorSecond => Interval::MinorSecond,
            Interval::MajorSecond => Interval::MajorSecond,
            Interval::AugmentedSecond => Interval::AugmentedSecond,
            Interval::MinorThird => Interval::MinorThird,
            Interval::MajorThird => Interval::MajorThird,
            Interval::DiminishedFourth => Interval::DiminishedFourth,
            Interval::PerfectFourth => Interval::PerfectFourth,
            Interval::AugmentedFourth => Interval::AugmentedFourth,
            Interval::DiminishedFifth => Interval::DiminishedFifth,
            Interval::PerfectFifth => Interval::PerfectFifth,
            Interval::AugmentedFifth => Interval::AugmentedFifth,
            Interval::MinorSixth => Interval::MinorSixth,
            Interval::MajorSixth => Interval::MajorSixth,
            Interval::AugmentedSixth => Interval::AugmentedSixth,
            Interval::DiminishedSeventh => Interval::DiminishedSeventh,
            Interval::MinorSeventh => Interval::MinorSeventh,
            Interval::MajorSeventh => Interval::MajorSeventh,
            Interval::PerfectOctave => Interval::PerfectUnison,
            Interval::MinorNinth => Interval::MinorSecond,
            Interval::MajorNinth => Interval::MajorSecond,
            Interval::AugmentedNinth => Interval::AugmentedSecond,
            Interval::DiminishedEleventh => Interval::DiminishedFourth,
            Interval::PerfectEleventh => Interval::PerfectFourth,
            Interval::AugmentedEleventh => Interval::AugmentedFourth,
            Interval::MinorThirteenth => Interval::MinorSixth,
            Interval::MajorThirteenth => Interval::MajorSixth,
            Interval::AugmentedThirteenth => Interval::AugmentedSixth,
        }
    }

    /// Returns the conventional names of a distance of `distance mod 12`
    /// semitones.  Which of the two names of the tritone is meant is left to
    /// the caller.
    pub fn named(distance: u8) -> (names: Vec<Interval>)
        ensures
            names@ == Interval::names_of_distance((distance % 12) as int),
            names@.len() == if distance % 12 == 6 { 2nat } else { 1nat },
            forall|i: int| 0 <= i < names@.len() ==> names@[i].semantic_distance() == distance % 12,
    {
        let d: u8 = distance % 12;
        let mut names: Vec<Interval> = Vec::new();
        if d == 0 {
            names.push(Interval::PerfectUnison);
        } else if d == 1 {
            names.push(Interval::MinorSecond);
        } else if d == 2 {
            names.push(Interval::MajorSecond);
        } else if d == 3 {
            names.push(Interval::MinorThird);
        } else if d == 4 {
            names.push(Interval::MajorThird);
        } else if d == 5 {
            names.push(Interval::PerfectFourth);
        } else if d == 6 {
            names.push(Interval::AugmentedFourth);
            names.push(Interval::DiminishedFifth);
        } else if d == 7 {
            names.push(Interval::PerfectFifth);
        } else if d == 8 {
            names.push(Interval::MinorSixth);
        } else if d == 9 {
            names.push(Interval::MajorSixth);
        } else if d == 10 {
            names.push(Interval::MinorSeventh);
        } else {
            names.push(Interval::MajorSeventh);
        }
        names
    }

    /// The distance in semitones, reduced to one octave.
    pub open spec fn semantic_distance(self) -> int {
        self.semitones_spec() % 12
    }

    /// Bringing an interval within one octave takes whole octaves away, in
    /// semitones and in letters alike, and leaves a simple interval alone.
    pub proof fn lemma_simple(i: Interval)
        ensures
            0 <= i.semitones_spec() <= 22,
            0 <= i.steps_spec() <= 12,
            i.simple_spec().semitones_spec() == i.semitones_spec() % 12,
            i.simple_spec().steps_spec() == i.steps_spec() % 7,
            i.simple_spec().simple_spec() == i.simple_spec(),
    {
    }
}

impl Interval {
    /// The place of the interval in the order of declaration, in `0..28`.
    pub open spec fn rank_spec(self) -> int {
        match self {
            Interval::PerfectUnison => 0,
            Interval::MinorSecond => 1,
            Interval::MajorSecond => 2,
            Interval::AugmentedSecond => 3,
            Interval::MinorThird => 4,
            Interval::MajorThird => 5,
            Interval::DiminishedFourth => 6,
            Interval::PerfectFourth => 7,
            Interval::AugmentedFourth => 8,
            Interval::DiminishedFifth => 9,
            Interval::PerfectFifth => 10,
            Interval::AugmentedFifth => 11,
            Interval::MinorSixth => 12,
            Interval::MajorSixth => 13,
            Interval::AugmentedSixth => 14,
            Interval::DiminishedSeventh => 15,
            Interval::MinorSeventh => 16,
            Interval::MajorSeventh => 17,
            Interval::PerfectOctave => 18,
            Interval::MinorNinth => 19,
            Interval::MajorNinth => 20,
            Interval::AugmentedNinth => 21,
            Interval::DiminishedEleventh => 22,
            Interval::PerfectEleventh => 23,
            Interval::AugmentedEleventh => 24,
            Interval::MinorThirteenth => 25,
            Interval::MajorThirteenth => 26,
            Interval::AugmentedThirteenth => 27,
        }
    }

    /// The interval at a place of the order of declaration; the last one
    /// beyond its end.
    pub open spec fn at_rank(rank: int) -> Interval {
        if rank <= 0 {
            Interval::PerfectUnison
        } else if rank == 1 {
            Interval::MinorSecond
        } else if rank == 2 {
            Interval::MajorSecond
        } else if rank == 3 {
            Interval::AugmentedSecond
        } else if rank == 4 {
            Interval::MinorThird
        } else if rank == 5 {
            Interval::MajorThird
        } else if rank == 6 {
            Interval::DiminishedFourth
        } else if rank == 7 {
            Interval::PerfectFourth
        } else if rank == 8 {
            Interval::AugmentedFourth
        } else if rank == 9 {
            Interval::DiminishedFifth
        } else if rank == 10 {
            Interval::PerfectFifth
        } else if rank == 11 {
            Interval::AugmentedFifth
        } else if rank == 12 {
            Interval::MinorSixth
        } else if rank == 13 {
            Interval::MajorSixth
        } else if rank == 14 {
            Interval::AugmentedSixth
        } else if rank == 15 {
            Interval::DiminishedSeventh
        } else if rank == 16 {
            Interval::MinorSeventh
        } else if rank == 17 {
            Interval::MajorSeventh
        } else if rank == 18 {
            Interval::PerfectOctave
        } else if rank == 19 {
            Interval::MinorNinth
        } else if rank == 20 {
            Interval::MajorNinth
        } else if rank == 21 {
            Interval::AugmentedNinth
        } else if rank == 22 {
            Interval::DiminishedEleventh
        } else if rank == 23 {
            Interval::PerfectEleventh
        } else if rank == 24 {
            Interval::AugmentedEleventh
        } else if rank == 25 {
            Interval::MinorThirteenth
        } else if rank == 26 {
            Interval::MajorThirteenth
        } else {
            Interval::AugmentedThirteenth
        }
    }

    /// Returns the place of the interval in the order of declaration.
    pub fn rank(&self) -> (r: u8)
        ensures
            r == self.rank_spec(),
            r < 28,
    {
        match self {
            Interval::PerfectUnison => 0,
            Interval::MinorSecond => 1,
            Interval::MajorSecond => 2,
            Interval::AugmentedSecond => 3,
            Interval::MinorThird => 4,
            Interval::MajorThird => 5,
            Interval::DiminishedFourth => 6,
            Interval::PerfectFourth => 7,
            Interval::AugmentedFourth => 8,
            Interval::DiminishedFifth => 9,
            Interval::PerfectFifth => 10,
            Interval::AugmentedFifth => 11,
            Interval::MinorSixth => 12,
            Interval::MajorSixth => 13,
            Interval::AugmentedSixth => 14,
            Interval::DiminishedSeventh => 15,
            Interval::MinorSeventh => 16,
            Interval::MajorSeventh => 17,
            Interval::PerfectOctave => 18,
            Interval::MinorNinth => 19,
            Interval::MajorNinth => 20,
            Interval::AugmentedNinth => 21,
            Interval::DiminishedEleventh => 22,
            Interval::PerfectEleventh => 23,
            Interval::AugmentedEleventh => 24,
            Interval::MinorThirteenth => 25,
            Interval::MajorThirteenth => 26,
            Interval::AugmentedThirteenth => 27,
        }
    }

    /// Returns the interval at a place of the order of declaration; the
    /// last one beyond its end.
    pub fn from_rank(rank: u8) -> (i: Interval)
        ensures
            i == Interval::at_rank(rank as int),
            rank < 28 ==> i.rank_spec() == rank,
    {
        if rank == 0 {
            Interval::PerfectUnison
        } else if rank == 1 {
            Interval::MinorSecond
        } else if rank == 2 {
            Interval::MajorSecond
        } else if rank == 3 {
            Interval::AugmentedSecond
        } else if rank == 4 {
            Interval::MinorThird
        } else if rank == 5 {
            Interval::MajorThird
        } else if rank == 6 {
            Interval::DiminishedFourth
        } else if rank == 7 {
            Interval::PerfectFourth
        } else if rank == 8 {
            Interval::AugmentedFourth
        } else if rank == 9 {
            Interval::DiminishedFifth
        } else if rank == 10 {
            Interval::PerfectFifth
        } else if rank == 11 {
            Interval::AugmentedFifth
        } else if rank == 12 {
            Interval::MinorSixth
        } else if rank == 13 {
            Interval::MajorSixth
        } else if rank == 14 {
            Interval::AugmentedSixth
        } else if rank == 15 {
            Interval::DiminishedSeventh
        } else if rank == 16 {
            Interval::MinorSeventh
        } else if rank == 17 {
            Interval::MajorSeventh
        } else if rank == 18 {
            Interval::PerfectOctave
        } else if rank == 19 {
            Interval::MinorNinth
        } else if rank == 20 {
            Interval::MajorNinth
        } else if rank == 21 {
            Interval::AugmentedNinth
        } else if rank == 22 {
            Interval::DiminishedEleventh
        } else if rank == 23 {
            Interval::PerfectEleventh
        } else if rank == 24 {
            Interval::AugmentedEleventh
        } else if rank == 25 {
            Interval::MinorThirteenth
        } else if rank == 26 {
            Interval::MajorThirteenth
        } else {
            Interval::AugmentedThirteenth
        }
    }

    /// An interval is determined by its place in the order of declaration,
    /// and by its letters and semitones together.
    pub proof fn lemma_rank_round_trip(i: Interval, rank: int)
        ensures
            0 <= i.rank_spec() < 28,
            Interval::at_rank(i.rank_spec()) == i,
            0 <= rank < 28 ==> Interval::at_rank(rank).rank_spec() == rank,
    {
    }

    /// Two intervals of the same letters and semitones are one interval.
    pub proof fn lemma_determined(a: Interval, b: Interval)
        requires
            a.steps_spec() == b.steps_spec(),
            a.semitones_spec() == b.semitones_spec(),
        ensures
            a == b,
    {
    }
}

impl HasStaticName for Interval {
    open spec fn static_name_spec(&self) -> Seq<char> {
        match self {
            Interval::PerfectUnison => "perfect unison"@,
            Interval::MinorSecond => "minor second"@,
            Interval::MajorSecond => "major second"@,
            Interval::AugmentedSecond => "augmented second"@,
            Interval::MinorThird => "minor third"@,
            Interval::MajorThird => "major third"@,
            Interval::DiminishedFourth => "diminished fourth"@,
            Interval::PerfectFourth => "perfect fourth"@,
            Interval::AugmentedFourth => "augmented fourth"@,
            Interval::DiminishedFifth => "diminished fifth"@,
            Interval::PerfectFifth => "perfect fifth"@,
            Interval::AugmentedFifth => "augmented fifth"@,
            Interval::MinorSixth => "minor sixth"@,
            Interval::MajorSixth => "major sixth"@,
            Interval::AugmentedSixth => "augmented sixth"@,
            Interval::DiminishedSeventh => "diminished seventh"@,
            Interval::MinorSeventh => "minor seventh"@,
            Interval::MajorSeventh => "major seventh"@,
            Interval::PerfectOctave => "perfect octave"@,
            Interval::MinorNinth => "minor ninth"@,
            Interval::MajorNinth => "major ninth"@,
            Interval::AugmentedNinth => "augmented ninth"@,
            Interval::DiminishedEleventh => "diminished eleventh"@,
            Interval::PerfectEleventh => "perfect eleventh"@,
            Interval::AugmentedEleventh => "augmented eleventh"@,
            Interval::MinorThirteenth => "minor thirteenth"@,
            Interval::MajorThirteenth => "major thirteenth"@,
            Interval::AugmentedThirteenth => "augmented thirteenth"@,
        }
    }

    fn static_name(&self) -> (s: &'static str) {
        match self {
            Interval::PerfectUnison => "perfect unison",
            Interval::MinorSecond => "minor second",
            Interval::MajorSecond => "major second",
            Interval::AugmentedSecond => "augmented second",
            Interval::MinorThird => "minor third",
            Interval::MajorThird => "major third",
            Interval::DiminishedFourth => "diminished fourth",
            Interval::PerfectFourth => "perfect fourth",
            Interval::AugmentedFourth => "augmented fourth",
            Interval::DiminishedFifth => "diminished fifth",
            Interval::PerfectFifth => "perfect fifth",
            Interval::AugmentedFifth => "augmented fifth",
            Interval::MinorSixth => "minor sixth",
            Interval::MajorSixth => "major sixth",
            Interval::AugmentedSixth => "augmented sixth",
            Interval::DiminishedSeventh => "diminished seventh",
            Interval::MinorSeventh => "minor seventh",
            Interval::MajorSeventh => "major seventh",
            Interval::PerfectOctave => "perfect octave",
            Interval::MinorNinth => "minor ninth",
            Interval::MajorNinth => "major ninth",
            Interval::AugmentedNinth => "augmented ninth",
            Interval::DiminishedEleventh => "diminished eleventh",
            Interval::PerfectEleventh => "perfect eleventh",
            Interval::AugmentedEleventh => "augmented eleventh",
            Interval::MinorThirteenth => "minor thirteenth",
            Interval::MajorThirteenth => "major thirteenth",
            Interval::AugmentedThirteenth => "augmented thirteenth",
        }
    }
}

} // verus!

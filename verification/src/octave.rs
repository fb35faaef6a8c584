//! The ten supported octaves.

use vstd::prelude::*;
use crate::base::HasStaticName;

verus! {

/// Something that lies in an octave.
pub trait HasOctave {
    /// The octave, as a mathematical value.
    spec fn octave_spec(&self) -> Octave;

    /// Returns the octave.
    fn octave(&self) -> (o: Octave)
        ensures
            o == self.octave_spec(),
    ;
}

/// An octave of scientific pitch notation, from 0 to 9.
#[derive(PartialEq, Eq, Copy, Clone, Hash, Debug, Ord, PartialOrd, Structural)]
pub enum Octave {
    Zero,
    One,
    Two,
    Three,
    Four,
    Five,
    Six,
    Seven,
    Eight,
    Nine,
}

impl Octave {
    /// The octave's number, in `0..=9`.
    pub open spec fn number(self) -> int {
        match self {
            Octave::Zero => 0,
            Octave::One => 1,
            Octave::Two => 2,
            Octave::Three => 3,
            Octave::Four => 4,
            Octave::Five => 5,
            Octave::Six => 6,
            Octave::Seven => 7,
            Octave::Eight => 8,
            Octave::Nine => 9,
        }
    }

    /// The octave with a given number; octave 9 for a larger one.
    pub open spec fn of_number(n: int) -> Octave {
        if n <= 0 {
            Octave::Zero
        } else if n == 1 {
            Octave::One
        } else if n == 2 {
            Octave::Two
        } else if n == 3 {
            Octave::Three
        } else if n == 4 {
            Octave::Four
        } else if n == 5 {
            Octave::Five
        } else if n == 6 {
            Octave::Six
        } else if n == 7 {
            Octave::Seven
        } else if n == 8 {
            Octave::Eight
        } else {
            Octave::Nine
        }
    }

    /// Returns the octave's number.
    pub fn value(&self) -> (n: u8)
        ensures
            n == self.number(),
            n <= 9,
    {
        match self {
            Octave::Zero => 0,
            Octave::One => 1,
            Octave::Two => 2,
            Octave::Three => 3,
            Octave::Four => 4,
            Octave::Five => 5,
            Octave::Six => 6,
            Octave::Seven => 7,
            Octave::Eight => 8,
            Octave::Nine => 9,
        }
    }

    /// Returns the octave with the given number, if there is one.
    pub fn from_value(n: u8) -> (o: Option<Octave>)
        ensures
            o is Some <==> n <= 9,
            o matches Some(v) ==> v.number() == n && v == Octave::of_number(n as int),
    {
        if n == 0 {
            Some(Octave::Zero)
        } else if n == 1 {
            Some(Octave::One)
        } else if n == 2 {
            Some(Octave::Two)
        } else if n == 3 {
            Some(Octave::Three)
        } else if n == 4 {
            Some(Octave::Four)
        } else if n == 5 {
            Some(Octave::Five)
        } else if n == 6 {
            Some(Octave::Six)
        } else if n == 7 {
            Some(Octave::Seven)
        } else if n == 8 {
            Some(Octave::Eight)
        } else if n == 9 {
            Some(Octave::Nine)
        } else {
            None
        }
    }

    /// An octave is determined by its number.
    pub proof fn lemma_number_round_trip(o: Octave)
        ensures
            0 <= o.number() <= 9,
            Octave::of_number(o.number()) == o,
    {
    }
}

impl Default for Octave {
    /// The octave of middle C.
    fn default() -> (o: Octave)
        ensures
            o == Octave::Four,
    {
        Octave::Four
    }
}

impl HasOctave for Octave {
    open spec fn octave_spec(&self) -> Octave {
        *self
    }

    fn octave(&self) -> (o: Octave) {
        *self
    }
}

impl HasStaticName for Octave {
    open spec fn static_name_spec(&self) -> Seq<char> {
        match self {
            Octave::Zero => "0"@,
            Octave::One => "1"@,
            Octave::Two => "2"@,
            Octave::Three => "3"@,
            Octave::Four => "4"@,
            Octave::Five => "5"@,
            Octave::Six => "6"@,
            Octave::Seven => "7"@,
            Octave::Eight => "8"@,
            Octave::Nine => "9"@,
        }
    }

    fn static_name(&self) -> (s: &'static str) {
        match self {
            Octave::Zero => "0",
            Octave::One => "1",
            Octave::Two => "2",
            Octave::Three => "3",
            Octave::Four => "4",
            Octave::Five => "5",
            Octave::Six => "6",
            Octave::Seven => "7",
            Octave::Eight => "8",
            Octave::Nine => "9",
        }
    }
}

} // verus!

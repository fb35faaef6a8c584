//! The twelve pitch classes of equal temperament.

use vstd::prelude::*;

verus! {

/// One of the twelve semitone classes, named by its sharp spelling.
#[derive(Clone, Copy, Debug, PartialEq, Eq, Hash, PartialOrd, Ord, Structural)]
pub enum Pitch {
    C,
    CSharp,
    D,
    DSharp,
    E,
    F,
    FSharp,
    G,
    GSharp,
    A,
    ASharp,
    B,
}

/// Something that sounds at one of the twelve pitch classes.
pub trait HasPitch {
    /// The pitch class, as a mathematical value.
    spec fn pitch_spec(&self) -> Pitch;

    /// Returns the pitch class.
    fn pitch(&self) -> (p: Pitch)
        ensures
            p == self.pitch_spec(),
    ;
}

impl Pitch {
    /// Number of semitones above C, in `0..12`.
    pub open spec fn semitone(self) -> int {
        match self {
            Pitch::C => 0,
            Pitch::CSharp => 1,
            Pitch::D => 2,
            Pitch::DSharp => 3,
            Pitch::E => 4,
            Pitch::F => 5,
            Pitch::FSharp => 6,
            Pitch::G => 7,
            Pitch::GSharp => 8,
            Pitch::A => 9,
            Pitch::ASharp => 10,
            Pitch::B => 11,
        }
    }

    /// The pitch class that lies `n mod 12` semitones above C.
    pub open spec fn of_semitone(n: int) -> Pitch {
        let k = n % 12;
        if k == 0 {
            Pitch::C
        } else if k == 1 {
            Pitch::CSharp
        } else if k == 2 {
            Pitch::D
        } else if k == 3 {
            Pitch::DSharp
        } else if k == 4 {
            Pitch::E
        } else if k == 5 {
            Pitch::F
        } else if k == 6 {
            Pitch::FSharp
        } else if k == 7 {
            Pitch::G
        } else if k == 8 {
            Pitch::GSharp
        } else if k == 9 {
            Pitch::A
        } else if k == 10 {
            Pitch::ASharp
        } else {
            Pitch::B
        }
    }

    /// Whether the pitch class is one of the seven white keys.
    pub open spec fn is_natural_spec(self) -> bool {
        self == Pitch::C || self == Pitch::D || self == Pitch::E || self == Pitch::F
            || self == Pitch::G || self == Pitch::A || self == Pitch::B
    }

    /// Returns the number of semitones above C.
    pub fn semitone_value(&self) -> (n: u8)
        ensures
            n == self.semitone(),
            n < 12,
    {
        match self {
            Pitch::C => 0,
            Pitch::CSharp => 1,
            Pitch::D => 2,
            Pitch::DSharp => 3,
            Pitch::E => 4,
            Pitch::F => 5,
            Pitch::FSharp => 6,
            Pitch::G => 7,
            Pitch::GSharp => 8,
            Pitch::A => 9,
            Pitch::ASharp => 10,
            Pitch::B => 11,
        }
    }

    /// Returns the pitch class `n mod 12` semitones above C.
    pub fn from_semitone(n: u8) -> (p: Pitch)
        ensures
            p == Pitch::of_semitone(n as int),
            p.semitone() == n % 12,
    {
        let k: u8 = n % 12;
        if k == 0 {
            Pitch::C
        } else if k == 1 {
            Pitch::CSharp
        } else if k == 2 {
            Pitch::D
        } else if k == 3 {
            Pitch::DSharp
        } else if k == 4 {
            Pitch::E
        } else if k == 5 {
            Pitch::F
        } else if k == 6 {
            Pitch::FSharp
        } else if k == 7 {
            Pitch::G
        } else if k == 8 {
            Pitch::GSharp
        } else if k == 9 {
            Pitch::A
        } else if k == 10 {
            Pitch::ASharp
        } else {
            Pitch::B
        }
    }

    /// Tells whether the pitch class is a white key.
    pub fn is_natural(&self) -> (b: bool)
        ensures
            b == self.is_natural_spec(),
    {
        match self {
            Pitch::C | Pitch::D | Pitch::E | Pitch::F | Pitch::G | Pitch::A | Pitch::B => true,
            _ => false,
        }
    }

    /// `of_semitone` inverts `semitone`, and `semitone` inverts `of_semitone`
    /// up to a multiple of twelve.
    pub proof fn lemma_semitone_round_trip(p: Pitch, n: int)
        ensures
            Pitch::of_semitone(p.semitone()) == p,
            Pitch::of_semitone(n).semitone() == n % 12,
            0 <= p.semitone() < 12,
    {
    }
}

impl HasPitch for Pitch {
    open spec fn pitch_spec(&self) -> Pitch {
        *self
    }

    fn pitch(&self) -> (p: Pitch) {
        *self
    }
}

} // verus!

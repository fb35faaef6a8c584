//! Spelled pitches: a letter with up to three flats or sharps.

use vstd::prelude::*;
use crate::base::HasStaticName;
use crate::pitch::{HasPitch, Pitch};

verus! {

/// Something that has a spelled pitch.
pub trait HasNamedPitch {
    /// The spelled pitch, as a mathematical value.
    spec fn named_pitch_spec(&self) -> NamedPitch;

    /// Returns the spelled pitch.
    fn named_pitch(&self) -> (p: NamedPitch)
        ensures
            p == self.named_pitch_spec(),
    ;
}

/// Something that is written with one of the seven letters.
pub trait HasLetter {
    /// The letter, as a one-character text.
    spec fn letter_spec(&self) -> Seq<char>;

    /// Returns the letter.
    fn letter(&self) -> (s: &'static str)
        ensures
            s@ == self.letter_spec(),
    ;
}

/// A pitch with its spelling, such as `C` or `F♯`.
///
/// Several spellings can sound the same [`Pitch`].  The variants are declared
/// along the line of fifths: each one lies a perfect fifth above the one before.
#[derive(PartialEq, Eq, Copy, Clone, Hash, Debug, Ord, PartialOrd, Structural)]
pub enum NamedPitch {
    FTripleFlat,
    CTripleFlat,
    GTripleFlat,
    DTripleFlat,
    ATripleFlat,
    ETripleFlat,
    BTripleFlat,

    FDoubleFlat,
    CDoubleFlat,
    GDoubleFlat,
    DDoubleFlat,
    ADoubleFlat,
    EDoubleFlat,
    BDoubleFlat,

    FFlat,
    CFlat,
    GFlat,
    DFlat,
    AFlat,
    EFlat,
    BFlat,

    F,
    C,
    G,
    D,
    A,
    E,
    B,

    FSharp,
    CSharp,
    GSharp,
    DSharp,
    ASharp,
    ESharp,
    BSharp,

    FDoubleSharp,
    CDoubleSharp,
    GDoubleSharp,
    DDoubleSharp,
    ADoubleSharp,
    EDoubleSharp,
    BDoubleSharp,

    FTripleSharp,
    CTripleSharp,
    GTripleSharp,
    DTripleSharp,
    ATripleSharp,
    ETripleSharp,
    BTripleSharp,
}

/// The text of one letter, numbered from `C` (0) to `B` (6).
pub open spec fn letter_text(letter: int) -> Seq<char> {
    if letter == 0 {
        "C"@
    } else if letter == 1 {
        "D"@
    } else if letter == 2 {
        "E"@
    } else if letter == 3 {
        "F"@
    } else if letter == 4 {
        "G"@
    } else if letter == 5 {
        "A"@
    } else {
        "B"@
    }
}

/// Semitones from `C` up to the natural pitch of a letter numbered from `C`.
pub open spec fn letter_base(letter: int) -> int {
    if letter == 0 {
        0
    } else if letter == 1 {
        2
    } else if letter == 2 {
        4
    } else if letter == 3 {
        5
    } else if letter == 4 {
        7
    } else if letter == 5 {
        9
    } else {
        11
    }
}

/// The signs written after the letter for an accidental count in `-3..=3`.
pub open spec fn accidental_text(accidental: int) -> Seq<char> {
    if accidental == -3 {
        "\u{266d}\u{1d12b}"@
    } else if accidental == -2 {
        "\u{1d12b}"@
    } else if accidental == -1 {
        "\u{266d}"@
    } else if accidental == 0 {
        ""@
    } else if accidental == 1 {
        "\u{266f}"@
    } else if accidental == 2 {
        "\u{1d12a}"@
    } else {
        "\u{266f}\u{1d12a}"@
    }
}

impl NamedPitch {
    /// Position along the line of fifths, from `F` triple flat (0) to `B` triple sharp (48).
    #[verifier::opaque]
    pub open spec fn index_spec(self) -> int {
        match self {
            NamedPitch::FTripleFlat => 0,
            NamedPitch::CTripleFlat => 1,
            NamedPitch::GTripleFlat => 2,
            NamedPitch::DTripleFlat => 3,
            NamedPitch::ATripleFlat => 4,
            NamedPitch::ETripleFlat => 5,
            NamedPitch::BTripleFlat => 6,
            NamedPitch::FDoubleFlat => 7,
            NamedPitch::CDoubleFlat => 8,
            NamedPitch::GDoubleFlat => 9,
            NamedPitch::DDoubleFlat => 10,
            NamedPitch::ADoubleFlat => 11,
            NamedPitch::EDoubleFlat => 12,
            NamedPitch::BDoubleFlat => 13,
            NamedPitch::FFlat => 14,
            NamedPitch::CFlat => 15,
            NamedPitch::GFlat => 16,
            NamedPitch::DFlat => 17,
            NamedPitch::AFlat => 18,
            NamedPitch::EFlat => 19,
            NamedPitch::BFlat => 20,
            NamedPitch::F => 21,
            NamedPitch::C => 22,
            NamedPitch::G => 23,
            NamedPitch::D => 24,
            NamedPitch::A => 25,
            NamedPitch::E => 26,
            NamedPitch::B => 27,
            NamedPitch::FSharp => 28,
            NamedPitch::CSharp => 29,
            NamedPitch::GSharp => 30,
            NamedPitch::DSharp => 31,
            NamedPitch::ASharp => 32,
            NamedPitch::ESharp => 33,
            NamedPitch::BSharp => 34,
            NamedPitch::FDoubleSharp => 35,
            NamedPitch::CDoubleSharp => 36,
            NamedPitch::GDoubleSharp => 37,
            NamedPitch::DDoubleSharp => 38,
            NamedPitch::ADoubleSharp => 39,
            NamedPitch::EDoubleSharp => 40,
            NamedPitch::BDoubleSharp => 41,
            NamedPitch::FTripleSharp => 42,
            NamedPitch::CTripleSharp => 43,
            NamedPitch::GTripleSharp => 44,
            NamedPitch::DTripleSharp => 45,
            NamedPitch::ATripleSharp => 46,
            NamedPitch::ETripleSharp => 47,
            NamedPitch::BTripleSharp => 48,
        }
    }

    /// The spelling at a position of the line of fifths; `B` triple sharp beyond the end.
    #[verifier::opaque]
    pub open spec fn from_index_spec(i: int) -> NamedPitch {
        if i <= 0 {
            NamedPitch::FTripleFlat
        } else if i == 1 {
            NamedPitch::CTripleFlat
        } else if i == 2 {
            NamedPitch::GTripleFlat
        } else if i == 3 {
            NamedPitch::DTripleFlat
        } else if i == 4 {
            NamedPitch::ATripleFlat
        } else if i == 5 {
            NamedPitch::ETripleFlat
        } else if i == 6 {
            NamedPitch::BTripleFlat
        } else if i == 7 {
            NamedPitch::FDoubleFlat
        } else if i == 8 {
            NamedPitch::CDoubleFlat
        } else if i == 9 {
            NamedPitch::GDoubleFlat
        } else if i == 10 {
            NamedPitch::DDoubleFlat
        } else if i == 11 {
            NamedPitch::ADoubleFlat
        } else if i == 12 {
            NamedPitch::EDoubleFlat
        } else if i == 13 {
            NamedPitch::BDoubleFlat
        } else if i == 14 {
            NamedPitch::FFlat
        } else if i == 15 {
            NamedPitch::CFlat
        } else if i == 16 {
            NamedPitch::GFlat
        } else if i == 17 {
            NamedPitch::DFlat
        } else if i == 18 {
            NamedPitch::AFlat
        } else if i == 19 {
            NamedPitch::EFlat
        } else if i == 20 {
            NamedPitch::BFlat
        } else if i == 21 {
            NamedPitch::F
        } else if i == 22 {
            NamedPitch::C
        } else if i == 23 {
            NamedPitch::G
        } else if i == 24 {
            NamedPitch::D
        } else if i == 25 {
            NamedPitch::A
        } else if i == 26 {
            NamedPitch::E
        } else if i == 27 {
            NamedPitch::B
        } else if i == 28 {
            NamedPitch::FSharp
        } else if i == 29 {
            NamedPitch::CSharp
        } else if i == 30 {
            NamedPitch::GSharp
        } else if i == 31 {
            NamedPitch::DSharp
        } else if i == 32 {
            NamedPitch::ASharp
        } else if i == 33 {
            NamedPitch::ESharp
        } else if i == 34 {
            NamedPitch::BSharp
        } else if i == 35 {
            NamedPitch::FDoubleSharp
        } else if i == 36 {
            NamedPitch::CDoubleSharp
        } else if i == 37 {
            NamedPitch::GDoubleSharp
        } else if i == 38 {
            NamedPitch::DDoubleSharp
        } else if i == 39 {
            NamedPitch::ADoubleSharp
        } else if i == 40 {
            NamedPitch::EDoubleSharp
        } else if i == 41 {
            NamedPitch::BDoubleSharp
        } else if i == 42 {
            NamedPitch::FTripleSharp
        } else if i == 43 {
            NamedPitch::CTripleSharp
        } else if i == 44 {
            NamedPitch::GTripleSharp
        } else if i == 45 {
            NamedPitch::DTripleSharp
        } else if i == 46 {
            NamedPitch::ATripleSharp
        } else if i == 47 {
            NamedPitch::ETripleSharp
        } else {
            NamedPitch::BTripleSharp
        }
    }

    /// The letter, numbered from `C` (0) to `B` (6).
    pub open spec fn letter_index(self) -> int {
        (4 * (self.index_spec() % 7) + 3) % 7
    }

    /// The number of sharps (positive) or flats (negative), in `-3..=3`.
    pub open spec fn accidental(self) -> int {
        self.index_spec() / 7 - 3
    }

    /// Semitones above `C`, before reduction to one octave: in `-3..=14`.
    #[verifier::opaque]
    pub open spec fn offset(self) -> int {
        letter_base(self.letter_index()) + self.accidental()
    }

    /// The spelling with a given letter (from `C` = 0) and accidental count.
    pub open spec fn of_letter_accidental(letter: int, accidental: int) -> NamedPitch {
        NamedPitch::from_index_spec(7 * (accidental + 3) + (2 * letter + 1) % 7)
    }

    /// Whether the spelling has no accidental.
    pub open spec fn is_natural_spec(self) -> bool {
        self.accidental() == 0
    }

    /// Returns the position along the line of fifths.
    pub fn index(&self) -> (i: u8)
        ensures
            i == self.index_spec(),
            i < 49,
    {
        reveal(NamedPitch::index_spec);
        match self {
            NamedPitch::FTripleFlat => 0,
            NamedPitch::CTripleFlat => 1,
            NamedPitch::GTripleFlat => 2,
            NamedPitch::DTripleFlat => 3,
            NamedPitch::ATripleFlat => 4,
            NamedPitch::ETripleFlat => 5,
            NamedPitch::BTripleFlat => 6,
            NamedPitch::FDoubleFlat => 7,
            NamedPitch::CDoubleFlat => 8,
            NamedPitch::GDoubleFlat => 9,
            NamedPitch::DDoubleFlat => 10,
            NamedPitch::ADoubleFlat => 11,
            NamedPitch::EDoubleFlat => 12,
            NamedPitch::BDoubleFlat => 13,
            NamedPitch::FFlat => 14,
            NamedPitch::CFlat => 15,
            NamedPitch::GFlat => 16,
            NamedPitch::DFlat => 17,
            NamedPitch::AFlat => 18,
            NamedPitch::EFlat => 19,
            NamedPitch::BFlat => 20,
            NamedPitch::F => 21,
            NamedPitch::C => 22,
            NamedPitch::G => 23,
            NamedPitch::D => 24,
            NamedPitch::A => 25,
            NamedPitch::E => 26,
            NamedPitch::B => 27,
            NamedPitch::FSharp => 28,
            NamedPitch::CSharp => 29,
            NamedPitch::GSharp => 30,
            NamedPitch::DSharp => 31,
            NamedPitch::ASharp => 32,
            NamedPitch::ESharp => 33,
            NamedPitch::BSharp => 34,
            NamedPitch::FDoubleSharp => 35,
            NamedPitch::CDoubleSharp => 36,
            NamedPitch::GDoubleSharp => 37,
            NamedPitch::DDoubleSharp => 38,
            NamedPitch::ADoubleSharp => 39,
            NamedPitch::EDoubleSharp => 40,
            NamedPitch::BDoubleSharp => 41,
            NamedPitch::FTripleSharp => 42,
            NamedPitch::CTripleSharp => 43,
            NamedPitch::GTripleSharp => 44,
            NamedPitch::DTripleSharp => 45,
            NamedPitch::ATripleSharp => 46,
            NamedPitch::ETripleSharp => 47,
            NamedPitch::BTripleSharp => 48,
        }
    }

    /// Returns the spelling at a position of the line of fifths; `B` triple
    /// sharp beyond its end.
    pub fn from_index(i: u8) -> (p: NamedPitch)
        ensures
            p == NamedPitch::from_index_spec(i as int),
            i < 49 ==> p.index_spec() == i,
    {
        reveal(NamedPitch::index_spec);
        reveal(NamedPitch::from_index_spec);
        if i == 0 {
            NamedPitch::FTripleFlat
        } else if i == 1 {
            NamedPitch::CTripleFlat
        } else if i == 2 {
            NamedPitch::GTripleFlat
        } else if i == 3 {
            NamedPitch::DTripleFlat
        } else if i == 4 {
            NamedPitch::ATripleFlat
        } else if i == 5 {
            NamedPitch::ETripleFlat
        } else if i == 6 {
            NamedPitch::BTripleFlat
        } else if i == 7 {
            NamedPitch::FDoubleFlat
        } else if i == 8 {
            NamedPitch::CDoubleFlat
        } else if i == 9 {
            NamedPitch::GDoubleFlat
        } else if i == 10 {
            NamedPitch::DDoubleFlat
        } else if i == 11 {
            NamedPitch::ADoubleFlat
        } else if i == 12 {
            NamedPitch::EDoubleFlat
        } else if i == 13 {
            NamedPitch::BDoubleFlat
        } else if i == 14 {
            NamedPitch::FFlat
        } else if i == 15 {
            NamedPitch::CFlat
        } else if i == 16 {
            NamedPitch::GFlat
        } else if i == 17 {
            NamedPitch::DFlat
        } else if i == 18 {
            NamedPitch::AFlat
        } else if i == 19 {
            NamedPitch::EFlat
        } else if i == 20 {
            NamedPitch::BFlat
        } else if i == 21 {
            NamedPitch::F
        } else if i == 22 {
            NamedPitch::C
        } else if i == 23 {
            NamedPitch::G
        } else if i == 24 {
            NamedPitch::D
        } else if i == 25 {
            NamedPitch::A
        } else if i == 26 {
            NamedPitch::E
        } else if i == 27 {
            NamedPitch::B
        } else if i == 28 {
            NamedPitch::FSharp
        } else if i == 29 {
            NamedPitch::CSharp
        } else if i == 30 {
            NamedPitch::GSharp
        } else if i == 31 {
            NamedPitch::DSharp
        } else if i == 32 {
            NamedPitch::ASharp
        } else if i == 33 {
            NamedPitch::ESharp
        } else if i == 34 {
            NamedPitch::BSharp
        } else if i == 35 {
            NamedPitch::FDoubleSharp
        } else if i == 36 {
            NamedPitch::CDoubleSharp
        } else if i == 37 {
            NamedPitch::GDoubleSharp
        } else if i == 38 {
            NamedPitch::DDoubleSharp
        } else if i == 39 {
            NamedPitch::ADoubleSharp
        } else if i == 40 {
            NamedPitch::EDoubleSharp
        } else if i == 41 {
            NamedPitch::BDoubleSharp
        } else if i == 42 {
            NamedPitch::FTripleSharp
        } else if i == 43 {
            NamedPitch::CTripleSharp
        } else if i == 44 {
            NamedPitch::GTripleSharp
        } else if i == 45 {
            NamedPitch::DTripleSharp
        } else if i == 46 {
            NamedPitch::ATripleSharp
        } else if i == 47 {
            NamedPitch::ETripleSharp
        } else {
            NamedPitch::BTripleSharp
        }
    }

    /// Returns the letter, numbered from `C` (0) to `B` (6).
    pub fn letter_number(&self) -> (l: u8)
        ensures
            l == self.letter_index(),
            l < 7,
    {
        let k: u8 = self.index() % 7;
        (4 * k + 3) % 7
    }

    /// Returns the number of sharps (positive) or flats (negative).
    pub fn accidental_count(&self) -> (a: i8)
        ensures
            a == self.accidental(),
            -3 <= a <= 3,
    {
        let q: u8 = self.index() / 7;
        q as i8 - 3
    }

    /// Tells whether the spelling has no accidental.
    pub fn is_natural(&self) -> (b: bool)
        ensures
            b == self.is_natural_spec(),
    {
        self.index() / 7 == 3
    }

    /// Returns the spelling with the given letter, numbered from `C` round
    /// the seven letters, and the given accidental count, if the count lies
    /// in `-3..=3`.
    pub fn from_letter_accidental(letter: u8, accidental: i8) -> (p: Option<NamedPitch>)
        ensures
            p is Some <==> -3 <= accidental <= 3,
            p matches Some(n) ==> n == NamedPitch::of_letter_accidental(
                letter as int,
                accidental as int,
            ) && n.letter_index() == letter % 7 && n.accidental() == accidental,
    {
        if accidental < -3 || accidental > 3 {
            None
        } else {
            let row: u8 = (accidental + 3) as u8;
            let column: u8 = (2 * (letter % 7) + 1) % 7;
            proof {
                NamedPitch::lemma_letter_accidental((letter % 7) as int, accidental as int);
                assert((2 * (letter % 7) + 1) % 7 == (2 * letter + 1) % 7);
            }
            Some(NamedPitch::from_index(7 * row + column))
        }
    }

    /// Moves along the line of fifths, if the end is not passed: `rhs` fifths
    /// up, or down where `rhs` is negative.
    pub fn checked_add(self, rhs: i8) -> (p: Option<NamedPitch>)
        ensures
            p is Some <==> 0 <= self.index_spec() + rhs <= 48,
            p matches Some(n) ==> n.index_spec() == self.index_spec() + rhs,
    {
        let target: i16 = self.index() as i16 + rhs as i16;
        if target < 0 || target > 48 {
            None
        } else {
            Some(NamedPitch::from_index(target as u8))
        }
    }

    /// Every spelling has a place on the line of fifths, a letter, and at
    /// most three flats or sharps.
    pub proof fn lemma_ranges(p: NamedPitch)
        ensures
            0 <= p.index_spec() < 49,
            0 <= p.letter_index() < 7,
            -3 <= p.accidental() <= 3,
            -3 <= p.offset() <= 14,
            p.offset() == letter_base(p.letter_index()) + p.accidental(),
    {
        reveal(NamedPitch::index_spec);
        reveal(NamedPitch::offset);
    }

    /// The sounding pitch class is the letter's natural pitch moved by the
    /// accidental, reduced to one octave.
    pub proof fn lemma_pitch_is_letter_plus_accidental(p: NamedPitch)
        ensures
            p.pitch_spec().semitone() == (letter_base(p.letter_index()) + p.accidental()) % 12,
            p.pitch_spec().semitone() == p.offset() % 12,
    {
        reveal(NamedPitch::offset);
    }

    /// A spelling is determined by its place on the line of fifths.
    pub proof fn lemma_index_round_trip(p: NamedPitch, i: int)
        ensures
            NamedPitch::from_index_spec(p.index_spec()) == p,
            0 <= i < 49 ==> NamedPitch::from_index_spec(i).index_spec() == i,
    {
        reveal(NamedPitch::index_spec);
        reveal(NamedPitch::from_index_spec);
    }

    /// The spelling made from a letter and an accidental has that letter and
    /// that accidental.
    pub proof fn lemma_letter_accidental(letter: int, accidental: int)
        requires
            0 <= letter < 7,
            -3 <= accidental <= 3,
        ensures
            NamedPitch::of_letter_accidental(letter, accidental).letter_index() == letter,
            NamedPitch::of_letter_accidental(letter, accidental).accidental() == accidental,
            NamedPitch::of_letter_accidental(letter, accidental).index_spec() == 7 * (accidental
                + 3) + (2 * letter + 1) % 7,
    {
        let i = 7 * (accidental + 3) + (2 * letter + 1) % 7;
        NamedPitch::lemma_index_round_trip(NamedPitch::C, i);
    }

    /// A spelling is determined by its letter and its accidental.
    pub proof fn lemma_spelling_round_trip(p: NamedPitch)
        ensures
            NamedPitch::of_letter_accidental(p.letter_index(), p.accidental()) == p,
    {
        NamedPitch::lemma_ranges(p);
        NamedPitch::lemma_index_round_trip(p, 0);
        let i = p.index_spec();
        assert(7 * (i / 7 - 3 + 3) + (2 * ((4 * (i % 7) + 3) % 7) + 1) % 7 == i);
    }

    /// Along the line of fifths the pitch class rises by seven semitones a step.
    pub proof fn lemma_pitch_along_fifths(p: NamedPitch)
        ensures
            p.pitch_spec().semitone() == (7 * p.index_spec() + 2) % 12,
    {
        NamedPitch::lemma_ranges(p);
        NamedPitch::lemma_pitch_is_letter_plus_accidental(p);
        let i = p.index_spec();
        let k = i % 7;
        let l = (4 * k + 3) % 7;
        assert(letter_base(l) == (5 + 7 * k) % 12);
        assert(i == 7 * (i / 7) + k);
    }
}

impl NamedPitch {
    /// Moving along the line of fifths raises the pitch class by seven
    /// semitones for each fifth.
    pub proof fn lemma_add_moves_by_fifths(p: NamedPitch, rhs: i8)
        requires
            0 <= p.index_spec() + rhs <= 48,
        ensures
            NamedPitch::from_index_spec(p.index_spec() + rhs).pitch_spec().semitone() == (
            p.pitch_spec().semitone() + 7 * rhs) % 12,
    {
        let q = NamedPitch::from_index_spec(p.index_spec() + rhs);
        NamedPitch::lemma_index_round_trip(p, p.index_spec() + rhs);
        NamedPitch::lemma_pitch_along_fifths(p);
        NamedPitch::lemma_pitch_along_fifths(q);
        let a = 7 * p.index_spec() + 2;
        let b = 7 * rhs;
        assert((a + b) % 12 == (a % 12 + b) % 12);
    }
}

impl core::ops::Add<i8> for NamedPitch {
    type Output = NamedPitch;

    /// Moves `rhs` fifths along the line of fifths.
    fn add(self, rhs: i8) -> (p: NamedPitch) {
        let target: i16 = self.index() as i16 + rhs as i16;
        NamedPitch::from_index(target as u8)
    }
}

impl vstd::std_specs::ops::AddSpecImpl<i8> for NamedPitch {
    open spec fn obeys_add_spec() -> bool {
        true
    }

    open spec fn add_req(self, rhs: i8) -> bool {
        0 <= self.index_spec() + rhs <= 48
    }

    open spec fn add_spec(self, rhs: i8) -> NamedPitch {
        NamedPitch::from_index_spec(self.index_spec() + rhs)
    }
}

impl HasNamedPitch for NamedPitch {
    open spec fn named_pitch_spec(&self) -> NamedPitch {
        *self
    }

    fn named_pitch(&self) -> (p: NamedPitch) {
        *self
    }
}

impl HasLetter for NamedPitch {
    open spec fn letter_spec(&self) -> Seq<char> {
        letter_text(self.letter_index())
    }

    fn letter(&self) -> (s: &'static str) {
        reveal(NamedPitch::index_spec);
        match self {
            NamedPitch::FTripleFlat => "F",
            NamedPitch::CTripleFlat => "C",
            NamedPitch::GTripleFlat => "G",
            NamedPitch::DTripleFlat => "D",
            NamedPitch::ATripleFlat => "A",
            NamedPitch::ETripleFlat => "E",
            NamedPitch::BTripleFlat => "B",

            NamedPitch::FDoubleFlat => "F",
            NamedPitch::CDoubleFlat => "C",
            NamedPitch::GDoubleFlat => "G",
            NamedPitch::DDoubleFlat => "D",
            NamedPitch::ADoubleFlat => "A",
            NamedPitch::EDoubleFlat => "E",
            NamedPitch::BDoubleFlat => "B",

            NamedPitch::FFlat => "F",
            NamedPitch::CFlat => "C",
            NamedPitch::GFlat => "G",
            NamedPitch::DFlat => "D",
            NamedPitch::AFlat => "A",
            NamedPitch::EFlat => "E",
            NamedPitch::BFlat => "B",

            NamedPitch::F => "F",
            NamedPitch::C => "C",
            NamedPitch::G => "G",
            NamedPitch::D => "D",
            NamedPitch::A => "A",
            NamedPitch::E => "E",
            NamedPitch::B => "B",

            NamedPitch::FSharp => "F",
            NamedPitch::CSharp => "C",
            NamedPitch::GSharp => "G",
            NamedPitch::DSharp => "D",
            NamedPitch::ASharp => "A",
            NamedPitch::ESharp => "E",
            NamedPitch::BSharp => "B",

            NamedPitch::FDoubleSharp => "F",
            NamedPitch::CDoubleSharp => "C",
            NamedPitch::GDoubleSharp => "G",
            NamedPitch::DDoubleSharp => "D",
            NamedPitch::ADoubleSharp => "A",
            NamedPitch::EDoubleSharp => "E",
            NamedPitch::BDoubleSharp => "B",

            NamedPitch::FTripleSharp => "F",
            NamedPitch::CTripleSharp => "C",
            NamedPitch::GTripleSharp => "G",
            NamedPitch::DTripleSharp => "D",
            NamedPitch::ATripleSharp => "A",
            NamedPitch::ETripleSharp => "E",
            NamedPitch::BTripleSharp => "B",
        }
    }
}

impl HasStaticName for NamedPitch {
    open spec fn static_name_spec(&self) -> Seq<char> {
        letter_text(self.letter_index()) + accidental_text(self.accidental())
    }

    fn static_name(&self) -> (s: &'static str) {
        reveal(NamedPitch::index_spec);
        proof {
            reveal_strlit("C");
            reveal_strlit("D");
            reveal_strlit("E");
            reveal_strlit("F");
            reveal_strlit("G");
            reveal_strlit("A");
            reveal_strlit("B");
            reveal_strlit("\u{266d}\u{1d12b}");
            reveal_strlit("\u{1d12b}");
            reveal_strlit("\u{266d}");
            reveal_strlit("");
            reveal_strlit("\u{266f}");
            reveal_strlit("\u{1d12a}");
            reveal_strlit("\u{266f}\u{1d12a}");
        }
        match self {
            NamedPitch::FTripleFlat => {
                proof {
                    reveal_strlit("F\u{266d}\u{1d12b}");
                    assert("F\u{266d}\u{1d12b}"@ =~= "F"@ + "\u{266d}\u{1d12b}"@);
                }
                "F\u{266d}\u{1d12b}"
            },
            NamedPitch::CTripleFlat => {
                proof {
                    reveal_strlit("C\u{266d}\u{1d12b}");
                    assert("C\u{266d}\u{1d12b}"@ =~= "C"@ + "\u{266d}\u{1d12b}"@);
                }
                "C\u{266d}\u{1d12b}"
            },
            NamedPitch::GTripleFlat => {
                proof {
                    reveal_strlit("G\u{266d}\u{1d12b}");
                    assert("G\u{266d}\u{1d12b}"@ =~= "G"@ + "\u{266d}\u{1d12b}"@);
                }
                "G\u{266d}\u{1d12b}"
            },
            NamedPitch::DTripleFlat => {
                proof {
                    reveal_strlit("D\u{266d}\u{1d12b}");
                    assert("D\u{266d}\u{1d12b}"@ =~= "D"@ + "\u{266d}\u{1d12b}"@);
                }
                "D\u{266d}\u{1d12b}"
            },
            NamedPitch::ATripleFlat => {
                proof {
                    reveal_strlit("A\u{266d}\u{1d12b}");
                    assert("A\u{266d}\u{1d12b}"@ =~= "A"@ + "\u{266d}\u{1d12b}"@);
                }
                "A\u{266d}\u{1d12b}"
            },
            NamedPitch::ETripleFlat => {
                proof {
                    reveal_strlit("E\u{266d}\u{1d12b}");
                    assert("E\u{266d}\u{1d12b}"@ =~= "E"@ + "\u{266d}\u{1d12b}"@);
                }
                "E\u{266d}\u{1d12b}"
            },
            NamedPitch::BTripleFlat => {
                proof {
                    reveal_strlit("B\u{266d}\u{1d12b}");
                    assert("B\u{266d}\u{1d12b}"@ =~= "B"@ + "\u{266d}\u{1d12b}"@);
                }
                "B\u{266d}\u{1d12b}"
            },
            NamedPitch::FDoubleFlat => {
                proof {
                    reveal_strlit("F\u{1d12b}");
                    assert("F\u{1d12b}"@ =~= "F"@ + "\u{1d12b}"@);
                }
                "F\u{1d12b}"
            },
            NamedPitch::CDoubleFlat => {
                proof {
                    reveal_strlit("C\u{1d12b}");
                    assert("C\u{1d12b}"@ =~= "C"@ + "\u{1d12b}"@);
                }
                "C\u{1d12b}"
            },
            NamedPitch::GDoubleFlat => {
                proof {
                    reveal_strlit("G\u{1d12b}");
                    assert("G\u{1d12b}"@ =~= "G"@ + "\u{1d12b}"@);
                }
                "G\u{1d12b}"
            },
            NamedPitch::DDoubleFlat => {
                proof {
                    reveal_strlit("D\u{1d12b}");
                    assert("D\u{1d12b}"@ =~= "D"@ + "\u{1d12b}"@);
                }
                "D\u{1d12b}"
            },
            NamedPitch::ADoubleFlat => {
                proof {
                    reveal_strlit("A\u{1d12b}");
                    assert("A\u{1d12b}"@ =~= "A"@ + "\u{1d12b}"@);
                }
                "A\u{1d12b}"
            },
            NamedPitch::EDoubleFlat => {
                proof {
                    reveal_strlit("E\u{1d12b}");
                    assert("E\u{1d12b}"@ =~= "E"@ + "\u{1d12b}"@);
                }
                "E\u{1d12b}"
            },
            NamedPitch::BDoubleFlat => {
                proof {
                    reveal_strlit("B\u{1d12b}");
                    assert("B\u{1d12b}"@ =~= "B"@ + "\u{1d12b}"@);
                }
                "B\u{1d12b}"
            },
            NamedPitch::FFlat => {
                proof {
                    reveal_strlit("F\u{266d}");
                    assert("F\u{266d}"@ =~= "F"@ + "\u{266d}"@);
                }
                "F\u{266d}"
            },
            NamedPitch::CFlat => {
                proof {
                    reveal_strlit("C\u{266d}");
                    assert("C\u{266d}"@ =~= "C"@ + "\u{266d}"@);
                }
                "C\u{266d}"
            },
            NamedPitch::GFlat => {
                proof {
                    reveal_strlit("G\u{266d}");
                    assert("G\u{266d}"@ =~= "G"@ + "\u{266d}"@);
                }
                "G\u{266d}"
            },
            NamedPitch::DFlat => {
                proof {
                    reveal_strlit("D\u{266d}");
                    assert("D\u{266d}"@ =~= "D"@ + "\u{266d}"@);
                }
                "D\u{266d}"
            },
            NamedPitch::AFlat => {
                proof {
                    reveal_strlit("A\u{266d}");
                    assert("A\u{266d}"@ =~= "A"@ + "\u{266d}"@);
                }
                "A\u{266d}"
            },
            NamedPitch::EFlat => {
                proof {
                    reveal_strlit("E\u{266d}");
                    assert("E\u{266d}"@ =~= "E"@ + "\u{266d}"@);
                }
                "E\u{266d}"
            },
            NamedPitch::BFlat => {
                proof {
                    reveal_strlit("B\u{266d}");
                    assert("B\u{266d}"@ =~= "B"@ + "\u{266d}"@);
                }
                "B\u{266d}"
            },
            NamedPitch::F => {
                proof {
                    reveal_strlit("F");
                    assert("F"@ =~= "F"@ + ""@);
                }
                "F"
            },
            NamedPitch::C => {
                proof {
                    reveal_strlit("C");
                    assert("C"@ =~= "C"@ + ""@);
                }
                "C"
            },
            NamedPitch::G => {
                proof {
                    reveal_strlit("G");
                    assert("G"@ =~= "G"@ + ""@);
                }
                "G"
            },
            NamedPitch::D => {
                proof {
                    reveal_strlit("D");
                    assert("D"@ =~= "D"@ + ""@);
                }
                "D"
            },
            NamedPitch::A => {
                proof {
                    reveal_strlit("A");
                    assert("A"@ =~= "A"@ + ""@);
                }
                "A"
            },
            NamedPitch::E => {
                proof {
                    reveal_strlit("E");
                    assert("E"@ =~= "E"@ + ""@);
                }
                "E"
            },
            NamedPitch::B => {
                proof {
                    reveal_strlit("B");
                    assert("B"@ =~= "B"@ + ""@);
                }
                "B"
            },
            NamedPitch::FSharp => {
                proof {
                    reveal_strlit("F\u{266f}");
                    assert("F\u{266f}"@ =~= "F"@ + "\u{266f}"@);
                }
                "F\u{266f}"
            },
            NamedPitch::CSharp => {
                proof {
                    reveal_strlit("C\u{266f}");
                    assert("C\u{266f}"@ =~= "C"@ + "\u{266f}"@);
                }
                "C\u{266f}"
            },
            NamedPitch::GSharp => {
                proof {
                    reveal_strlit("G\u{266f}");
                    assert("G\u{266f}"@ =~= "G"@ + "\u{266f}"@);
                }
                "G\u{266f}"
            },
            NamedPitch::DSharp => {
                proof {
                    reveal_strlit("D\u{266f}");
                    assert("D\u{266f}"@ =~= "D"@ + "\u{266f}"@);
                }
                "D\u{266f}"
            },
            NamedPitch::ASharp => {
                proof {
                    reveal_strlit("A\u{266f}");
                    assert("A\u{266f}"@ =~= "A"@ + "\u{266f}"@);
                }
                "A\u{266f}"
            },
            NamedPitch::ESharp => {
                proof {
                    reveal_strlit("E\u{266f}");
                    assert("E\u{266f}"@ =~= "E"@ + "\u{266f}"@);
                }
                "E\u{266f}"
            },
            NamedPitch::BSharp => {
                proof {
                    reveal_strlit("B\u{266f}");
                    assert("B\u{266f}"@ =~= "B"@ + "\u{266f}"@);
                }
                "B\u{266f}"
            },
            NamedPitch::FDoubleSharp => {
                proof {
                    reveal_strlit("F\u{1d12a}");
                    assert("F\u{1d12a}"@ =~= "F"@ + "\u{1d12a}"@);
                }
                "F\u{1d12a}"
            },
            NamedPitch::CDoubleSharp => {
                proof {
                    reveal_strlit("C\u{1d12a}");
                    assert("C\u{1d12a}"@ =~= "C"@ + "\u{1d12a}"@);
                }
                "C\u{1d12a}"
            },
            NamedPitch::GDoubleSharp => {
                proof {
                    reveal_strlit("G\u{1d12a}");
                    assert("G\u{1d12a}"@ =~= "G"@ + "\u{1d12a}"@);
                }
                "G\u{1d12a}"
            },
            NamedPitch::DDoubleSharp => {
                proof {
                    reveal_strlit("D\u{1d12a}");
                    assert("D\u{1d12a}"@ =~= "D"@ + "\u{1d12a}"@);
                }
                "D\u{1d12a}"
            },
            NamedPitch::ADoubleSharp => {
                proof {
                    reveal_strlit("A\u{1d12a}");
                    assert("A\u{1d12a}"@ =~= "A"@ + "\u{1d12a}"@);
                }
                "A\u{1d12a}"
            },
            NamedPitch::EDoubleSharp => {
                proof {
                    reveal_strlit("E\u{1d12a}");
                    assert("E\u{1d12a}"@ =~= "E"@ + "\u{1d12a}"@);
                }
                "E\u{1d12a}"
            },
            NamedPitch::BDoubleSharp => {
                proof {
                    reveal_strlit("B\u{1d12a}");
                    assert("B\u{1d12a}"@ =~= "B"@ + "\u{1d12a}"@);
                }
                "B\u{1d12a}"
            },
            NamedPitch::FTripleSharp => {
                proof {
                    reveal_strlit("F\u{266f}\u{1d12a}");
                    assert("F\u{266f}\u{1d12a}"@ =~= "F"@ + "\u{266f}\u{1d12a}"@);
                }
                "F\u{266f}\u{1d12a}"
            },
            NamedPitch::CTripleSharp => {
                proof {
                    reveal_strlit("C\u{266f}\u{1d12a}");
                    assert("C\u{266f}\u{1d12a}"@ =~= "C"@ + "\u{266f}\u{1d12a}"@);
                }
                "C\u{266f}\u{1d12a}"
            },
            NamedPitch::GTripleSharp => {
                proof {
                    reveal_strlit("G\u{266f}\u{1d12a}");
                    assert("G\u{266f}\u{1d12a}"@ =~= "G"@ + "\u{266f}\u{1d12a}"@);
                }
                "G\u{266f}\u{1d12a}"
            },
            NamedPitch::DTripleSharp => {
                proof {
                    reveal_strlit("D\u{266f}\u{1d12a}");
                    assert("D\u{266f}\u{1d12a}"@ =~= "D"@ + "\u{266f}\u{1d12a}"@);
                }
                "D\u{266f}\u{1d12a}"
            },
            NamedPitch::ATripleSharp => {
                proof {
                    reveal_strlit("A\u{266f}\u{1d12a}");
                    assert("A\u{266f}\u{1d12a}"@ =~= "A"@ + "\u{266f}\u{1d12a}"@);
                }
                "A\u{266f}\u{1d12a}"
            },
            NamedPitch::ETripleSharp => {
                proof {
                    reveal_strlit("E\u{266f}\u{1d12a}");
                    assert("E\u{266f}\u{1d12a}"@ =~= "E"@ + "\u{266f}\u{1d12a}"@);
                }
                "E\u{266f}\u{1d12a}"
            },
            NamedPitch::BTripleSharp => {
                proof {
                    reveal_strlit("B\u{266f}\u{1d12a}");
                    assert("B\u{266f}\u{1d12a}"@ =~= "B"@ + "\u{266f}\u{1d12a}"@);
                }
                "B\u{266f}\u{1d12a}"
            },
        }
    }
}

impl HasPitch for NamedPitch {
    open spec fn pitch_spec(&self) -> Pitch {
        Pitch::of_semitone(self.offset())
    }

    fn pitch(&self) -> (p: Pitch) {
        reveal(NamedPitch::index_spec);
        reveal(NamedPitch::offset);
        match self {
            NamedPitch::FTripleFlat => Pitch::D,
            NamedPitch::CTripleFlat => Pitch::A,
            NamedPitch::GTripleFlat => Pitch::E,
            NamedPitch::DTripleFlat => Pitch::B,
            NamedPitch::ATripleFlat => Pitch::FSharp,
            NamedPitch::ETripleFlat => Pitch::CSharp,
            NamedPitch::BTripleFlat => Pitch::GSharp,

            NamedPitch::FDoubleFlat => Pitch::DSharp,
            NamedPitch::CDoubleFlat => Pitch::ASharp,
            NamedPitch::GDoubleFlat => Pitch::F,
            NamedPitch::DDoubleFlat => Pitch::C,
            NamedPitch::ADoubleFlat => Pitch::G,
            NamedPitch::EDoubleFlat => Pitch::D,
            NamedPitch::BDoubleFlat => Pitch::A,

            NamedPitch::FFlat => Pitch::E,
            NamedPitch::CFlat => Pitch::B,
            NamedPitch::GFlat => Pitch::FSharp,
            NamedPitch::DFlat => Pitch::CSharp,
            NamedPitch::AFlat => Pitch::GSharp,
            NamedPitch::EFlat => Pitch::DSharp,
            NamedPitch::BFlat => Pitch::ASharp,

            NamedPitch::F => Pitch::F,
            NamedPitch::C => Pitch::C,
            NamedPitch::G => Pitch::G,
            NamedPitch::D => Pitch::D,
            NamedPitch::A => Pitch::A,
            NamedPitch::E => Pitch::E,
            NamedPitch::B => Pitch::B,

            NamedPitch::FSharp => Pitch::FSharp,
            NamedPitch::CSharp => Pitch::CSharp,
            NamedPitch::GSharp => Pitch::GSharp,
            NamedPitch::DSharp => Pitch::DSharp,
            NamedPitch::ASharp => Pitch::ASharp,
            NamedPitch::ESharp => Pitch::F,
            NamedPitch::BSharp => Pitch::C,

            NamedPitch::FDoubleSharp => Pitch::G,
            NamedPitch::CDoubleSharp => Pitch::D,
            NamedPitch::GDoubleSharp => Pitch::A,
            NamedPitch::DDoubleSharp => Pitch::E,
            NamedPitch::ADoubleSharp => Pitch::B,
            NamedPitch::EDoubleSharp => Pitch::FSharp,
            NamedPitch::BDoubleSharp => Pitch::CSharp,

            NamedPitch::FTripleSharp => Pitch::GSharp,
            NamedPitch::CTripleSharp => Pitch::DSharp,
            NamedPitch::GTripleSharp => Pitch::ASharp,
            NamedPitch::DTripleSharp => Pitch::F,
            NamedPitch::ATripleSharp => Pitch::C,
            NamedPitch::ETripleSharp => Pitch::G,
            NamedPitch::BTripleSharp => Pitch::D,
        }
    }
}


impl HasNamedPitch for Pitch {
    /// The usual spelling of the pitch class: the natural where there is
    /// one, else `D♭`, `E♭`, `F♯`, `A♭` or `B♭`.
    open spec fn named_pitch_spec(&self) -> NamedPitch {
        match self {
            Pitch::C => NamedPitch::C,
            Pitch::CSharp => NamedPitch::DFlat,
            Pitch::D => NamedPitch::D,
            Pitch::DSharp => NamedPitch::EFlat,
            Pitch::E => NamedPitch::E,
            Pitch::F => NamedPitch::F,
            Pitch::FSharp => NamedPitch::FSharp,
            Pitch::G => NamedPitch::G,
            Pitch::GSharp => NamedPitch::AFlat,
            Pitch::A => NamedPitch::A,
            Pitch::ASharp => NamedPitch::BFlat,
            Pitch::B => NamedPitch::B,
        }
    }

    fn named_pitch(&self) -> (p: NamedPitch) {
        match self {
            Pitch::C => NamedPitch::C,
            Pitch::CSharp => NamedPitch::DFlat,
            Pitch::D => NamedPitch::D,
            Pitch::DSharp => NamedPitch::EFlat,
            Pitch::E => NamedPitch::E,
            Pitch::F => NamedPitch::F,
            Pitch::FSharp => NamedPitch::FSharp,
            Pitch::G => NamedPitch::G,
            Pitch::GSharp => NamedPitch::AFlat,
            Pitch::A => NamedPitch::A,
            Pitch::ASharp => NamedPitch::BFlat,
            Pitch::B => NamedPitch::B,
        }
    }
}

impl Pitch {
    /// The spelling of the pitch class with a sharp, or the natural.
    pub open spec fn sharp_spelling_spec(self) -> NamedPitch {
        match self {
            Pitch::C => NamedPitch::C,
            Pitch::CSharp => NamedPitch::CSharp,
            Pitch::D => NamedPitch::D,
            Pitch::DSharp => NamedPitch::DSharp,
            Pitch::E => NamedPitch::E,
            Pitch::F => NamedPitch::F,
            Pitch::FSharp => NamedPitch::FSharp,
            Pitch::G => NamedPitch::G,
            Pitch::GSharp => NamedPitch::GSharp,
            Pitch::A => NamedPitch::A,
            Pitch::ASharp => NamedPitch::ASharp,
            Pitch::B => NamedPitch::B,
        }
    }

    /// The spelling of the pitch class with a flat, or the natural.
    pub open spec fn flat_spelling_spec(self) -> NamedPitch {
        match self {
            Pitch::C => NamedPitch::C,
            Pitch::CSharp => NamedPitch::DFlat,
            Pitch::D => NamedPitch::D,
            Pitch::DSharp => NamedPitch::EFlat,
            Pitch::E => NamedPitch::E,
            Pitch::F => NamedPitch::F,
            Pitch::FSharp => NamedPitch::GFlat,
            Pitch::G => NamedPitch::G,
            Pitch::GSharp => NamedPitch::AFlat,
            Pitch::A => NamedPitch::A,
            Pitch::ASharp => NamedPitch::BFlat,
            Pitch::B => NamedPitch::B,
        }
    }

    /// Returns the spelling of the pitch class with a sharp, or the natural.
    pub fn sharp_spelling(&self) -> (p: NamedPitch)
        ensures
            p == self.sharp_spelling_spec(),
    {
        match self {
            Pitch::C => NamedPitch::C,
            Pitch::CSharp => NamedPitch::CSharp,
            Pitch::D => NamedPitch::D,
            Pitch::DSharp => NamedPitch::DSharp,
            Pitch::E => NamedPitch::E,
            Pitch::F => NamedPitch::F,
            Pitch::FSharp => NamedPitch::FSharp,
            Pitch::G => NamedPitch::G,
            Pitch::GSharp => NamedPitch::GSharp,
            Pitch::A => NamedPitch::A,
            Pitch::ASharp => NamedPitch::ASharp,
            Pitch::B => NamedPitch::B,
        }
    }

    /// Returns the spelling of the pitch class with a flat, or the natural.
    pub fn flat_spelling(&self) -> (p: NamedPitch)
        ensures
            p == self.flat_spelling_spec(),
    {
        match self {
            Pitch::C => NamedPitch::C,
            Pitch::CSharp => NamedPitch::DFlat,
            Pitch::D => NamedPitch::D,
            Pitch::DSharp => NamedPitch::EFlat,
            Pitch::E => NamedPitch::E,
            Pitch::F => NamedPitch::F,
            Pitch::FSharp => NamedPitch::GFlat,
            Pitch::G => NamedPitch::G,
            Pitch::GSharp => NamedPitch::AFlat,
            Pitch::A => NamedPitch::A,
            Pitch::ASharp => NamedPitch::BFlat,
            Pitch::B => NamedPitch::B,
        }
    }

    /// The usual spelling of a pitch class sounds that pitch class, with at
    /// most one flat or sharp, and is a natural where the pitch class is a
    /// white key.
    pub proof fn lemma_usual_spelling(p: Pitch)
        ensures
            p.named_pitch_spec().pitch_spec() == p,
            -1 <= p.named_pitch_spec().accidental() <= 1,
            p.named_pitch_spec().offset() == p.semitone(),
            p.is_natural_spec() <==> p.named_pitch_spec().is_natural_spec(),
    {
        reveal(NamedPitch::index_spec);
        reveal(NamedPitch::offset);
    }

    /// The spelling of a pitch class with a sharp sounds that pitch class.
    pub proof fn lemma_sharp_spelling(p: Pitch)
        ensures
            p.sharp_spelling_spec().pitch_spec() == p,
    {
        reveal(NamedPitch::index_spec);
        reveal(NamedPitch::offset);
    }

    /// The spelling of a pitch class with a flat sounds that pitch class.
    pub proof fn lemma_flat_spelling(p: Pitch)
        ensures
            p.flat_spelling_spec().pitch_spec() == p,
    {
        reveal(NamedPitch::index_spec);
        reveal(NamedPitch::offset);
    }

    /// The spellings of a pitch class sound that pitch class, with at most
    /// one flat or sharp.
    pub proof fn lemma_spellings(p: Pitch)
        ensures
            p.named_pitch_spec().pitch_spec() == p,
            p.sharp_spelling_spec().pitch_spec() == p,
            p.flat_spelling_spec().pitch_spec() == p,
            -1 <= p.named_pitch_spec().accidental() <= 1,
            p.named_pitch_spec().offset() == p.semitone(),
            p.is_natural_spec() <==> p.named_pitch_spec().is_natural_spec(),
    {
        Pitch::lemma_usual_spelling(p);
        Pitch::lemma_sharp_spelling(p);
        Pitch::lemma_flat_spelling(p);
    }
}

} // verus!

//! Reading note names and octave digits.

use vstd::prelude::*;
use crate::error::{KordError, Res};
use crate::named_pitch::NamedPitch;
use crate::note::Note;
use crate::octave::Octave;

verus! {

/// The letter that a capital from `A` to `G` stands for, numbered from `C`.
pub open spec fn letter_of_char(c: char) -> Option<int> {
    if c == 'C' {
        Some(0int)
    } else if c == 'D' {
        Some(1int)
    } else if c == 'E' {
        Some(2int)
    } else if c == 'F' {
        Some(3int)
    } else if c == 'G' {
        Some(4int)
    } else if c == 'A' {
        Some(5int)
    } else if c == 'B' {
        Some(6int)
    } else {
        None
    }
}

/// The accidental that one sign stands for: `#` and `♯` raise by one, `𝄪`
/// by two; `b` and `♭` lower by one, `𝄫` by two.
pub open spec fn accidental_of_char(c: char) -> Option<int> {
    if c == '#' || c == '\u{266f}' {
        Some(1int)
    } else if c == '\u{1d12a}' {
        Some(2int)
    } else if c == 'b' || c == '\u{266d}' {
        Some(-1int)
    } else if c == '\u{1d12b}' {
        Some(-2int)
    } else {
        None
    }
}

/// The accidental that the signs after a letter stand for: none, one sign,
/// or one of the pairs `##` and `bb`.
pub open spec fn accidental_of_signs(signs: Seq<char>) -> Option<int> {
    if signs.len() == 0 {
        Some(0int)
    } else if signs.len() == 1 {
        accidental_of_char(signs[0])
    } else if signs.len() == 2 && signs[0] == '#' && signs[1] == '#' {
        Some(2int)
    } else if signs.len() == 2 && signs[0] == 'b' && signs[1] == 'b' {
        Some(-2int)
    } else {
        None
    }
}

/// The spelling that a note name stands for: a capital letter followed by
/// the signs of at most two flats or sharps.
pub open spec fn named_pitch_of_text(text: Seq<char>) -> Option<NamedPitch> {
    if text.len() == 0 {
        None
    } else {
        match (letter_of_char(text[0]), accidental_of_signs(text.subrange(1, text.len() as int))) {
            (Some(letter), Some(accidental)) => Some(
                NamedPitch::of_letter_accidental(letter, accidental),
            ),
            _ => None,
        }
    }
}

/// The octave that a text stands for: one digit.
pub open spec fn octave_of_text(text: Seq<char>) -> Option<Octave> {
    if text.len() != 1 {
        None
    } else {
        octave_of_char(text[0])
    }
}

/// The octave that a digit stands for.
pub open spec fn octave_of_char(c: char) -> Option<Octave> {
    if c == '0' {
        Some(Octave::Zero)
    } else if c == '1' {
        Some(Octave::One)
    } else if c == '2' {
        Some(Octave::Two)
    } else if c == '3' {
        Some(Octave::Three)
    } else if c == '4' {
        Some(Octave::Four)
    } else if c == '5' {
        Some(Octave::Five)
    } else if c == '6' {
        Some(Octave::Six)
    } else if c == '7' {
        Some(Octave::Seven)
    } else if c == '8' {
        Some(Octave::Eight)
    } else if c == '9' {
        Some(Octave::Nine)
    } else {
        None
    }
}

/// The note that a text stands for: a note name, then perhaps the digit of
/// an octave.  A name without a digit lies in octave 4.
pub open spec fn note_of_text(text: Seq<char>) -> Option<Note> {
    if text.len() >= 2 && octave_of_char(text.last()) is Some {
        match named_pitch_of_text(text.drop_last()) {
            Some(named_pitch) => Some(
                Note { named_pitch, octave: octave_of_char(text.last()).unwrap() },
            ),
            None => None,
        }
    } else {
        match named_pitch_of_text(text) {
            Some(named_pitch) => Some(Note { named_pitch, octave: Octave::Four }),
            None => None,
        }
    }
}

fn letter_from_char(c: char) -> (l: Option<u8>)
    ensures
        l is Some <==> letter_of_char(c) is Some,
        l matches Some(v) ==> letter_of_char(c) == Some(v as int) && v < 7,
{
    if c == 'C' {
        Some(0)
    } else if c == 'D' {
        Some(1)
    } else if c == 'E' {
        Some(2)
    } else if c == 'F' {
        Some(3)
    } else if c == 'G' {
        Some(4)
    } else if c == 'A' {
        Some(5)
    } else if c == 'B' {
        Some(6)
    } else {
        None
    }
}

fn accidental_from_char(c: char) -> (a: Option<i8>)
    ensures
        a is Some <==> accidental_of_char(c) is Some,
        a matches Some(v) ==> accidental_of_char(c) == Some(v as int) && -2 <= v <= 2,
{
    if c == '#' || c == '\u{266f}' {
        Some(1)
    } else if c == '\u{1d12a}' {
        Some(2)
    } else if c == 'b' || c == '\u{266d}' {
        Some(-1)
    } else if c == '\u{1d12b}' {
        Some(-2)
    } else {
        None
    }
}

fn octave_from_char(c: char) -> (o: Option<Octave>)
    ensures
        o == octave_of_char(c),
{
    if c == '0' {
        Some(Octave::Zero)
    } else if c == '1' {
        Some(Octave::One)
    } else if c == '2' {
        Some(Octave::Two)
    } else if c == '3' {
        Some(Octave::Three)
    } else if c == '4' {
        Some(Octave::Four)
    } else if c == '5' {
        Some(Octave::Five)
    } else if c == '6' {
        Some(Octave::Six)
    } else if c == '7' {
        Some(Octave::Seven)
    } else if c == '8' {
        Some(Octave::Eight)
    } else if c == '9' {
        Some(Octave::Nine)
    } else {
        None
    }
}

/// Reads the first `len` characters of `text` as a note name.
fn named_pitch_from_prefix(text: &str, len: usize) -> (p: Option<NamedPitch>)
    requires
        len <= text@.len(),
    ensures
        p == named_pitch_of_text(text@.subrange(0, len as int)),
{
    let ghost name = text@.subrange(0, len as int);
    if len == 0 || len > 3 {
        return None;
    }
    let first = text.get_char(0);
    assert(name[0] == first);
    let letter = match letter_from_char(first) {
        Some(l) => l,
        None => {
            return None;
        },
    };
    let ghost signs = name.subrange(1, name.len() as int);
    let accidental: i8 = if len == 1 {
        0
    } else if len == 2 {
        let sign = text.get_char(1);
        assert(signs[0] == sign);
        match accidental_from_char(sign) {
            Some(a) => a,
            None => {
                return None;
            },
        }
    } else {
        let second = text.get_char(1);
        let third = text.get_char(2);
        assert(signs[0] == second);
        assert(signs[1] == third);
        if second == '#' && third == '#' {
            2
        } else if second == 'b' && third == 'b' {
            -2
        } else {
            return None;
        }
    };
    NamedPitch::from_letter_accidental(letter, accidental)
}

/// Reads a note name, such as `C`, `F#`, `F♯`, `Bbb` or `B𝄫`, as that note
/// in octave 4.
///
/// Fails with [`KordError::InvalidNote`] on every other text, among them the
/// names with three flats or sharps.
pub fn note_str_to_note(note_str: &str) -> (r: Res<Note>)
    ensures
        match named_pitch_of_text(note_str@) {
            Some(named_pitch) => r == Ok::<Note, KordError>(
                Note { named_pitch, octave: Octave::Four },
            ),
            None => r == Err::<Note, KordError>(KordError::InvalidNote),
        },
{
    let len = note_str.unicode_len();
    assert(note_str@.subrange(0, len as int) =~= note_str@);
    match named_pitch_from_prefix(note_str, len) {
        Some(named_pitch) => Ok(Note::new(named_pitch, Octave::Four)),
        None => Err(KordError::InvalidNote),
    }
}

/// Reads one digit as an octave.
///
/// Fails with [`KordError::InvalidOctave`] on every other text.
pub fn octave_str_to_octave(note_str: &str) -> (r: Res<Octave>)
    ensures
        match octave_of_text(note_str@) {
            Some(octave) => r == Ok::<Octave, KordError>(octave),
            None => r == Err::<Octave, KordError>(KordError::InvalidOctave),
        },
{
    if note_str.unicode_len() != 1 {
        return Err(KordError::InvalidOctave);
    }
    match octave_from_char(note_str.get_char(0)) {
        Some(octave) => Ok(octave),
        None => Err(KordError::InvalidOctave),
    }
}

/// A reader of the texts in which notes are written.
#[derive(Clone, Copy, Debug, Default)]
pub struct ChordParser;

impl ChordParser {
    /// Reads a note: a note name, then perhaps the digit of its octave, as
    /// in `E♭` or `E♭3`.  A note without a digit lies in octave 4.
    ///
    /// Fails with [`KordError::InvalidNote`] on every other text.
    pub fn parse_note(text: &str) -> (r: Res<Note>)
        ensures
            match note_of_text(text@) {
                Some(note) => r == Ok::<Note, KordError>(note),
                None => r == Err::<Note, KordError>(KordError::InvalidNote),
            },
    {
        let len = text.unicode_len();
        if len >= 2 {
            let last = text.get_char(len - 1);
            assert(text@.last() == last);
            match octave_from_char(last) {
                Some(octave) => {
                    assert(text@.drop_last() =~= text@.subrange(0, len - 1));
                    return match named_pitch_from_prefix(text, len - 1) {
                        Some(named_pitch) => Ok(Note::new(named_pitch, octave)),
                        None => Err(KordError::InvalidNote),
                    };
                },
                None => {},
            }
        }
        assert(text@.subrange(0, len as int) =~= text@);
        match named_pitch_from_prefix(text, len) {
            Some(named_pitch) => Ok(Note::new(named_pitch, Octave::Four)),
            None => Err(KordError::InvalidNote),
        }
    }
}

} // verus!

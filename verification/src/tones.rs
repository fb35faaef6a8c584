//! The tones of a chord: which intervals above the root its modifiers and
//! extensions call for, and in what order they are voiced.

use vstd::prelude::*;
use crate::interval::Interval;
use crate::modifier::{ExtensionSet, ModifierSet};

verus! {

/// The number of intervals that can be a chord tone.
pub const TONE_COUNT: u8 = 18;

/// The chord tones from the lowest degree to the highest: root, thirds,
/// fifths, sevenths, ninths, elevenths, thirteenths.  Their semitones rise
/// along the order.
pub open spec fn spread_tone(place: int) -> Interval {
    if place <= 0 {
        Interval::PerfectUnison
    } else if place == 1 {
        Interval::MinorThird
    } else if place == 2 {
        Interval::MajorThird
    } else if place == 3 {
        Interval::DiminishedFifth
    } else if place == 4 {
        Interval::PerfectFifth
    } else if place == 5 {
        Interval::AugmentedFifth
    } else if place == 6 {
        Interval::DiminishedSeventh
    } else if place == 7 {
        Interval::MinorSeventh
    } else if place == 8 {
        Interval::MajorSeventh
    } else if place == 9 {
        Interval::MinorNinth
    } else if place == 10 {
        Interval::MajorNinth
    } else if place == 11 {
        Interval::AugmentedNinth
    } else if place == 12 {
        Interval::DiminishedEleventh
    } else if place == 13 {
        Interval::PerfectEleventh
    } else if place == 14 {
        Interval::AugmentedEleventh
    } else if place == 15 {
        Interval::MinorThirteenth
    } else if place == 16 {
        Interval::MajorThirteenth
    } else {
        Interval::AugmentedThirteenth
    }
}

/// The chord tones in the order of a close voicing, in which the tones above
/// the seventh sound an octave lower: by the semitones of the simple
/// interval, a tone of the triad or a seventh before a lowered tone of the
/// same height.
pub open spec fn crunchy_tone(place: int) -> Interval {
    if place <= 0 {
        Interval::PerfectUnison
    } else if place == 1 {
        Interval::MinorNinth
    } else if place == 2 {
        Interval::MajorNinth
    } else if place == 3 {
        Interval::MinorThird
    } else if place == 4 {
        Interval::AugmentedNinth
    } else if place == 5 {
        Interval::MajorThird
    } else if place == 6 {
        Interval::DiminishedEleventh
    } else if place == 7 {
        Interval::PerfectEleventh
    } else if place == 8 {
        Interval::DiminishedFifth
    } else if place == 9 {
        Interval::AugmentedEleventh
    } else if place == 10 {
        Interval::PerfectFifth
    } else if place == 11 {
        Interval::AugmentedFifth
    } else if place == 12 {
        Interval::MinorThirteenth
    } else if place == 13 {
        Interval::DiminishedSeventh
    } else if place == 14 {
        Interval::MajorThirteenth
    } else if place == 15 {
        Interval::MinorSeventh
    } else if place == 16 {
        Interval::AugmentedThirteenth
    } else {
        Interval::MajorSeventh
    }
}

/// The chord tone at a place of the voicing's order.
pub open spec fn tone_at(crunchy: bool, place: int) -> Interval {
    if crunchy {
        crunchy_tone(place)
    } else {
        spread_tone(place)
    }
}

/// The interval at which a chord tone is voiced: the tone itself in a
/// spread voicing, the tone brought within one octave in a close one.
pub open spec fn voiced(crunchy: bool, tone: Interval) -> Interval {
    if crunchy {
        tone.simple_spec()
    } else {
        tone
    }
}

/// Whether the chord with these modifiers and extensions has `tone` above
/// its root.
///
/// The third is minor under `Minor` and `Diminished`, else major.  The fifth
/// is diminished under `Flat5` and `Diminished`, else augmented under
/// `Augmented5`, else perfect.  `Major7` gives the major seventh; without
/// it a dominant modifier gives the minor seventh, or the diminished one
/// beside `Diminished`.  A dominant modifier of a degree gives the natural
/// tones from the ninth up to that degree.  Every other modifier and every
/// extension gives its own tone.
pub open spec fn uses_tone(
    modifiers: ModifierSet,
    extensions: ExtensionSet,
    tone: Interval,
) -> bool {
    match tone {
        Interval::PerfectUnison => true,
        Interval::MinorSecond => false,
        Interval::MajorSecond => false,
        Interval::AugmentedSecond => false,
        Interval::MinorThird => modifiers.minor || modifiers.diminished,
        Interval::MajorThird => !(modifiers.minor || modifiers.diminished),
        Interval::DiminishedFourth => false,
        Interval::PerfectFourth => false,
        Interval::AugmentedFourth => false,
        Interval::DiminishedFifth => modifiers.flat5 || modifiers.diminished,
        Interval::PerfectFifth => !(modifiers.flat5 || modifiers.diminished || modifiers.augmented5),
        Interval::AugmentedFifth => modifiers.augmented5
            && !(modifiers.flat5 || modifiers.diminished),
        Interval::MinorSixth => false,
        Interval::MajorSixth => false,
        Interval::AugmentedSixth => false,
        Interval::DiminishedSeventh => !modifiers.major7
            && modifiers.is_dominant_spec()
            && modifiers.diminished,
        Interval::MinorSeventh => !modifiers.major7
            && modifiers.is_dominant_spec()
            && !modifiers.diminished,
        Interval::MajorSeventh => modifiers.major7,
        Interval::PerfectOctave => false,
        Interval::MinorNinth => modifiers.flat9,
        Interval::MajorNinth => modifiers.dominant9
            || modifiers.dominant11
            || modifiers.dominant13
            || extensions.add9,
        Interval::AugmentedNinth => modifiers.sharp9,
        Interval::DiminishedEleventh => extensions.flat11,
        Interval::PerfectEleventh => modifiers.dominant11
            || modifiers.dominant13
            || extensions.add11,
        Interval::AugmentedEleventh => modifiers.sharp11,
        Interval::MinorThirteenth => extensions.flat13,
        Interval::MajorThirteenth => modifiers.dominant13 || extensions.add13,
        Interval::AugmentedThirteenth => extensions.sharp13,
    }
}

/// Whether the chord with these modifiers and extensions has a tone that
/// lies `distance` semitones above its root, octaves left out.
#[verifier::opaque]
pub open spec fn sounds_at(
    modifiers: ModifierSet,
    extensions: ExtensionSet,
    distance: int,
) -> bool {
    if distance == 0 {
        true
    } else if distance == 1 {
        uses_tone(modifiers, extensions, Interval::MinorNinth)
    } else if distance == 2 {
        uses_tone(modifiers, extensions, Interval::MajorNinth)
    } else if distance == 3 {
        uses_tone(modifiers, extensions, Interval::MinorThird)
            || uses_tone(modifiers, extensions, Interval::AugmentedNinth)
    } else if distance == 4 {
        uses_tone(modifiers, extensions, Interval::MajorThird)
            || uses_tone(modifiers, extensions, Interval::DiminishedEleventh)
    } else if distance == 5 {
        uses_tone(modifiers, extensions, Interval::PerfectEleventh)
    } else if distance == 6 {
        uses_tone(modifiers, extensions, Interval::DiminishedFifth)
            || uses_tone(modifiers, extensions, Interval::AugmentedEleventh)
    } else if distance == 7 {
        uses_tone(modifiers, extensions, Interval::PerfectFifth)
    } else if distance == 8 {
        uses_tone(modifiers, extensions, Interval::AugmentedFifth)
            || uses_tone(modifiers, extensions, Interval::MinorThirteenth)
    } else if distance == 9 {
        uses_tone(modifiers, extensions, Interval::DiminishedSeventh)
            || uses_tone(modifiers, extensions, Interval::MajorThirteenth)
    } else if distance == 10 {
        uses_tone(modifiers, extensions, Interval::MinorSeventh)
            || uses_tone(modifiers, extensions, Interval::AugmentedThirteenth)
    } else if distance == 11 {
        uses_tone(modifiers, extensions, Interval::MajorSeventh)
    } else {
        false
    }
}

/// The lowest chord tone that lies `distance` semitones above the root,
/// octaves left out, in a chord that sounds there.
pub open spec fn tone_sounding_at(
    modifiers: ModifierSet,
    extensions: ExtensionSet,
    distance: int,
) -> Interval {
    if distance == 0 {
        Interval::PerfectUnison
    } else if distance == 3 && uses_tone(modifiers, extensions, Interval::MinorThird) {
        Interval::MinorThird
    } else if distance == 4 && uses_tone(modifiers, extensions, Interval::MajorThird) {
        Interval::MajorThird
    } else if distance == 6 && uses_tone(modifiers, extensions, Interval::DiminishedFifth) {
        Interval::DiminishedFifth
    } else if distance == 7 && uses_tone(modifiers, extensions, Interval::PerfectFifth) {
        Interval::PerfectFifth
    } else if distance == 8 && uses_tone(modifiers, extensions, Interval::AugmentedFifth) {
        Interval::AugmentedFifth
    } else if distance == 9 && uses_tone(modifiers, extensions, Interval::DiminishedSeventh) {
        Interval::DiminishedSeventh
    } else if distance == 10 && uses_tone(modifiers, extensions, Interval::MinorSeventh) {
        Interval::MinorSeventh
    } else if distance == 11 && uses_tone(modifiers, extensions, Interval::MajorSeventh) {
        Interval::MajorSeventh
    } else if distance == 1 && uses_tone(modifiers, extensions, Interval::MinorNinth) {
        Interval::MinorNinth
    } else if distance == 2 && uses_tone(modifiers, extensions, Interval::MajorNinth) {
        Interval::MajorNinth
    } else if distance == 3 && uses_tone(modifiers, extensions, Interval::AugmentedNinth) {
        Interval::AugmentedNinth
    } else if distance == 4 && uses_tone(modifiers, extensions, Interval::DiminishedEleventh) {
        Interval::DiminishedEleventh
    } else if distance == 5 && uses_tone(modifiers, extensions, Interval::PerfectEleventh) {
        Interval::PerfectEleventh
    } else if distance == 6 && uses_tone(modifiers, extensions, Interval::AugmentedEleventh) {
        Interval::AugmentedEleventh
    } else if distance == 8 && uses_tone(modifiers, extensions, Interval::MinorThirteenth) {
        Interval::MinorThirteenth
    } else if distance == 9 && uses_tone(modifiers, extensions, Interval::MajorThirteenth) {
        Interval::MajorThirteenth
    } else if distance == 10 && uses_tone(modifiers, extensions, Interval::AugmentedThirteenth) {
        Interval::AugmentedThirteenth
    } else {
        Interval::PerfectUnison
    }
}

/// The place of a chord tone in the voicing's order.
pub open spec fn place_of(crunchy: bool, tone: Interval) -> int {
    match tone {
        Interval::PerfectUnison => if crunchy {
            0
        } else {
            0
        },
        Interval::MinorSecond => 0,
        Interval::MajorSecond => 0,
        Interval::AugmentedSecond => 0,
        Interval::MinorThird => if crunchy {
            3
        } else {
            1
        },
        Interval::MajorThird => if crunchy {
            5
        } else {
            2
        },
        Interval::DiminishedFourth => 0,
        Interval::PerfectFourth => 0,
        Interval::AugmentedFourth => 0,
        Interval::DiminishedFifth => if crunchy {
            8
        } else {
            3
        },
        Interval::PerfectFifth => if crunchy {
            10
        } else {
            4
        },
        Interval::AugmentedFifth => if crunchy {
            11
        } else {
            5
        },
        Interval::MinorSixth => 0,
        Interval::MajorSixth => 0,
        Interval::AugmentedSixth => 0,
        Interval::DiminishedSeventh => if crunchy {
            13
        } else {
            6
        },
        Interval::MinorSeventh => if crunchy {
            15
        } else {
            7
        },
        Interval::MajorSeventh => if crunchy {
            17
        } else {
            8
        },
        Interval::PerfectOctave => 0,
        Interval::MinorNinth => if crunchy {
            1
        } else {
            9
        },
        Interval::MajorNinth => if crunchy {
            2
        } else {
            10
        },
        Interval::AugmentedNinth => if crunchy {
            4
        } else {
            11
        },
        Interval::DiminishedEleventh => if crunchy {
            6
        } else {
            12
        },
        Interval::PerfectEleventh => if crunchy {
            7
        } else {
            13
        },
        Interval::AugmentedEleventh => if crunchy {
            9
        } else {
            14
        },
        Interval::MinorThirteenth => if crunchy {
            12
        } else {
            15
        },
        Interval::MajorThirteenth => if crunchy {
            14
        } else {
            16
        },
        Interval::AugmentedThirteenth => if crunchy {
            16
        } else {
            17
        },
    }
}

/// Returns the chord tone at a place of the voicing's order; the last one
/// beyond its end.
pub fn tone_in_order(crunchy: bool, place: u8) -> (tone: Interval)
    ensures
        tone == tone_at(crunchy, place as int),
{
    if crunchy {
        if place == 0 {
            Interval::PerfectUnison
        } else if place == 1 {
            Interval::MinorNinth
        } else if place == 2 {
            Interval::MajorNinth
        } else if place == 3 {
            Interval::MinorThird
        } else if place == 4 {
            Interval::AugmentedNinth
        } else if place == 5 {
            Interval::MajorThird
        } else if place == 6 {
            Interval::DiminishedEleventh
        } else if place == 7 {
            Interval::PerfectEleventh
        } else if place == 8 {
            Interval::DiminishedFifth
        } else if place == 9 {
            Interval::AugmentedEleventh
        } else if place == 10 {
            Interval::PerfectFifth
        } else if place == 11 {
            Interval::AugmentedFifth
        } else if place == 12 {
            Interval::MinorThirteenth
        } else if place == 13 {
            Interval::DiminishedSeventh
        } else if place == 14 {
            Interval::MajorThirteenth
        } else if place == 15 {
            Interval::MinorSeventh
        } else if place == 16 {
            Interval::AugmentedThirteenth
        } else {
            Interval::MajorSeventh
        }
    } else {
        if place == 0 {
            Interval::PerfectUnison
        } else if place == 1 {
            Interval::MinorThird
        } else if place == 2 {
            Interval::MajorThird
        } else if place == 3 {
            Interval::DiminishedFifth
        } else if place == 4 {
            Interval::PerfectFifth
        } else if place == 5 {
            Interval::AugmentedFifth
        } else if place == 6 {
            Interval::DiminishedSeventh
        } else if place == 7 {
            Interval::MinorSeventh
        } else if place == 8 {
            Interval::MajorSeventh
        } else if place == 9 {
            Interval::MinorNinth
        } else if place == 10 {
            Interval::MajorNinth
        } else if place == 11 {
            Interval::AugmentedNinth
        } else if place == 12 {
            Interval::DiminishedEleventh
        } else if place == 13 {
            Interval::PerfectEleventh
        } else if place == 14 {
            Interval::AugmentedEleventh
        } else if place == 15 {
            Interval::MinorThirteenth
        } else if place == 16 {
            Interval::MajorThirteenth
        } else {
            Interval::AugmentedThirteenth
        }
    }
}

/// Tells whether the chord with these modifiers and extensions has `tone`
/// above its root.
pub fn has_tone(modifiers: &ModifierSet, extensions: &ExtensionSet, tone: Interval) -> (b: bool)
    ensures
        b == uses_tone(*modifiers, *extensions, tone),
{
    match tone {
        Interval::PerfectUnison => true,
        Interval::MinorSecond => false,
        Interval::MajorSecond => false,
        Interval::AugmentedSecond => false,
        Interval::MinorThird => modifiers.minor || modifiers.diminished,
        Interval::MajorThird => !(modifiers.minor || modifiers.diminished),
        Interval::DiminishedFourth => false,
        Interval::PerfectFourth => false,
        Interval::AugmentedFourth => false,
        Interval::DiminishedFifth => modifiers.flat5 || modifiers.diminished,
        Interval::PerfectFifth => !(modifiers.flat5 || modifiers.diminished || modifiers.augmented5),
        Interval::AugmentedFifth => modifiers.augmented5
            && !(modifiers.flat5 || modifiers.diminished),
        Interval::MinorSixth => false,
        Interval::MajorSixth => false,
        Interval::AugmentedSixth => false,
        Interval::DiminishedSeventh => !modifiers.major7
            && modifiers.is_dominant()
            && modifiers.diminished,
        Interval::MinorSeventh => !modifiers.major7
            && modifiers.is_dominant()
            && !modifiers.diminished,
        Interval::MajorSeventh => modifiers.major7,
        Interval::PerfectOctave => false,
        Interval::MinorNinth => modifiers.flat9,
        Interval::MajorNinth => modifiers.dominant9
            || modifiers.dominant11
            || modifiers.dominant13
            || extensions.add9,
        Interval::AugmentedNinth => modifiers.sharp9,
        Interval::DiminishedEleventh => extensions.flat11,
        Interval::PerfectEleventh => modifiers.dominant11
            || modifiers.dominant13
            || extensions.add11,
        Interval::AugmentedEleventh => modifiers.sharp11,
        Interval::MinorThirteenth => extensions.flat13,
        Interval::MajorThirteenth => modifiers.dominant13 || extensions.add13,
        Interval::AugmentedThirteenth => extensions.sharp13,
    }
}

/// Tells whether the chord with these modifiers and extensions has a tone
/// `distance` semitones above its root, octaves left out.
pub fn has_tone_at(modifiers: &ModifierSet, extensions: &ExtensionSet, distance: u8) -> (b: bool)
    ensures
        b == sounds_at(*modifiers, *extensions, distance as int),
{
    reveal(sounds_at);
    if distance == 0 {
        true
    } else if distance == 1 {
        has_tone(modifiers, extensions, Interval::MinorNinth)
    } else if distance == 2 {
        has_tone(modifiers, extensions, Interval::MajorNinth)
    } else if distance == 3 {
        has_tone(modifiers, extensions, Interval::MinorThird)
            || has_tone(modifiers, extensions, Interval::AugmentedNinth)
    } else if distance == 4 {
        has_tone(modifiers, extensions, Interval::MajorThird)
            || has_tone(modifiers, extensions, Interval::DiminishedEleventh)
    } else if distance == 5 {
        has_tone(modifiers, extensions, Interval::PerfectEleventh)
    } else if distance == 6 {
        has_tone(modifiers, extensions, Interval::DiminishedFifth)
            || has_tone(modifiers, extensions, Interval::AugmentedEleventh)
    } else if distance == 7 {
        has_tone(modifiers, extensions, Interval::PerfectFifth)
    } else if distance == 8 {
        has_tone(modifiers, extensions, Interval::AugmentedFifth)
            || has_tone(modifiers, extensions, Interval::MinorThirteenth)
    } else if distance == 9 {
        has_tone(modifiers, extensions, Interval::DiminishedSeventh)
            || has_tone(modifiers, extensions, Interval::MajorThirteenth)
    } else if distance == 10 {
        has_tone(modifiers, extensions, Interval::MinorSeventh)
            || has_tone(modifiers, extensions, Interval::AugmentedThirteenth)
    } else if distance == 11 {
        has_tone(modifiers, extensions, Interval::MajorSeventh)
    } else {
        false
    }
}

/// Every chord has a root, one third and one fifth, and at most one seventh.
pub proof fn lemma_triad(modifiers: ModifierSet, extensions: ExtensionSet)
    ensures
        uses_tone(modifiers, extensions, Interval::PerfectUnison),
        uses_tone(modifiers, extensions, Interval::MinorThird) != uses_tone(
            modifiers,
            extensions,
            Interval::MajorThird,
        ),
        uses_tone(modifiers, extensions, Interval::DiminishedFifth) || uses_tone(
            modifiers,
            extensions,
            Interval::PerfectFifth,
        ) || uses_tone(modifiers, extensions, Interval::AugmentedFifth),
{
}

/// Both orders list the same eighteen chord tones, each once; no other
/// interval is a chord tone.
pub proof fn lemma_orders(crunchy: bool, tone: Interval, place: int)
    ensures
        0 <= place_of(crunchy, tone) < 18,
        0 <= place < 18 ==> place_of(crunchy, tone_at(crunchy, place)) == place,
        forall|modifiers: ModifierSet, extensions: ExtensionSet| #[trigger]
            uses_tone(modifiers, extensions, tone) ==> tone_at(crunchy, place_of(crunchy, tone))
                == tone,
{
}

/// A chord sounds at a distance from its root exactly where one of its
/// tones lies at that distance, octaves left out.
pub proof fn lemma_sounds_at(
    modifiers: ModifierSet,
    extensions: ExtensionSet,
    tone: Interval,
    distance: int,
)
    ensures
        uses_tone(modifiers, extensions, tone) ==> sounds_at(
            modifiers,
            extensions,
            tone.semitones_spec() % 12,
        ),
        sounds_at(modifiers, extensions, distance) ==> 0 <= distance < 12 && uses_tone(
            modifiers,
            extensions,
            tone_sounding_at(modifiers, extensions, distance),
        ) && tone_sounding_at(modifiers, extensions, distance).semitones_spec() % 12 == distance,
        sounds_at(modifiers, extensions, 0),
{
    reveal(sounds_at);
}

/// Along the spread order the semitones rise; along the close order the
/// semitones of the simple intervals do not fall.
pub proof fn lemma_orders_rise(i: int, j: int)
    requires
        0 <= i < j < 18,
    ensures
        spread_tone(i).semitones_spec() < spread_tone(j).semitones_spec(),
        crunchy_tone(i).simple_spec().semitones_spec() <= crunchy_tone(
            j,
        ).simple_spec().semitones_spec(),
{
}

} // verus!

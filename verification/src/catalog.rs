//! The catalog: the chord qualities that a set of notes is matched against.
//!
//! An entry is a set of modifiers; its tones are those of the chord with
//! these modifiers.  Every chord has a third and a fifth, so notes without
//! a third above a root, or without a fifth, match no entry on that root:
//! two notes a fifth apart, or a triad with a second or a fourth in place
//! of its third, stand for no chord.  Notes beyond the tones of an entry
//! match as extensions where each is a ninth, an eleventh or a
//! thirteenth that the entry does not have; any other note beyond them
//! keeps the entry from matching.  Among the entries that match, the one
//! with the fewest modifiers and extensions is taken, then the one with
//! the fewest altered extensions, then the one declared first.

use vstd::prelude::*;
use crate::modifier::{Degree, Extension, ExtensionSet, Modifier, ModifierSet};
use crate::note_set::PitchClassSet;
use crate::tones::{has_tone_at, sounds_at};

verus! {

/// The number of entries of the catalog.
pub const CATALOG_SIZE: usize = 26;

/// One entry of the catalog: the modifiers of a chord quality.  The tones
/// of the quality follow from the modifiers.
///
/// The order of declaration decides between matches of equal cost.  The
/// diminished seventh chord stands before the diminished triad, so that
/// its seventh is taken for a seventh and not for an added thirteenth.
#[derive(PartialEq, Eq, Copy, Clone, Hash, Debug, Structural)]
pub struct CatalogEntry {
    /// The modifiers that make the quality.
    pub modifiers: ModifierSet,
}

/// The modifiers of the entry at a place of the catalog, in the order of
/// declaration; those of the major triad beyond its end.
#[verifier::opaque]
pub open spec fn entry_at(index: int) -> ModifierSet {
    if index == 1 {
        ModifierSet::empty_spec().with_spec(Modifier::Minor)
    } else if index == 2 {
        ModifierSet::empty_spec().with_spec(Modifier::Diminished)
            .with_spec(Modifier::Dominant(Degree::Seven))
    } else if index == 3 {
        ModifierSet::empty_spec().with_spec(Modifier::Diminished)
    } else if index == 4 {
        ModifierSet::empty_spec().with_spec(Modifier::Augmented5)
    } else if index == 5 {
        ModifierSet::empty_spec().with_spec(Modifier::Flat5)
    } else if index == 6 {
        ModifierSet::empty_spec().with_spec(Modifier::Dominant(Degree::Seven))
    } else if index == 7 {
        ModifierSet::empty_spec().with_spec(Modifier::Major7)
    } else if index == 8 {
        ModifierSet::empty_spec().with_spec(Modifier::Minor)
            .with_spec(Modifier::Dominant(Degree::Seven))
    } else if index == 9 {
        ModifierSet::empty_spec().with_spec(Modifier::Minor).with_spec(Modifier::Major7)
    } else if index == 10 {
        ModifierSet::empty_spec().with_spec(Modifier::Augmented5)
            .with_spec(Modifier::Dominant(Degree::Seven))
    } else if index == 11 {
        ModifierSet::empty_spec().with_spec(Modifier::Augmented5).with_spec(Modifier::Major7)
    } else if index == 12 {
        ModifierSet::empty_spec().with_spec(Modifier::Dominant(Degree::Seven))
            .with_spec(Modifier::Flat5)
    } else if index == 13 {
        ModifierSet::empty_spec().with_spec(Modifier::Minor)
            .with_spec(Modifier::Dominant(Degree::Seven))
            .with_spec(Modifier::Flat5)
    } else if index == 14 {
        ModifierSet::empty_spec().with_spec(Modifier::Dominant(Degree::Nine))
    } else if index == 15 {
        ModifierSet::empty_spec().with_spec(Modifier::Minor)
            .with_spec(Modifier::Dominant(Degree::Nine))
    } else if index == 16 {
        ModifierSet::empty_spec().with_spec(Modifier::Dominant(Degree::Eleven))
    } else if index == 17 {
        ModifierSet::empty_spec().with_spec(Modifier::Minor)
            .with_spec(Modifier::Dominant(Degree::Eleven))
    } else if index == 18 {
        ModifierSet::empty_spec().with_spec(Modifier::Dominant(Degree::Thirteen))
    } else if index == 19 {
        ModifierSet::empty_spec().with_spec(Modifier::Minor)
            .with_spec(Modifier::Dominant(Degree::Thirteen))
    } else if index == 20 {
        ModifierSet::empty_spec().with_spec(Modifier::Dominant(Degree::Seven))
            .with_spec(Modifier::Flat9)
    } else if index == 21 {
        ModifierSet::empty_spec().with_spec(Modifier::Dominant(Degree::Seven))
            .with_spec(Modifier::Sharp9)
    } else if index == 22 {
        ModifierSet::empty_spec().with_spec(Modifier::Dominant(Degree::Seven))
            .with_spec(Modifier::Sharp11)
    } else if index == 23 {
        ModifierSet::empty_spec().with_spec(Modifier::Major7).with_spec(Modifier::Sharp11)
    } else if index == 24 {
        ModifierSet::empty_spec().with_spec(Modifier::Dominant(Degree::Nine))
            .with_spec(Modifier::Sharp11)
    } else if index == 25 {
        ModifierSet::empty_spec().with_spec(Modifier::Dominant(Degree::Seven))
            .with_spec(Modifier::Flat9)
            .with_spec(Modifier::Sharp9)
    } else {
        ModifierSet::empty_spec()
    }
}

/// The extension that a tone at `distance` semitones above the root can be
/// taken for, where the chord quality does not have that tone.
pub open spec fn extension_at(distance: int) -> Option<Extension> {
    if distance == 2 {
        Some(Extension::Add9)
    } else if distance == 4 {
        Some(Extension::Flat11)
    } else if distance == 5 {
        Some(Extension::Add11)
    } else if distance == 8 {
        Some(Extension::Flat13)
    } else if distance == 9 {
        Some(Extension::Add13)
    } else if distance == 10 {
        Some(Extension::Sharp13)
    } else {
        None
    }
}

/// The distances, in semitones above the pitch class `root` and octaves
/// left out, at which the pitch classes of `classes` lie; the root itself
/// and the distance `reserved` are left out.
pub open spec fn distances_from(classes: Set<int>, root: int, reserved: Option<int>) -> Set<int> {
    Set::new(
        |d: int| 1 <= d <= 11 && classes.contains((root + d) % 12) && reserved != Some(d),
    )
}

/// Whether a chord quality agrees with the given distances at `distance`:
/// a tone of the quality has to be among the distances, and a distance that
/// is no tone of the quality has to be an extension.
pub open spec fn tone_fits(modifiers: ModifierSet, distances: Set<int>, distance: int) -> bool {
    if sounds_at(modifiers, ExtensionSet::empty_spec(), distance) {
        distances.contains(distance)
    } else {
        distances.contains(distance) ==> extension_at(distance) is Some
    }
}

/// Whether the given distances hold every tone of a chord quality, and
/// beyond them only tones that are extensions.
pub open spec fn quality_fits(modifiers: ModifierSet, distances: Set<int>) -> bool {
    tone_fits(modifiers, distances, 1)
        && tone_fits(modifiers, distances, 2)
        && tone_fits(modifiers, distances, 3)
        && tone_fits(modifiers, distances, 4)
        && tone_fits(modifiers, distances, 5)
        && tone_fits(modifiers, distances, 6)
        && tone_fits(modifiers, distances, 7)
        && tone_fits(modifiers, distances, 8)
        && tone_fits(modifiers, distances, 9)
        && tone_fits(modifiers, distances, 10)
        && tone_fits(modifiers, distances, 11)
}

/// Whether `distance` is among the distances without being a tone of the
/// chord quality.
pub open spec fn is_extra(modifiers: ModifierSet, distances: Set<int>, distance: int) -> bool {
    distances.contains(distance) && !sounds_at(modifiers, ExtensionSet::empty_spec(), distance)
}

/// The extensions that the given distances add to a chord quality.
pub open spec fn extras_of(modifiers: ModifierSet, distances: Set<int>) -> ExtensionSet {
    ExtensionSet {
        add9: is_extra(modifiers, distances, 2),
        add11: is_extra(modifiers, distances, 5),
        add13: is_extra(modifiers, distances, 9),
        flat11: is_extra(modifiers, distances, 4),
        flat13: is_extra(modifiers, distances, 8),
        sharp13: is_extra(modifiers, distances, 10),
    }
}

/// The extensions with which a chord quality matches the given distances;
/// `None` where it does not match.
///
/// A quality whose tones are exactly the distances matches without
/// extensions.  A quality whose tones are some of the distances matches
/// where each further distance is an extension.
#[verifier::opaque]
pub open spec fn entry_match(modifiers: ModifierSet, distances: Set<int>) -> Option<ExtensionSet> {
    if quality_fits(modifiers, distances) {
        Some(extras_of(modifiers, distances))
    } else {
        None
    }
}

/// How far a match is from the simplest one: first by the number of its
/// modifiers and extensions, then by the number of its altered extensions.
pub open spec fn match_cost(modifiers: ModifierSet, extensions: ExtensionSet) -> int {
    4 * (modifiers.count_spec() + extensions.count_spec()) + extensions.altered_count_spec()
}

/// The place of the best entry among the first `n` that match the given
/// distances: the one of least cost, and among those the first declared.
pub open spec fn best_entry_upto(distances: Set<int>, n: nat) -> Option<int>
    decreases n,
{
    if n == 0 {
        None
    } else {
        let before = best_entry_upto(distances, (n - 1) as nat);
        match entry_match(entry_at(n - 1), distances) {
            None => before,
            Some(extensions) => match before {
                None => Some(n - 1),
                Some(best) => if match_cost(entry_at(n - 1), extensions) < match_cost(
                    entry_at(best),
                    extras_of(entry_at(best), distances),
                ) {
                    Some(n - 1)
                } else {
                    Some(best)
                },
            },
        }
    }
}

/// The place of the best entry of the catalog that matches the given
/// distances.
pub open spec fn best_entry(distances: Set<int>) -> Option<int> {
    best_entry_upto(distances, CATALOG_SIZE as nat)
}

/// Returns the entry at a place of the catalog; that of the major triad
/// beyond its end.
pub fn catalog_entry(index: usize) -> (entry: CatalogEntry)
    ensures
        entry.modifiers == entry_at(index as int),
{
    reveal(entry_at);
    let modifiers = if index == 1 {
        ModifierSet::empty().with(Modifier::Minor)
    } else if index == 2 {
        ModifierSet::empty().with(Modifier::Diminished).with(Modifier::Dominant(Degree::Seven))
    } else if index == 3 {
        ModifierSet::empty().with(Modifier::Diminished)
    } else if index == 4 {
        ModifierSet::empty().with(Modifier::Augmented5)
    } else if index == 5 {
        ModifierSet::empty().with(Modifier::Flat5)
    } else if index == 6 {
        ModifierSet::empty().with(Modifier::Dominant(Degree::Seven))
    } else if index == 7 {
        ModifierSet::empty().with(Modifier::Major7)
    } else if index == 8 {
        ModifierSet::empty().with(Modifier::Minor).with(Modifier::Dominant(Degree::Seven))
    } else if index == 9 {
        ModifierSet::empty().with(Modifier::Minor).with(Modifier::Major7)
    } else if index == 10 {
        ModifierSet::empty().with(Modifier::Augmented5).with(Modifier::Dominant(Degree::Seven))
    } else if index == 11 {
        ModifierSet::empty().with(Modifier::Augmented5).with(Modifier::Major7)
    } else if index == 12 {
        ModifierSet::empty().with(Modifier::Dominant(Degree::Seven)).with(Modifier::Flat5)
    } else if index == 13 {
        ModifierSet::empty().with(Modifier::Minor)
            .with(Modifier::Dominant(Degree::Seven))
            .with(Modifier::Flat5)
    } else if index == 14 {
        ModifierSet::empty().with(Modifier::Dominant(Degree::Nine))
    } else if index == 15 {
        ModifierSet::empty().with(Modifier::Minor).with(Modifier::Dominant(Degree::Nine))
    } else if index == 16 {
        ModifierSet::empty().with(Modifier::Dominant(Degree::Eleven))
    } else if index == 17 {
        ModifierSet::empty().with(Modifier::Minor).with(Modifier::Dominant(Degree::Eleven))
    } else if index == 18 {
        ModifierSet::empty().with(Modifier::Dominant(Degree::Thirteen))
    } else if index == 19 {
        ModifierSet::empty().with(Modifier::Minor).with(Modifier::Dominant(Degree::Thirteen))
    } else if index == 20 {
        ModifierSet::empty().with(Modifier::Dominant(Degree::Seven)).with(Modifier::Flat9)
    } else if index == 21 {
        ModifierSet::empty().with(Modifier::Dominant(Degree::Seven)).with(Modifier::Sharp9)
    } else if index == 22 {
        ModifierSet::empty().with(Modifier::Dominant(Degree::Seven)).with(Modifier::Sharp11)
    } else if index == 23 {
        ModifierSet::empty().with(Modifier::Major7).with(Modifier::Sharp11)
    } else if index == 24 {
        ModifierSet::empty().with(Modifier::Dominant(Degree::Nine)).with(Modifier::Sharp11)
    } else if index == 25 {
        ModifierSet::empty().with(Modifier::Dominant(Degree::Seven))
            .with(Modifier::Flat9)
            .with(Modifier::Sharp9)
    } else {
        ModifierSet::empty()
    };
    CatalogEntry { modifiers }
}

/// Returns the whole catalog in the order of declaration.
pub fn catalog() -> (entries: Vec<CatalogEntry>)
    ensures
        entries@.len() == CATALOG_SIZE,
        forall|i: int| 0 <= i < CATALOG_SIZE ==> (#[trigger] entries@[i]).modifiers == entry_at(i),
{
    let mut entries: Vec<CatalogEntry> = Vec::new();
    let mut index: usize = 0;
    while index < CATALOG_SIZE
        invariant
            index <= CATALOG_SIZE,
            entries@.len() == index,
            forall|i: int| 0 <= i < index ==> (#[trigger] entries@[i]).modifiers == entry_at(i),
        decreases CATALOG_SIZE - index,
    {
        entries.push(catalog_entry(index));
        index = index + 1;
    }
    entries
}

/// Returns the extension that a tone at `distance` semitones above the
/// root can be taken for.
pub fn extension_for(distance: u8) -> (e: Option<Extension>)
    ensures
        e == extension_at(distance as int),
{
    if distance == 2 {
        Some(Extension::Add9)
    } else if distance == 4 {
        Some(Extension::Flat11)
    } else if distance == 5 {
        Some(Extension::Add11)
    } else if distance == 8 {
        Some(Extension::Flat13)
    } else if distance == 9 {
        Some(Extension::Add13)
    } else if distance == 10 {
        Some(Extension::Sharp13)
    } else {
        None
    }
}

/// Returns the extensions with which a chord quality matches the pitch
/// classes of `classes`, seen from the pitch class `root` as their
/// distances above it; the distance `reserved` is left out of the match.
pub fn match_entry(
    modifiers: &ModifierSet,
    classes: &PitchClassSet,
    root: u8,
    reserved: Option<u8>,
) -> (r: Option<ExtensionSet>)
    ensures
        r == entry_match(
            *modifiers,
            distances_from(
                classes@,
                root as int,
                match reserved {
                    Some(d) => Some(d as int),
                    None => None,
                },
            ),
        ),
{
    let ghost skip: Option<int> = match reserved {
        Some(d) => Some(d as int),
        None => None,
    };
    let ghost distances = distances_from(classes@, root as int, skip);
    let none = ExtensionSet::empty();
    let mut extensions = ExtensionSet::empty();
    let mut distance: u8 = 1;
    while distance < 12
        invariant
            1 <= distance <= 12,
            none == ExtensionSet::empty_spec(),
            distances == distances_from(classes@, root as int, skip),
            skip == match reserved {
                Some(d) => Some(d as int),
                None => None,
            },
            forall|d: int| 1 <= d < distance ==> tone_fits(*modifiers, distances, d),
            forall|e: Extension|
                extensions.has(e) == exists|d: int|
                    1 <= d < distance
                        && is_extra(*modifiers, distances, d)
                        && #[trigger] extension_at(d) == Some(e),
        decreases 12 - distance,
    {
        assert((root % 12 + distance) % 12 == (root + distance) % 12);
        let present = classes.contains((root % 12 + distance) % 12) && match reserved {
            Some(d) => d != distance,
            None => true,
        };
        assert(present == distances.contains(distance as int));
        let tone = has_tone_at(modifiers, &none, distance);
        if tone {
            if !present {
                proof {
                    reveal(entry_match);
                }
                return None;
            }
        } else if present {
            match extension_for(distance) {
                Some(extension) => {
                    let ghost before = extensions;
                    extensions = extensions.with(extension);
                    assert forall|e: Extension|
                        extensions.has(e) == exists|d: int|
                            1 <= d < distance + 1
                                && is_extra(*modifiers, distances, d)
                                && #[trigger] extension_at(d) == Some(e) by {
                        if before.has(e) {
                            let d0 = choose|d: int|
                                1 <= d < distance
                                    && is_extra(*modifiers, distances, d)
                                    && #[trigger] extension_at(d) == Some(e);
                            assert(extension_at(d0) == Some(e));
                        }
                        if e == extension {
                            assert(extension_at(distance as int) == Some(e));
                        }
                    }
                },
                None => {
                    proof {
                        reveal(entry_match);
                    }
                    return None;
                },
            }
        }
        distance = distance + 1;
    }
    proof {
        reveal(entry_match);
        let expected = extras_of(*modifiers, distances);
        assert(extensions.add9 == expected.add9) by {
            assert(extensions.has(Extension::Add9) == extensions.add9);
            if is_extra(*modifiers, distances, 2) {
                assert(extension_at(2) == Some(Extension::Add9));
            }
        }
        assert(extensions.flat11 == expected.flat11) by {
            assert(extensions.has(Extension::Flat11) == extensions.flat11);
            if is_extra(*modifiers, distances, 4) {
                assert(extension_at(4) == Some(Extension::Flat11));
            }
        }
        assert(extensions.add11 == expected.add11) by {
            assert(extensions.has(Extension::Add11) == extensions.add11);
            if is_extra(*modifiers, distances, 5) {
                assert(extension_at(5) == Some(Extension::Add11));
            }
        }
        assert(extensions.flat13 == expected.flat13) by {
            assert(extensions.has(Extension::Flat13) == extensions.flat13);
            if is_extra(*modifiers, distances, 8) {
                assert(extension_at(8) == Some(Extension::Flat13));
            }
        }
        assert(extensions.add13 == expected.add13) by {
            assert(extensions.has(Extension::Add13) == extensions.add13);
            if is_extra(*modifiers, distances, 9) {
                assert(extension_at(9) == Some(Extension::Add13));
            }
        }
        assert(extensions.sharp13 == expected.sharp13) by {
            assert(extensions.has(Extension::Sharp13) == extensions.sharp13);
            if is_extra(*modifiers, distances, 10) {
                assert(extension_at(10) == Some(Extension::Sharp13));
            }
        }
    }
    Some(extensions)
}

/// Returns how far a match is from the simplest one.
pub fn cost_of(modifiers: &ModifierSet, extensions: &ExtensionSet) -> (c: u32)
    ensures
        c == match_cost(*modifiers, *extensions),
        c <= 80,
{
    4 * (modifiers.count() as u32 + extensions.count() as u32) + extensions.altered_count() as u32
}

/// Returns the best entry of the catalog that matches the pitch classes of
/// `classes`, seen from the pitch class `root`, with the extensions of the
/// match; the distance `reserved` is left out of the match.
///
/// The best entry is the one of least cost, and among those the first
/// declared.
pub fn find_best_entry(classes: &PitchClassSet, root: u8, reserved: Option<u8>) -> (r: Option<
    (usize, ExtensionSet),
>)
    ensures
        match best_entry(
            distances_from(
                classes@,
                root as int,
                match reserved {
                    Some(d) => Some(d as int),
                    None => None,
                },
            ),
        ) {
            Some(index) => r matches Some((i, extensions)) && i == index && index < CATALOG_SIZE
                && extensions == extras_of(
                entry_at(index),
                distances_from(
                    classes@,
                    root as int,
                    match reserved {
                        Some(d) => Some(d as int),
                        None => None,
                    },
                ),
            ),
            None => r is None,
        },
{
    let ghost skip: Option<int> = match reserved {
        Some(d) => Some(d as int),
        None => None,
    };
    let ghost distances = distances_from(classes@, root as int, skip);
    let mut best: Option<(usize, ExtensionSet)> = None;
    let mut best_cost: u32 = 0;
    let mut index: usize = 0;
    while index < CATALOG_SIZE
        invariant
            index <= CATALOG_SIZE,
            distances == distances_from(classes@, root as int, skip),
            skip == match reserved {
                Some(d) => Some(d as int),
                None => None,
            },
            match best_entry_upto(distances, index as nat) {
                Some(found) => best matches Some((i, extensions)) && i == found && found < index
                    && extensions == extras_of(entry_at(found), distances) && best_cost
                    == match_cost(entry_at(found), extensions),
                None => best is None,
            },
        decreases CATALOG_SIZE - index,
    {
        let entry = catalog_entry(index);
        proof {
            lemma_match_extras(entry.modifiers, distances);
        }
        match match_entry(&entry.modifiers, classes, root, reserved) {
            None => {},
            Some(extensions) => {
                let cost = cost_of(&entry.modifiers, &extensions);
                match best {
                    None => {
                        best = Some((index, extensions));
                        best_cost = cost;
                    },
                    Some(_) => {
                        if cost < best_cost {
                            best = Some((index, extensions));
                            best_cost = cost;
                        }
                    },
                }
            },
        }
        index = index + 1;
    }
    best
}

/// A match accounts for every distance: the chord with the entry's
/// modifiers and the extensions of the match sounds exactly at the given
/// distances above its root.
pub proof fn lemma_match_covers(modifiers: ModifierSet, distances: Set<int>, distance: int)
    requires
        entry_match(modifiers, distances) is Some,
        1 <= distance <= 11,
    ensures
        sounds_at(modifiers, entry_match(modifiers, distances).unwrap(), distance)
            == distances.contains(distance),
        entry_match(modifiers, distances) == Some(extras_of(modifiers, distances)),
{
    reveal(entry_match);
    reveal(sounds_at);
}

/// Distances that a quality matches hold a third and a fifth: whatever
/// the modifiers, the chord has one of each.
pub proof fn lemma_match_has_triad(modifiers: ModifierSet, distances: Set<int>)
    requires
        entry_match(modifiers, distances) is Some,
    ensures
        distances.contains(3) || distances.contains(4),
        distances.contains(6) || distances.contains(7) || distances.contains(8),
{
    reveal(entry_match);
    reveal(sounds_at);
    crate::tones::lemma_triad(modifiers, ExtensionSet::empty_spec());
}

/// A quality whose tones are exactly the given distances matches them
/// without extensions.
pub proof fn lemma_exact_match(modifiers: ModifierSet, distances: Set<int>)
    requires
        forall|d: int|
            1 <= d <= 11 ==> distances.contains(d) == sounds_at(
                modifiers,
                ExtensionSet::empty_spec(),
                d,
            ),
    ensures
        entry_match(modifiers, distances) == Some(ExtensionSet::empty_spec()),
{
    reveal(entry_match);
}

/// The first entry of the catalog is the major triad, which matches its
/// third and its fifth without extensions.
pub proof fn lemma_major_entry(distances: Set<int>)
    requires
        forall|d: int| distances.contains(d) <==> (d == 4 || d == 7),
    ensures
        entry_at(0) == ModifierSet::empty_spec(),
        entry_match(ModifierSet::empty_spec(), distances) == Some(ExtensionSet::empty_spec()),
{
    reveal(entry_at);
    reveal(entry_match);
    reveal(sounds_at);
}

/// The best entry is a match of least cost, and the first declared among
/// the matches of that cost; there is none only where no entry matches.
pub proof fn lemma_best_entry(distances: Set<int>, n: nat)
    ensures
        match best_entry_upto(distances, n) {
            Some(best) => 0 <= best < n && entry_match(entry_at(best), distances) is Some
                && forall|other: int|
                0 <= other < n && (#[trigger] entry_match(entry_at(other), distances)) is Some
                    ==> match_cost(entry_at(best), extras_of(entry_at(best), distances))
                    < match_cost(entry_at(other), extras_of(entry_at(other), distances)) || (
                match_cost(entry_at(best), extras_of(entry_at(best), distances)) == match_cost(
                    entry_at(other),
                    extras_of(entry_at(other), distances),
                ) && best <= other),
            None => forall|other: int|
                0 <= other < n ==> (#[trigger] entry_match(entry_at(other), distances)) is None,
        },
    decreases n,
{
    if n > 0 {
        lemma_best_entry(distances, (n - 1) as nat);
        lemma_match_extras(entry_at(n - 1), distances);
    }
}

/// A match has the extensions that the distances add to the quality.
pub proof fn lemma_match_extras(modifiers: ModifierSet, distances: Set<int>)
    ensures
        entry_match(modifiers, distances) is Some ==> entry_match(modifiers, distances) == Some(
            extras_of(modifiers, distances),
        ),
{
    reveal(entry_match);
}

} // verus!

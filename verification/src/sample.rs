//! Random groups of notes: a note with up to three random intervals above
//! it, as material for trying out identification.

use vstd::prelude::*;
use crate::error::KordError;
use crate::interval::Interval;
use crate::note::Note;
use rand::Rng;

verus! {

/// The intervals from which the second note of a group is drawn.
pub open spec fn lower_intervals() -> Seq<Interval> {
    seq![
        Interval::MinorSecond,
        Interval::MajorSecond,
        Interval::MinorThird,
        Interval::MajorThird,
        Interval::PerfectFourth,
    ]
}

/// The intervals from which the third note of a group is drawn.
pub open spec fn middle_intervals() -> Seq<Interval> {
    seq![
        Interval::AugmentedFourth,
        Interval::PerfectFifth,
        Interval::AugmentedFifth,
        Interval::MajorSixth,
    ]
}

/// The intervals from which the fourth note of a group is drawn.
pub open spec fn upper_intervals() -> Seq<Interval> {
    seq![
        Interval::MinorSeventh,
        Interval::MajorSeventh,
        Interval::MinorNinth,
        Interval::MajorNinth,
        Interval::AugmentedNinth,
        Interval::DiminishedEleventh,
        Interval::PerfectEleventh,
        Interval::AugmentedEleventh,
        Interval::MinorThirteenth,
        Interval::MajorThirteenth,
        Interval::AugmentedThirteenth,
    ]
}

/// The notes of a group of `count` notes before they are put in order:
/// the note itself, then, as far as the count asks for them, the notes the
/// three intervals above it.  `None` where one of those would leave the
/// supported octaves or would need more than three flats or sharps.
pub open spec fn group_of(
    note: Note,
    count: int,
    lower: Interval,
    middle: Interval,
    upper: Interval,
) -> Option<Seq<Note>> {
    if count <= 1 {
        Some(seq![note])
    } else if note.transposed(lower) is None {
        None
    } else if count == 2 {
        Some(seq![note, note.transposed(lower).unwrap()])
    } else if note.transposed(middle) is None {
        None
    } else if count == 3 {
        Some(seq![note, note.transposed(lower).unwrap(), note.transposed(middle).unwrap()])
    } else if note.transposed(upper) is None {
        None
    } else {
        Some(
            seq![
                note,
                note.transposed(lower).unwrap(),
                note.transposed(middle).unwrap(),
                note.transposed(upper).unwrap(),
            ],
        )
    }
}

/// The place at which a note of the given identity goes into notes in
/// rising order: behind the last one that does not lie higher.
pub open spec fn note_slot(sorted: Seq<Note>, id: int) -> int
    decreases sorted.len(),
{
    if sorted.len() == 0 {
        0
    } else if sorted.last().id_spec() <= id {
        sorted.len() as int
    } else {
        note_slot(sorted.drop_last(), id)
    }
}

/// The notes in rising order; notes that sound alike keep their order.
pub open spec fn sorted_notes(notes: Seq<Note>) -> Seq<Note>
    decreases notes.len(),
{
    if notes.len() == 0 {
        Seq::empty()
    } else {
        let before = sorted_notes(notes.drop_last());
        before.insert(note_slot(before, notes.last().id_spec()), notes.last())
    }
}

/// The group of `count` notes on `note`, in rising order.
pub open spec fn sorted_group(
    note: Note,
    count: int,
    lower: Interval,
    middle: Interval,
    upper: Interval,
) -> Option<Seq<Note>> {
    match group_of(note, count, lower, middle, upper) {
        Some(notes) => Some(sorted_notes(notes)),
        None => None,
    }
}

/// Draws a number below `bound`.
///
/// Calls `rand::Rng::gen_range` on the generator that `rand::thread_rng`
/// gives, with the range from 0 up to, not including, `bound`.  This
/// contract is taken on trust from what `rand` says of the call: it gives
/// a number of the range, and which one is left open, so that two calls
/// may differ; on an empty range it panics, so the bound has to be
/// positive.
#[verifier::external_body]
fn random_index(bound: usize) -> (index: usize)
    requires
        bound > 0,
    ensures
        index < bound,
{
    rand::thread_rng().gen_range(0..bound)
}

/// Returns one of the items, drawn at random.  There has to be an item to
/// draw.
pub fn get_random_item<T: Copy>(items: &[T]) -> (item: T)
    requires
        items@.len() > 0,
    ensures
        items@.contains(item),
{
    let index = random_index(items.len());
    items[index]
}

/// Returns the notes in rising order; notes that sound alike keep their
/// order.
pub fn sort_notes(notes: &Vec<Note>) -> (sorted: Vec<Note>)
    ensures
        sorted@ == sorted_notes(notes@),
        sorted@.len() == notes@.len(),
        sorted@.to_multiset() == notes@.to_multiset(),
        forall|i: int, j: int|
            0 <= i <= j < sorted@.len() ==> (#[trigger] sorted@[i]).id_spec() <= (
            #[trigger] sorted@[j]).id_spec(),
{
    let mut sorted: Vec<Note> = Vec::new();
    let mut k: usize = 0;
    assert(notes@.take(0) =~= Seq::<Note>::empty());
    while k < notes.len()
        invariant
            k <= notes.len(),
            sorted@ == sorted_notes(notes@.take(k as int)),
        decreases notes.len() - k,
    {
        let note = notes[k];
        let id = note.id();
        let mut slot: usize = sorted.len();
        assert(sorted@.take(slot as int) =~= sorted@);
        while slot > 0 && sorted[slot - 1].id() > id
            invariant
                slot <= sorted.len(),
                note_slot(sorted@, id as int) == note_slot(sorted@.take(slot as int), id as int),
            decreases slot,
        {
            assert(sorted@.take(slot as int).drop_last() =~= sorted@.take(slot as int - 1));
            slot = slot - 1;
        }
        assert(note_slot(sorted@.take(slot as int), id as int) == slot);
        assert(notes@.take(k as int + 1).drop_last() =~= notes@.take(k as int));
        sorted.insert(slot, note);
        k = k + 1;
    }
    assert(notes@.take(notes@.len() as int) =~= notes@);
    proof {
        lemma_sorted_notes(notes@);
    }
    sorted
}

/// Returns the group of `count` notes on `note`, in rising order: the
/// note itself, and with it the notes that lie the first one, two or three
/// of the given intervals above it.  A count below one gives the note
/// alone, a count above four gives four notes.
///
/// Fails with [`KordError::InvalidOctaveRange`] where a note of the group
/// would leave the supported octaves or would need more than three flats
/// or sharps.
pub fn make_group(note: Note, count: u8, lower: Interval, middle: Interval, upper: Interval) -> (r:
    Result<Vec<Note>, KordError>)
    ensures
        match sorted_group(note, count as int, lower, middle, upper) {
            Some(notes) => r matches Ok(v) && v@ == notes,
            None => r matches Err(e) && e == KordError::InvalidOctaveRange,
        },
{
    let mut notes: Vec<Note> = Vec::new();
    notes.push(note);
    if count >= 2 {
        match note.add_interval(lower) {
            Ok(second) => {
                notes.push(second);
            },
            Err(e) => {
                return Err(e);
            },
        }
    }
    if count >= 3 {
        match note.add_interval(middle) {
            Ok(third) => {
                notes.push(third);
            },
            Err(e) => {
                return Err(e);
            },
        }
    }
    if count >= 4 {
        match note.add_interval(upper) {
            Ok(fourth) => {
                notes.push(fourth);
            },
            Err(e) => {
                return Err(e);
            },
        }
    }
    assert(notes@ =~= group_of(note, count as int, lower, middle, upper).unwrap());
    Ok(sort_notes(&notes))
}

/// Returns a random group of `count` notes on `note`, in rising order.
///
/// The intervals above the note are drawn at random: the first from the
/// seconds, the thirds and the perfect fourth, the second from the
/// augmented fourth up to the major sixth, the third from the sevenths,
/// ninths, elevenths and thirteenths.  Whatever is drawn, the result is
/// that of [`make_group`] for three intervals of those lists.
pub fn random_group(note: Note, count: u8) -> (r: Result<Vec<Note>, KordError>)
    ensures
        exists|lower: Interval, middle: Interval, upper: Interval|
            lower_intervals().contains(lower) && middle_intervals().contains(middle)
                && upper_intervals().contains(upper) && match #[trigger] sorted_group(
                note,
                count as int,
                lower,
                middle,
                upper,
            ) {
                Some(notes) => r matches Ok(v) && v@ == notes,
                None => r matches Err(e) && e == KordError::InvalidOctaveRange,
            },
{
    let lowers = [
        Interval::MinorSecond,
        Interval::MajorSecond,
        Interval::MinorThird,
        Interval::MajorThird,
        Interval::PerfectFourth,
    ];
    let middles = [
        Interval::AugmentedFourth,
        Interval::PerfectFifth,
        Interval::AugmentedFifth,
        Interval::MajorSixth,
    ];
    let uppers = [
        Interval::MinorSeventh,
        Interval::MajorSeventh,
        Interval::MinorNinth,
        Interval::MajorNinth,
        Interval::AugmentedNinth,
        Interval::DiminishedEleventh,
        Interval::PerfectEleventh,
        Interval::AugmentedEleventh,
        Interval::MinorThirteenth,
        Interval::MajorThirteenth,
        Interval::AugmentedThirteenth,
    ];
    assert(lowers@ =~= lower_intervals());
    assert(middles@ =~= middle_intervals());
    assert(uppers@ =~= upper_intervals());
    let lower = get_random_item(&lowers);
    let middle = get_random_item(&middles);
    let upper = get_random_item(&uppers);
    let r = make_group(note, count, lower, middle, upper);
    r
}

/// A place for a note lies within the notes, behind every note that does
/// not lie higher and before the higher ones behind it.
pub proof fn lemma_note_slot(sorted: Seq<Note>, id: int)
    ensures
        0 <= note_slot(sorted, id) <= sorted.len(),
        forall|i: int| note_slot(sorted, id) <= i < sorted.len()
            ==> (#[trigger] sorted[i]).id_spec() > id,
        note_slot(sorted, id) > 0 ==> sorted[note_slot(sorted, id) - 1].id_spec() <= id,
    decreases sorted.len(),
{
    if sorted.len() > 0 && sorted.last().id_spec() > id {
        lemma_note_slot(sorted.drop_last(), id);
        let slot = note_slot(sorted, id);
        assert forall|i: int| slot <= i < sorted.len() implies (#[trigger] sorted[i]).id_spec() > id by {
            if i < sorted.len() - 1 {
                assert(sorted.drop_last()[i] == sorted[i]);
            }
        }
        if slot > 0 {
            assert(sorted.drop_last()[slot - 1] == sorted[slot - 1]);
        }
    }
}

/// Sorting keeps every note, each as often as it was there, and puts them
/// in rising order.
pub proof fn lemma_sorted_notes(notes: Seq<Note>)
    ensures
        sorted_notes(notes).len() == notes.len(),
        sorted_notes(notes).to_multiset() == notes.to_multiset(),
        forall|i: int, j: int|
            0 <= i <= j < notes.len() ==> (#[trigger] sorted_notes(notes)[i]).id_spec() <= (
            #[trigger] sorted_notes(notes)[j]).id_spec(),
    decreases notes.len(),
{
    if notes.len() == 0 {
        assert(sorted_notes(notes) =~= notes);
    } else {
        let rest = notes.drop_last();
        let last = notes.last();
        let before = sorted_notes(rest);
        let slot = note_slot(before, last.id_spec());
        let after = sorted_notes(notes);
        lemma_sorted_notes(rest);
        lemma_note_slot(before, last.id_spec());
        assert(after == before.insert(slot, last));
        assert(after.remove(slot) =~= before);
        assert(after[slot] == last);
        assert(notes =~= rest.push(last));
        assert(after.to_multiset() =~= before.to_multiset().insert(last)) by {
            vstd::seq_lib::to_multiset_remove(after, slot);
            after.to_multiset_ensures();
            assert(after.contains(last));
        }
        assert(notes.to_multiset() =~= rest.to_multiset().insert(last)) by {
            vstd::seq_lib::to_multiset_build(rest, last);
        }
        assert forall|i: int, j: int| 0 <= i <= j < notes.len() implies (
        #[trigger] after[i]).id_spec() <= (#[trigger] after[j]).id_spec() by {
            let a = if i < slot {
                before[i]
            } else if i == slot {
                last
            } else {
                before[i - 1]
            };
            let b = if j < slot {
                before[j]
            } else if j == slot {
                last
            } else {
                before[j - 1]
            };
            assert(after[i] == a);
            assert(after[j] == b);
            if i < slot && j == slot {
                assert(before[i].id_spec() <= before[slot - 1].id_spec());
            }
        }
    }
}

} // verus!

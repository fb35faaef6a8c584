//! A fixed-width set of note identities.

use vstd::prelude::*;
use crate::note::Note;

verus! {

/// The pitch class of the note with identity `id`, as semitones above `C`.
pub open spec fn pitch_class_of_id(id: int) -> int {
    (id + 9) % 12
}

/// The identities of the notes of a sequence.
pub open spec fn ids_of(notes: Seq<Note>) -> Set<int> {
    Set::new(|id: int| exists|k: int| 0 <= k < notes.len() && #[trigger] notes[k].id_spec() == id)
}

/// The pitch classes that occur among the identities of a set: the set
/// with the octaves left out.
pub open spec fn pitch_classes_of(ids: Set<int>) -> Set<int> {
    Set::new(
        |p: int|
            exists|id: int| 0 <= id < 128
                && #[trigger] ids.contains(id)
                && pitch_class_of_id(id) == p,
    )
}

/// The members of `ids` that lie below `bound`.
pub open spec fn members_below(ids: Set<int>, bound: int) -> Set<int> {
    Set::new(|id: int| 0 <= id < bound && ids.contains(id))
}

/// Whether bit `i` of `bits` is set; `false` for an `i` outside `0..128`.
pub open spec fn bit_is_set(bits: u128, i: int) -> bool {
    0 <= i < 128 && (bits >> (i as u128)) & 1u128 == 1u128
}

/// No bit of zero is set.
proof fn lemma_bit_of_zero(i: u128)
    requires
        i < 128,
    ensures
        (0u128 >> i) & 1u128 == 0u128,
{
    assert((0u128 >> i) & 1u128 == 0u128) by (bit_vector);
}

/// A bit of `a | b` is set where it is set in `a` or in `b`.
proof fn lemma_bit_of_or(a: u128, b: u128, i: u128)
    requires
        i < 128,
    ensures
        (((a | b) >> i) & 1u128 == 1u128) <==> (((a >> i) & 1u128 == 1u128) || ((b >> i) & 1u128
            == 1u128)),
{
    assert((((a | b) >> i) & 1u128 == 1u128) <==> (((a >> i) & 1u128 == 1u128) || ((b >> i) & 1u128
        == 1u128))) by (bit_vector);
}

/// A bit of `a & b` is set where it is set in `a` and in `b`.
proof fn lemma_bit_of_and(a: u128, b: u128, i: u128)
    requires
        i < 128,
    ensures
        (((a & b) >> i) & 1u128 == 1u128) <==> (((a >> i) & 1u128 == 1u128) && ((b >> i) & 1u128
            == 1u128)),
{
    assert((((a & b) >> i) & 1u128 == 1u128) <==> (((a >> i) & 1u128 == 1u128) && ((b >> i) & 1u128
        == 1u128))) by (bit_vector);
}

/// Of `1 << j` bit `j` is set and no other.
proof fn lemma_bit_of_single(j: u128, i: u128)
    requires
        i < 128,
        j < 128,
    ensures
        (((1u128 << j) >> i) & 1u128 == 1u128) <==> i == j,
{
    assert(i < 128 && j < 128 ==> ((((1u128 << j) >> i) & 1u128 == 1u128) <==> i == j))
        by (bit_vector);
}

/// The lowest `k` bits of `bits`, the others cleared.
spec fn low_bits(bits: u128, k: u128) -> u128 {
    bits & !(u128::MAX << k)
}

/// The lowest bits of a number grow by one bit at a time, up to the whole
/// number.
proof fn lemma_low_bits_step(bits: u128, k: u128)
    requires
        k < 127,
    ensures
        low_bits(bits, 0) == 0,
        low_bits(bits, (k + 1) as u128) == low_bits(bits, k) | (((bits >> k) & 1u128) << k),
        bits == low_bits(bits, 127) | (((bits >> 127u128) & 1u128) << 127u128),
{
    assert(bits & !(u128::MAX << 0u128) == 0u128) by (bit_vector);
    assert(k < 127 ==> bits & !(u128::MAX << ((k + 1) as u128)) == (bits & !(u128::MAX << k)) | (((
    bits >> k) & 1u128) << k)) by (bit_vector);
    assert(bits == (bits & !(u128::MAX << 127u128)) | (((bits >> 127u128) & 1u128) << 127u128))
        by (bit_vector);
}

/// Two numbers with the same bits set have the same lowest bits.
proof fn lemma_low_bits_equal(a: u128, b: u128, k: u128)
    requires
        k <= 127,
        forall|i: int| 0 <= i < 128 ==> bit_is_set(a, i) == bit_is_set(b, i),
    ensures
        low_bits(a, k) == low_bits(b, k),
    decreases k,
{
    if k == 0 {
        lemma_low_bits_step(a, 0);
        lemma_low_bits_step(b, 0);
    } else {
        let j = (k - 1) as u128;
        lemma_low_bits_equal(a, b, j);
        lemma_low_bits_step(a, j);
        lemma_low_bits_step(b, j);
        lemma_bit_value(a, j);
        lemma_bit_value(b, j);
        assert(bit_is_set(a, j as int) == bit_is_set(b, j as int));
    }
}

/// A bit is zero or one.
proof fn lemma_bit_value(bits: u128, i: u128)
    requires
        i < 128,
    ensures
        (bits >> i) & 1u128 == 0u128 || (bits >> i) & 1u128 == 1u128,
{
    assert((bits >> i) & 1u128 == 0u128 || (bits >> i) & 1u128 == 1u128) by (bit_vector);
}

/// A set of notes is its members: two sets with the same members are kept
/// as the same bits.
pub proof fn lemma_same_members(a: NoteSet, b: NoteSet)
    requires
        a@ == b@,
    ensures
        a == b,
{
    assert forall|i: int| 0 <= i < 128 implies bit_is_set(a.bits, i) == bit_is_set(b.bits, i) by {
        assert(a@.contains(i) == bit_is_set(a.bits, i));
        assert(b@.contains(i) == bit_is_set(b.bits, i));
    }
    lemma_low_bits_equal(a.bits, b.bits, 127);
    lemma_low_bits_step(a.bits, 0);
    lemma_low_bits_step(b.bits, 0);
    lemma_bit_value(a.bits, 127);
    lemma_bit_value(b.bits, 127);
    assert(bit_is_set(a.bits, 127) == bit_is_set(b.bits, 127));
}

/// An unordered set of note identities, kept as 128 bits: bit `i` is set
/// where the note with identity `i` is a member.
///
/// The set knows no spelling and no order.  Which note sounds lowest has to
/// be told apart from it.
#[derive(PartialEq, Eq, Copy, Clone, Hash, Debug, Structural)]
pub struct NoteSet {
    /// The members, one bit each.
    pub bits: u128,
}

impl View for NoteSet {
    type V = Set<int>;

    /// The identities of the members.
    open spec fn view(&self) -> Set<int> {
        Set::new(|id: int| bit_is_set(self.bits, id))
    }
}

impl NoteSet {
    /// Returns the empty set.
    pub fn new() -> (s: NoteSet)
        ensures
            s@ == Set::<int>::empty(),
            s.bits == 0,
    {
        let s = NoteSet { bits: 0 };
        proof {
            assert forall|id: int| !s@.contains(id) by {
                if 0 <= id < 128 {
                    lemma_bit_of_zero(id as u128);
                }
            }
            assert(s@ =~= Set::<int>::empty());
        }
        s
    }

    /// Returns the set whose members are the set bits of `bits`.
    pub fn from_bits(bits: u128) -> (s: NoteSet)
        ensures
            s.bits == bits,
    {
        NoteSet { bits }
    }

    /// Returns the members as 128 bits.
    pub fn bits(&self) -> (b: u128)
        ensures
            b == self.bits,
    {
        self.bits
    }

    /// Tells whether the note with identity `id` is a member.
    pub fn contains_id(&self, id: u8) -> (b: bool)
        ensures
            b == self@.contains(id as int),
    {
        if id >= 128 {
            false
        } else {
            (self.bits >> (id as u128)) & 1u128 == 1u128
        }
    }

    /// Tells whether a note that sounds like `note` is a member.
    pub fn contains(&self, note: &Note) -> (b: bool)
        ensures
            b == self@.contains(note.id_spec()),
    {
        self.contains_id(note.id())
    }

    /// Returns the set with the note of identity `id` added; the set itself
    /// where `id` is no identity of a note set, being 128 or more.
    pub fn insert_id(&self, id: u8) -> (s: NoteSet)
        ensures
            s@ == if id < 128 {
                self@.insert(id as int)
            } else {
                self@
            },
    {
        if id >= 128 {
            return *self;
        }
        let s = NoteSet { bits: self.bits | (1u128 << (id as u128)) };
        proof {
            assert forall|i: int| s@.contains(i) == self@.insert(id as int).contains(i) by {
                if 0 <= i < 128 {
                    lemma_bit_of_or(self.bits, 1u128 << (id as u128), i as u128);
                    lemma_bit_of_single(id as u128, i as u128);
                }
            }
            assert(s@ =~= self@.insert(id as int));
        }
        s
    }

    /// Returns the set with `note` added.
    pub fn insert(&self, note: &Note) -> (s: NoteSet)
        ensures
            s@ == self@.insert(note.id_spec()),
    {
        self.insert_id(note.id())
    }

    /// Returns the set of the notes that are in either set.
    pub fn union(&self, other: &NoteSet) -> (s: NoteSet)
        ensures
            s@ == self@.union(other@),
    {
        let s = NoteSet { bits: self.bits | other.bits };
        proof {
            assert forall|i: int| s@.contains(i) == self@.union(other@).contains(i) by {
                if 0 <= i < 128 {
                    lemma_bit_of_or(self.bits, other.bits, i as u128);
                }
            }
            assert(s@ =~= self@.union(other@));
        }
        s
    }

    /// Returns the set of the notes that are in both sets.
    pub fn intersection(&self, other: &NoteSet) -> (s: NoteSet)
        ensures
            s@ == self@.intersect(other@),
    {
        let s = NoteSet { bits: self.bits & other.bits };
        proof {
            assert forall|i: int| s@.contains(i) == self@.intersect(other@).contains(i) by {
                if 0 <= i < 128 {
                    lemma_bit_of_and(self.bits, other.bits, i as u128);
                }
            }
            assert(s@ =~= self@.intersect(other@));
        }
        s
    }

    /// Returns the number of members.
    pub fn len(&self) -> (n: usize)
        ensures
            n == self@.len(),
            self@.finite(),
            n <= 128,
    {
        let mut n: usize = 0;
        let mut id: u8 = 0;
        proof {
            assert(members_below(self@, 0) =~= Set::<int>::empty());
        }
        while id < 128
            invariant
                id <= 128,
                n <= id,
                members_below(self@, id as int).finite(),
                n == members_below(self@, id as int).len(),
            decreases 128 - id,
        {
            proof {
                let before = members_below(self@, id as int);
                let after = members_below(self@, id as int + 1);
                if self@.contains(id as int) {
                    assert(after =~= before.insert(id as int));
                } else {
                    assert(after =~= before);
                }
            }
            if self.contains_id(id) {
                n = n + 1;
            }
            id = id + 1;
        }
        proof {
            assert(members_below(self@, 128) =~= self@);
        }
        n
    }

    /// Tells whether the set has no member.
    pub fn is_empty(&self) -> (b: bool)
        ensures
            b == (self@ == Set::<int>::empty()),
    {
        proof {
            let empty = NoteSet { bits: 0 };
            assert forall|id: int| !empty@.contains(id) by {
                if 0 <= id < 128 {
                    lemma_bit_of_zero(id as u128);
                }
            }
            assert(empty@ =~= Set::<int>::empty());
            if self@ == Set::<int>::empty() {
                lemma_same_members(*self, empty);
            }
        }
        self.bits == 0
    }

    /// Returns the set of the notes of `notes`, whatever their spelling and
    /// their order.
    pub fn from_notes(notes: &[Note]) -> (s: NoteSet)
        ensures
            s@ == ids_of(notes@),
    {
        let mut s = NoteSet::new();
        let mut k: usize = 0;
        proof {
            assert(ids_of(notes@.take(0)) =~= Set::<int>::empty());
        }
        while k < notes.len()
            invariant
                k <= notes.len(),
                s@ == ids_of(notes@.take(k as int)),
            decreases notes.len() - k,
        {
            proof {
                let before = notes@.take(k as int);
                let after = notes@.take(k as int + 1);
                assert(after =~= before.push(notes@[k as int]));
                assert forall|id: int|
                    ids_of(after).contains(id) == ids_of(before).insert(
                        notes@[k as int].id_spec(),
                    ).contains(id) by {
                    if ids_of(after).contains(id) {
                        let j = choose|j: int| 0 <= j < after.len() && after[j].id_spec() == id;
                        if j < k {
                            assert(before[j].id_spec() == id);
                        }
                    }
                    if ids_of(before).contains(id) {
                        let j = choose|j: int| 0 <= j < before.len() && before[j].id_spec() == id;
                        assert(after[j].id_spec() == id);
                    }
                    if id == notes@[k as int].id_spec() {
                        assert(after[k as int].id_spec() == id);
                    }
                }
                assert(ids_of(after) =~= ids_of(before).insert(notes@[k as int].id_spec()));
            }
            s = s.insert(&notes[k]);
            k = k + 1;
        }
        proof {
            assert(notes@.take(notes@.len() as int) =~= notes@);
        }
        s
    }

    /// Returns the pitch classes of the members: the set with the octaves
    /// left out.
    pub fn pitch_classes(&self) -> (p: PitchClassSet)
        ensures
            p@ == pitch_classes_of(self@),
    {
        let mut p = PitchClassSet::new();
        let mut id: u8 = 0;
        proof {
            assert(pitch_classes_of(members_below(self@, 0)) =~= Set::<int>::empty());
        }
        while id < 128
            invariant
                id <= 128,
                p@ == pitch_classes_of(members_below(self@, id as int)),
            decreases 128 - id,
        {
            proof {
                let before = members_below(self@, id as int);
                let after = members_below(self@, id as int + 1);
                let class = pitch_class_of_id(id as int);
                if self@.contains(id as int) {
                    assert(after.contains(id as int));
                    assert forall|q: int|
                        pitch_classes_of(after).contains(q) == pitch_classes_of(before).insert(
                            class,
                        ).contains(q) by {
                        if pitch_classes_of(after).contains(q) {
                            let j = choose|j: int|
                                0 <= j < 128 && after.contains(j) && pitch_class_of_id(j) == q;
                            if j != id {
                                assert(before.contains(j));
                            }
                        }
                        if pitch_classes_of(before).contains(q) {
                            let j = choose|j: int|
                                0 <= j < 128 && before.contains(j) && pitch_class_of_id(j) == q;
                            assert(after.contains(j));
                        }
                    }
                    assert(pitch_classes_of(after) =~= pitch_classes_of(before).insert(class));
                } else {
                    assert(after =~= before);
                }
            }
            if self.contains_id(id) {
                p = p.insert((id + 9) % 12);
            }
            id = id + 1;
        }
        proof {
            assert(members_below(self@, 128) =~= self@);
        }
        p
    }
}

/// Returns the notes of `notes` as the bits of a [`NoteSet`]: bit `i` is set
/// where a note has identity `i`.
pub fn id_mask(notes: &[Note]) -> (bits: u128)
    ensures
        (NoteSet { bits })@ == ids_of(notes@),
{
    NoteSet::from_notes(notes).bits()
}

/// A set of pitch classes, each numbered by its semitones above `C`.
#[derive(Copy, Clone, Debug, PartialEq, Eq)]
pub struct PitchClassSet {
    /// For each pitch class, whether it is a member.
    pub flags: [bool; 12],
}

impl View for PitchClassSet {
    type V = Set<int>;

    /// The numbers of the members, each in `0..12`.
    open spec fn view(&self) -> Set<int> {
        Set::new(|p: int| 0 <= p < 12 && self.flags@[p])
    }
}

impl PitchClassSet {
    /// Returns the empty set.
    pub fn new() -> (s: PitchClassSet)
        ensures
            s@ == Set::<int>::empty(),
    {
        let s = PitchClassSet { flags: [false; 12] };
        proof {
            assert(s@ =~= Set::<int>::empty());
        }
        s
    }

    /// Tells whether pitch class `p` is a member.
    pub fn contains(&self, p: u8) -> (b: bool)
        ensures
            b == self@.contains(p as int),
    {
        p < 12 && self.flags[p as usize]
    }

    /// Returns the set with pitch class `p` added; the set itself where `p`
    /// is no pitch class, being 12 or more.
    pub fn insert(&self, p: u8) -> (s: PitchClassSet)
        ensures
            s@ == if p < 12 {
                self@.insert(p as int)
            } else {
                self@
            },
    {
        if p >= 12 {
            return *self;
        }
        let mut flags = self.flags;
        flags[p as usize] = true;
        let s = PitchClassSet { flags };
        proof {
            assert(s@ =~= self@.insert(p as int));
        }
        s
    }

    /// Returns the number of members.
    pub fn len(&self) -> (n: usize)
        ensures
            n == self@.len(),
            self@.finite(),
            n <= 12,
    {
        let mut n: usize = 0;
        let mut p: u8 = 0;
        proof {
            assert(members_below(self@, 0) =~= Set::<int>::empty());
        }
        while p < 12
            invariant
                p <= 12,
                n <= p,
                members_below(self@, p as int).finite(),
                n == members_below(self@, p as int).len(),
            decreases 12 - p,
        {
            proof {
                let before = members_below(self@, p as int);
                let after = members_below(self@, p as int + 1);
                if self@.contains(p as int) {
                    assert(after =~= before.insert(p as int));
                } else {
                    assert(after =~= before);
                }
            }
            if self.contains(p) {
                n = n + 1;
            }
            p = p + 1;
        }
        proof {
            assert(members_below(self@, 12) =~= self@);
        }
        n
    }
}

} // verus!

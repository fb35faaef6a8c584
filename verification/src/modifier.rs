//! The vocabulary of chord quality: modifiers and extensions.

use vstd::prelude::*;
use crate::base::{HasDescription, HasStaticName};

verus! {

/// The highest tone of a dominant chord.
#[derive(PartialEq, Eq, Copy, Clone, Hash, Debug, Ord, PartialOrd, Structural)]
pub enum Degree {
    /// The seventh.
    Seven,
    /// The ninth, above the seventh.
    Nine,
    /// The eleventh, above the seventh and the ninth.
    Eleven,
    /// The thirteenth, above the seventh, the ninth and the eleventh.
    Thirteen,
}

/// A feature that changes the quality of a chord.
#[derive(PartialEq, Eq, Copy, Clone, Hash, Debug, Ord, PartialOrd, Structural)]
pub enum Modifier {
    /// The third is minor.
    Minor,
    /// The fifth is diminished.
    Flat5,
    /// The fifth is augmented.
    Augmented5,
    /// A major seventh is added.
    Major7,
    /// A minor seventh is added, and the tones above it up to a degree.
    Dominant(Degree),
    /// A minor ninth is added.
    Flat9,
    /// An augmented ninth is added.
    Sharp9,
    /// An augmented eleventh is added.
    Sharp11,
    /// The third is minor and the fifth diminished; a dominant seventh
    /// beside it is diminished too.
    Diminished,
}

/// A tone above the seventh that is added to a chord.
#[derive(PartialEq, Eq, Copy, Clone, Hash, Debug, Ord, PartialOrd, Structural)]
pub enum Extension {
    /// The major ninth.
    Add9,
    /// The perfect eleventh.
    Add11,
    /// The major thirteenth.
    Add13,
    /// The diminished eleventh.
    Flat11,
    /// The minor thirteenth.
    Flat13,
    /// The augmented thirteenth.
    Sharp13,
}

/// The modifiers of a chord: a set, listed and written in one fixed order.
#[derive(PartialEq, Eq, Copy, Clone, Hash, Debug, Structural)]
pub struct ModifierSet {
    /// Whether the minor is a member.
    pub minor: bool,
    /// Whether the diminished is a member.
    pub diminished: bool,
    /// Whether the augmented fifth is a member.
    pub augmented5: bool,
    /// Whether the major seventh is a member.
    pub major7: bool,
    /// Whether the dominant seventh is a member.
    pub dominant7: bool,
    /// Whether the dominant ninth is a member.
    pub dominant9: bool,
    /// Whether the dominant eleventh is a member.
    pub dominant11: bool,
    /// Whether the dominant thirteenth is a member.
    pub dominant13: bool,
    /// Whether the flat fifth is a member.
    pub flat5: bool,
    /// Whether the flat ninth is a member.
    pub flat9: bool,
    /// Whether the sharp ninth is a member.
    pub sharp9: bool,
    /// Whether the sharp eleventh is a member.
    pub sharp11: bool,
}

impl View for ModifierSet {
    type V = Set<Modifier>;

    /// The members.
    open spec fn view(&self) -> Set<Modifier> {
        Set::new(|m: Modifier| self.has(m))
    }
}

impl Modifier {
    /// The place of the modifier in the order in which modifiers are listed and
    /// written, in `0..12`.
    pub open spec fn rank_spec(self) -> int {
        match self {
            Modifier::Minor => 0,
            Modifier::Diminished => 1,
            Modifier::Augmented5 => 2,
            Modifier::Major7 => 3,
            Modifier::Dominant(Degree::Seven) => 4,
            Modifier::Dominant(Degree::Nine) => 5,
            Modifier::Dominant(Degree::Eleven) => 6,
            Modifier::Dominant(Degree::Thirteen) => 7,
            Modifier::Flat5 => 8,
            Modifier::Flat9 => 9,
            Modifier::Sharp9 => 10,
            Modifier::Sharp11 => 11,
        }
    }

    /// The modifier at a place of that order; the last one beyond its end.
    pub open spec fn at_rank(rank: int) -> Modifier {
        if rank <= 0 {
            Modifier::Minor
        } else if rank == 1 {
            Modifier::Diminished
        } else if rank == 2 {
            Modifier::Augmented5
        } else if rank == 3 {
            Modifier::Major7
        } else if rank == 4 {
            Modifier::Dominant(Degree::Seven)
        } else if rank == 5 {
            Modifier::Dominant(Degree::Nine)
        } else if rank == 6 {
            Modifier::Dominant(Degree::Eleven)
        } else if rank == 7 {
            Modifier::Dominant(Degree::Thirteen)
        } else if rank == 8 {
            Modifier::Flat5
        } else if rank == 9 {
            Modifier::Flat9
        } else if rank == 10 {
            Modifier::Sharp9
        } else {
            Modifier::Sharp11
        }
    }

    /// Returns the place of the modifier in the order of listing.
    pub fn rank(&self) -> (r: u8)
        ensures
            r == self.rank_spec(),
            r < 12,
    {
        match self {
            Modifier::Minor => 0,
            Modifier::Diminished => 1,
            Modifier::Augmented5 => 2,
            Modifier::Major7 => 3,
            Modifier::Dominant(Degree::Seven) => 4,
            Modifier::Dominant(Degree::Nine) => 5,
            Modifier::Dominant(Degree::Eleven) => 6,
            Modifier::Dominant(Degree::Thirteen) => 7,
            Modifier::Flat5 => 8,
            Modifier::Flat9 => 9,
            Modifier::Sharp9 => 10,
            Modifier::Sharp11 => 11,
        }
    }

    /// Returns the modifier at a place of the order of listing; the last one
    /// beyond its end.
    pub fn from_rank(rank: u8) -> (m: Modifier)
        ensures
            m == Modifier::at_rank(rank as int),
            rank < 12 ==> m.rank_spec() == rank,
    {
        if rank == 0 {
            Modifier::Minor
        } else if rank == 1 {
            Modifier::Diminished
        } else if rank == 2 {
            Modifier::Augmented5
        } else if rank == 3 {
            Modifier::Major7
        } else if rank == 4 {
            Modifier::Dominant(Degree::Seven)
        } else if rank == 5 {
            Modifier::Dominant(Degree::Nine)
        } else if rank == 6 {
            Modifier::Dominant(Degree::Eleven)
        } else if rank == 7 {
            Modifier::Dominant(Degree::Thirteen)
        } else if rank == 8 {
            Modifier::Flat5
        } else if rank == 9 {
            Modifier::Flat9
        } else if rank == 10 {
            Modifier::Sharp9
        } else {
            Modifier::Sharp11
        }
    }

    /// A modifier is determined by its place in the order of listing.
    pub proof fn lemma_rank_round_trip(m: Modifier, rank: int)
        ensures
            0 <= m.rank_spec() < 12,
            Modifier::at_rank(m.rank_spec()) == m,
            0 <= rank < 12 ==> Modifier::at_rank(rank).rank_spec() == rank,
    {
    }
}

impl HasStaticName for Modifier {
    /// The sign by which the modifier is written in a chord's name.
    open spec fn static_name_spec(&self) -> Seq<char> {
        match self {
            Modifier::Minor => "m"@,
            Modifier::Diminished => "dim"@,
            Modifier::Augmented5 => "+"@,
            Modifier::Major7 => "maj7"@,
            Modifier::Dominant(Degree::Seven) => "7"@,
            Modifier::Dominant(Degree::Nine) => "9"@,
            Modifier::Dominant(Degree::Eleven) => "11"@,
            Modifier::Dominant(Degree::Thirteen) => "13"@,
            Modifier::Flat5 => "(\u{266d}5)"@,
            Modifier::Flat9 => "(\u{266d}9)"@,
            Modifier::Sharp9 => "(\u{266f}9)"@,
            Modifier::Sharp11 => "(\u{266f}11)"@,
        }
    }

    fn static_name(&self) -> (s: &'static str) {
        match self {
            Modifier::Minor => "m",
            Modifier::Diminished => "dim",
            Modifier::Augmented5 => "+",
            Modifier::Major7 => "maj7",
            Modifier::Dominant(Degree::Seven) => "7",
            Modifier::Dominant(Degree::Nine) => "9",
            Modifier::Dominant(Degree::Eleven) => "11",
            Modifier::Dominant(Degree::Thirteen) => "13",
            Modifier::Flat5 => "(\u{266d}5)",
            Modifier::Flat9 => "(\u{266d}9)",
            Modifier::Sharp9 => "(\u{266f}9)",
            Modifier::Sharp11 => "(\u{266f}11)",
        }
    }
}

impl HasDescription for Modifier {
    open spec fn description_spec(&self) -> Seq<char> {
        match self {
            Modifier::Minor => "minor"@,
            Modifier::Diminished => "diminished"@,
            Modifier::Augmented5 => "augmented fifth"@,
            Modifier::Major7 => "major seventh"@,
            Modifier::Dominant(Degree::Seven) => "dominant seventh"@,
            Modifier::Dominant(Degree::Nine) => "dominant ninth"@,
            Modifier::Dominant(Degree::Eleven) => "dominant eleventh"@,
            Modifier::Dominant(Degree::Thirteen) => "dominant thirteenth"@,
            Modifier::Flat5 => "flat fifth"@,
            Modifier::Flat9 => "flat ninth"@,
            Modifier::Sharp9 => "sharp ninth"@,
            Modifier::Sharp11 => "sharp eleventh"@,
        }
    }

    fn description(&self) -> (s: &'static str) {
        match self {
            Modifier::Minor => "minor",
            Modifier::Diminished => "diminished",
            Modifier::Augmented5 => "augmented fifth",
            Modifier::Major7 => "major seventh",
            Modifier::Dominant(Degree::Seven) => "dominant seventh",
            Modifier::Dominant(Degree::Nine) => "dominant ninth",
            Modifier::Dominant(Degree::Eleven) => "dominant eleventh",
            Modifier::Dominant(Degree::Thirteen) => "dominant thirteenth",
            Modifier::Flat5 => "flat fifth",
            Modifier::Flat9 => "flat ninth",
            Modifier::Sharp9 => "sharp ninth",
            Modifier::Sharp11 => "sharp eleventh",
        }
    }
}

impl ModifierSet {
    /// Whether `m` is a member.
    pub open spec fn has(self, m: Modifier) -> bool {
        match m {
            Modifier::Minor => self.minor,
            Modifier::Diminished => self.diminished,
            Modifier::Augmented5 => self.augmented5,
            Modifier::Major7 => self.major7,
            Modifier::Dominant(Degree::Seven) => self.dominant7,
            Modifier::Dominant(Degree::Nine) => self.dominant9,
            Modifier::Dominant(Degree::Eleven) => self.dominant11,
            Modifier::Dominant(Degree::Thirteen) => self.dominant13,
            Modifier::Flat5 => self.flat5,
            Modifier::Flat9 => self.flat9,
            Modifier::Sharp9 => self.sharp9,
            Modifier::Sharp11 => self.sharp11,
        }
    }

    /// The set without members.
    pub open spec fn empty_spec() -> ModifierSet {
        ModifierSet {
            minor: false,
            diminished: false,
            augmented5: false,
            major7: false,
            dominant7: false,
            dominant9: false,
            dominant11: false,
            dominant13: false,
            flat5: false,
            flat9: false,
            sharp9: false,
            sharp11: false,
        }
    }

    /// The set with `m` added.
    pub open spec fn with_spec(self, m: Modifier) -> ModifierSet {
        match m {
            Modifier::Minor => ModifierSet { minor: true, ..self },
            Modifier::Diminished => ModifierSet { diminished: true, ..self },
            Modifier::Augmented5 => ModifierSet { augmented5: true, ..self },
            Modifier::Major7 => ModifierSet { major7: true, ..self },
            Modifier::Dominant(Degree::Seven) => ModifierSet { dominant7: true, ..self },
            Modifier::Dominant(Degree::Nine) => ModifierSet { dominant9: true, ..self },
            Modifier::Dominant(Degree::Eleven) => ModifierSet { dominant11: true, ..self },
            Modifier::Dominant(Degree::Thirteen) => ModifierSet { dominant13: true, ..self },
            Modifier::Flat5 => ModifierSet { flat5: true, ..self },
            Modifier::Flat9 => ModifierSet { flat9: true, ..self },
            Modifier::Sharp9 => ModifierSet { sharp9: true, ..self },
            Modifier::Sharp11 => ModifierSet { sharp11: true, ..self },
        }
    }

    /// The number of members.
    pub open spec fn count_spec(self) -> int {
        self.count_upto(12)
    }

    /// The number of members among the first `n` modifiers of the order of
    /// listing.
    pub open spec fn count_upto(self, n: nat) -> int
        decreases n,
    {
        if n == 0 {
            0
        } else {
            self.count_upto((n - 1) as nat) + if self.has(Modifier::at_rank(n - 1)) {
                1int
            } else {
                0int
            }
        }
    }

    /// The members among the first `n` modifiers of the order of listing, in
    /// that order.
    pub open spec fn listed_upto(self, n: nat) -> Seq<Modifier>
        decreases n,
    {
        if n == 0 {
            Seq::empty()
        } else if self.has(Modifier::at_rank(n - 1)) {
            self.listed_upto((n - 1) as nat).push(Modifier::at_rank(n - 1))
        } else {
            self.listed_upto((n - 1) as nat)
        }
    }

    /// The members in the order of listing.
    pub open spec fn listed(self) -> Seq<Modifier> {
        self.listed_upto(12)
    }

    /// The signs of the members among the first `n` modifiers of the order of
    /// listing, written one after the other.
    pub open spec fn text_upto(self, n: nat) -> Seq<char>
        decreases n,
    {
        if n == 0 {
            Seq::empty()
        } else if self.has(Modifier::at_rank(n - 1)) {
            self.text_upto((n - 1) as nat) + Modifier::at_rank(n - 1).static_name_spec()
        } else {
            self.text_upto((n - 1) as nat)
        }
    }

    /// The signs of the members, written one after the other in the order
    /// of listing.
    pub open spec fn text(self) -> Seq<char> {
        self.text_upto(12)
    }

    /// The set that holds the members of a sequence.
    pub open spec fn of_seq(items: Seq<Modifier>) -> ModifierSet
        decreases items.len(),
    {
        if items.len() == 0 {
            ModifierSet::empty_spec()
        } else {
            ModifierSet::of_seq(items.drop_last()).with_spec(items.last())
        }
    }

    /// Returns the set without members.
    pub fn empty() -> (s: ModifierSet)
        ensures
            s == ModifierSet::empty_spec(),
            forall|m: Modifier| !s.has(m),
    {
        ModifierSet {
            minor: false,
            diminished: false,
            augmented5: false,
            major7: false,
            dominant7: false,
            dominant9: false,
            dominant11: false,
            dominant13: false,
            flat5: false,
            flat9: false,
            sharp9: false,
            sharp11: false,
        }
    }

    /// Tells whether `m` is a member.
    pub fn contains(&self, m: Modifier) -> (b: bool)
        ensures
            b == self.has(m),
    {
        match m {
            Modifier::Minor => self.minor,
            Modifier::Diminished => self.diminished,
            Modifier::Augmented5 => self.augmented5,
            Modifier::Major7 => self.major7,
            Modifier::Dominant(Degree::Seven) => self.dominant7,
            Modifier::Dominant(Degree::Nine) => self.dominant9,
            Modifier::Dominant(Degree::Eleven) => self.dominant11,
            Modifier::Dominant(Degree::Thirteen) => self.dominant13,
            Modifier::Flat5 => self.flat5,
            Modifier::Flat9 => self.flat9,
            Modifier::Sharp9 => self.sharp9,
            Modifier::Sharp11 => self.sharp11,
        }
    }

    /// Returns the set with `m` added.
    pub fn with(&self, m: Modifier) -> (s: ModifierSet)
        ensures
            s == self.with_spec(m),
            forall|x: Modifier| s.has(x) == (self.has(x) || x == m),
    {
        let s = match m {
            Modifier::Minor => ModifierSet { minor: true, ..*self },
            Modifier::Diminished => ModifierSet { diminished: true, ..*self },
            Modifier::Augmented5 => ModifierSet { augmented5: true, ..*self },
            Modifier::Major7 => ModifierSet { major7: true, ..*self },
            Modifier::Dominant(Degree::Seven) => ModifierSet { dominant7: true, ..*self },
            Modifier::Dominant(Degree::Nine) => ModifierSet { dominant9: true, ..*self },
            Modifier::Dominant(Degree::Eleven) => ModifierSet { dominant11: true, ..*self },
            Modifier::Dominant(Degree::Thirteen) => ModifierSet { dominant13: true, ..*self },
            Modifier::Flat5 => ModifierSet { flat5: true, ..*self },
            Modifier::Flat9 => ModifierSet { flat9: true, ..*self },
            Modifier::Sharp9 => ModifierSet { sharp9: true, ..*self },
            Modifier::Sharp11 => ModifierSet { sharp11: true, ..*self },
        };
        proof {
            assert forall|x: Modifier| self.with_spec(m).has(x) == (self.has(x) || x == m) by {
                self.lemma_with(m, x);
            }
        }
        s
    }

    /// Adding a member adds that member and no other.
    pub proof fn lemma_with(self, m: Modifier, x: Modifier)
        ensures
            self.with_spec(m).has(x) == (self.has(x) || x == m),
    {
    }

    /// Returns the number of members.
    pub fn count(&self) -> (c: u8)
        ensures
            c == self.count_spec(),
            c <= 12,
    {
        let mut c: u8 = 0;
        let mut rank: u8 = 0;
        while rank < 12
            invariant
                rank <= 12,
                c <= rank,
                c == self.count_upto(rank as nat),
            decreases 12 - rank,
        {
            if self.contains(Modifier::from_rank(rank)) {
                c = c + 1;
            }
            rank = rank + 1;
        }
        c
    }

    /// Returns the members in the order of listing.
    pub fn to_vec(&self) -> (v: Vec<Modifier>)
        ensures
            v@ == self.listed(),
            v@.len() == self.count_spec(),
            forall|m: Modifier| #[trigger] v@.contains(m) <==> self.has(m),
            forall|i: int, j: int|
                0 <= i < j < v@.len() ==> v@[i].rank_spec() < v@[j].rank_spec(),
    {
        proof {
            self.lemma_listed(12);
            assert forall|m: Modifier| m.rank_spec() < 12 by {
                Modifier::lemma_rank_round_trip(m, 0);
            }
        }
        let mut v: Vec<Modifier> = Vec::new();
        let mut rank: u8 = 0;
        while rank < 12
            invariant
                rank <= 12,
                v@ == self.listed_upto(rank as nat),
            decreases 12 - rank,
        {
            let m = Modifier::from_rank(rank);
            if self.contains(m) {
                v.push(m);
            }
            rank = rank + 1;
        }
        v
    }

    /// Returns the set that holds the members of `items`.
    pub fn from_slice(items: &[Modifier]) -> (s: ModifierSet)
        ensures
            s == ModifierSet::of_seq(items@),
            forall|m: Modifier| s.has(m) == items@.contains(m),
    {
        let mut s = ModifierSet::empty();
        let mut k: usize = 0;
        assert(items@.take(0) =~= Seq::<Modifier>::empty());
        while k < items.len()
            invariant
                k <= items.len(),
                s == ModifierSet::of_seq(items@.take(k as int)),
                forall|m: Modifier| s.has(m) == items@.take(k as int).contains(m),
            decreases items.len() - k,
        {
            proof {
                let before = items@.take(k as int);
                let after = items@.take(k as int + 1);
                assert(after.drop_last() =~= before);
                assert(after.last() == items@[k as int]);
                assert forall|m: Modifier|
                    after.contains(m) == (before.contains(m) || m == items@[k as int]) by {
                    if after.contains(m) {
                        let j = choose|j: int| 0 <= j < after.len() && after[j] == m;
                        if j < k {
                            assert(before[j] == m);
                        }
                    }
                    if before.contains(m) {
                        let j = choose|j: int| 0 <= j < before.len() && before[j] == m;
                        assert(after[j] == m);
                    }
                    if m == items@[k as int] {
                        assert(after[k as int] == m);
                    }
                }
            }
            s = s.with(items[k]);
            k = k + 1;
        }
        assert(items@.take(items@.len() as int) =~= items@);
        s
    }

    /// Writes the signs of the members after `text`, in the order of listing.
    pub fn append_text(&self, text: &mut String)
        ensures
            final(text)@ == old(text)@ + self.text(),
    {
        let mut rank: u8 = 0;
        assert(old(text)@ + self.text_upto(0) =~= old(text)@);
        while rank < 12
            invariant
                rank <= 12,
                text@ == old(text)@ + self.text_upto(rank as nat),
            decreases 12 - rank,
        {
            let m = Modifier::from_rank(rank);
            if self.contains(m) {
                let ghost before = text@;
                text.append(m.static_name());
                assert(text@ =~= old(text)@ + self.text_upto((rank + 1) as nat));
            }
            rank = rank + 1;
        }
    }

    /// The listing holds the members, each once, in the order of listing.
    pub proof fn lemma_listed(self, n: nat)
        requires
            n <= 12,
        ensures
            self.listed_upto(n).len() == self.count_upto(n),
            0 <= self.count_upto(n) <= n,
            forall|m: Modifier| #[trigger]
                self.listed_upto(n).contains(m) <==> (self.has(m) && m.rank_spec() < n),
            forall|i: int, j: int|
                0 <= i < j < self.listed_upto(n).len() ==> self.listed_upto(n)[i].rank_spec()
                    < self.listed_upto(n)[j].rank_spec(),
        decreases n,
    {
        if n > 0 {
            self.lemma_listed((n - 1) as nat);
            let before = self.listed_upto((n - 1) as nat);
            let now = self.listed_upto(n);
            let last = Modifier::at_rank(n - 1);
            Modifier::lemma_rank_round_trip(last, n - 1);
            assert(now == if self.has(last) {
                before.push(last)
            } else {
                before
            });
            assert forall|m: Modifier| now.contains(m) <==> (self.has(m) && m.rank_spec() < n) by {
                Modifier::lemma_rank_round_trip(m, 0);
                if now.contains(m) {
                    let j = choose|j: int| 0 <= j < now.len() && now[j] == m;
                    if j < before.len() {
                        assert(before[j] == m);
                        assert(before.contains(m));
                        assert(self.has(m) && m.rank_spec() < n);
                    } else {
                        assert(m == last);
                        assert(self.has(m) && m.rank_spec() < n);
                    }
                }
                if self.has(m) && m.rank_spec() < n {
                    if m.rank_spec() == n - 1 {
                        assert(m == last);
                        assert(now[before.len() as int] == m);
                        assert(now.contains(m));
                    } else {
                        assert(before.contains(m));
                        let j = choose|j: int| 0 <= j < before.len() && before[j] == m;
                        assert(now[j] == m);
                        assert(now.contains(m));
                    }
                }
            }
            assert forall|i: int, j: int| 0 <= i < j < now.len() implies now[i].rank_spec()
                < now[j].rank_spec() by {
                assert(now[i] == before[i]);
                assert(before.contains(before[i]));
                assert(before[i].rank_spec() < n - 1);
                if j < before.len() {
                    assert(now[j] == before[j]);
                    assert(before[i].rank_spec() < before[j].rank_spec());
                } else {
                    assert(now[j] == last);
                    assert(last.rank_spec() == n - 1);
                }
            }
        }
    }
}

/// The extensions of a chord: a set, listed and written in one fixed order.
#[derive(PartialEq, Eq, Copy, Clone, Hash, Debug, Structural)]
pub struct ExtensionSet {
    /// Whether the added ninth is a member.
    pub add9: bool,
    /// Whether the added eleventh is a member.
    pub add11: bool,
    /// Whether the added thirteenth is a member.
    pub add13: bool,
    /// Whether the flat eleventh is a member.
    pub flat11: bool,
    /// Whether the flat thirteenth is a member.
    pub flat13: bool,
    /// Whether the sharp thirteenth is a member.
    pub sharp13: bool,
}

impl View for ExtensionSet {
    type V = Set<Extension>;

    /// The members.
    open spec fn view(&self) -> Set<Extension> {
        Set::new(|m: Extension| self.has(m))
    }
}

impl Extension {
    /// The place of the extension in the order in which extensions are listed and
    /// written, in `0..6`.
    pub open spec fn rank_spec(self) -> int {
        match self {
            Extension::Add9 => 0,
            Extension::Add11 => 1,
            Extension::Add13 => 2,
            Extension::Flat11 => 3,
            Extension::Flat13 => 4,
            Extension::Sharp13 => 5,
        }
    }

    /// The extension at a place of that order; the last one beyond its end.
    pub open spec fn at_rank(rank: int) -> Extension {
        if rank <= 0 {
            Extension::Add9
        } else if rank == 1 {
            Extension::Add11
        } else if rank == 2 {
            Extension::Add13
        } else if rank == 3 {
            Extension::Flat11
        } else if rank == 4 {
            Extension::Flat13
        } else {
            Extension::Sharp13
        }
    }

    /// Returns the place of the extension in the order of listing.
    pub fn rank(&self) -> (r: u8)
        ensures
            r == self.rank_spec(),
            r < 6,
    {
        match self {
            Extension::Add9 => 0,
            Extension::Add11 => 1,
            Extension::Add13 => 2,
            Extension::Flat11 => 3,
            Extension::Flat13 => 4,
            Extension::Sharp13 => 5,
        }
    }

    /// Returns the extension at a place of the order of listing; the last
    /// one beyond its end.
    pub fn from_rank(rank: u8) -> (m: Extension)
        ensures
            m == Extension::at_rank(rank as int),
            rank < 6 ==> m.rank_spec() == rank,
    {
        if rank == 0 {
            Extension::Add9
        } else if rank == 1 {
            Extension::Add11
        } else if rank == 2 {
            Extension::Add13
        } else if rank == 3 {
            Extension::Flat11
        } else if rank == 4 {
            Extension::Flat13
        } else {
            Extension::Sharp13
        }
    }

    /// A extension is determined by its place in the order of listing.
    pub proof fn lemma_rank_round_trip(m: Extension, rank: int)
        ensures
            0 <= m.rank_spec() < 6,
            Extension::at_rank(m.rank_spec()) == m,
            0 <= rank < 6 ==> Extension::at_rank(rank).rank_spec() == rank,
    {
    }
}

impl HasStaticName for Extension {
    /// The sign by which the extension is written in a chord's name.
    open spec fn static_name_spec(&self) -> Seq<char> {
        match self {
            Extension::Add9 => "(add9)"@,
            Extension::Add11 => "(add11)"@,
            Extension::Add13 => "(add13)"@,
            Extension::Flat11 => "(\u{266d}11)"@,
            Extension::Flat13 => "(\u{266d}13)"@,
            Extension::Sharp13 => "(\u{266f}13)"@,
        }
    }

    fn static_name(&self) -> (s: &'static str) {
        match self {
            Extension::Add9 => "(add9)",
            Extension::Add11 => "(add11)",
            Extension::Add13 => "(add13)",
            Extension::Flat11 => "(\u{266d}11)",
            Extension::Flat13 => "(\u{266d}13)",
            Extension::Sharp13 => "(\u{266f}13)",
        }
    }
}

impl HasDescription for Extension {
    open spec fn description_spec(&self) -> Seq<char> {
        match self {
            Extension::Add9 => "added ninth"@,
            Extension::Add11 => "added eleventh"@,
            Extension::Add13 => "added thirteenth"@,
            Extension::Flat11 => "flat eleventh"@,
            Extension::Flat13 => "flat thirteenth"@,
            Extension::Sharp13 => "sharp thirteenth"@,
        }
    }

    fn description(&self) -> (s: &'static str) {
        match self {
            Extension::Add9 => "added ninth",
            Extension::Add11 => "added eleventh",
            Extension::Add13 => "added thirteenth",
            Extension::Flat11 => "flat eleventh",
            Extension::Flat13 => "flat thirteenth",
            Extension::Sharp13 => "sharp thirteenth",
        }
    }
}

impl ExtensionSet {
    /// Whether `m` is a member.
    pub open spec fn has(self, m: Extension) -> bool {
        match m {
            Extension::Add9 => self.add9,
            Extension::Add11 => self.add11,
            Extension::Add13 => self.add13,
            Extension::Flat11 => self.flat11,
            Extension::Flat13 => self.flat13,
            Extension::Sharp13 => self.sharp13,
        }
    }

    /// The set without members.
    pub open spec fn empty_spec() -> ExtensionSet {
        ExtensionSet {
            add9: false,
            add11: false,
            add13: false,
            flat11: false,
            flat13: false,
            sharp13: false,
        }
    }

    /// The set with `m` added.
    pub open spec fn with_spec(self, m: Extension) -> ExtensionSet {
        match m {
            Extension::Add9 => ExtensionSet { add9: true, ..self },
            Extension::Add11 => ExtensionSet { add11: true, ..self },
            Extension::Add13 => ExtensionSet { add13: true, ..self },
            Extension::Flat11 => ExtensionSet { flat11: true, ..self },
            Extension::Flat13 => ExtensionSet { flat13: true, ..self },
            Extension::Sharp13 => ExtensionSet { sharp13: true, ..self },
        }
    }

    /// The number of members.
    pub open spec fn count_spec(self) -> int {
        self.count_upto(6)
    }

    /// The number of members among the first `n` extensions of the order of
    /// listing.
    pub open spec fn count_upto(self, n: nat) -> int
        decreases n,
    {
        if n == 0 {
            0
        } else {
            self.count_upto((n - 1) as nat) + if self.has(Extension::at_rank(n - 1)) {
                1int
            } else {
                0int
            }
        }
    }

    /// The members among the first `n` extensions of the order of listing, in
    /// that order.
    pub open spec fn listed_upto(self, n: nat) -> Seq<Extension>
        decreases n,
    {
        if n == 0 {
            Seq::empty()
        } else if self.has(Extension::at_rank(n - 1)) {
            self.listed_upto((n - 1) as nat).push(Extension::at_rank(n - 1))
        } else {
            self.listed_upto((n - 1) as nat)
        }
    }

    /// The members in the order of listing.
    pub open spec fn listed(self) -> Seq<Extension> {
        self.listed_upto(6)
    }

    /// The signs of the members among the first `n` extensions of the order of
    /// listing, written one after the other.
    pub open spec fn text_upto(self, n: nat) -> Seq<char>
        decreases n,
    {
        if n == 0 {
            Seq::empty()
        } else if self.has(Extension::at_rank(n - 1)) {
            self.text_upto((n - 1) as nat) + Extension::at_rank(n - 1).static_name_spec()
        } else {
            self.text_upto((n - 1) as nat)
        }
    }

    /// The signs of the members, written one after the other in the order
    /// of listing.
    pub open spec fn text(self) -> Seq<char> {
        self.text_upto(6)
    }

    /// The set that holds the members of a sequence.
    pub open spec fn of_seq(items: Seq<Extension>) -> ExtensionSet
        decreases items.len(),
    {
        if items.len() == 0 {
            ExtensionSet::empty_spec()
        } else {
            ExtensionSet::of_seq(items.drop_last()).with_spec(items.last())
        }
    }

    /// Returns the set without members.
    pub fn empty() -> (s: ExtensionSet)
        ensures
            s == ExtensionSet::empty_spec(),
            forall|m: Extension| !s.has(m),
    {
        ExtensionSet {
            add9: false,
            add11: false,
            add13: false,
            flat11: false,
            flat13: false,
            sharp13: false,
        }
    }

    /// Tells whether `m` is a member.
    pub fn contains(&self, m: Extension) -> (b: bool)
        ensures
            b == self.has(m),
    {
        match m {
            Extension::Add9 => self.add9,
            Extension::Add11 => self.add11,
            Extension::Add13 => self.add13,
            Extension::Flat11 => self.flat11,
            Extension::Flat13 => self.flat13,
            Extension::Sharp13 => self.sharp13,
        }
    }

    /// Returns the set with `m` added.
    pub fn with(&self, m: Extension) -> (s: ExtensionSet)
        ensures
            s == self.with_spec(m),
            forall|x: Extension| s.has(x) == (self.has(x) || x == m),
    {
        let s = match m {
            Extension::Add9 => ExtensionSet { add9: true, ..*self },
            Extension::Add11 => ExtensionSet { add11: true, ..*self },
            Extension::Add13 => ExtensionSet { add13: true, ..*self },
            Extension::Flat11 => ExtensionSet { flat11: true, ..*self },
            Extension::Flat13 => ExtensionSet { flat13: true, ..*self },
            Extension::Sharp13 => ExtensionSet { sharp13: true, ..*self },
        };
        proof {
            assert forall|x: Extension| self.with_spec(m).has(x) == (self.has(x) || x == m) by {
                self.lemma_with(m, x);
            }
        }
        s
    }

    /// Adding a member adds that member and no other.
    pub proof fn lemma_with(self, m: Extension, x: Extension)
        ensures
            self.with_spec(m).has(x) == (self.has(x) || x == m),
    {
    }

    /// Returns the number of members.
    pub fn count(&self) -> (c: u8)
        ensures
            c == self.count_spec(),
            c <= 6,
    {
        let mut c: u8 = 0;
        let mut rank: u8 = 0;
        while rank < 6
            invariant
                rank <= 6,
                c <= rank,
                c == self.count_upto(rank as nat),
            decreases 6 - rank,
        {
            if self.contains(Extension::from_rank(rank)) {
                c = c + 1;
            }
            rank = rank + 1;
        }
        c
    }

    /// Returns the members in the order of listing.
    pub fn to_vec(&self) -> (v: Vec<Extension>)
        ensures
            v@ == self.listed(),
            v@.len() == self.count_spec(),
            forall|m: Extension| #[trigger] v@.contains(m) <==> self.has(m),
            forall|i: int, j: int|
                0 <= i < j < v@.len() ==> v@[i].rank_spec() < v@[j].rank_spec(),
    {
        proof {
            self.lemma_listed(6);
            assert forall|m: Extension| m.rank_spec() < 6 by {
                Extension::lemma_rank_round_trip(m, 0);
            }
        }
        let mut v: Vec<Extension> = Vec::new();
        let mut rank: u8 = 0;
        while rank < 6
            invariant
                rank <= 6,
                v@ == self.listed_upto(rank as nat),
            decreases 6 - rank,
        {
            let m = Extension::from_rank(rank);
            if self.contains(m) {
                v.push(m);
            }
            rank = rank + 1;
        }
        v
    }

    /// Returns the set that holds the members of `items`.
    pub fn from_slice(items: &[Extension]) -> (s: ExtensionSet)
        ensures
            s == ExtensionSet::of_seq(items@),
            forall|m: Extension| s.has(m) == items@.contains(m),
    {
        let mut s = ExtensionSet::empty();
        let mut k: usize = 0;
        assert(items@.take(0) =~= Seq::<Extension>::empty());
        while k < items.len()
            invariant
                k <= items.len(),
                s == ExtensionSet::of_seq(items@.take(k as int)),
                forall|m: Extension| s.has(m) == items@.take(k as int).contains(m),
            decreases items.len() - k,
        {
            proof {
                let before = items@.take(k as int);
                let after = items@.take(k as int + 1);
                assert(after.drop_last() =~= before);
                assert(after.last() == items@[k as int]);
                assert forall|m: Extension|
                    after.contains(m) == (before.contains(m) || m == items@[k as int]) by {
                    if after.contains(m) {
                        let j = choose|j: int| 0 <= j < after.len() && after[j] == m;
                        if j < k {
                            assert(before[j] == m);
                        }
                    }
                    if before.contains(m) {
                        let j = choose|j: int| 0 <= j < before.len() && before[j] == m;
                        assert(after[j] == m);
                    }
                    if m == items@[k as int] {
                        assert(after[k as int] == m);
                    }
                }
            }
            s = s.with(items[k]);
            k = k + 1;
        }
        assert(items@.take(items@.len() as int) =~= items@);
        s
    }

    /// Writes the signs of the members after `text`, in the order of listing.
    pub fn append_text(&self, text: &mut String)
        ensures
            final(text)@ == old(text)@ + self.text(),
    {
        let mut rank: u8 = 0;
        assert(old(text)@ + self.text_upto(0) =~= old(text)@);
        while rank < 6
            invariant
                rank <= 6,
                text@ == old(text)@ + self.text_upto(rank as nat),
            decreases 6 - rank,
        {
            let m = Extension::from_rank(rank);
            if self.contains(m) {
                let ghost before = text@;
                text.append(m.static_name());
                assert(text@ =~= old(text)@ + self.text_upto((rank + 1) as nat));
            }
            rank = rank + 1;
        }
    }

    /// The listing holds the members, each once, in the order of listing.
    pub proof fn lemma_listed(self, n: nat)
        requires
            n <= 6,
        ensures
            self.listed_upto(n).len() == self.count_upto(n),
            0 <= self.count_upto(n) <= n,
            forall|m: Extension| #[trigger]
                self.listed_upto(n).contains(m) <==> (self.has(m) && m.rank_spec() < n),
            forall|i: int, j: int|
                0 <= i < j < self.listed_upto(n).len() ==> self.listed_upto(n)[i].rank_spec()
                    < self.listed_upto(n)[j].rank_spec(),
        decreases n,
    {
        if n > 0 {
            self.lemma_listed((n - 1) as nat);
            let before = self.listed_upto((n - 1) as nat);
            let now = self.listed_upto(n);
            let last = Extension::at_rank(n - 1);
            Extension::lemma_rank_round_trip(last, n - 1);
            assert(now == if self.has(last) {
                before.push(last)
            } else {
                before
            });
            assert forall|m: Extension| now.contains(m) <==> (self.has(m) && m.rank_spec() < n) by {
                Extension::lemma_rank_round_trip(m, 0);
                if now.contains(m) {
                    let j = choose|j: int| 0 <= j < now.len() && now[j] == m;
                    if j < before.len() {
                        assert(before[j] == m);
                        assert(before.contains(m));
                        assert(self.has(m) && m.rank_spec() < n);
                    } else {
                        assert(m == last);
                        assert(self.has(m) && m.rank_spec() < n);
                    }
                }
                if self.has(m) && m.rank_spec() < n {
                    if m.rank_spec() == n - 1 {
                        assert(m == last);
                        assert(now[before.len() as int] == m);
                        assert(now.contains(m));
                    } else {
                        assert(before.contains(m));
                        let j = choose|j: int| 0 <= j < before.len() && before[j] == m;
                        assert(now[j] == m);
                        assert(now.contains(m));
                    }
                }
            }
            assert forall|i: int, j: int| 0 <= i < j < now.len() implies now[i].rank_spec()
                < now[j].rank_spec() by {
                assert(now[i] == before[i]);
                assert(before.contains(before[i]));
                assert(before[i].rank_spec() < n - 1);
                if j < before.len() {
                    assert(now[j] == before[j]);
                    assert(before[i].rank_spec() < before[j].rank_spec());
                } else {
                    assert(now[j] == last);
                    assert(last.rank_spec() == n - 1);
                }
            }
        }
    }
}

impl Extension {
    /// Whether the extension is altered: a flat or a sharp one.
    pub open spec fn is_altered_spec(self) -> bool {
        self == Extension::Flat11 || self == Extension::Flat13 || self == Extension::Sharp13
    }

    /// Tells whether the extension is altered.
    pub fn is_altered(&self) -> (b: bool)
        ensures
            b == self.is_altered_spec(),
    {
        match self {
            Extension::Flat11 | Extension::Flat13 | Extension::Sharp13 => true,
            _ => false,
        }
    }
}

impl ExtensionSet {
    /// The number of altered members.
    pub open spec fn altered_count_spec(self) -> int {
        (if self.flat11 {
            1int
        } else {
            0int
        }) + (if self.flat13 {
            1int
        } else {
            0int
        }) + (if self.sharp13 {
            1int
        } else {
            0int
        })
    }

    /// Returns the number of altered members.
    pub fn altered_count(&self) -> (c: u8)
        ensures
            c == self.altered_count_spec(),
            c <= 3,
    {
        let mut c: u8 = 0;
        if self.flat11 {
            c = c + 1;
        }
        if self.flat13 {
            c = c + 1;
        }
        if self.sharp13 {
            c = c + 1;
        }
        c
    }
}

impl ModifierSet {
    /// Whether a dominant modifier of any degree is a member.
    pub open spec fn is_dominant_spec(self) -> bool {
        self.dominant7 || self.dominant9 || self.dominant11 || self.dominant13
    }

    /// Tells whether a dominant modifier of any degree is a member.
    pub fn is_dominant(&self) -> (b: bool)
        ensures
            b == self.is_dominant_spec(),
    {
        self.dominant7 || self.dominant9 || self.dominant11 || self.dominant13
    }
}

} // verus!

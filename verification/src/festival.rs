//! The festivals of the year, and sets of them.
use crate::text::eq_ignore_ascii_case;
#[allow(unused_imports)]
use crate::text::{lower_seq, same_ignoring_case};
use vstd::prelude::*;

verus! {

/// A festival.
#[derive(Clone, Copy, PartialEq, Eq, Structural, PartialOrd, Ord, Hash, Debug)]
pub enum Festival {
    Halloween,
    Wintersday,
    SuperAdventureBox,
    LunarNewYear,
    FourWinds,
    DragonBash,
}

/// The festivals in the order of the year.
pub open spec fn festivals_in_order() -> Seq<Festival> {
    seq![
        Festival::LunarNewYear,
        Festival::SuperAdventureBox,
        Festival::DragonBash,
        Festival::FourWinds,
        Festival::Halloween,
        Festival::Wintersday,
    ]
}

/// The name of a festival in marker packs.
pub open spec fn festival_name(festival: Festival) -> Seq<char> {
    match festival {
        Festival::Halloween => "halloween"@,
        Festival::Wintersday => "wintersday"@,
        Festival::SuperAdventureBox => "superadventurefestival"@,
        Festival::LunarNewYear => "lunarnewyear"@,
        Festival::FourWinds => "festivalofthefourwinds"@,
        Festival::DragonBash => "dragonbash"@,
    }
}

impl Festival {
    /// Every festival, in the order of the year.
    pub fn all() -> (r: Vec<Festival>)
        ensures
            r@ == festivals_in_order(),
    {
        vec![
            Festival::LunarNewYear,
            Festival::SuperAdventureBox,
            Festival::DragonBash,
            Festival::FourWinds,
            Festival::Halloween,
            Festival::Wintersday,
        ]
    }

    /// The name of this festival.
    pub fn as_str(&self) -> (r: &'static str)
        ensures
            r@ == festival_name(*self),
    {
        match self {
            Festival::Halloween => "halloween",
            Festival::Wintersday => "wintersday",
            Festival::SuperAdventureBox => "superadventurefestival",
            Festival::LunarNewYear => "lunarnewyear",
            Festival::FourWinds => "festivalofthefourwinds",
            Festival::DragonBash => "dragonbash",
        }
    }

    /// The festival of a name, whatever the case of its letters.
    pub fn parse(name: &str) -> (r: Option<Festival>)
        ensures
            match r {
                Some(f) => same_ignoring_case(name@, festival_name(f)),
                None => forall|f: Festival| !same_ignoring_case(
                    name@,
                    #[trigger] festival_name(f),
                ),
            },
    {
        if eq_ignore_ascii_case(name, "halloween") {
            Some(Festival::Halloween)
        } else if eq_ignore_ascii_case(name, "wintersday") {
            Some(Festival::Wintersday)
        } else if eq_ignore_ascii_case(name, "superadventurefestival") {
            Some(Festival::SuperAdventureBox)
        } else if eq_ignore_ascii_case(name, "lunarnewyear") {
            Some(Festival::LunarNewYear)
        } else if eq_ignore_ascii_case(name, "festivalofthefourwinds") {
            Some(Festival::FourWinds)
        } else if eq_ignore_ascii_case(name, "dragonbash") {
            Some(Festival::DragonBash)
        } else {
            None
        }
    }
}

/// A set of festivals. Bits that stand for no festival are kept.
#[derive(Clone, Copy, PartialEq, Eq, Structural, PartialOrd, Ord, Hash, Debug)]
pub struct Festivals {
    pub bits: u16,
}

/// The bit of a festival.
pub open spec fn festival_bit(festival: Festival) -> u16 {
    match festival {
        Festival::LunarNewYear => 0x01,
        Festival::SuperAdventureBox => 0x02,
        Festival::DragonBash => 0x04,
        Festival::FourWinds => 0x08,
        Festival::Halloween => 0x10,
        Festival::Wintersday => 0x20,
    }
}

/// The set of a list of festivals.
pub open spec fn bits_of(list: Seq<Festival>) -> u16
    decreases list.len(),
{
    if list.len() == 0 {
        0
    } else {
        bits_of(list.drop_last()) | festival_bit(list.last())
    }
}

impl Default for Festivals {
    fn default() -> (r: Festivals)
        ensures
            r.bits == 0,
    {
        Festivals { bits: 0 }
    }
}

impl Festivals {
    /// Whether a festival is in this set.
    pub open spec fn has(self, festival: Festival) -> bool {
        self.bits & festival_bit(festival) == festival_bit(festival)
    }

    /// The festivals of this set, in the order of the year.
    pub open spec fn members(self) -> Seq<Festival> {
        festivals_in_order().filter(|f: Festival| self.has(f))
    }

    /// No festivals.
    pub fn empty() -> (r: Festivals)
        ensures
            r.bits == 0,
    {
        Festivals { bits: 0 }
    }

    /// The set of one festival.
    pub fn for_festival(festival: Festival) -> (r: Festivals)
        ensures
            r.bits == festival_bit(festival),
    {
        let bits: u16 = match festival {
            Festival::LunarNewYear => 0x01,
            Festival::SuperAdventureBox => 0x02,
            Festival::DragonBash => 0x04,
            Festival::FourWinds => 0x08,
            Festival::Halloween => 0x10,
            Festival::Wintersday => 0x20,
        };
        Festivals { bits }
    }

    /// The festival that this is the set of.
    pub fn to_festival(self) -> (r: Option<Festival>)
        ensures
            match r {
                Some(f) => self.bits == festival_bit(f),
                None => forall|f: Festival| self.bits != #[trigger] festival_bit(f),
            },
    {
        match self.bits {
            0x01 => Some(Festival::LunarNewYear),
            0x02 => Some(Festival::SuperAdventureBox),
            0x04 => Some(Festival::DragonBash),
            0x08 => Some(Festival::FourWinds),
            0x10 => Some(Festival::Halloween),
            0x20 => Some(Festival::Wintersday),
            _ => None,
        }
    }

    /// Whether a festival is in this set.
    pub fn get(&self, festival: Festival) -> (r: bool)
        ensures
            r == self.has(festival),
    {
        let bit = Festivals::for_festival(festival).bits;
        self.bits & bit == bit
    }

    /// The festivals of either set.
    pub fn union(self, other: Festivals) -> (r: Festivals)
        ensures
            r.bits == self.bits | other.bits,
    {
        Festivals { bits: self.bits | other.bits }
    }

    /// Lists the festivals of this set, in the order of the year.
    pub fn iter_festivals(self) -> (r: Vec<Festival>)
        ensures
            r@ == self.members(),
    {
        let all = Festival::all();
        let mut out: Vec<Festival> = Vec::new();
        let ghost inside = |f: Festival| self.has(f);
        let mut i: usize = 0;
        proof {
            reveal(Seq::filter);
            assert(all@.take(0).filter(inside) =~= Seq::empty());
        }
        while i < all.len()
            invariant
                i <= all@.len(),
                inside == (|f: Festival| self.has(f)),
                out@ == all@.take(i as int).filter(inside),
            decreases all@.len() - i,
        {
            proof {
                assert(all@.take(i + 1) =~= all@.take(i as int).push(all@[i as int]));
                all@.take(i as int).lemma_filter_push(all@[i as int], inside);
            }
            if self.get(all[i]) {
                out.push(all[i]);
            }
            i += 1;
        }
        assert(all@.take(i as int) =~= all@);
        out
    }

    /// The set of the festivals in a list.
    pub fn from_iter(list: &Vec<Festival>) -> (r: Festivals)
        ensures
            r.bits == bits_of(list@),
    {
        let mut set = Festivals::empty();
        let mut i: usize = 0;
        while i < list.len()
            invariant
                i <= list@.len(),
                set.bits == bits_of(list@.take(i as int)),
            decreases list@.len() - i,
        {
            proof {
                assert(list@.take(i + 1).drop_last() =~= list@.take(i as int));
                assert(list@.take(i + 1).last() == list@[i as int]);
            }
            set = set.union(Festivals::for_festival(list[i]));
            i += 1;
        }
        assert(list@.take(i as int) =~= list@);
        set
    }
}

impl From<Festival> for Festivals {
    fn from(festival: Festival) -> (r: Festivals) {
        Festivals::for_festival(festival)
    }
}

impl vstd::std_specs::convert::FromSpecImpl<Festival> for Festivals {
    open spec fn obeys_from_spec() -> bool {
        true
    }

    open spec fn from_spec(festival: Festival) -> Festivals {
        Festivals { bits: festival_bit(festival) }
    }
}

impl From<Option<Festival>> for Festivals {
    fn from(festival: Option<Festival>) -> (r: Festivals) {
        match festival {
            Some(f) => Festivals::for_festival(f),
            None => Festivals::empty(),
        }
    }
}

impl vstd::std_specs::convert::FromSpecImpl<Option<Festival>> for Festivals {
    open spec fn obeys_from_spec() -> bool {
        true
    }

    open spec fn from_spec(festival: Option<Festival>) -> Festivals {
        match festival {
            Some(f) => Festivals { bits: festival_bit(f) },
            None => Festivals { bits: 0 },
        }
    }
}

/// No two festivals share a bit.
proof fn lemma_bits(a: Festival, b: Festival)
    ensures
        festival_bit(a) & festival_bit(b) == if a == b {
            festival_bit(a)
        } else {
            0
        },
        festival_bit(a) != 0,
        a != b ==> festival_bit(a) != festival_bit(b),
{
    assert(0x01u16 & 0x01u16 == 0x01u16 && 0x02u16 & 0x02u16 == 0x02u16 && 0x04u16 & 0x04u16
        == 0x04u16 && 0x08u16 & 0x08u16 == 0x08u16 && 0x10u16 & 0x10u16 == 0x10u16 && 0x20u16
        & 0x20u16 == 0x20u16) by (bit_vector);
    assert(0x01u16 & 0x02u16 == 0 && 0x01u16 & 0x04u16 == 0 && 0x01u16 & 0x08u16 == 0 && 0x01u16
        & 0x10u16 == 0 && 0x01u16 & 0x20u16 == 0 && 0x02u16 & 0x04u16 == 0 && 0x02u16 & 0x08u16
        == 0 && 0x02u16 & 0x10u16 == 0 && 0x02u16 & 0x20u16 == 0 && 0x04u16 & 0x08u16 == 0
        && 0x04u16 & 0x10u16 == 0 && 0x04u16 & 0x20u16 == 0 && 0x08u16 & 0x10u16 == 0 && 0x08u16
        & 0x20u16 == 0 && 0x10u16 & 0x20u16 == 0) by (bit_vector);
    let x = festival_bit(a);
    let y = festival_bit(b);
    assert(x & y == y & x) by (bit_vector);
}

/// The set of one festival holds that festival and no other.
pub proof fn law_set_of_one(a: Festival, b: Festival)
    ensures
        (Festivals { bits: festival_bit(a) }).has(b) == (a == b),
{
    lemma_bits(a, b);
    lemma_bits(b, b);
}

/// A festival is in the union of two sets just where it is in one of them.
pub proof fn law_union(a: Festivals, b: Festivals, festival: Festival)
    ensures
        (Festivals { bits: a.bits | b.bits }).has(festival) == (a.has(festival) || b.has(festival)),
{
    let x = a.bits;
    let y = b.bits;
    let bit = festival_bit(festival);
    assert(((x | y) & bit == bit) == (x & bit == bit || y & bit == bit)) by (bit_vector)
        requires
            bit == 1 || bit == 2 || bit == 4 || bit == 8 || bit == 16 || bit == 32,
    ;
}

/// The set of a list holds just the festivals of the list.
pub proof fn law_set_of_list(list: Seq<Festival>, festival: Festival)
    ensures
        (Festivals { bits: bits_of(list) }).has(festival) == list.contains(festival),
    decreases list.len(),
{
    if list.len() == 0 {
        lemma_bits(festival, festival);
        let bit = festival_bit(festival);
        assert(0u16 & bit == 0) by (bit_vector);
    } else {
        law_set_of_list(list.drop_last(), festival);
        law_union(
            Festivals { bits: bits_of(list.drop_last()) },
            Festivals { bits: festival_bit(list.last()) },
            festival,
        );
        law_set_of_one(list.last(), festival);
        if list.contains(festival) {
            let i = choose|i: int| 0 <= i < list.len() && list[i] == festival;
            if i < list.len() - 1 {
                assert(list.drop_last()[i] == festival);
            }
        }
        if list.drop_last().contains(festival) {
            let i = choose|i: int| 0 <= i < list.len() - 1 && list.drop_last()[i] == festival;
            assert(list[i] == festival);
        }
        assert(list[list.len() - 1] == list.last());
    }
}

/// A set lists just the festivals that it holds.
pub proof fn law_members(set: Festivals, festival: Festival)
    ensures
        set.members().contains(festival) == set.has(festival),
{
    let all = festivals_in_order();
    let inside = |f: Festival| set.has(f);
    assert(all.contains(festival)) by {
        assert(all[0] == Festival::LunarNewYear);
        assert(all[1] == Festival::SuperAdventureBox);
        assert(all[2] == Festival::DragonBash);
        assert(all[3] == Festival::FourWinds);
        assert(all[4] == Festival::Halloween);
        assert(all[5] == Festival::Wintersday);
    }
    if set.has(festival) {
        let i = choose|i: int| 0 <= i < all.len() && all[i] == festival;
        all.lemma_filter_contains(inside, i);
    }
    if set.members().contains(festival) {
        let i = choose|i: int| 0 <= i < set.members().len() && set.members()[i] == festival;
        all.lemma_filter_pred(inside, i);
    }
}

/// A list of the festivals of a set makes up the same set.
pub proof fn law_members_make_the_set(set: Festivals, festival: Festival)
    ensures
        (Festivals { bits: bits_of(set.members()) }).has(festival) == set.has(festival),
{
    law_set_of_list(set.members(), festival);
    law_members(set, festival);
}

/// The name of a festival is the name of no other, whatever the case of the letters.
pub proof fn law_names_are_apart(a: Festival, b: Festival)
    requires
        same_ignoring_case(festival_name(a), festival_name(b)),
    ensures
        a == b,
{
    reveal_strlit("halloween");
    reveal_strlit("wintersday");
    reveal_strlit("superadventurefestival");
    reveal_strlit("lunarnewyear");
    reveal_strlit("festivalofthefourwinds");
    reveal_strlit("dragonbash");
    let x = lower_seq(festival_name(a));
    let y = lower_seq(festival_name(b));
    assert(x.len() == festival_name(a).len());
    assert(y.len() == festival_name(b).len());
    assert(x[0] == festival_name(a)[0]);
    assert(y[0] == festival_name(b)[0]);
}

} // verus!

//! When two marker sets are the same, what identifies one, and when it is on.
#[allow(unused_imports)]
use crate::marker_set::{
    canonical, MarkerEntryView, MarkerPosition, MarkerSet, MarkerSetView, MarkerSettings,
};
#[allow(unused_imports)]
use crate::text::joined;
use vstd::prelude::*;

verus! {

/// Bits that stand for no number: all bits of the exponent are set, and some of the fraction.
pub open spec fn is_nan(bits: u32) -> bool {
    0x7f80_0000 < bits < 0x8000_0000 || 0xff80_0000 < bits
}

/// Bits that stand for zero, of either sign.
pub open spec fn is_zero(bits: u32) -> bool {
    bits == 0 || bits == 0x8000_0000
}

/// Whether bits stand for the same coordinate: they are the same, or both stand for no number, or
/// both for zero.
pub open spec fn same_coordinate(a: u32, b: u32) -> bool {
    a == b || (is_nan(a) && is_nan(b)) || (is_zero(a) && is_zero(b))
}

/// Whether positions are the same, coordinate by coordinate.
pub open spec fn same_position(a: MarkerPosition, b: MarkerPosition) -> bool {
    same_coordinate(a.x, b.x) && same_coordinate(a.y, b.y) && same_coordinate(a.z, b.z)
}

/// Whether entries are the same: marker, id and position are.
pub open spec fn same_entry(a: MarkerEntryView, b: MarkerEntryView) -> bool {
    a.marker == b.marker && a.id == b.id && same_position(a.position, b.position)
}

/// Two coordinates are taken for the same just where their bits stand for the same one.
pub proof fn law_same_coordinates(a: u32, b: u32)
    ensures
        canonical(a) == canonical(b) <==> same_coordinate(a, b),
{
}

/// Two positions are taken for the same just where each of their coordinates is.
pub proof fn law_same_positions(a: MarkerPosition, b: MarkerPosition)
    ensures
        a.canon() == b.canon() <==> same_position(a, b),
{
    law_same_coordinates(a.x, b.x);
    law_same_coordinates(a.y, b.y);
    law_same_coordinates(a.z, b.z);
}

/// Two entries are taken for the same just where marker, id and position are.
pub proof fn law_same_entries(a: MarkerEntryView, b: MarkerEntryView)
    ensures
        a.canon() == b.canon() <==> same_entry(a, b),
{
    law_same_positions(a.position, b.position);
}

/// Two sets are taken for the same just where everything that they hold is: the switch, the texts,
/// the map, the trigger, the entries one by one, and where they were found.
pub proof fn law_same_sets(a: MarkerSetView, b: MarkerSetView)
    ensures
        a.canon() == b.canon() <==> {
            &&& a.enabled == b.enabled
            &&& a.category == b.category
            &&& a.author == b.author
            &&& a.name == b.name
            &&& a.description == b.description
            &&& a.map_id == b.map_id
            &&& same_position(a.trigger, b.trigger)
            &&& a.markers.len() == b.markers.len()
            &&& forall|i: int|
                0 <= i < a.markers.len() ==> same_entry(#[trigger] a.markers[i], b.markers[i])
            &&& a.path == b.path
            &&& a.idx == b.idx
        },
{
    law_same_positions(a.trigger, b.trigger);
    let x = a.canon().markers;
    let y = b.canon().markers;
    assert(x.len() == a.markers.len());
    assert(y.len() == b.markers.len());
    if a.canon() == b.canon() {
        assert forall|i: int| 0 <= i < a.markers.len() implies same_entry(
            #[trigger] a.markers[i],
            b.markers[i],
        ) by {
            law_same_entries(a.markers[i], b.markers[i]);
            assert(x[i] == a.markers[i].canon());
            assert(y[i] == b.markers[i].canon());
        }
    }
    if a.markers.len() == b.markers.len() && forall|i: int|
        0 <= i < a.markers.len() ==> same_entry(#[trigger] a.markers[i], b.markers[i]) {
        assert forall|i: int| 0 <= i < x.len() implies x[i] == y[i] by {
            law_same_entries(a.markers[i], b.markers[i]);
            assert(x[i] == a.markers[i].canon());
            assert(y[i] == b.markers[i].canon());
        }
        assert(x =~= y);
    }
}

proof fn lemma_joined_in_front(first: Seq<char>, rest: Seq<Seq<char>>, sep: Seq<char>, n: nat)
    requires
        1 <= n <= rest.len(),
    ensures
        joined(seq![first] + rest, sep, n + 1) == first + sep + joined(rest, sep, n),
    decreases n,
{
    let all = seq![first] + rest;
    assert(all[n as int] == rest[n - 1]);
    assert(all[0] == first);
    if n == 1 {
        assert(joined(all, sep, 1) == first);
        assert(joined(all, sep, 2) =~= first + sep + rest[0]);
    } else {
        lemma_joined_in_front(first, rest, sep, (n - 1) as nat);
        assert(joined(all, sep, n + 1) =~= first + sep + joined(rest, sep, n));
    }
}

/// A text put in front of others stands there with the separator between; a text alone stands as it
/// is, and no texts make an empty one.
pub proof fn law_texts_are_joined(first: Seq<char>, rest: Seq<Seq<char>>, sep: Seq<char>)
    ensures
        joined(seq![first] + rest, sep, rest.len() + 1) == (if rest.len() == 0 {
            first
        } else {
            first + sep + joined(rest, sep, rest.len())
        }),
        joined(rest, sep, 0) == Seq::<char>::empty(),
{
    if rest.len() > 0 {
        lemma_joined_in_front(first, rest, sep, rest.len());
    }
}

/// What identifies a set is its category, then its author, then its description, then its name,
/// those that are there, with slashes between them: what comes first stands before what identifies
/// the set without it.
pub proof fn law_what_identifies_a_set(set: MarkerSetView)
    ensures
        ({
            let bare = MarkerSetView { category: None, ..set };
            let anonymous = MarkerSetView { author: None, ..bare };
            let brief = MarkerSetView { description: Seq::empty(), ..anonymous };
            let before = |first: Seq<char>, rest: Seq<char>, alone: bool|
                if alone {
                    first
                } else {
                    first + "/"@ + rest
                };
            let nameless = set.name.len() == 0;
            let untold = nameless && set.description.len() == 0;
            &&& set.id() == if set.category is Some {
                before(set.category->0, bare.id(), untold && set.author is None)
            } else {
                bare.id()
            }
            &&& bare.id() == if set.author is Some {
                before(set.author->0, anonymous.id(), untold)
            } else {
                anonymous.id()
            }
            &&& anonymous.id() == if set.description.len() > 0 {
                before(set.description, brief.id(), nameless)
            } else {
                brief.id()
            }
            &&& brief.id() == set.name
        }),
{
    let bare = MarkerSetView { category: None, ..set };
    let anonymous = MarkerSetView { author: None, ..bare };
    let brief = MarkerSetView { description: Seq::empty(), ..anonymous };
    let sep = "/"@;
    if set.category is Some {
        assert(set.id_pieces() =~= seq![set.category->0] + bare.id_pieces());
        law_texts_are_joined(set.category->0, bare.id_pieces(), sep);
    } else {
        assert(set.id_pieces() =~= bare.id_pieces());
    }
    if set.author is Some {
        assert(bare.id_pieces() =~= seq![set.author->0] + anonymous.id_pieces());
        law_texts_are_joined(set.author->0, anonymous.id_pieces(), sep);
    } else {
        assert(bare.id_pieces() =~= anonymous.id_pieces());
    }
    if set.description.len() > 0 {
        assert(anonymous.id_pieces() =~= seq![set.description] + brief.id_pieces());
        law_texts_are_joined(set.description, brief.id_pieces(), sep);
    } else {
        assert(anonymous.id_pieces() =~= brief.id_pieces());
    }
    if set.name.len() > 0 {
        assert(brief.id_pieces() =~= seq![set.name]);
        assert(joined(seq![set.name], sep, 1) == set.name);
    } else {
        assert(brief.id_pieces() =~= Seq::empty());
        assert(brief.id() =~= set.name);
    }
}

/// A set is on where the settings say so of it; where they do not know it or cannot be read, its
/// own switch counts. What they say of other sets makes no difference.
pub proof fn law_when_a_set_is_on(
    set: MarkerSetView,
    settings: Map<Seq<char>, MarkerSettings>,
    other: Map<Seq<char>, MarkerSettings>,
)
    ensures
        set.status(None) == set.enabled,
        !settings.contains_key(set.id()) ==> set.status(Some(settings)) == set.enabled,
        settings.contains_key(set.id()) ==> set.status(Some(settings))
            == !settings[set.id()].disabled,
        settings.contains_key(set.id()) == other.contains_key(set.id()) && (
        settings.contains_key(set.id()) ==> settings[set.id()] == other[set.id()])
            ==> set.status(Some(settings)) == set.status(Some(other)),
{
}

/// What a set is shown as begins with its name, and names its author on a line of its own, where it
/// has one.
pub proof fn law_shown_with_its_author(set: &MarkerSet, text: String)
    requires
        call_ensures(MarkerSet::combined, (set,), text),
    ensures
        set.author is Some ==> text@ == set.name@ + "\nAuthor: "@ + set.author->0@,
        set.author is None ==> text@ == set.name@ + "\nUnknown Author"@,
{
}

/// Switching a marker set off, on or over does so, and tells whether it is off where it tells.
pub proof fn law_switches_of_sets()
    ensures
        forall|s: &mut MarkerSettings| #[trigger]
            call_ensures(MarkerSettings::disable, (s,), ()) ==> final(s).disabled,
        forall|s: &mut MarkerSettings| #[trigger]
            call_ensures(MarkerSettings::enable, (s,), ()) ==> !final(s).disabled,
        forall|s: &mut MarkerSettings, off: bool| #[trigger]
            call_ensures(MarkerSettings::toggle, (s,), off) ==> final(s).disabled != s.disabled
                && off == final(s).disabled,
{
}

/// What a set holds is what its parts hold: nothing of it is left out or told otherwise.
pub proof fn law_sets_are_seen_in_full(set: MarkerSet)
    ensures
        set@.enabled == set.enabled,
        set@.category is Some <==> set.category is Some,
        set.category matches Some(c) ==> set@.category->0 == c@,
        set@.author is Some <==> set.author is Some,
        set.author matches Some(a) ==> set@.author->0 == a@,
        set@.name == set.name@,
        set@.description == set.description@,
        set@.map_id == set.map_id,
        set@.trigger == set.trigger,
        set@.path is Some <==> set.path is Some,
        set.path matches Some(p) ==> set@.path->0 == p@,
        set@.idx == set.idx,
        set@.markers.len() == set.markers@.len(),
        forall|i: int|
            0 <= i < set.markers@.len() ==> {
                let seen = #[trigger] set@.markers[i];
                let held = set.markers@[i];
                &&& seen.marker == held.marker
                &&& seen.position == held.position
                &&& seen.id is Some <==> held.id is Some
                &&& held.id matches Some(id) ==> seen.id->0 == id@
            },
{
}

} // verus!

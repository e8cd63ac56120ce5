//! Marker sets: what they hold, when two of them are the same, and how they are shown.
use crate::marker_type::MarkerType;
use crate::name_map::NameMap;
#[allow(unused_imports)]
use crate::text::{join_with, joined, opt_eq};
use vstd::prelude::*;
#[allow(unused_imports)]
use vstd::string::*;

verus! {

/// A position in file coordinates, whose third axis points up.
///
/// Each coordinate is the bit pattern of a single-precision number.
#[derive(Clone, Copy, PartialEq, Eq, Structural, Hash, Debug)]
pub struct MarkerPosition {
    pub x: u32,
    pub y: u32,
    pub z: u32,
}

/// A position in the game's local coordinates, whose second axis points up.
///
/// Each coordinate is the bit pattern of a single-precision number.
#[derive(Clone, Copy, PartialEq, Eq, Structural, Hash, Debug)]
pub struct LocalPoint {
    pub x: u32,
    pub y: u32,
    pub z: u32,
}

/// The bit pattern of a number without its sign.
pub open spec fn magnitude(bits: u32) -> int {
    bits as int % 0x8000_0000
}

/// The pattern that stands for all patterns which compare equal to the given one:
/// every not-a-number equals every other, and both zeros are equal.
pub open spec fn canonical(bits: u32) -> u32 {
    if magnitude(bits) > 0x7f80_0000 {
        0x7fc0_0000
    } else if magnitude(bits) == 0 {
        0
    } else {
        bits
    }
}

fn canonical_bits(bits: u32) -> (r: u32)
    ensures
        r == canonical(bits),
{
    let m: u32 = bits % 0x8000_0000;
    if m > 0x7f80_0000 {
        0x7fc0_0000
    } else if m == 0 {
        0
    } else {
        bits
    }
}

impl MarkerPosition {
    /// The position that stands for all positions equal to this one.
    pub open spec fn canon(self) -> MarkerPosition {
        MarkerPosition { x: canonical(self.x), y: canonical(self.y), z: canonical(self.z) }
    }

    /// The same place in local coordinates.
    pub open spec fn local(self) -> LocalPoint {
        LocalPoint { x: self.x, y: self.z, z: self.y }
    }

    /// The same place in local coordinates: the last two coordinates change places.
    pub fn to_local(&self) -> (r: LocalPoint)
        ensures
            r == self.local(),
    {
        LocalPoint { x: self.x, y: self.z, z: self.y }
    }

    /// The file coordinates of a place in local coordinates.
    pub open spec fn of_local(p: LocalPoint) -> MarkerPosition {
        MarkerPosition { x: p.x, y: p.z, z: p.y }
    }

    /// The file coordinates of a place in local coordinates: the last two coordinates change
    /// places.
    pub fn from_local(p: LocalPoint) -> (r: MarkerPosition)
        ensures
            r == MarkerPosition::of_local(p),
    {
        MarkerPosition { x: p.x, y: p.z, z: p.y }
    }

    /// Whether two positions are equal, coordinate by coordinate.
    pub fn same(&self, other: &MarkerPosition) -> (r: bool)
        ensures
            r == (self.canon() == other.canon()),
    {
        canonical_bits(self.x) == canonical_bits(other.x) && canonical_bits(self.y)
            == canonical_bits(other.y) && canonical_bits(self.z) == canonical_bits(other.z)
    }
}

impl From<MarkerPosition> for LocalPoint {
    fn from(p: MarkerPosition) -> (r: LocalPoint) {
        p.to_local()
    }
}

impl vstd::std_specs::convert::FromSpecImpl<MarkerPosition> for LocalPoint {
    open spec fn obeys_from_spec() -> bool {
        true
    }

    open spec fn from_spec(p: MarkerPosition) -> LocalPoint {
        p.local()
    }
}

impl From<LocalPoint> for MarkerPosition {
    fn from(p: LocalPoint) -> (r: MarkerPosition) {
        MarkerPosition::from_local(p)
    }
}

impl vstd::std_specs::convert::FromSpecImpl<LocalPoint> for MarkerPosition {
    open spec fn obeys_from_spec() -> bool {
        true
    }

    open spec fn from_spec(p: LocalPoint) -> MarkerPosition {
        MarkerPosition::of_local(p)
    }
}

/// The two conversions undo each other, bit by bit; the last two coordinates change places.
pub proof fn law_conversions_undo_each_other(p: MarkerPosition, q: LocalPoint)
    ensures
        MarkerPosition::of_local(p.local()) == p,
        MarkerPosition::of_local(q).local() == q,
        p.local().x == p.x && p.local().y == p.z && p.local().z == p.y,
{
}

/// One marker of a set and where it goes.
pub struct MarkerEntry {
    pub marker: MarkerType,
    pub id: Option<String>,
    pub position: MarkerPosition,
}

/// The contents of a [`MarkerEntry`].
#[verifier::ext_equal]
pub struct MarkerEntryView {
    pub marker: MarkerType,
    pub id: Option<Seq<char>>,
    pub position: MarkerPosition,
}

impl MarkerEntryView {
    /// The entry that stands for all entries equal to this one.
    pub open spec fn canon(self) -> MarkerEntryView {
        MarkerEntryView { position: self.position.canon(), ..self }
    }
}

impl View for MarkerEntry {
    type V = MarkerEntryView;

    open spec fn view(&self) -> MarkerEntryView {
        MarkerEntryView { marker: self.marker, id: self.id.deep_view(), position: self.position }
    }
}

impl DeepView for MarkerEntry {
    type V = MarkerEntryView;

    open spec fn deep_view(&self) -> MarkerEntryView {
        self.view()
    }
}

impl Clone for MarkerEntry {
    fn clone(&self) -> (r: MarkerEntry)
        ensures
            r@ == self@,
    {
        MarkerEntry { marker: self.marker, id: self.id.clone(), position: self.position }
    }
}

impl MarkerEntry {
    /// Whether two entries are equal.
    pub fn same(&self, other: &MarkerEntry) -> (r: bool)
        ensures
            r == (self@.canon() == other@.canon()),
    {
        self.marker == other.marker && opt_eq(&self.id, &other.id) && self.position.same(
            &other.position,
        )
    }
}

/// A named set of markers for one map.
pub struct MarkerSet {
    pub enabled: bool,
    pub category: Option<String>,
    pub author: Option<String>,
    pub name: String,
    pub description: String,
    pub map_id: u32,
    pub trigger: MarkerPosition,
    pub markers: Vec<MarkerEntry>,
    /// The file that the set came from.
    pub path: Option<String>,
    /// The place of the set in its list within the file.
    pub idx: Option<usize>,
}

/// The contents of a [`MarkerSet`].
#[verifier::ext_equal]
pub struct MarkerSetView {
    pub enabled: bool,
    pub category: Option<Seq<char>>,
    pub author: Option<Seq<char>>,
    pub name: Seq<char>,
    pub description: Seq<char>,
    pub map_id: u32,
    pub trigger: MarkerPosition,
    pub markers: Seq<MarkerEntryView>,
    pub path: Option<Seq<char>>,
    pub idx: Option<usize>,
}

impl View for MarkerSet {
    type V = MarkerSetView;

    open spec fn view(&self) -> MarkerSetView {
        MarkerSetView {
            enabled: self.enabled,
            category: self.category.deep_view(),
            author: self.author.deep_view(),
            name: self.name@,
            description: self.description@,
            map_id: self.map_id,
            trigger: self.trigger,
            markers: self.markers.deep_view(),
            path: self.path.deep_view(),
            idx: self.idx,
        }
    }
}

impl DeepView for MarkerSet {
    type V = MarkerSetView;

    open spec fn deep_view(&self) -> MarkerSetView {
        self.view()
    }
}

/// The value of a marker set in the settings.
#[derive(Clone, Copy, PartialEq, Eq, Structural, Debug)]
pub struct MarkerSettings {
    pub disabled: bool,
}

impl Default for MarkerSettings {
    fn default() -> (r: MarkerSettings)
        ensures
            !r.disabled,
    {
        MarkerSettings { disabled: false }
    }
}

impl MarkerSettings {
    /// Switches the marker set off.
    pub fn disable(&mut self)
        ensures
            *final(self) == (MarkerSettings { disabled: true }),
    {
        self.disabled = true;
    }

    /// Switches the marker set on.
    pub fn enable(&mut self)
        ensures
            *final(self) == (MarkerSettings { disabled: false }),
    {
        self.disabled = false;
    }

    /// Switches the marker set over, and tells whether it is off now.
    pub fn toggle(&mut self) -> (r: bool)
        ensures
            *final(self) == (MarkerSettings { disabled: !old(self).disabled }),
            r == final(self).disabled,
    {
        self.disabled = !self.disabled;
        self.disabled
    }
}

impl MarkerSetView {
    /// The set that stands for all sets equal to this one.
    pub open spec fn canon(self) -> MarkerSetView {
        MarkerSetView {
            trigger: self.trigger.canon(),
            markers: self.markers.map_values(|e: MarkerEntryView| e.canon()),
            ..self
        }
    }

    /// What identifies the set to a user: category, author, description and name,
    /// those that are there.
    pub open spec fn id_pieces(self) -> Seq<Seq<char>> {
        (match self.category {
            Some(c) => seq![c],
            None => Seq::empty(),
        }) + (match self.author {
            Some(a) => seq![a],
            None => Seq::empty(),
        }) + (if self.description.len() > 0 {
            seq![self.description]
        } else {
            Seq::empty()
        }) + (if self.name.len() > 0 {
            seq![self.name]
        } else {
            Seq::empty()
        })
    }

    /// The key of the set in the settings.
    pub open spec fn id(self) -> Seq<char> {
        joined(self.id_pieces(), "/"@, self.id_pieces().len())
    }

    /// Whether the set is switched on, given the settings when they can be read.
    pub open spec fn status(self, settings: Option<Map<Seq<char>, MarkerSettings>>) -> bool {
        match settings {
            Some(m) => if m.contains_key(self.id()) {
                !m[self.id()].disabled
            } else {
                self.enabled
            },
            None => self.enabled,
        }
    }
}

impl Clone for MarkerSet {
    fn clone(&self) -> (r: MarkerSet)
        ensures
            r@ == self@,
    {
        let markers = self.markers.clone();
        proof {
            assert forall|i: int| 0 <= i < markers@.len() implies markers.deep_view()[i]
                == self.markers.deep_view()[i] by {
                assert(cloned::<MarkerEntry>(self.markers@[i], markers@[i]));
            }
            assert(markers.deep_view() =~= self.markers.deep_view());
        }
        MarkerSet {
            enabled: self.enabled,
            category: self.category.clone(),
            author: self.author.clone(),
            name: self.name.clone(),
            description: self.description.clone(),
            map_id: self.map_id,
            trigger: self.trigger,
            markers,
            path: self.path.clone(),
            idx: self.idx,
        }
    }
}

fn same_entries(a: &Vec<MarkerEntry>, b: &Vec<MarkerEntry>) -> (r: bool)
    ensures
        r == (a.deep_view().map_values(|e: MarkerEntryView| e.canon())
            == b.deep_view().map_values(|e: MarkerEntryView| e.canon())),
{
    let ghost x = a.deep_view().map_values(|e: MarkerEntryView| e.canon());
    let ghost y = b.deep_view().map_values(|e: MarkerEntryView| e.canon());
    if a.len() != b.len() {
        assert(x.len() != y.len());
        return false;
    }
    let mut i: usize = 0;
    while i < a.len()
        invariant
            i <= a@.len(),
            a@.len() == b@.len(),
            x == a.deep_view().map_values(|e: MarkerEntryView| e.canon()),
            y == b.deep_view().map_values(|e: MarkerEntryView| e.canon()),
            forall|j: int| 0 <= j < i ==> x[j] == y[j],
        decreases a@.len() - i,
    {
        if !a[i].same(&b[i]) {
            assert(x[i as int] != y[i as int]);
            return false;
        }
        i += 1;
    }
    assert(x =~= y);
    true
}

impl MarkerSet {
    /// Whether two sets are equal. Files are compared by the texts of their paths.
    pub fn same(&self, other: &MarkerSet) -> (r: bool)
        ensures
            r == (self@.canon() == other@.canon()),
    {
        self.enabled == other.enabled && opt_eq(&self.category, &other.category) && opt_eq(
            &self.author,
            &other.author,
        ) && self.name == other.name && self.description == other.description && self.map_id
            == other.map_id && self.trigger.same(&other.trigger) && same_entries(
            &self.markers,
            &other.markers,
        ) && opt_eq(&self.path, &other.path) && self.idx == other.idx
    }

    /// The key of this set in the settings: category, author, description and name,
    /// those that are there, with slashes between them.
    pub fn id(&self) -> (r: String)
        ensures
            r@ == self@.id(),
    {
        let mut pieces: Vec<String> = Vec::new();
        if let Some(category) = &self.category {
            pieces.push(category.clone());
        }
        if let Some(author) = &self.author {
            pieces.push(author.clone());
        }
        if !self.description.as_str().is_empty() {
            pieces.push(self.description.clone());
        }
        if !self.name.as_str().is_empty() {
            pieces.push(self.name.clone());
        }
        assert(pieces.deep_view() =~= self@.id_pieces());
        join_with(&pieces, "/")
    }

    /// Whether this set is switched on. The settings decide where they can be read and
    /// know the set; else the set's own flag does.
    pub fn status(&self, settings: Option<&NameMap<MarkerSettings>>) -> (r: bool)
        ensures
            r == self@.status(
                match settings {
                    Some(m) => Some(m@),
                    None => None,
                },
            ),
    {
        match settings {
            Some(m) => match m.get(self.id().as_str()) {
                Some(s) => !s.disabled,
                None => self.enabled,
            },
            None => self.enabled,
        }
    }

    /// The name of this set and who made it, on two lines.
    pub fn combined(&self) -> (r: String)
        ensures
            r@ == (match self.author {
                Some(a) => self.name@ + "\nAuthor: "@ + a@,
                None => self.name@ + "\nUnknown Author"@,
            }),
    {
        let mut out = self.name.clone();
        match &self.author {
            Some(a) => {
                out.append("\nAuthor: ");
                out.append(a.as_str());
            },
            None => {
                out.append("\nUnknown Author");
            },
        }
        out
    }
}

} // verus!

//! Inputs that the overlay listens to, and the game actions that it sends.
use vstd::prelude::*;

verus! {

/// Game actions on squad markers, as a host binds them to keys.
#[derive(Clone, Copy, PartialEq, Eq, Structural, Debug)]
pub enum GameBind {
    SquadMarkerPlaceWorldArrow,
    SquadMarkerPlaceWorldCircle,
    SquadMarkerPlaceWorldHeart,
    SquadMarkerPlaceWorldSquare,
    SquadMarkerPlaceWorldStar,
    SquadMarkerPlaceWorldSwirl,
    SquadMarkerPlaceWorldTriangle,
    SquadMarkerPlaceWorldCross,
    SquadMarkerClearAllWorld,
    SquadMarkerSetAgentArrow,
    SquadMarkerSetAgentCircle,
    SquadMarkerSetAgentHeart,
    SquadMarkerSetAgentSquare,
    SquadMarkerSetAgentStar,
    SquadMarkerSetAgentSwirl,
    SquadMarkerSetAgentTriangle,
    SquadMarkerSetAgentCross,
}

/// Game actions on squad markers, as the game itself names them.
#[derive(Clone, Copy, PartialEq, Eq, Structural, Debug)]
pub enum Control {
    SquadLocationArrow,
    SquadLocationCircle,
    SquadLocationHeart,
    SquadLocationSquare,
    SquadLocationStar,
    SquadLocationSpiral,
    SquadLocationTriangle,
    SquadLocationX,
    SquadClearAllLocationMarkers,
    SquadObjectArrow,
    SquadObjectCircle,
    SquadObjectHeart,
    SquadObjectSquare,
    SquadObjectStar,
    SquadObjectSpiral,
    SquadObjectTriangle,
    SquadObjectX,
    SquadClearAllObjectMarkers,
}

/// A set of inputs that the overlay listens to.
#[derive(Clone, Copy, PartialEq, Eq, Structural, Debug)]
pub struct TaimiControls {
    pub bits: u32,
}

/// Shows or hides the markers in the world.
pub const PATHING_SPACE: u32 = 0x0001;

/// Shows or hides the markers on the world map.
pub const PATHING_MAP: u32 = 0x0002;

/// Shows or hides the markers on the minimap.
pub const PATHING_MINIMAP: u32 = 0x0004;

/// Starts the timers over.
pub const TIMER_RESET: u32 = 0x0008;

/// How many triggers timers can listen to.
pub const TIMER_TRIGGER_COUNT: u32 = 10;

/// The place of the first trigger among the inputs.
pub const TIMER_TRIGGER_0_INDEX: u32 = 4;

impl TaimiControls {
    /// The inputs in this set or in another.
    pub open spec fn spec_union(self, other: TaimiControls) -> TaimiControls {
        TaimiControls { bits: self.bits | other.bits }
    }

    /// The inputs that one of the sets holds and the other does not.
    pub open spec fn spec_toggled(self, other: TaimiControls) -> TaimiControls {
        TaimiControls { bits: self.bits ^ other.bits }
    }

    /// Whether some input is in both sets.
    pub open spec fn meets(self, other: TaimiControls) -> bool {
        self.bits & other.bits != 0
    }

    /// Whether the input at a place is in this set.
    pub open spec fn has_index(self, index: u32) -> bool {
        (self.bits >> index) & 1 == 1
    }

    /// No inputs.
    pub fn empty() -> (r: TaimiControls)
        ensures
            r.bits == 0,
    {
        TaimiControls { bits: 0 }
    }

    /// The inputs in both sets.
    pub fn intersection(self, other: TaimiControls) -> (r: TaimiControls)
        ensures
            r.bits == self.bits & other.bits,
    {
        TaimiControls { bits: self.bits & other.bits }
    }

    /// The inputs in either set.
    pub fn union(self, other: TaimiControls) -> (r: TaimiControls)
        ensures
            r == self.spec_union(other),
    {
        TaimiControls { bits: self.bits | other.bits }
    }

    /// Whether some input is in both sets.
    pub fn intersects(self, other: TaimiControls) -> (r: bool)
        ensures
            r == self.meets(other),
    {
        self.bits & other.bits != 0
    }

    /// Takes out of this set what another holds of it, and puts in the rest of the other.
    pub fn toggled(self, other: TaimiControls) -> (r: TaimiControls)
        ensures
            r == self.spec_toggled(other),
    {
        TaimiControls { bits: self.bits ^ other.bits }
    }

    /// Whether the input at a place is in this set.
    pub fn contains_index(self, index: u32) -> (r: bool)
        requires
            index < 32,
        ensures
            r == self.has_index(index),
    {
        (self.bits >> index) & 1 == 1
    }
}

/// Toggling the same inputs twice restores the set.
pub proof fn law_toggled_twice(a: TaimiControls, b: TaimiControls)
    ensures
        a.spec_toggled(b).spec_toggled(b) == a,
{
    let x = a.bits;
    let y = b.bits;
    assert((x ^ y) ^ y == x) by (bit_vector);
}

} // verus!

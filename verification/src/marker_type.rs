//! The kinds of squad marker, their numbers, names and game actions.
use crate::controls::{Control, GameBind};
use vstd::pervasive::unreached;
use vstd::prelude::*;

verus! {

/// The kinds of squad marker. `ClearMarkers` removes markers; `Blank` stands for none.
#[derive(Clone, Copy, PartialEq, Eq, Structural, Hash, Debug)]
pub enum MarkerType {
    Blank,
    Arrow,
    Circle,
    Heart,
    Square,
    Star,
    Spiral,
    Triangle,
    Cross,
    ClearMarkers,
}

/// The number that stands for a marker kind in files.
pub open spec fn marker_number(m: MarkerType) -> u8 {
    match m {
        MarkerType::Blank => 0,
        MarkerType::Arrow => 1,
        MarkerType::Circle => 2,
        MarkerType::Heart => 3,
        MarkerType::Square => 4,
        MarkerType::Star => 5,
        MarkerType::Spiral => 6,
        MarkerType::Triangle => 7,
        MarkerType::Cross => 8,
        MarkerType::ClearMarkers => 9,
    }
}

impl MarkerType {
    /// The number that stands for this kind in files.
    pub fn repr(&self) -> (r: u8)
        ensures
            r == marker_number(*self),
    {
        match self {
            MarkerType::Blank => 0,
            MarkerType::Arrow => 1,
            MarkerType::Circle => 2,
            MarkerType::Heart => 3,
            MarkerType::Square => 4,
            MarkerType::Star => 5,
            MarkerType::Spiral => 6,
            MarkerType::Triangle => 7,
            MarkerType::Cross => 8,
            MarkerType::ClearMarkers => 9,
        }
    }

    /// The kind that a number stands for.
    pub fn from_repr(n: u8) -> (r: Option<MarkerType>)
        ensures
            r is Some <==> n <= 9,
            r matches Some(m) ==> marker_number(m) == n,
    {
        match n {
            0 => Some(MarkerType::Blank),
            1 => Some(MarkerType::Arrow),
            2 => Some(MarkerType::Circle),
            3 => Some(MarkerType::Heart),
            4 => Some(MarkerType::Square),
            5 => Some(MarkerType::Star),
            6 => Some(MarkerType::Spiral),
            7 => Some(MarkerType::Triangle),
            8 => Some(MarkerType::Cross),
            9 => Some(MarkerType::ClearMarkers),
            _ => None,
        }
    }

    /// The kinds that mark something, in the order of their numbers.
    pub fn iter_real_values() -> (r: Vec<MarkerType>)
        ensures
            r@ == real_marker_types(),
    {
        let mut out: Vec<MarkerType> = Vec::new();
        let mut n: u8 = 1;
        while n < 9
            invariant
                1 <= n <= 9,
                out@ == real_marker_types().take(n - 1),
            decreases 9 - n,
        {
            match MarkerType::from_repr(n) {
                Some(m) => {
                    out.push(m);
                    proof {
                        lemma_marker_number_injective(m, real_marker_types()[n - 1]);
                        assert(out@ =~= real_marker_types().take(n as int));
                    }
                },
                None => {},
            }
            n += 1;
        }
        assert(out@ =~= real_marker_types());
        out
    }

    /// The name of the kind, under which its icon is known.
    pub fn name(&self) -> (r: &'static str)
        ensures
            r@ == marker_name(*self),
    {
        match self {
            MarkerType::Blank => "Blank",
            MarkerType::Arrow => "Arrow",
            MarkerType::Circle => "Circle",
            MarkerType::Heart => "Heart",
            MarkerType::Square => "Square",
            MarkerType::Star => "Star",
            MarkerType::Spiral => "Spiral",
            MarkerType::Triangle => "Triangle",
            MarkerType::Cross => "Cross",
            MarkerType::ClearMarkers => "ClearMarkers",
        }
    }

    /// The bind that puts this marker on the ground. `Blank` has none.
    pub fn to_place_world_gamebind(&self) -> (r: GameBind)
        requires
            *self != MarkerType::Blank,
        ensures
            place_world_bind(*self) == Some(r),
    {
        match self {
            MarkerType::Blank => unreached(),
            MarkerType::ClearMarkers => GameBind::SquadMarkerClearAllWorld,
            MarkerType::Arrow => GameBind::SquadMarkerPlaceWorldArrow,
            MarkerType::Circle => GameBind::SquadMarkerPlaceWorldCircle,
            MarkerType::Heart => GameBind::SquadMarkerPlaceWorldHeart,
            MarkerType::Square => GameBind::SquadMarkerPlaceWorldSquare,
            MarkerType::Star => GameBind::SquadMarkerPlaceWorldStar,
            MarkerType::Spiral => GameBind::SquadMarkerPlaceWorldSwirl,
            MarkerType::Triangle => GameBind::SquadMarkerPlaceWorldTriangle,
            MarkerType::Cross => GameBind::SquadMarkerPlaceWorldCross,
        }
    }

    /// The bind that puts this marker on a target. `Blank` has none.
    pub fn to_set_agent_gamebind(&self) -> (r: GameBind)
        requires
            *self != MarkerType::Blank,
        ensures
            set_agent_bind(*self) == Some(r),
    {
        match self {
            MarkerType::Blank => unreached(),
            MarkerType::ClearMarkers => GameBind::SquadMarkerClearAllWorld,
            MarkerType::Arrow => GameBind::SquadMarkerSetAgentArrow,
            MarkerType::Circle => GameBind::SquadMarkerSetAgentCircle,
            MarkerType::Heart => GameBind::SquadMarkerSetAgentHeart,
            MarkerType::Square => GameBind::SquadMarkerSetAgentSquare,
            MarkerType::Star => GameBind::SquadMarkerSetAgentStar,
            MarkerType::Spiral => GameBind::SquadMarkerSetAgentSwirl,
            MarkerType::Triangle => GameBind::SquadMarkerSetAgentTriangle,
            MarkerType::Cross => GameBind::SquadMarkerSetAgentCross,
        }
    }

    /// The control that puts this marker on the ground. `Blank` has none.
    pub fn control_location(&self) -> (r: Control)
        requires
            *self != MarkerType::Blank,
        ensures
            location_control(*self) == Some(r),
    {
        match self {
            MarkerType::Blank => unreached(),
            MarkerType::ClearMarkers => Control::SquadClearAllLocationMarkers,
            MarkerType::Arrow => Control::SquadLocationArrow,
            MarkerType::Circle => Control::SquadLocationCircle,
            MarkerType::Heart => Control::SquadLocationHeart,
            MarkerType::Square => Control::SquadLocationSquare,
            MarkerType::Star => Control::SquadLocationStar,
            MarkerType::Spiral => Control::SquadLocationSpiral,
            MarkerType::Triangle => Control::SquadLocationTriangle,
            MarkerType::Cross => Control::SquadLocationX,
        }
    }

    /// The control that puts this marker on a target. `Blank` has none.
    pub fn control_object(&self) -> (r: Control)
        requires
            *self != MarkerType::Blank,
        ensures
            object_control(*self) == Some(r),
    {
        match self {
            MarkerType::Blank => unreached(),
            MarkerType::ClearMarkers => Control::SquadClearAllObjectMarkers,
            MarkerType::Arrow => Control::SquadObjectArrow,
            MarkerType::Circle => Control::SquadObjectCircle,
            MarkerType::Heart => Control::SquadObjectHeart,
            MarkerType::Square => Control::SquadObjectSquare,
            MarkerType::Star => Control::SquadObjectStar,
            MarkerType::Spiral => Control::SquadObjectSpiral,
            MarkerType::Triangle => Control::SquadObjectTriangle,
            MarkerType::Cross => Control::SquadObjectX,
        }
    }
}

/// The kinds that mark something, in the order of their numbers.
pub open spec fn real_marker_types() -> Seq<MarkerType> {
    seq![
        MarkerType::Arrow,
        MarkerType::Circle,
        MarkerType::Heart,
        MarkerType::Square,
        MarkerType::Star,
        MarkerType::Spiral,
        MarkerType::Triangle,
        MarkerType::Cross,
    ]
}

/// The name of a marker kind.
pub open spec fn marker_name(m: MarkerType) -> Seq<char> {
    match m {
        MarkerType::Blank => "Blank"@,
        MarkerType::Arrow => "Arrow"@,
        MarkerType::Circle => "Circle"@,
        MarkerType::Heart => "Heart"@,
        MarkerType::Square => "Square"@,
        MarkerType::Star => "Star"@,
        MarkerType::Spiral => "Spiral"@,
        MarkerType::Triangle => "Triangle"@,
        MarkerType::Cross => "Cross"@,
        MarkerType::ClearMarkers => "ClearMarkers"@,
    }
}

/// The bind that puts a marker on the ground.
pub open spec fn place_world_bind(m: MarkerType) -> Option<GameBind> {
    match m {
        MarkerType::Blank => None,
        MarkerType::Arrow => Some(GameBind::SquadMarkerPlaceWorldArrow),
        MarkerType::Circle => Some(GameBind::SquadMarkerPlaceWorldCircle),
        MarkerType::Heart => Some(GameBind::SquadMarkerPlaceWorldHeart),
        MarkerType::Square => Some(GameBind::SquadMarkerPlaceWorldSquare),
        MarkerType::Star => Some(GameBind::SquadMarkerPlaceWorldStar),
        MarkerType::Spiral => Some(GameBind::SquadMarkerPlaceWorldSwirl),
        MarkerType::Triangle => Some(GameBind::SquadMarkerPlaceWorldTriangle),
        MarkerType::Cross => Some(GameBind::SquadMarkerPlaceWorldCross),
        MarkerType::ClearMarkers => Some(GameBind::SquadMarkerClearAllWorld),
    }
}

/// The bind that puts a marker on a target.
pub open spec fn set_agent_bind(m: MarkerType) -> Option<GameBind> {
    match m {
        MarkerType::Blank => None,
        MarkerType::Arrow => Some(GameBind::SquadMarkerSetAgentArrow),
        MarkerType::Circle => Some(GameBind::SquadMarkerSetAgentCircle),
        MarkerType::Heart => Some(GameBind::SquadMarkerSetAgentHeart),
        MarkerType::Square => Some(GameBind::SquadMarkerSetAgentSquare),
        MarkerType::Star => Some(GameBind::SquadMarkerSetAgentStar),
        MarkerType::Spiral => Some(GameBind::SquadMarkerSetAgentSwirl),
        MarkerType::Triangle => Some(GameBind::SquadMarkerSetAgentTriangle),
        MarkerType::Cross => Some(GameBind::SquadMarkerSetAgentCross),
        MarkerType::ClearMarkers => Some(GameBind::SquadMarkerClearAllWorld),
    }
}

/// The control that puts a marker on the ground.
pub open spec fn location_control(m: MarkerType) -> Option<Control> {
    match m {
        MarkerType::Blank => None,
        MarkerType::Arrow => Some(Control::SquadLocationArrow),
        MarkerType::Circle => Some(Control::SquadLocationCircle),
        MarkerType::Heart => Some(Control::SquadLocationHeart),
        MarkerType::Square => Some(Control::SquadLocationSquare),
        MarkerType::Star => Some(Control::SquadLocationStar),
        MarkerType::Spiral => Some(Control::SquadLocationSpiral),
        MarkerType::Triangle => Some(Control::SquadLocationTriangle),
        MarkerType::Cross => Some(Control::SquadLocationX),
        MarkerType::ClearMarkers => Some(Control::SquadClearAllLocationMarkers),
    }
}

/// The control that puts a marker on a target.
pub open spec fn object_control(m: MarkerType) -> Option<Control> {
    match m {
        MarkerType::Blank => None,
        MarkerType::Arrow => Some(Control::SquadObjectArrow),
        MarkerType::Circle => Some(Control::SquadObjectCircle),
        MarkerType::Heart => Some(Control::SquadObjectHeart),
        MarkerType::Square => Some(Control::SquadObjectSquare),
        MarkerType::Star => Some(Control::SquadObjectStar),
        MarkerType::Spiral => Some(Control::SquadObjectSpiral),
        MarkerType::Triangle => Some(Control::SquadObjectTriangle),
        MarkerType::Cross => Some(Control::SquadObjectX),
        MarkerType::ClearMarkers => Some(Control::SquadClearAllObjectMarkers),
    }
}

/// No two marker kinds share a number.
pub proof fn lemma_marker_number_injective(a: MarkerType, b: MarkerType)
    requires
        marker_number(a) == marker_number(b),
    ensures
        a == b,
{
}

/// No two markers are put on the ground by the same bind or the same control.
pub proof fn law_ground_actions_distinct(a: MarkerType, b: MarkerType)
    requires
        a != b,
        a != MarkerType::Blank,
        b != MarkerType::Blank,
    ensures
        place_world_bind(a) != place_world_bind(b),
        location_control(a) != location_control(b),
{
}

/// No two markers are put on a target by the same bind or the same control.
pub proof fn law_target_actions_distinct(a: MarkerType, b: MarkerType)
    requires
        a != b,
        a != MarkerType::Blank,
        b != MarkerType::Blank,
    ensures
        set_agent_bind(a) != set_agent_bind(b),
        object_control(a) != object_control(b),
{
}

} // verus!

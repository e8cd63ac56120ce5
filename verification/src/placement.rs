//! Placing a set of markers in the world, one after the other.
//!
//! Placing needs the mouse, the keyboard and the map. Here it is only decided what to do next,
//! given what came of the step before.
use crate::controller::markers::MarkersController;
use vstd::prelude::*;
use vstd::string::*;

verus! {

/// How long a key is held to place a marker, in milliseconds.
pub const KEY_INVOKE_DURATION: u64 = 50;

/// How long to wait between markers, and before the cursor is put back, in milliseconds.
pub const PLACEMENT_WAIT: u64 = 50;

/// How long to wait around each input of a drag, in milliseconds.
pub const DRAG_WAIT: u64 = 10;

/// How many times the map is dragged toward one marker.
pub const MAX_DRAGS: u32 = 10;

/// Why markers could not be placed.
#[derive(Clone, Copy, PartialEq, Eq, Structural, Debug)]
pub enum PlacementError {
    TooFar,
    CursorUnknown,
    DragFailed,
    Unreachable,
    RestoreFailed,
}

impl PlacementError {
    /// Whether the user is told.
    pub fn is_reported(&self) -> (r: bool)
        ensures
            r == (self is TooFar || self is Unreachable),
    {
        match self {
            PlacementError::TooFar | PlacementError::Unreachable => true,
            _ => false,
        }
    }

    /// What went wrong, given what the failing input said.
    pub fn message(&self, cause: &str) -> (r: String)
        ensures
            r@ == (match self {
                PlacementError::TooFar =>
                    "Player is too far away from the markers they are trying to place."@,
                PlacementError::CursorUnknown => "Getting cursor pos: "@ + cause@,
                PlacementError::DragFailed => "mouse drag failed: "@ + cause@,
                PlacementError::Unreachable =>
                    "Could not drag map perspective to marker location!"@,
                PlacementError::RestoreFailed => "Failed to restore original cursor position: "@
                    + cause@,
            }),
    {
        match self {
            PlacementError::TooFar =>
                "Player is too far away from the markers they are trying to place.".to_owned(),
            PlacementError::CursorUnknown => "Getting cursor pos: ".to_owned().concat(cause),
            PlacementError::DragFailed => "mouse drag failed: ".to_owned().concat(cause),
            PlacementError::Unreachable =>
                "Could not drag map perspective to marker location!".to_owned(),
            PlacementError::RestoreFailed => "Failed to restore original cursor position: "
                .to_owned().concat(cause),
        }
    }
}

/// The heading under which the user is told that a set could not be placed.
pub fn error_title(set_name: &str) -> (r: String)
    ensures
        r@ == "Error setting marker set: "@ + set_name@,
{
    "Error setting marker set: ".to_owned().concat(set_name)
}

/// How far placing has come.
#[derive(Clone, Copy, PartialEq, Eq, Structural, Debug)]
pub enum Phase {
    /// Finding out where the cursor is.
    Cursor,
    /// Finding out where a marker is on the screen.
    Locating(usize),
    /// Placing a marker that is on the screen.
    Placing(usize),
    /// Finding out how far the map's centre is from a marker.
    Centring(usize),
    /// Dragging the map toward a marker, after so many attempts.
    Dragging(usize, u32),
    /// Placing a marker that the map was dragged to.
    PlacingFromMap(usize),
    /// Putting the cursor back.
    Restoring,
    Done,
    Failed(PlacementError),
}

/// What to do next.
#[derive(Clone, Copy, PartialEq, Eq, Structural, Debug)]
pub enum PlacementAction {
    ReadCursor,
    /// Wait, then find out where a marker is on the screen.
    Locate { marker: usize, wait: u64 },
    Place { marker: usize },
    ReadCentre { marker: usize },
    /// Drag the map toward a marker, then wait.
    Drag { marker: usize, wait: u64 },
    PlaceFromMap { marker: usize },
    /// Wait, then put the cursor back.
    RestoreCursor { wait: u64 },
    Finish,
    Fail { error: PlacementError },
}

/// Where a marker is.
#[derive(Clone, Copy, PartialEq, Eq, Structural, Debug)]
pub enum Location {
    OnScreen,
    OffScreen,
    /// There is no map to tell by.
    Unknown,
}

/// What came of dragging the map.
#[derive(Clone, Copy, PartialEq, Eq, Structural, Debug)]
pub enum DragOutcome {
    /// There was no map to drag.
    NoMap,
    /// The map was dragged; its centre had been far from the marker, or not.
    Dragged { was_far: bool },
    Failed,
}

/// What came of the last action.
#[derive(Clone, Copy, PartialEq, Eq, Structural, Debug)]
pub enum PlacementEvent {
    CursorRead(bool),
    Located(Location),
    Placed,
    /// Whether the map's centre is far from the marker, where there is a map.
    CentreRead(Option<bool>),
    DragEnded(DragOutcome),
    CursorRestored(bool),
}

/// A run through a set of markers.
#[derive(Clone, Copy, PartialEq, Eq, Structural, Debug)]
pub struct Placement {
    pub count: usize,
    pub phase: Phase,
}

/// Going on to the marker at a place in the set, or putting the cursor back behind the last.
pub open spec fn go_on(marker: int, wait: u64, count: usize) -> (Phase, PlacementAction) {
    if marker < count {
        (
            Phase::Locating(marker as usize),
            PlacementAction::Locate { marker: marker as usize, wait },
        )
    } else {
        (Phase::Restoring, PlacementAction::RestoreCursor { wait: PLACEMENT_WAIT })
    }
}

/// Going toward a marker that is off the screen, after so many attempts.
pub open spec fn approach(marker: usize, attempts: u32, far: bool) -> (Phase, PlacementAction) {
    if !far {
        (Phase::PlacingFromMap(marker), PlacementAction::PlaceFromMap { marker })
    } else if attempts < MAX_DRAGS {
        (
            Phase::Dragging(marker, attempts),
            PlacementAction::Drag { marker, wait: PLACEMENT_WAIT },
        )
    } else {
        fail(PlacementError::Unreachable)
    }
}

/// Giving up.
pub open spec fn fail(error: PlacementError) -> (Phase, PlacementAction) {
    (Phase::Failed(error), PlacementAction::Fail { error })
}

impl Placement {
    /// The marker in hand is one of the set, and the map was not dragged too often.
    pub open spec fn wf(self) -> bool {
        match self.phase {
            Phase::Locating(i) | Phase::Placing(i) | Phase::Centring(i) | Phase::PlacingFromMap(i) => i
                < self.count,
            Phase::Dragging(i, attempts) => i < self.count && attempts < MAX_DRAGS,
            _ => true,
        }
    }

    /// Whether an event can come of the last action.
    pub open spec fn expects(self, event: PlacementEvent) -> bool {
        match self.phase {
            Phase::Cursor => event is CursorRead,
            Phase::Locating(_) => event is Located,
            Phase::Placing(_) | Phase::PlacingFromMap(_) => event is Placed,
            Phase::Centring(_) => event is CentreRead,
            Phase::Dragging(..) => event is DragEnded,
            Phase::Restoring => event is CursorRestored,
            Phase::Done | Phase::Failed(_) => false,
        }
    }

    /// Where an event leads, and what to do there.
    pub open spec fn next(self, event: PlacementEvent) -> (Phase, PlacementAction) {
        match (self.phase, event) {
            (Phase::Cursor, PlacementEvent::CursorRead(true)) => go_on(0, 0, self.count),
            (Phase::Cursor, PlacementEvent::CursorRead(false)) => fail(
                PlacementError::CursorUnknown,
            ),
            (Phase::Locating(i), PlacementEvent::Located(Location::OnScreen)) => (
                Phase::Placing(i),
                PlacementAction::Place { marker: i },
            ),
            (Phase::Locating(i), PlacementEvent::Located(Location::OffScreen)) => (
                Phase::Centring(i),
                PlacementAction::ReadCentre { marker: i },
            ),
            (Phase::Locating(i), PlacementEvent::Located(Location::Unknown)) => go_on(
                i + 1,
                PLACEMENT_WAIT,
                self.count,
            ),
            (Phase::Placing(i), PlacementEvent::Placed) => go_on(i + 1, PLACEMENT_WAIT, self.count),
            (Phase::PlacingFromMap(i), PlacementEvent::Placed) => go_on(
                i + 1,
                PLACEMENT_WAIT,
                self.count,
            ),
            (Phase::Centring(i), PlacementEvent::CentreRead(None)) => go_on(
                i + 1,
                PLACEMENT_WAIT,
                self.count,
            ),
            (Phase::Centring(i), PlacementEvent::CentreRead(Some(far))) => approach(i, 0, far),
            (Phase::Dragging(i, a), PlacementEvent::DragEnded(DragOutcome::NoMap)) => approach(
                i,
                (a + 1) as u32,
                true,
            ),
            (Phase::Dragging(i, a), PlacementEvent::DragEnded(DragOutcome::Dragged { was_far })) =>
                approach(i, (a + 1) as u32, was_far),
            (Phase::Dragging(..), PlacementEvent::DragEnded(DragOutcome::Failed)) => fail(
                PlacementError::DragFailed,
            ),
            (Phase::Restoring, PlacementEvent::CursorRestored(true)) => (
                Phase::Done,
                PlacementAction::Finish,
            ),
            (Phase::Restoring, PlacementEvent::CursorRestored(false)) => fail(
                PlacementError::RestoreFailed,
            ),
            _ => (self.phase, PlacementAction::Finish),
        }
    }

    /// The run after an event.
    pub open spec fn after(self, event: PlacementEvent) -> Placement {
        Placement { count: self.count, phase: self.next(event).0 }
    }

    /// Starts a run through a set of markers, given which of them are too far from the player
    /// where the player's position is known.
    pub fn begin(count: usize, too_far: Option<&Vec<bool>>) -> (r: (Placement, PlacementAction))
        requires
            too_far matches Some(flags) ==> flags@.len() == count,
        ensures
            r.0.wf(),
            r.0.count == count,
            (r.0.phase, r.1) == (if too_far is Some && too_far->0@.contains(true) {
                fail(PlacementError::TooFar)
            } else {
                (Phase::Cursor, PlacementAction::ReadCursor)
            }),
    {
        if let Some(flags) = too_far {
            let mut i: usize = 0;
            while i < flags.len()
                invariant
                    i <= flags@.len(),
                    too_far is Some,
                    too_far->0@ == flags@,
                    forall|j: int| 0 <= j < i ==> !flags@[j],
                decreases flags@.len() - i,
            {
                if flags[i] {
                    assert(flags@.contains(true));
                    return (
                        Placement { count, phase: Phase::Failed(PlacementError::TooFar) },
                        PlacementAction::Fail { error: PlacementError::TooFar },
                    );
                }
                i += 1;
            }
        }
        (Placement { count, phase: Phase::Cursor }, PlacementAction::ReadCursor)
    }

    fn advance(&mut self, marker: usize, wait: u64) -> (r: PlacementAction)
        ensures
            final(self).count == old(self).count,
            (final(self).phase, r) == go_on(marker as int, wait, old(self).count),
    {
        if marker < self.count {
            self.phase = Phase::Locating(marker);
            PlacementAction::Locate { marker, wait }
        } else {
            self.phase = Phase::Restoring;
            PlacementAction::RestoreCursor { wait: PLACEMENT_WAIT }
        }
    }

    fn come_near(&mut self, marker: usize, attempts: u32, far: bool) -> (r: PlacementAction)
        ensures
            final(self).count == old(self).count,
            (final(self).phase, r) == approach(marker, attempts, far),
    {
        if !far {
            self.phase = Phase::PlacingFromMap(marker);
            PlacementAction::PlaceFromMap { marker }
        } else if attempts < MAX_DRAGS {
            self.phase = Phase::Dragging(marker, attempts);
            PlacementAction::Drag { marker, wait: PLACEMENT_WAIT }
        } else {
            self.give_up(PlacementError::Unreachable)
        }
    }

    fn give_up(&mut self, error: PlacementError) -> (r: PlacementAction)
        ensures
            final(self).count == old(self).count,
            (final(self).phase, r) == fail(error),
    {
        self.phase = Phase::Failed(error);
        PlacementAction::Fail { error }
    }

    /// Takes an event, and tells what to do next.
    pub fn step(&mut self, event: PlacementEvent) -> (r: PlacementAction)
        requires
            old(self).wf(),
            old(self).expects(event),
        ensures
            final(self).wf(),
            *final(self) == old(self).after(event),
            r == old(self).next(event).1,
    {
        match (self.phase, event) {
            (Phase::Cursor, PlacementEvent::CursorRead(true)) => self.advance(0, 0),
            (Phase::Cursor, PlacementEvent::CursorRead(false)) => self.give_up(
                PlacementError::CursorUnknown,
            ),
            (Phase::Locating(i), PlacementEvent::Located(location)) => match location {
                Location::OnScreen => {
                    self.phase = Phase::Placing(i);
                    PlacementAction::Place { marker: i }
                },
                Location::OffScreen => {
                    self.phase = Phase::Centring(i);
                    PlacementAction::ReadCentre { marker: i }
                },
                Location::Unknown => self.advance(i + 1, PLACEMENT_WAIT),
            },
            (Phase::Placing(i), PlacementEvent::Placed) => self.advance(i + 1, PLACEMENT_WAIT),
            (Phase::PlacingFromMap(i), PlacementEvent::Placed) => self.advance(
                i + 1,
                PLACEMENT_WAIT,
            ),
            (Phase::Centring(i), PlacementEvent::CentreRead(centre)) => match centre {
                None => self.advance(i + 1, PLACEMENT_WAIT),
                Some(far) => self.come_near(i, 0, far),
            },
            (Phase::Dragging(i, a), PlacementEvent::DragEnded(outcome)) => match outcome {
                DragOutcome::NoMap => self.come_near(i, a + 1, true),
                DragOutcome::Dragged { was_far } => self.come_near(i, a + 1, was_far),
                DragOutcome::Failed => self.give_up(PlacementError::DragFailed),
            },
            (Phase::Restoring, PlacementEvent::CursorRestored(true)) => {
                self.phase = Phase::Done;
                PlacementAction::Finish
            },
            (Phase::Restoring, PlacementEvent::CursorRestored(false)) => self.give_up(
                PlacementError::RestoreFailed,
            ),
            _ => PlacementAction::Finish,
        }
    }

    /// A bound on how many more events can come.
    pub open spec fn events_left(self) -> int {
        match self.phase {
            Phase::Cursor => 16 * self.count + 3,
            Phase::Locating(i) => 16 * (self.count - i) + 2,
            Phase::Centring(i) => 16 * (self.count - i) + 1,
            Phase::Dragging(i, a) => 16 * (self.count - i) - a,
            Phase::Placing(i) => 16 * (self.count - i) - 11,
            Phase::PlacingFromMap(i) => 16 * (self.count - i) - 11,
            Phase::Restoring => 1,
            Phase::Done | Phase::Failed(_) => 0,
        }
    }

    /// Whether events can come one after the other.
    pub open spec fn accepts(self, events: Seq<PlacementEvent>) -> bool
        decreases events.len(),
    {
        events.len() == 0 || (self.expects(events[0]) && self.after(events[0]).accepts(
            events.drop_first(),
        ))
    }

    /// The run after events.
    pub open spec fn after_all(self, events: Seq<PlacementEvent>) -> Placement
        decreases events.len(),
    {
        if events.len() == 0 {
            self
        } else {
            self.after(events[0]).after_all(events.drop_first())
        }
    }

    /// The markers that are placed while events come, in order.
    pub open spec fn placed(self, events: Seq<PlacementEvent>) -> Seq<usize>
        decreases events.len(),
    {
        if events.len() == 0 {
            Seq::empty()
        } else {
            let rest = self.after(events[0]).placed(events.drop_first());
            match self.next(events[0]).1 {
                PlacementAction::Place { marker } => seq![marker] + rest,
                PlacementAction::PlaceFromMap { marker } => seq![marker] + rest,
                _ => rest,
            }
        }
    }

    /// The first marker that can still be placed.
    pub open spec fn upcoming(self) -> int {
        match self.phase {
            Phase::Cursor => 0,
            Phase::Locating(i) => i as int,
            Phase::Centring(i) => i as int,
            Phase::Dragging(i, _) => i as int,
            Phase::Placing(i) => i + 1,
            Phase::PlacingFromMap(i) => i + 1,
            Phase::Restoring | Phase::Done | Phase::Failed(_) => self.count as int,
        }
    }
}

/// Every run comes to an end: no more events can come than there is a bound for. A run through
/// `count` markers takes `16 * count + 3` events at most.
pub proof fn law_runs_end(run: Placement, events: Seq<PlacementEvent>)
    requires
        run.wf(),
        run.accepts(events),
    ensures
        events.len() <= run.events_left(),
        run.after_all(events).wf(),
    decreases events.len(),
{
    if events.len() > 0 {
        law_runs_end(run.after(events[0]), events.drop_first());
    }
}

/// Markers are placed in the order of the set, none of them twice.
pub proof fn law_placed_in_order(run: Placement, events: Seq<PlacementEvent>)
    requires
        run.wf(),
        run.accepts(events),
    ensures
        forall|i: int|
            0 <= i < run.placed(events).len() ==> run.upcoming() <= #[trigger] run.placed(events)[i]
                < run.count,
        forall|i: int, j: int|
            0 <= i < j < run.placed(events).len() ==> run.placed(events)[i] < run.placed(events)[j],
    decreases events.len(),
{
    if events.len() > 0 {
        let then = run.after(events[0]);
        law_placed_in_order(then, events.drop_first());
        let rest = then.placed(events.drop_first());
        let all = run.placed(events);
        assert(then.upcoming() >= run.upcoming());
        if all.len() != rest.len() {
            assert(all == seq![all[0]] + rest);
            assert forall|i: int, j: int| 0 <= i < j < all.len() implies all[i] < all[j] by {
                assert(all[j] == rest[j - 1]);
                if i > 0 {
                    assert(all[i] == rest[i - 1]);
                }
            }
            assert forall|i: int| 0 <= i < all.len() implies run.upcoming() <= #[trigger] all[i]
                < run.count by {
                if i > 0 {
                    assert(all[i] == rest[i - 1]);
                }
            }
        } else {
            assert(all == rest);
        }
    }
}

/// A run that ended well went through the whole set: where every marker is on the screen, every
/// one of them is placed.
pub proof fn law_visible_markers_are_placed(run: Placement, events: Seq<PlacementEvent>)
    requires
        run.wf(),
        run.accepts(events),
        run.phase is Cursor || run.phase is Locating || run.phase is Placing || run.phase is Restoring,
        run.after_all(events).phase is Done,
        forall|i: int|
            0 <= i < events.len() ==> (#[trigger] events[i] matches PlacementEvent::Located(at)
                ==> at == Location::OnScreen),
    ensures
        run.placed(events) == Seq::new(
            (run.count - run.upcoming()) as nat,
            |i: int| (run.upcoming() + i) as usize,
        ),
    decreases events.len(),
{
    let wanted = Seq::new(
        (run.count - run.upcoming()) as nat,
        |i: int| (run.upcoming() + i) as usize,
    );
    if events.len() > 0 {
        let then = run.after(events[0]);
        let tail = events.drop_first();
        assert forall|i: int| 0 <= i < tail.len() implies (#[trigger] tail[i] matches PlacementEvent::Located(at)
            ==> at == Location::OnScreen) by {
            assert(tail[i] == events[i + 1]);
        }
        if then.phase is Done || then.phase is Failed {
            assert(then.accepts(tail));
            assert(tail.len() == 0);
            assert(then.after_all(tail) == then);
            assert(then.placed(tail) =~= Seq::empty());
            assert(run.placed(events) =~= wanted);
        } else {
            law_visible_markers_are_placed(then, tail);
            assert(run.placed(events) =~= wanted);
        }
    }
}

/// Nothing is done once a run has failed or ended.
pub proof fn law_nothing_after_the_end(run: Placement, event: PlacementEvent)
    requires
        run.phase is Done || run.phase is Failed,
    ensures
        !run.expects(event),
{
}

/// The cursor is put back only once every marker has had its turn.
pub proof fn law_cursor_comes_last(run: Placement, event: PlacementEvent)
    requires
        run.wf(),
        run.expects(event),
        run.next(event).1 is RestoreCursor,
    ensures
        match run.phase {
            Phase::Locating(i) | Phase::Placing(i) | Phase::Centring(i) | Phase::PlacingFromMap(i) => i
                + 1 == run.count,
            _ => run.phase is Cursor && run.count == 0,
        },
{
}

/// A point on the screen, as the mouse is told of it.
#[derive(Clone, Copy, PartialEq, Eq, Structural, Debug)]
pub struct MousePoint {
    pub x: i32,
    pub y: i32,
}

/// One input of a drag.
#[derive(Clone, Copy, PartialEq, Eq, Structural, Debug)]
pub enum DragInput {
    Wait(u64),
    Move(MousePoint),
    Press(MousePoint),
    Release(MousePoint),
}

/// What to do about a marker that the map was dragged to.
#[derive(Clone, Copy, PartialEq, Eq, Structural, Debug)]
pub enum MapPlacement {
    /// The map cannot be read any more.
    MapMissing,
    /// The marker is not on the map.
    OutOfBounds,
    Place,
}

impl MarkersController {
    /// The inputs that drag the mouse from one point to another, in order.
    pub fn drag_mouse_abs(from: MousePoint, to: MousePoint) -> (r: Vec<DragInput>)
        ensures
            r@ == seq![
                DragInput::Wait(DRAG_WAIT),
                DragInput::Move(from),
                DragInput::Wait(DRAG_WAIT),
                DragInput::Press(from),
                DragInput::Wait(DRAG_WAIT),
                DragInput::Move(to),
                DragInput::Wait(DRAG_WAIT),
                DragInput::Release(to),
                DragInput::Wait(DRAG_WAIT),
            ],
    {
        vec![
            DragInput::Wait(DRAG_WAIT),
            DragInput::Move(from),
            DragInput::Wait(DRAG_WAIT),
            DragInput::Press(from),
            DragInput::Wait(DRAG_WAIT),
            DragInput::Move(to),
            DragInput::Wait(DRAG_WAIT),
            DragInput::Release(to),
            DragInput::Wait(DRAG_WAIT),
        ]
    }

    /// Decides what to do about a marker that the map was dragged to, given whether there is a map,
    /// and whether the marker is on it.
    pub fn place_marker_from_map(map_missing: bool, on_map: bool) -> (r: MapPlacement)
        ensures
            r == (if map_missing {
                MapPlacement::MapMissing
            } else if on_map {
                MapPlacement::Place
            } else {
                MapPlacement::OutOfBounds
            }),
    {
        if map_missing {
            MapPlacement::MapMissing
        } else if on_map {
            MapPlacement::Place
        } else {
            MapPlacement::OutOfBounds
        }
    }
}

} // verus!

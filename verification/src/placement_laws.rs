//! What holds of every step, and of every whole run, of placing a set of markers.
use crate::controller::markers::MarkersController;
#[allow(unused_imports)]
use crate::placement::{
    DragInput, DragOutcome, Location, MousePoint, Phase, Placement, PlacementAction,
    PlacementError, PlacementEvent,
};
use vstd::prelude::*;

verus! {

/// The marker that a run is busy with.
pub open spec fn in_hand(phase: Phase) -> Option<usize> {
    match phase {
        Phase::Locating(i) => Some(i),
        Phase::Placing(i) => Some(i),
        Phase::Centring(i) => Some(i),
        Phase::Dragging(i, _) => Some(i),
        Phase::PlacingFromMap(i) => Some(i),
        _ => None,
    }
}

/// The marker that an action is about.
pub open spec fn marker_of(action: PlacementAction) -> Option<usize> {
    match action {
        PlacementAction::Locate { marker, .. } => Some(marker),
        PlacementAction::Place { marker } => Some(marker),
        PlacementAction::ReadCentre { marker } => Some(marker),
        PlacementAction::Drag { marker, .. } => Some(marker),
        PlacementAction::PlaceFromMap { marker } => Some(marker),
        _ => None,
    }
}

/// Whether dragging the map has left its centre far from the marker, as far as that is known.
pub open spec fn still_far(event: PlacementEvent) -> bool {
    event == PlacementEvent::DragEnded(DragOutcome::NoMap) || event == PlacementEvent::DragEnded(
        DragOutcome::Dragged { was_far: true },
    )
}

/// Whether an event ends what is done about the marker in hand, or about the cursor before the
/// first one.
pub open spec fn ends_turn(event: PlacementEvent) -> bool {
    event == PlacementEvent::CursorRead(true) || event == PlacementEvent::Placed || event
        == PlacementEvent::Located(Location::Unknown) || event == PlacementEvent::CentreRead(None)
}

/// A marker that is off the screen, whichever it is, is gone after: the map's centre is read for
/// it, and it stays in hand.
pub proof fn law_off_screen_markers_are_gone_after(run: Placement, i: usize)
    requires
        run.wf(),
        run.phase == Phase::Locating(i),
    ensures
        ({
            let event = PlacementEvent::Located(Location::OffScreen);
            &&& run.next(event).1 == PlacementAction::ReadCentre { marker: i }
            &&& in_hand(run.after(event).phase) == Some(i)
            &&& run.after(event).expects(PlacementEvent::CentreRead(Some(true)))
        }),
{
}

/// What is done next is settled by what came of the last action: a marker is placed where it was
/// found on the screen, or where the map's centre is near it; the map is dragged while its centre
/// is far, ten times at most; the next marker has its turn where this one was placed or cannot be
/// told about.
pub proof fn law_what_is_done_next(run: Placement, event: PlacementEvent)
    requires
        run.wf(),
        run.expects(event),
    ensures
        ({
            let action = run.next(event).1;
            let drags = match run.phase {
                Phase::Dragging(_, n) => n + 1,
                _ => 0,
            };
            &&& action is Place <==> event == PlacementEvent::Located(Location::OnScreen)
            &&& action is ReadCentre <==> event == PlacementEvent::Located(Location::OffScreen)
            &&& action is PlaceFromMap <==> event == PlacementEvent::CentreRead(Some(false))
                || event == PlacementEvent::DragEnded(DragOutcome::Dragged { was_far: false })
            &&& action is Drag <==> event == PlacementEvent::CentreRead(Some(true)) || (still_far(
                event,
            ) && drags < 10)
            &&& action is Locate || action is RestoreCursor <==> ends_turn(event)
            &&& action is Finish <==> event == PlacementEvent::CursorRestored(true)
            &&& action is Fail <==> event == PlacementEvent::CursorRead(false) || event
                == PlacementEvent::DragEnded(DragOutcome::Failed) || event
                == PlacementEvent::CursorRestored(false) || (still_far(event) && drags >= 10)
            &&& !(action is ReadCursor)
        }),
{
}

/// Every action is about the marker in hand, but for the one that ends its turn: that goes on to
/// the marker behind it, from the first to the last, and puts the cursor back behind the last.
pub proof fn law_markers_have_their_turns(run: Placement, event: PlacementEvent)
    requires
        run.wf(),
        run.expects(event),
    ensures
        ({
            let action = run.next(event).1;
            let turn = match in_hand(run.phase) {
                Some(i) => i + 1,
                None => 0,
            };
            if ends_turn(event) {
                if turn < run.count {
                    action is Locate && marker_of(action) == Some(turn as usize)
                } else {
                    action is RestoreCursor
                }
            } else {
                marker_of(action) is Some ==> marker_of(action) == in_hand(run.phase)
            }
        }),
{
}

/// The run is where its last action says: busy with the marker that the action is about, waiting
/// for what comes of it, and with one drag more where the map was dragged again.
pub proof fn law_run_follows_its_actions(run: Placement, event: PlacementEvent)
    requires
        run.wf(),
        run.expects(event),
    ensures
        ({
            let after = run.after(event);
            let action = run.next(event).1;
            &&& after.count == run.count
            &&& in_hand(after.phase) == marker_of(action)
            &&& after.phase is Locating <==> action is Locate
            &&& after.phase is Placing <==> action is Place
            &&& after.phase is Centring <==> action is ReadCentre
            &&& after.phase is PlacingFromMap <==> action is PlaceFromMap
            &&& after.phase is Dragging <==> action is Drag
            &&& after.phase is Restoring <==> action is RestoreCursor
            &&& after.phase is Done <==> action is Finish
            &&& after.phase is Failed <==> action is Fail
            &&& after.phase matches Phase::Dragging(_, n) ==> n == (match run.phase {
                Phase::Dragging(_, m) => m + 1,
                _ => 0,
            })
            &&& after.phase matches Phase::Failed(e) ==> action == (PlacementAction::Fail {
                error: e,
            })
        }),
{
}

/// Each failure has its own cause.
pub proof fn law_failures_tell_their_cause(run: Placement, event: PlacementEvent, e: PlacementError)
    requires
        run.wf(),
        run.expects(event),
        run.next(event).1 == (PlacementAction::Fail { error: e }),
    ensures
        e == PlacementError::CursorUnknown <==> event == PlacementEvent::CursorRead(false),
        e == PlacementError::DragFailed <==> event == PlacementEvent::DragEnded(
            DragOutcome::Failed,
        ),
        e == PlacementError::RestoreFailed <==> event == PlacementEvent::CursorRestored(false),
        e == PlacementError::Unreachable <==> still_far(event),
        e != PlacementError::TooFar,
{
}

/// Between two markers, behind a drag and before the cursor is put back there is a wait of fifty
/// milliseconds; before the first marker there is none.
pub proof fn law_waits(run: Placement, event: PlacementEvent)
    requires
        run.wf(),
        run.expects(event),
    ensures
        match run.next(event).1 {
            PlacementAction::Locate { wait, .. } => wait == if in_hand(run.phase) is None {
                0u64
            } else {
                50u64
            },
            PlacementAction::Drag { wait, .. } => wait == 50,
            PlacementAction::RestoreCursor { wait } => wait == 50,
            _ => true,
        },
{
}

/// Whether what came tells of every marker and of the map: none is where it cannot be told.
pub open spec fn all_told(events: Seq<PlacementEvent>) -> bool {
    forall|i: int|
        0 <= i < events.len() ==> #[trigger] events[i] != PlacementEvent::Located(
            Location::Unknown,
        ) && events[i] != PlacementEvent::CentreRead(None)
}

/// A run that ended well has placed every marker that was left when it began, in order, whether
/// they were on the screen or the map had to be dragged to them.
pub proof fn law_every_marker_is_placed(run: Placement, events: Seq<PlacementEvent>)
    requires
        run.wf(),
        run.accepts(events),
        run.after_all(events).phase is Done,
        all_told(events),
    ensures
        run.placed(events) == Seq::new(
            (run.count - run.upcoming()) as nat,
            |i: int| (run.upcoming() + i) as usize,
        ),
    decreases events.len(),
{
    let wanted = Seq::new(
        (run.count - run.upcoming()) as nat,
        |i: int| (run.upcoming() + i) as usize,
    );
    if events.len() > 0 {
        let then = run.after(events[0]);
        let tail = events.drop_first();
        assert forall|i: int| 0 <= i < tail.len() implies #[trigger] tail[i]
            != PlacementEvent::Located(Location::Unknown) && tail[i]
            != PlacementEvent::CentreRead(None) by {
            assert(tail[i] == events[i + 1]);
        }
        assert(events[0] == events[0]);
        if then.phase is Failed {
            assert(then.accepts(tail));
            assert(tail.len() == 0);
            assert(then.after_all(tail) == then);
        }
        law_every_marker_is_placed(then, tail);
        assert(run.placed(events) =~= wanted);
    } else {
        assert(run.placed(events) =~= wanted);
    }
}

/// A run through a set from its start to its good end places the whole set, the first marker first
/// and the last one last.
pub proof fn law_whole_set_is_placed(count: usize, events: Seq<PlacementEvent>)
    requires
        (Placement { count, phase: Phase::Cursor }).accepts(events),
        (Placement { count, phase: Phase::Cursor }).after_all(events).phase is Done,
        all_told(events),
    ensures
        ({
            let placed = (Placement { count, phase: Phase::Cursor }).placed(events);
            &&& placed.len() == count
            &&& forall|i: int| 0 <= i < count ==> #[trigger] placed[i] == i
        }),
{
    law_every_marker_is_placed(Placement { count, phase: Phase::Cursor }, events);
}

/// While a run is busy with a marker, none of the markers behind it has been placed.
pub proof fn law_none_is_placed_before_its_turn(run: Placement, events: Seq<PlacementEvent>)
    requires
        run.wf(),
        run.accepts(events),
        in_hand(run.after_all(events).phase) is Some,
    ensures
        forall|k: int|
            0 <= k < run.placed(events).len() ==> #[trigger] run.placed(events)[k] <= in_hand(
                run.after_all(events).phase,
            )->0,
    decreases events.len(),
{
    if events.len() > 0 {
        let then = run.after(events[0]);
        let tail = events.drop_first();
        law_none_is_placed_before_its_turn(then, tail);
        let rest = then.placed(tail);
        let all = run.placed(events);
        if in_hand(then.phase) is Some {
            lemma_hand_moves_on(then, tail);
        }
        if all.len() != rest.len() {
            assert forall|k: int| 0 <= k < all.len() implies #[trigger] all[k] <= in_hand(
                run.after_all(events).phase,
            )->0 by {
                if k > 0 {
                    assert(all[k] == rest[k - 1]);
                }
            }
        }
    }
}

proof fn lemma_hand_moves_on(run: Placement, events: Seq<PlacementEvent>)
    requires
        run.wf(),
        run.accepts(events),
        in_hand(run.phase) is Some,
        in_hand(run.after_all(events).phase) is Some,
    ensures
        in_hand(run.phase)->0 <= in_hand(run.after_all(events).phase)->0,
    decreases events.len(),
{
    if events.len() > 0 {
        let then = run.after(events[0]);
        if in_hand(then.phase) is Some {
            lemma_hand_moves_on(then, events.drop_first());
        } else {
            lemma_no_hand_again(then, events.drop_first());
        }
    }
}

proof fn lemma_no_hand_again(run: Placement, events: Seq<PlacementEvent>)
    requires
        run.accepts(events),
        run.phase is Restoring || run.phase is Done || run.phase is Failed,
    ensures
        in_hand(run.after_all(events).phase) is None,
    decreases events.len(),
{
    if events.len() > 0 {
        lemma_no_hand_again(run.after(events[0]), events.drop_first());
    }
}

/// The map is dragged from one point to the other: the button goes down once, where the drag
/// starts, after the cursor went there, and comes up once, where it ends, after the cursor went
/// there; there is a wait of ten milliseconds around each input.
pub proof fn law_drag_goes_from_start_to_end(from: MousePoint, to: MousePoint, inputs: Vec<DragInput>)
    requires
        call_ensures(MarkersController::drag_mouse_abs, (from, to), inputs),
    ensures
        ({
            let acts = inputs@.filter(|input: DragInput| !(input is Wait));
            &&& acts == seq![
                DragInput::Move(from),
                DragInput::Press(from),
                DragInput::Move(to),
                DragInput::Release(to),
            ]
            &&& inputs@.len() == 2 * acts.len() + 1
            &&& forall|i: int|
                0 <= i < inputs@.len() && i % 2 == 0 ==> #[trigger] inputs@[i] == DragInput::Wait(10)
        }),
{
    let act = |input: DragInput| !(input is Wait);
    let s = inputs@;
    reveal_with_fuel(Seq::filter, 10);
    assert(s.len() == 9);
    assert(s.drop_last().drop_last().drop_last().drop_last().drop_last().drop_last().drop_last().drop_last().drop_last()
        =~= Seq::empty());
    assert(s.filter(act) =~= seq![
        DragInput::Move(from),
        DragInput::Press(from),
        DragInput::Move(to),
        DragInput::Release(to),
    ]);
}

/// A step answers a marker that is off the screen by reading the map's centre for it, and one that is
/// on the screen by placing it; it goes on to the next marker, or puts the cursor back behind the
/// last one, just where the marker was placed or cannot be told about.
pub proof fn law_steps_go_through_the_set()
    ensures
        forall|run: &mut Placement, event: PlacementEvent, action: PlacementAction|
            run.wf() && run.expects(event) && #[trigger] call_ensures(
                Placement::step,
                (run, event),
                action,
            ) ==> {
                let hand = in_hand(run.phase);
                let turn = match hand {
                    Some(i) => i + 1,
                    None => 0,
                };
                &&& final(run).count == run.count
                &&& in_hand(final(run).phase) == marker_of(action)
                &&& event == PlacementEvent::Located(Location::OffScreen) ==> action is ReadCentre
                    && marker_of(action) == hand
                &&& event == PlacementEvent::Located(Location::OnScreen) ==> action is Place
                    && marker_of(action) == hand
                &&& event == PlacementEvent::CentreRead(Some(false)) ==> action is PlaceFromMap
                    && marker_of(action) == hand
                &&& event == PlacementEvent::CentreRead(Some(true)) ==> action is Drag && marker_of(
                    action,
                ) == hand
                &&& ends_turn(event) && turn < run.count ==> action is Locate && marker_of(action)
                    == Some(turn as usize)
                &&& ends_turn(event) && turn >= run.count ==> action is RestoreCursor
                &&& action is Finish <==> event == PlacementEvent::CursorRestored(true)
            },
{
}

/// A run starts unless the player is known to be too far from some marker.
pub proof fn law_runs_start_near_the_markers(
    count: usize,
    too_far: Option<&Vec<bool>>,
    started: (Placement, PlacementAction),
)
    requires
        too_far matches Some(flags) ==> flags@.len() == count,
        call_ensures(Placement::begin, (count, too_far), started),
    ensures
        ({
            let far = too_far is Some && exists|i: int|
                0 <= i < too_far->0@.len() && #[trigger] too_far->0@[i];
            &&& started.0.count == count
            &&& far ==> started.1 == (PlacementAction::Fail { error: PlacementError::TooFar })
            &&& !far ==> started.1 == PlacementAction::ReadCursor && started.0.phase
                == Phase::Cursor
        }),
{
    if too_far is Some {
        let flags = too_far->0@;
        if flags.contains(true) {
            let i = choose|i: int| 0 <= i < flags.len() && flags[i] == true;
            assert(flags[i]);
        }
        if exists|i: int| 0 <= i < flags.len() && #[trigger] flags[i] {
            let i = choose|i: int| 0 <= i < flags.len() && #[trigger] flags[i];
            assert(flags[i] == true);
        }
    }
}

} // verus!

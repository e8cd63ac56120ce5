use taimi_hud::controller::markers::MarkersController;
use taimi_hud::placement::{
    error_title, DragInput, DragOutcome, Location, MapPlacement, MousePoint, Phase, Placement,
    PlacementAction, PlacementError, PlacementEvent,
};

fn begin(count: usize) -> Placement {
    let (run, action) = Placement::begin(count, None);
    assert_eq!(action, PlacementAction::ReadCursor);
    run
}

#[test]
fn visible_markers_are_placed_in_order() {
    let mut run = begin(2);
    assert_eq!(
        run.step(PlacementEvent::CursorRead(true)),
        PlacementAction::Locate { marker: 0, wait: 0 }
    );
    assert_eq!(
        run.step(PlacementEvent::Located(Location::OnScreen)),
        PlacementAction::Place { marker: 0 }
    );
    assert_eq!(
        run.step(PlacementEvent::Placed),
        PlacementAction::Locate { marker: 1, wait: 50 }
    );
    assert_eq!(
        run.step(PlacementEvent::Located(Location::OnScreen)),
        PlacementAction::Place { marker: 1 }
    );
    assert_eq!(run.step(PlacementEvent::Placed), PlacementAction::RestoreCursor { wait: 50 });
    assert_eq!(run.step(PlacementEvent::CursorRestored(true)), PlacementAction::Finish);
    assert_eq!(run.phase, Phase::Done);
}

#[test]
fn markers_too_far_away_are_not_placed() {
    let (run, action) = Placement::begin(3, Some(&vec![false, true, false]));
    assert_eq!(action, PlacementAction::Fail { error: PlacementError::TooFar });
    assert_eq!(run.phase, Phase::Failed(PlacementError::TooFar));
    let (run, _) = Placement::begin(2, Some(&vec![false, false]));
    assert_eq!(run.phase, Phase::Cursor);
}

#[test]
fn an_empty_set_only_restores_the_cursor() {
    let mut run = begin(0);
    assert_eq!(
        run.step(PlacementEvent::CursorRead(true)),
        PlacementAction::RestoreCursor { wait: 50 }
    );
    assert_eq!(
        run.step(PlacementEvent::CursorRestored(false)),
        PlacementAction::Fail { error: PlacementError::RestoreFailed }
    );
}

fn off_screen() -> Placement {
    let mut run = begin(1);
    run.step(PlacementEvent::CursorRead(true));
    assert_eq!(
        run.step(PlacementEvent::Located(Location::OffScreen)),
        PlacementAction::ReadCentre { marker: 0 }
    );
    run
}

#[test]
fn the_map_is_dragged_ten_times_at_most() {
    let mut run = off_screen();
    let mut action = run.step(PlacementEvent::CentreRead(Some(true)));
    let mut drags = 0;
    while action == (PlacementAction::Drag { marker: 0, wait: 50 }) {
        drags += 1;
        let outcome = if drags % 2 == 0 {
            DragOutcome::NoMap
        } else {
            DragOutcome::Dragged { was_far: true }
        };
        action = run.step(PlacementEvent::DragEnded(outcome));
    }
    assert_eq!(drags, 10);
    assert_eq!(action, PlacementAction::Fail { error: PlacementError::Unreachable });
}

#[test]
fn a_marker_is_placed_once_the_map_is_near() {
    let mut run = off_screen();
    run.step(PlacementEvent::CentreRead(Some(true)));
    assert_eq!(
        run.step(PlacementEvent::DragEnded(DragOutcome::Dragged { was_far: false })),
        PlacementAction::PlaceFromMap { marker: 0 }
    );
    assert_eq!(run.step(PlacementEvent::Placed), PlacementAction::RestoreCursor { wait: 50 });
    let mut run = off_screen();
    assert_eq!(
        run.step(PlacementEvent::CentreRead(Some(false))),
        PlacementAction::PlaceFromMap { marker: 0 }
    );
    let mut run = off_screen();
    assert_eq!(
        run.step(PlacementEvent::CentreRead(None)),
        PlacementAction::RestoreCursor { wait: 50 }
    );
}

#[test]
fn failures_end_the_run() {
    let mut run = off_screen();
    run.step(PlacementEvent::CentreRead(Some(true)));
    assert_eq!(
        run.step(PlacementEvent::DragEnded(DragOutcome::Failed)),
        PlacementAction::Fail { error: PlacementError::DragFailed }
    );
    let mut run = begin(1);
    assert_eq!(
        run.step(PlacementEvent::CursorRead(false)),
        PlacementAction::Fail { error: PlacementError::CursorUnknown }
    );
    let mut run = begin(1);
    run.step(PlacementEvent::CursorRead(true));
    assert_eq!(
        run.step(PlacementEvent::Located(Location::Unknown)),
        PlacementAction::RestoreCursor { wait: 50 }
    );
}

#[test]
fn failures_are_told() {
    assert_eq!(error_title("Slubling"), "Error setting marker set: Slubling");
    let e = PlacementError::TooFar;
    assert!(e.is_reported());
    assert_eq!(
        e.message("x"),
        "Player is too far away from the markers they are trying to place."
    );
    let e = PlacementError::Unreachable;
    assert!(e.is_reported());
    assert_eq!(e.message("x"), "Could not drag map perspective to marker location!");
    let e = PlacementError::CursorUnknown;
    assert!(!e.is_reported());
    assert_eq!(e.message("x"), "Getting cursor pos: x");
    assert_eq!(PlacementError::DragFailed.message("x"), "mouse drag failed: x");
    assert_eq!(
        PlacementError::RestoreFailed.message("x"),
        "Failed to restore original cursor position: x"
    );
}

#[test]
fn a_drag_presses_moves_and_releases() {
    let from = MousePoint { x: 1, y: 2 };
    let to = MousePoint { x: 3, y: 4 };
    let wait = DragInput::Wait(10);
    assert_eq!(
        MarkersController::drag_mouse_abs(from, to),
        vec![
            wait,
            DragInput::Move(from),
            wait,
            DragInput::Press(from),
            wait,
            DragInput::Move(to),
            wait,
            DragInput::Release(to),
            wait,
        ]
    );
}

#[test]
fn a_marker_off_the_map_is_left_out() {
    let place = MarkersController::place_marker_from_map;
    assert_eq!(place(true, true), MapPlacement::MapMissing);
    assert_eq!(place(false, true), MapPlacement::Place);
    assert_eq!(place(false, false), MapPlacement::OutOfBounds);
}

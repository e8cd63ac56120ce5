//! What holds of the overlay whatever event comes.
#[allow(unused_imports)]
use crate::render::{
    cleanup_of, is_up_to_quit, open_target, EngineCleanup, EngineState, FramePlan, IconStep,
    RenderAction, RenderEvent, RenderState,
};
#[allow(unused_imports)]
use crate::marker_type::{marker_name, MarkerType};
use vstd::prelude::*;

verus! {

/// Each part of what the overlay shows is changed by the events about it alone, to what they say.
pub proof fn law_events_change_their_part(
    before: RenderState,
    after: RenderState,
    event: RenderEvent,
)
    requires
        before.answers(after, event),
    ensures
        after.progress_bar == (if event is ProgressBarUpdate {
            event->ProgressBarUpdate_0
        } else {
            before.progress_bar
        }),
        after.checking_for_updates == (if event is CheckingForUpdates {
            event->checking
        } else {
            before.checking_for_updates
        }),
        after.downloading_update == (if event is CheckingForUpdates {
            event->downloading
        } else {
            before.downloading_update
        }),
        after.timer_selection == (if event is TimerData {
            None
        } else {
            before.timer_selection
        }),
        after.marker_selection == (if event is MarkerData {
            None
        } else {
            before.marker_selection
        }),
        after.engine == (if event is Reload || event is ReloadAll || event is Quit {
            EngineState::Missing
        } else {
            before.engine
        }),
        !(event is AlertStart) && !(event is AlertEnd) ==> after.alert == before.alert,
        !(event is OpenableError) ==> after.state_errors == before.state_errors,
{
}

/// An alert is shown from its start on, in the place of any other, until its own timer ends it; the
/// end of another timer leaves it.
pub proof fn law_alert_is_shown_until_it_ends(
    before: RenderState,
    after: RenderState,
    event: RenderEvent,
)
    requires
        before.answers(after, event),
    ensures
        event matches RenderEvent::AlertStart(alert) ==> after.alert == Some(alert),
        event matches RenderEvent::AlertEnd(timer) ==> (if before.alert is Some
            && before.alert->0.timer == timer {
            after.alert is None
        } else {
            after.alert == before.alert
        }),
{
}

/// An error is shown under its heading, with what it says; errors under other headings stay.
pub proof fn law_error_is_shown(
    before: RenderState,
    after: RenderState,
    title: String,
    text: String,
    other: Seq<char>,
)
    requires
        before.answers(after, RenderEvent::OpenableError(title, text)),
    ensures
        after.state_errors@.contains_key(title@),
        after.state_errors@[title@] == text,
        other != title@ ==> after.state_errors@.contains_key(other)
            == before.state_errors@.contains_key(other) && (before.state_errors@.contains_key(other)
            ==> after.state_errors@[other] == before.state_errors@[other]),
{
}

/// Each event asks for its own thing outside, with what it carries.
pub proof fn law_events_ask_for_their_own(
    state: RenderState,
    action: RenderAction,
    event: RenderEvent,
    render_thread: bool,
)
    requires
        state.is_outside(action, event, render_thread),
    ensures
        action is OpenEditor <==> event is OpenEditMarkers,
        action is ShowMapMarkers <==> event is MarkerMap,
        action is SetFileNames <==> event is GiveMarkerPaths,
        action is UpdateKeybinds <==> event is RenderKeybindUpdate,
        action is ShowTimers <==> event is TimerData,
        action is ShowMarkers <==> event is MarkerData,
        action is OpenMenus <==> event is ContextMenuOpen,
        action is NewPhase <==> event is AlertFeed,
        action is RemovePhase <==> event is AlertReset,
        action is MapOpened <==> event is UiMapOpen,
        action is DepthChanged <==> event is UiDepthAcquired || event is UiDepthReleased,
        action is Reload <==> event is Reload || event is ReloadAll,
        action is Quit <==> event is Quit,
        event matches RenderEvent::OpenEditMarkers(set) ==> action == RenderAction::OpenEditor(set),
        event matches RenderEvent::MarkerMap(sets) ==> action == RenderAction::ShowMapMarkers(sets),
        event matches RenderEvent::GiveMarkerPaths(paths) ==> action == RenderAction::SetFileNames(
            paths,
        ),
        event matches RenderEvent::TimerData(timers) ==> action == RenderAction::ShowTimers(timers),
        event matches RenderEvent::MarkerData(sets) ==> action->markers == sets
            && action->categories.deep_view() == sets.names(),
        event matches RenderEvent::ContextMenuOpen { menus } ==> action == RenderAction::OpenMenus(
            menus,
        ),
        event matches RenderEvent::AlertFeed(phase) ==> action == RenderAction::NewPhase(phase),
        event matches RenderEvent::AlertReset(timer) ==> action == RenderAction::RemovePhase(timer),
        event matches RenderEvent::UiMapOpen(open) ==> action == RenderAction::MapOpened(open),
        action matches RenderAction::DepthChanged(acquired) ==> acquired == (event
            is UiDepthAcquired),
        action matches RenderAction::Reload(plan) ==> plan.textures == (event is ReloadAll),
{
}

/// An engine is let go only where it runs: at once on the thread that draws, and in the background
/// elsewhere. A reload goes by the thread that it comes on, and quitting is always done at once.
pub proof fn law_running_engines_are_let_go(
    state: RenderState,
    action: RenderAction,
    event: RenderEvent,
    render_thread: bool,
)
    requires
        state.is_outside(action, event, render_thread),
    ensures
        action matches RenderAction::Reload(plan) ==> plan.engine == (if state.engine
            != EngineState::Running {
            EngineCleanup::Nothing
        } else if render_thread {
            EngineCleanup::Foreground
        } else {
            EngineCleanup::Background
        }),
        action matches RenderAction::Quit(how) ==> how == (if state.engine != EngineState::Running {
            EngineCleanup::Nothing
        } else {
            EngineCleanup::Foreground
        }),
        cleanup_of(state.engine, render_thread) != EngineCleanup::Nothing <==> state.engine
            == EngineState::Running,
        cleanup_of(state.engine, true) != EngineCleanup::Background,
        cleanup_of(state.engine, false) != EngineCleanup::Foreground,
{
}

/// Events are taken up to the first that tells to quit, or all of them where none does.
pub proof fn law_taken_up_to_quit(n: int, events: Seq<RenderEvent>)
    requires
        is_up_to_quit(n, events),
    ensures
        0 <= n <= events.len(),
        forall|i: int| 0 <= i < n - 1 ==> !(#[trigger] events[i] is Quit),
        (forall|i: int| 0 <= i < events.len() ==> !(#[trigger] events[i] is Quit)) ==> n
            == events.len(),
        n < events.len() ==> n > 0 && events[n - 1] is Quit,
{
}

/// A frame draws what there is while the overlay runs, and lets go of it once it does not; at the
/// end of a frame it is let go of just where it is not to be drawn again.
pub proof fn law_frames(running: bool, present: bool, going: bool, plan: FramePlan, gone: bool)
    requires
        call_ensures(RenderState::render_ui, (running, present), plan),
        call_ensures(RenderState::lets_go, (plan, going), gone),
    ensures
        plan.textures == running,
        plan.draw <==> present && running,
        plan.shutdown <==> present && !running,
        gone <==> present && !(running && going),
{
}

/// A directory is opened itself, and so is what is not known to be a file; for a file the directory
/// is opened that it lies in, where there is one.
pub proof fn law_what_is_opened(
    path: &str,
    parent: Option<String>,
    is_dir: Option<bool>,
    opened: String,
)
    requires
        call_ensures(open_target, (path, parent, is_dir), opened),
    ensures
        is_dir != Some(false) || parent is None ==> opened@ == path@,
        is_dir == Some(false) && parent is Some ==> opened@ == parent->0@,
{
}

/// The picture of a marker goes by the marker's name, and is loaded from what the overlay holds just
/// where it was not asked for before and is held.
pub proof fn law_pictures_of_markers(marker: MarkerType, known: bool, held: bool, step: IconStep)
    requires
        call_ensures(RenderState::marker_icon, (marker, known, held), step),
    ensures
        step is LoadBuiltIn <==> !known && held,
        step is Show <==> known || !held,
        step matches IconStep::LoadBuiltIn(key) ==> key@ == marker_name(marker),
        step matches IconStep::Show(key) ==> key@ == marker_name(marker),
{
}

/// Errors that were dismissed are not shown any more; all others stay, with their messages, and so
/// does everything else.
pub proof fn law_dismissed_errors_go(title: Seq<char>)
    ensures
        forall|state: &mut RenderState, titles: &Vec<String>| #[trigger]
            call_ensures(RenderState::dismiss, (state, titles), ()) ==> {
                let before = state.state_errors@;
                let after = final(state).state_errors@;
                &&& after.contains_key(title) <==> before.contains_key(title) && forall|i: int|
                    0 <= i < titles@.len() ==> (#[trigger] titles@[i])@ != title
                &&& after.contains_key(title) ==> after[title] == before[title]
                &&& final(state).alert == state.alert
                &&& final(state).progress_bar == state.progress_bar
                &&& final(state).engine == state.engine
                &&& final(state).timer_selection == state.timer_selection
                &&& final(state).marker_selection == state.marker_selection
            },
{
    assert forall|state: &mut RenderState, titles: &Vec<String>| #[trigger]
        call_ensures(RenderState::dismiss, (state, titles), ()) implies {
        let before = state.state_errors@;
        let after = final(state).state_errors@;
        &&& after.contains_key(title) <==> before.contains_key(title) && forall|i: int|
            0 <= i < titles@.len() ==> (#[trigger] titles@[i])@ != title
        &&& after.contains_key(title) ==> after[title] == before[title]
        &&& final(state).alert == state.alert
        &&& final(state).progress_bar == state.progress_bar
        &&& final(state).engine == state.engine
        &&& final(state).timer_selection == state.timer_selection
        &&& final(state).marker_selection == state.marker_selection
    } by {
        let gone = titles.deep_view();
        assert forall|i: int| 0 <= i < titles@.len() implies #[trigger] gone[i] == titles@[i]@ by {}
        assert(gone.to_set().contains(title) <==> gone.contains(title));
        if gone.contains(title) {
            let i = choose|i: int| 0 <= i < gone.len() && gone[i] == title;
            assert(titles@[i]@ == title);
        }
        if exists|i: int| 0 <= i < titles@.len() && (#[trigger] titles@[i])@ == title {
            let i = choose|i: int| 0 <= i < titles@.len() && (#[trigger] titles@[i])@ == title;
            assert(gone[i] == title);
        }
    }
}

} // verus!

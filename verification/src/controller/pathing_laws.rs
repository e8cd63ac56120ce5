//! What holds of showing and hiding the markers of the world.
use crate::asset_form::law_extension_is_the_end;
#[allow(unused_imports)]
use crate::asset_form::ends_in_extension;
#[allow(unused_imports)]
use crate::controller::pathing::{
    lens_after, names_archive, visibility_change, visibility_control, with_control,
    with_visibility, LensAction, LoadEvent, LoadWatch, MapContext, PathingAction,
    PathingController, PathingEvent, VisibilityChange,
};
#[allow(unused_imports)]
use crate::controls::{TaimiControls, PATHING_MAP, PATHING_MINIMAP, PATHING_SPACE};
#[allow(unused_imports)]
use crate::settings::{PathingSettings, Settings};
use vstd::prelude::*;

verus! {

/// Whether the user has chosen to show markers on a map, or in the world.
pub open spec fn chosen_for(pathing: PathingSettings, context: Option<MapContext>) -> Option<bool> {
    match context {
        Some(MapContext::Global) => pathing.space.visible_map_world,
        Some(MapContext::Minimap) => pathing.space.visible_map_mini,
        None => pathing.space.visible_space,
    }
}

/// Showing or hiding markers in one place, be it the world, the world map or the minimap, sets what
/// is shown there to what was asked for, and leaves the two other places as they were.
pub proof fn law_places_are_apart(
    pathing: PathingSettings,
    context: Option<MapContext>,
    set: bool,
    other: Option<MapContext>,
)
    ensures
        chosen_for(with_visibility(pathing, context, set), other) == (if other == context {
            Some(set)
        } else {
            chosen_for(pathing, other)
        }),
{
}

/// Showing or hiding markers, however it comes about, does what was asked for, or the opposite of
/// what was so far, in the place it was asked for and in no other; it changes no other setting.
pub proof fn law_visibility_event_changes_one_place(
    before: Settings,
    after: Settings,
    context: Option<MapContext>,
    set: Option<bool>,
    is_visible: bool,
    other: Option<MapContext>,
)
    requires
        PathingController::settles(
            before,
            after,
            PathingEvent::VisibleToggle { context, set },
            is_visible,
        ),
    ensures
        after.dirty,
        after.pathing is Some,
        chosen_for(after.pathing->0, context) == Some(
            if set is Some {
                set->0
            } else {
                !is_visible
            },
        ),
        other != context ==> chosen_for(after.pathing->0, other) == (match before.pathing {
            Some(p) => chosen_for(p, other),
            None => None,
        }),
        after == (Settings { dirty: after.dirty, pathing: after.pathing, ..before }),
{
}

/// What is told outside agrees with what the settings hold: the markers are shown now just where
/// the settings say so.
pub proof fn law_told_as_set(
    before: Settings,
    after: Settings,
    action: PathingAction,
    context: Option<MapContext>,
    set: Option<bool>,
    is_visible: bool,
    quick_access: TaimiControls,
)
    requires
        PathingController::settles(
            before,
            after,
            PathingEvent::VisibleToggle { context, set },
            is_visible,
        ),
        PathingController::is_outside(
            action,
            PathingEvent::VisibleToggle { context, set },
            before,
            is_visible,
            quick_access,
        ),
    ensures
        action matches PathingAction::Visibility(change) && chosen_for(
            after.pathing->0,
            context,
        ) == Some(change.shown),
{
}

/// The lens is set up again, two frames later, where the markers in the world are shown, and
/// cleared where they are hidden; the maps do not touch it.
pub proof fn law_lens_follows_the_world(context: Option<MapContext>, set: bool)
    ensures
        lens_after(context, set) == LensAction::Keep <==> context is Some,
        lens_after(context, set) == LensAction::Clear <==> context is None && !set,
        lens_after(context, set) == (LensAction::Refresh { delay: 2 }) <==> context is None && set,
{
}

/// Each place has an input of its own.
pub proof fn law_inputs_are_apart(a: Option<MapContext>, b: Option<MapContext>)
    ensures
        visibility_control(None) == PATHING_SPACE,
        visibility_control(Some(MapContext::Global)) == PATHING_MAP,
        visibility_control(Some(MapContext::Minimap)) == PATHING_MINIMAP,
        visibility_control(a) != 0,
        a != b ==> visibility_control(a) & visibility_control(b) == 0,
{
    assert(1u32 & 2u32 == 0 && 1u32 & 4u32 == 0 && 2u32 & 4u32 == 0 && 2u32 & 1u32 == 0 && 4u32
        & 1u32 == 0 && 4u32 & 2u32 == 0) by (bit_vector);
}

/// Quick access is told of a change just where it does not show it already; what it shows then is
/// the place's input as it was set, and every other input as before.
pub proof fn law_quick_access_is_told(
    context: Option<MapContext>,
    set: bool,
    quick_access: TaimiControls,
    other: u32,
)
    requires
        other & visibility_control(context) == 0,
    ensures
        ({
            let change = visibility_change(context, set, quick_access);
            let input = visibility_control(context);
            let now = match change.quick_access {
                Some(state) => state,
                None => quick_access,
            };
            &&& change.shown == set
            &&& change.quick_access is None <==> (quick_access.bits & input != 0) == set
            &&& (now.bits & input != 0) == set
            &&& now.bits & other == quick_access.bits & other
        }),
{
    let c = visibility_control(context);
    let b = quick_access.bits;
    assert((b | c) & c != 0 && (b & !c) & c == 0 && (b | c) & other == b & other && (b & !c)
        & other == b & other && ((b | c) == b <==> b & c != 0) && ((b & !c) == b <==> b & c == 0))
        by (bit_vector)
        requires
            c == 1 || c == 2 || c == 4,
            other & c == 0,
    ;
}

/// Keys switch over just the places whose inputs were pressed, each once: the world before the
/// world map, and that before the minimap.
pub proof fn law_keys_switch_their_places(pressed: u32)
    ensures
        ({
            let places = PathingController::pressed_contexts(pressed);
            let rank = |c: Option<MapContext>|
                if c is None {
                    0int
                } else if c == Some(MapContext::Global) {
                    1
                } else {
                    2
                };
            &&& places.contains(None) <==> pressed & PATHING_SPACE != 0
            &&& places.contains(Some(MapContext::Global)) <==> pressed & PATHING_MAP != 0
            &&& places.contains(Some(MapContext::Minimap)) <==> pressed & PATHING_MINIMAP != 0
            &&& forall|i: int, j: int|
                0 <= i < j < places.len() ==> rank(#[trigger] places[i]) < rank(
                    #[trigger] places[j],
                )
        }),
{
    let places = PathingController::pressed_contexts(pressed);
    let s = (if pressed & PATHING_SPACE != 0 {
        seq![None::<MapContext>]
    } else {
        Seq::empty()
    });
    let m = (if pressed & PATHING_MAP != 0 {
        seq![Some(MapContext::Global)]
    } else {
        Seq::empty()
    });
    let n = (if pressed & PATHING_MINIMAP != 0 {
        seq![Some(MapContext::Minimap)]
    } else {
        Seq::empty()
    });
    assert(places =~= s + m + n);
    if s.len() > 0 {
        assert(places[0] is None);
    }
    if m.len() > 0 {
        assert(places[s.len() as int] == Some(MapContext::Global));
    }
    if n.len() > 0 {
        assert(places[(s + m).len() as int] == Some(MapContext::Minimap));
    }
}

/// Each event asks for its own thing outside.
pub proof fn law_events_ask_for_their_own(
    action: PathingAction,
    event: PathingEvent,
    settings: Settings,
    is_visible: bool,
    quick_access: TaimiControls,
)
    requires
        PathingController::is_outside(action, event, settings, is_visible, quick_access),
    ensures
        action is Reload <==> event is ReloadAll,
        action is Load <==> event is LoadAll,
        action is Unload <==> event is UnloadAll,
        action is ProvideDisabledPaths <==> event is RequestDisabledPaths,
        action is UpdatePath <==> event is PathingStateUpdate,
        action is Visibility <==> event is VisibleToggle,
        action is Nothing <==> event is ToggleKatRender,
        (event matches PathingEvent::PathingStateUpdate(path, state) ==> action
            == PathingAction::UpdatePath(path, state)),
        (action matches PathingAction::ProvideDisabledPaths(paths) ==> paths.deep_view()
            == settings.disabled_paths.names()),
{
}

/// The settings change, and must be saved, just where an event asks for it: the drawing of timers
/// is switched over by its own event alone, and no event but one about visibility touches what is
/// shown.
pub proof fn law_settings_change_where_asked(
    before: Settings,
    after: Settings,
    event: PathingEvent,
    is_visible: bool,
)
    requires
        PathingController::settles(before, after, event, is_visible),
    ensures
        after.dirty == (before.dirty || event is PathingStateUpdate || event is ToggleKatRender
            || event is VisibleToggle),
        after.enable_katrender == (before.enable_katrender != (event is ToggleKatRender)),
        !(event is VisibleToggle) ==> after.pathing == before.pathing,
        after == (Settings {
            dirty: after.dirty,
            enable_katrender: after.enable_katrender,
            pathing: after.pathing,
            ..before
        }),
{
}

/// A pack that is not a file is an archive just where its name ends in one of the two endings of
/// archives behind something, whatever the case of the letters.
pub proof fn law_archives_go_by_their_names(name: Seq<char>)
    ensures
        names_archive(Some(name)) <==> ends_in_extension(name, "taco"@) || ends_in_extension(
            name,
            "zip"@,
        ),
        !names_archive(None),
{
    reveal_strlit("taco");
    reveal_strlit("zip");
    law_extension_is_the_end(name, "taco"@);
    law_extension_is_the_end(name, "zip"@);
}

/// While packs are loading, the engine is told at a pause or at the end, never as a pack comes in;
/// and the pause is waited for only while there is something to tell.
pub proof fn law_told_at_a_pause(watch: LoadWatch, event: LoadEvent, timeout: Option<u64>)
    requires
        call_ensures(LoadWatch::timeout, (&watch,), timeout),
    ensures
        watch.sends(event) ==> event is TimedOut || event is Finished,
        watch.sends(event) ==> !watch.after(event).dirty,
        !(event is Ended) ==> (watch.sends(event) <==> watch.dirty),
        watch.after(event).dirty <==> (event is Ended && (watch.dirty || event == LoadEvent::Ended(
            true,
        ))),
        timeout is Some <==> watch.dirty,
        timeout is Some ==> timeout->0 == 174,
{
}

/// Showing or hiding markers in a place sets what is shown there to what was asked for, or to the
/// opposite of what was so far; it leaves the two other places and all other settings as they were,
/// and tells what is shown now.
pub proof fn law_markers_are_shown_where_asked(other: Option<MapContext>)
    ensures
        forall|
            settings: &mut Settings,
            context: Option<MapContext>,
            set: Option<bool>,
            is_visible: bool,
            quick_access: TaimiControls,
            change: VisibilityChange,
        | #[trigger]
            call_ensures(
                PathingController::set_visible,
                (settings, context, set, is_visible, quick_access),
                change,
            ) ==> {
                let shown = if set is Some {
                    set->0
                } else {
                    !is_visible
                };
                &&& change.shown == shown
                &&& final(settings).pathing is Some
                &&& chosen_for(final(settings).pathing->0, context) == Some(shown)
                &&& other != context ==> chosen_for(final(settings).pathing->0, other) == (
                match settings.pathing {
                    Some(p) => chosen_for(p, other),
                    None => None,
                })
                &&& *final(settings) == (Settings {
                    dirty: true,
                    pathing: final(settings).pathing,
                    ..*settings
                })
            },
{
}

/// A pack goes by its own name where it has one that is not empty, and else by that of its file.
pub proof fn law_packs_are_named(own: String, file: String, named: String)
    requires
        call_ensures(PathingController::pathing_load_pack, (own, file), named),
    ensures
        own@.len() > 0 ==> named@ == own@,
        own@.len() == 0 ==> named@ == file@,
{
}

/// Showing or hiding markers twice in a place, with nothing asked for, brings back what was shown
/// there first.
pub proof fn law_shown_and_hidden_again(context: Option<MapContext>)
    ensures
        forall|
            first: &mut Settings,
            second: &mut Settings,
            shown: bool,
            quick_access: TaimiControls,
            once: VisibilityChange,
            twice: VisibilityChange,
        |
            *second == *final(first) && #[trigger] call_ensures(
                PathingController::set_visible,
                (first, context, None, shown, quick_access),
                once,
            ) && #[trigger] call_ensures(
                PathingController::set_visible,
                (second, context, None, once.shown, quick_access),
                twice,
            ) ==> once.shown != shown && twice.shown == shown && final(second).pathing is Some
                && chosen_for(final(second).pathing->0, context) == Some(shown),
{
}

} // verus!

//! What holds of the settings after any change to them.
#[allow(unused_imports)]
use crate::marker_set::MarkerSettings;
#[allow(unused_imports)]
use crate::settings::{
    default_pathing, marker_off, marker_toggled, restyled, timer_off, timer_toggled, window_of,
    Commit, PathingSettings, ProgressBarSettings, ProgressBarStyleChange, Settings, TimerSettings,
    Window,
};
#[allow(unused_imports)]
use crate::clock::Timestamp;
#[allow(unused_imports)]
use crate::controls::TaimiControls;
#[allow(unused_imports)]
use crate::remotes::{with_reports, UpdateReport};
#[allow(unused_imports)]
use crate::remotes_laws::{
    is_first_of_its_name, is_last_on, law_last_report_counts, law_reports_make_no_records,
};
#[allow(unused_imports)]
use crate::squad::MarkerAutoPlaceSettings;
use vstd::prelude::*;

verus! {

/// A change to how bars are drawn changes what it names to what it says, and nothing else.
pub proof fn law_bar_changes_one_thing(bar: ProgressBarSettings, change: ProgressBarStyleChange)
    ensures
        ({
            let after = restyled(bar, change);
            &&& after.centre_after == (if change is Centre {
                change->Centre_0
            } else {
                bar.centre_after
            })
            &&& after.stock == (if change is Stock {
                change->Stock_0
            } else {
                bar.stock
            })
            &&& after.shadow == (if change is Shadow {
                change->Shadow_0
            } else {
                bar.shadow
            })
            &&& after.height == (if change is Height {
                change->Height_0
            } else {
                bar.height
            })
            &&& after.font == (if change is Font {
                change->Font_0
            } else {
                bar.font
            })
        }),
{
}

/// Of two changes to how bars are drawn, the order makes no difference unless they are to the same
/// thing; and then the later one counts.
pub proof fn law_bar_changes_in_a_row(
    bar: ProgressBarSettings,
    a: ProgressBarStyleChange,
    b: ProgressBarStyleChange,
)
    ensures
        restyled(restyled(bar, a), b) == restyled(restyled(bar, b), a) || restyled(
            restyled(bar, a),
            b,
        ) == restyled(bar, b),
        restyled(restyled(bar, a), a) == restyled(bar, a),
{
}

/// A timer is off just where the settings hold it as switched off; so is a marker set.
pub proof fn law_off_where_it_is_held_so(
    timers: Map<Seq<char>, TimerSettings>,
    markers: Map<Seq<char>, MarkerSettings>,
    name: Seq<char>,
)
    ensures
        timer_off(timers, name) <==> timers.contains_key(name) && timers[name].disabled,
        marker_off(markers, name) <==> markers.contains_key(name) && markers[name].disabled,
{
}

/// Switching a timer over takes it off the settings where it was off, and else puts it there as off;
/// what the settings hold of any other timer stays.
pub proof fn law_timer_switched_over(
    timers: Map<Seq<char>, TimerSettings>,
    timer: Seq<char>,
    other: Seq<char>,
)
    ensures
        ({
            let after = timer_toggled(timers, timer);
            let was_off = timers.contains_key(timer) && timers[timer].disabled;
            &&& was_off ==> !after.contains_key(timer)
            &&& !was_off ==> after.contains_key(timer) && after[timer].disabled
            &&& other != timer ==> after.contains_key(other) == timers.contains_key(other) && (
            timers.contains_key(other) ==> after[other] == timers[other])
        }),
{
}

/// Switching a marker set over puts it in the settings as the opposite of what they held it to be,
/// or as off where they did not know it; what they hold of any other set stays.
pub proof fn law_marker_switched_over(
    markers: Map<Seq<char>, MarkerSettings>,
    marker: Seq<char>,
    other: Seq<char>,
)
    ensures
        ({
            let after = marker_toggled(markers, marker);
            &&& after.contains_key(marker)
            &&& after[marker].disabled == !(markers.contains_key(marker)
                && markers[marker].disabled)
            &&& other != marker ==> after.contains_key(other) == markers.contains_key(other) && (
            markers.contains_key(other) ==> after[other] == markers[other])
        }),
{
}

/// A name is that of a window just where it is one of the four.
pub proof fn law_names_of_windows(name: Seq<char>)
    ensures
        window_of(name) == Some(Window::Primary) <==> name == "primary"@,
        window_of(name) == Some(Window::Timers) <==> name == "timers"@,
        window_of(name) == Some(Window::Markers) <==> name == "markers"@,
        window_of(name) == Some(Window::Pathing) <==> name == "pathing"@,
{
    crate::settings::law_windows_have_names();
}

/// Opening or closing a window touches the state of that window and nothing else of the settings.
pub proof fn law_window_state_alone_changes(settings: Settings, window: Window, state: bool)
    ensures
        ({
            let after = settings.with_window(window, state);
            &&& after.primary_window_open == (if window == Window::Primary {
                state
            } else {
                settings.primary_window_open
            })
            &&& after.timers_window_open == (if window == Window::Timers {
                state
            } else {
                settings.timers_window_open
            })
            &&& after.markers_window_open == (if window == Window::Markers {
                state
            } else {
                settings.markers_window_open
            })
            &&& after.pathing_window_open == (if window == Window::Pathing {
                state
            } else {
                settings.pathing_window_open
            })
            &&& after == (Settings {
                primary_window_open: after.primary_window_open,
                timers_window_open: after.timers_window_open,
                markers_window_open: after.markers_window_open,
                pathing_window_open: after.pathing_window_open,
                ..settings
            })
            &&& settings.window_open(Window::Primary) == settings.primary_window_open
            &&& settings.window_open(Window::Timers) == settings.timers_window_open
            &&& settings.window_open(Window::Markers) == settings.markers_window_open
            &&& settings.window_open(Window::Pathing) == settings.pathing_window_open
        }),
{
}

/// The settings must be saved where they were changed, or where what is remembered of the windows
/// was; committing leaves neither so, and a write that failed leaves them to be saved.
pub proof fn law_when_to_save(settings: Settings, written: bool)
    ensures
        settings.unsaved() <==> settings.dirty || settings.ui_state.dirty,
        !settings.committed().dirty,
        !settings.committed().ui_state.dirty,
        settings.after_write(written).dirty == (settings.dirty || !written),
        settings.after_write(written).ui_state == settings.ui_state,
        settings.committed() == (Settings {
            dirty: false,
            ui_state: settings.committed().ui_state,
            ..settings
        }),
{
}

/// Before the user has chosen anything, nothing is chosen of the markers of the world; what was
/// chosen counts.
pub proof fn law_nothing_chosen_at_first(settings: Settings)
    ensures
        default_pathing().space.visible_space is None,
        default_pathing().space.visible_map_world is None,
        default_pathing().space.visible_map_mini is None,
        settings.pathing is Some ==> settings.pathing_or_default() == settings.pathing->0,
        settings.pathing is None ==> settings.pathing_or_default() == default_pathing(),
{
}

/// Two settings that hold the same of everything but the timers, the marker sets, and whether they
/// must be saved.
pub open spec fn same_but_for_switches(a: Settings, b: Settings) -> bool {
    a == (Settings { timers: a.timers, markers: a.markers, dirty: a.dirty, ..b })
}

/// Switching a timer over, off or on does so, tells whether it is off where it tells, and touches
/// no other timer and nothing else.
pub proof fn law_timers_are_switched(other: Seq<char>)
    ensures
        forall|s: &mut Settings, timer: String, off: bool| #[trigger]
            call_ensures(Settings::toggle_timer, (s, timer), off) ==> {
                &&& off == !timer_off(s.timers@, timer@)
                &&& timer_off(final(s).timers@, timer@) == off
                &&& other != timer@ ==> timer_off(final(s).timers@, other) == timer_off(
                    s.timers@,
                    other,
                )
                &&& final(s).markers == s.markers
                &&& same_but_for_switches(*final(s), *s)
            },
        forall|s: &mut Settings, timer: String| #[trigger]
            call_ensures(Settings::disable_timer, (s, timer), ()) ==> {
                &&& timer_off(final(s).timers@, timer@)
                &&& other != timer@ ==> timer_off(final(s).timers@, other) == timer_off(
                    s.timers@,
                    other,
                )
                &&& final(s).markers == s.markers
                &&& same_but_for_switches(*final(s), *s)
            },
        forall|s: &mut Settings, timer: String| #[trigger]
            call_ensures(Settings::enable_timer, (s, timer), ()) ==> {
                &&& !timer_off(final(s).timers@, timer@)
                &&& other != timer@ ==> timer_off(final(s).timers@, other) == timer_off(
                    s.timers@,
                    other,
                )
                &&& final(s).markers == s.markers
                &&& same_but_for_switches(*final(s), *s)
            },
{
}

/// Switching a marker set over, off or on does so, tells whether it is off where it tells, and
/// touches no other set and nothing else.
pub proof fn law_marker_sets_are_switched(other: Seq<char>)
    ensures
        forall|s: &mut Settings, marker: String, off: bool| #[trigger]
            call_ensures(Settings::toggle_marker, (s, marker), off) ==> {
                &&& off == !marker_off(s.markers@, marker@)
                &&& marker_off(final(s).markers@, marker@) == off
                &&& other != marker@ ==> marker_off(final(s).markers@, other) == marker_off(
                    s.markers@,
                    other,
                )
                &&& final(s).timers == s.timers
                &&& same_but_for_switches(*final(s), *s)
            },
        forall|s: &mut Settings, marker: String| #[trigger]
            call_ensures(Settings::disable_marker, (s, marker), ()) ==> {
                &&& marker_off(final(s).markers@, marker@)
                &&& other != marker@ ==> marker_off(final(s).markers@, other) == marker_off(
                    s.markers@,
                    other,
                )
                &&& final(s).timers == s.timers
                &&& same_but_for_switches(*final(s), *s)
            },
        forall|s: &mut Settings, marker: String| #[trigger]
            call_ensures(Settings::enable_marker, (s, marker), ()) ==> {
                &&& !marker_off(final(s).markers@, marker@)
                &&& other != marker@ ==> marker_off(final(s).markers@, other) == marker_off(
                    s.markers@,
                    other,
                )
                &&& final(s).timers == s.timers
                &&& same_but_for_switches(*final(s), *s)
            },
{
}

/// A window is opened, closed or switched over by its name, and every other window stays as it is; a
/// name of no window changes nothing.
pub proof fn law_windows_are_opened_by_name()
    ensures
        forall|s: &mut Settings, name: &str, state: Option<bool>| #[trigger]
            call_ensures(Settings::set_window_state, (s, name, state), ()) ==> {
                let now = |was: bool|
                    match state {
                        Some(open) => open,
                        None => !was,
                    };
                &&& final(s).primary_window_open == (if name@ == "primary"@ {
                    now(s.primary_window_open)
                } else {
                    s.primary_window_open
                })
                &&& final(s).timers_window_open == (if name@ == "timers"@ {
                    now(s.timers_window_open)
                } else {
                    s.timers_window_open
                })
                &&& final(s).markers_window_open == (if name@ == "markers"@ {
                    now(s.markers_window_open)
                } else {
                    s.markers_window_open
                })
                &&& final(s).pathing_window_open == (if name@ == "pathing"@ {
                    now(s.pathing_window_open)
                } else {
                    s.pathing_window_open
                })
                &&& *final(s) == (Settings {
                    primary_window_open: final(s).primary_window_open,
                    timers_window_open: final(s).timers_window_open,
                    markers_window_open: final(s).markers_window_open,
                    pathing_window_open: final(s).pathing_window_open,
                    ..*s
                })
            },
{
    crate::settings::law_windows_have_names();
}

/// The settings are to be saved just where something in them or in the windows has changed; a commit
/// that says so takes all for saved, and a write that failed takes that back. None of it changes
/// what is set.
pub proof fn law_changes_are_saved()
    ensures
        forall|s: &mut Settings, commit: Commit| #[trigger]
            call_ensures(Settings::try_commit, (s,), commit) ==> {
                &&& commit == Commit::Save <==> s.dirty || s.ui_state.dirty
                &&& !final(s).dirty && !final(s).ui_state.dirty
                &&& *final(s) == (Settings {
                    dirty: final(s).dirty,
                    ui_state: final(s).ui_state,
                    ..*s
                })
            },
        forall|s: &mut Settings, written: bool| #[trigger]
            call_ensures(Settings::save_to, (s, written), ()) ==> {
                &&& final(s).dirty == (s.dirty || !written)
                &&& *final(s) == (Settings { dirty: final(s).dirty, ..*s })
            },
        forall|s: &mut Settings| #[trigger]
            call_ensures(Settings::mark_dirty, (s,), ()) ==> final(s).dirty && *final(s) == (
            Settings { dirty: true, ..*s }),
        forall|s: &Settings, r: bool| #[trigger]
            call_ensures(Settings::is_dirty, (s,), r) ==> r == (s.dirty || s.ui_state.dirty),
{
}

/// The other switches and choices change what they name and nothing else.
pub proof fn law_single_choices()
    ensures
        forall|s: &mut Settings| #[trigger]
            call_ensures(Settings::toggle_katrender, (s,), ()) ==> final(s).enable_katrender
                != s.enable_katrender && *final(s) == (Settings {
                enable_katrender: final(s).enable_katrender,
                ..*s
            }),
        forall|s: &mut Settings, maps: &MarkerAutoPlaceSettings| #[trigger]
            call_ensures(Settings::set_marker_autoplace_settings, (s, maps), ()) ==> final(
                s).marker_autoplace == *maps && *final(s) == (Settings {
                marker_autoplace: *maps,
                ..*s
            }),
        forall|s: &mut Settings, change: ProgressBarStyleChange, bar: ProgressBarSettings|
            #[trigger]
            call_ensures(Settings::set_progress_bar, (s, change), bar) ==> {
                &&& final(s).progress_bar == bar
                &&& change matches ProgressBarStyleChange::Centre(t) ==> bar == (
                ProgressBarSettings { centre_after: t, ..s.progress_bar })
                &&& change matches ProgressBarStyleChange::Stock(t) ==> bar == (
                ProgressBarSettings { stock: t, ..s.progress_bar })
                &&& change matches ProgressBarStyleChange::Shadow(t) ==> bar == (
                ProgressBarSettings { shadow: t, ..s.progress_bar })
                &&& change matches ProgressBarStyleChange::Height(h) ==> bar == (
                ProgressBarSettings { height: h, ..s.progress_bar })
                &&& change matches ProgressBarStyleChange::Font(f) ==> bar == (
                ProgressBarSettings { font: f, ..s.progress_bar })
                &&& *final(s) == (Settings { progress_bar: bar, ..*s })
            },
{
}

/// An update check leaves each record's state as the last report on it says, and the time at which
/// it ended; it changes nothing else of any record or of the settings.
pub proof fn law_update_check_is_taken_over()
    ensures
        forall|s: &mut Settings, reports: Vec<UpdateReport>, now: Timestamp| #[trigger]
            call_ensures(Settings::check_for_updates_at, (s, reports, now), ()) ==> {
                &&& final(s).last_checked == Some(now)
                &&& final(s).remotes@.len() == s.remotes@.len()
                &&& forall|i: int, k: int|
                    0 <= i < s.remotes@.len() && is_first_of_its_name(s.remotes@, i)
                        && #[trigger] is_last_on(reports@, s.remotes@[i], k) ==> final(
                        s).remotes@[i].needs_update == reports@[k].state
                &&& forall|i: int|
                    0 <= i < s.remotes@.len() ==> (#[trigger] final(s).remotes@[i]).installed_path
                        == s.remotes@[i].installed_path && final(s).remotes@[i].kind
                        == s.remotes@[i].kind && final(s).remotes@[i].name == s.remotes@[i].name
                &&& *final(s) == (Settings {
                    remotes: final(s).remotes,
                    last_checked: final(s).last_checked,
                    ..*s
                })
            },
{
    assert forall|s: &mut Settings, reports: Vec<UpdateReport>, now: Timestamp| #[trigger]
        call_ensures(Settings::check_for_updates_at, (s, reports, now), ()) implies {
        &&& final(s).last_checked == Some(now)
        &&& final(s).remotes@.len() == s.remotes@.len()
        &&& forall|i: int, k: int|
            0 <= i < s.remotes@.len() && is_first_of_its_name(s.remotes@, i)
                && #[trigger] is_last_on(reports@, s.remotes@[i], k) ==> final(
                s).remotes@[i].needs_update == reports@[k].state
        &&& forall|i: int|
            0 <= i < s.remotes@.len() ==> (#[trigger] final(s).remotes@[i]).installed_path
                == s.remotes@[i].installed_path && final(s).remotes@[i].kind == s.remotes@[i].kind
                && final(s).remotes@[i].name == s.remotes@[i].name
    } by {
        let before = s.remotes@;
        assert(with_reports(before, reports@).len() == before.len()) by {
            law_reports_make_no_records(before, reports@);
        }
        assert forall|i: int, k: int|
            0 <= i < before.len() && is_first_of_its_name(before, i) && #[trigger] is_last_on(
                reports@,
                before[i],
                k,
            ) implies with_reports(before, reports@)[i].needs_update == reports@[k].state by {
            law_last_report_counts(before, reports@, i);
        }
        assert forall|i: int| 0 <= i < before.len() implies (#[trigger] with_reports(
            before,
            reports@,
        )[i]).installed_path == before[i].installed_path && with_reports(before, reports@)[i].kind
            == before[i].kind && with_reports(before, reports@)[i].name == before[i].name by {
            law_last_report_counts(before, reports@, i);
        }
    }
}

/// In new settings nothing is switched off, no data is recorded, no window is open, nothing is
/// placed by itself, nothing was chosen, and there is nothing to save.
pub proof fn law_new_settings(
    addon_dir: &str,
    progress_bar: ProgressBarSettings,
    quick_access: TaimiControls,
    made: Settings,
    name: Seq<char>,
)
    requires
        call_ensures(Settings::new, (addon_dir, progress_bar, quick_access), made),
    ensures
        made.addon_dir@ == addon_dir@,
        made.progress_bar == progress_bar,
        made.quick_access_visible == quick_access,
        !timer_off(made.timers@, name),
        !marker_off(made.markers@, name),
        !made.disabled_paths@.contains_key(name),
        made.remotes@.len() == 0,
        made.last_checked is None,
        !made.primary_window_open,
        !made.timers_window_open,
        !made.markers_window_open,
        !made.pathing_window_open,
        !made.enable_katrender,
        made.dpi_scaling is None,
        made.quick_access_style is None,
        made.marker_autoplace == MarkerAutoPlaceSettings::DoNothing,
        made.arc is None,
        made.pathing is None,
        !made.dirty,
        !made.ui_state.dirty,
{
}

/// Settings that were read are kept as they are but for the directory, which is the one that they
/// were read from; where there were none, new ones take their place.
pub proof fn law_read_settings_are_kept(
    read: Option<Settings>,
    addon_dir: &str,
    progress_bar: ProgressBarSettings,
    quick_access: TaimiControls,
    loaded: Settings,
)
    requires
        call_ensures(Settings::load, (read, addon_dir, progress_bar, quick_access), loaded),
    ensures
        loaded.addon_dir@ == addon_dir@,
        read matches Some(s) ==> loaded == (Settings { addon_dir: loaded.addon_dir, ..s }),
        read is None ==> loaded.progress_bar == progress_bar && loaded.timers@.dom().len() == 0
            && loaded.markers@.dom().len() == 0 && loaded.remotes@.len() == 0 && !loaded.dirty,
{
}

} // verus!

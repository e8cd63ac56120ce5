use taimi_hud::clock::Timestamp;
use taimi_hud::controls::TaimiControls;
use taimi_hud::font::TextFont;
use taimi_hud::marker_set::MarkerSettings;
use taimi_hud::remotes::{NeedsUpdate, RemoteState, UpdateReport};
use taimi_hud::settings::{
    find_window, Commit, PathingSettings, ProgressBarSettings, ProgressBarStyleChange, Settings,
    TimerSettings, UiState, Window,
};
use taimi_hud::sources::{DeserializedSource, DirectSource, SourceKind};
use taimi_hud::squad::{MarkerAutoPlaceSettings, SquadCondition};

fn bar() -> ProgressBarSettings {
    ProgressBarSettings {
        centre_after: false,
        stock: false,
        shadow: true,
        height: 24.0f32.to_bits(),
        font: TextFont::Ui,
    }
}

fn settings() -> Settings {
    Settings::new("addons/hud", bar(), TaimiControls { bits: 3 })
}

fn remote(kind: SourceKind, name: &str, path: Option<&str>) -> RemoteState {
    RemoteState {
        kind,
        name: name.to_string(),
        source: DeserializedSource::Direct(DirectSource {
            name: name.to_string(),
            url: "https://example.com/a.zip".to_string(),
        }),
        installed_path: path.map(|p| p.to_string()),
        needs_update: NeedsUpdate::Unknown,
    }
}

#[test]
fn windows_are_found_by_name() {
    assert_eq!(find_window("primary"), Some(Window::Primary));
    assert_eq!(find_window("timers"), Some(Window::Timers));
    assert_eq!(find_window("markers"), Some(Window::Markers));
    assert_eq!(find_window("pathing"), Some(Window::Pathing));
    assert_eq!(find_window("Primary"), None);
    assert_eq!(find_window(""), None);
}

#[test]
fn new_settings_are_clean_and_empty() {
    let s = settings();
    assert_eq!(s.addon_dir, "addons/hud");
    assert_eq!(s.timers.len(), 0);
    assert_eq!(s.markers.len(), 0);
    assert!(s.remotes.is_empty());
    assert!(!s.is_dirty());
    assert!(!s.primary_window_open && !s.timers_window_open);
    assert!(!s.markers_window_open && !s.pathing_window_open);
    assert_eq!(s.progress_bar, bar());
    assert_eq!(s.quick_access_visible, TaimiControls { bits: 3 });
    assert_eq!(s.marker_autoplace, MarkerAutoPlaceSettings::DoNothing);
    assert!(s.last_checked.is_none());
    assert!(s.quick_access_style.is_none());
}

#[test]
fn window_state_is_set_or_switched_over() {
    let mut s = settings();
    s.set_window_state("timers", Some(true));
    assert!(s.timers_window_open);
    s.set_window_state("timers", None);
    assert!(!s.timers_window_open);
    s.set_window_state("markers", None);
    assert!(s.markers_window_open);
    s.set_window_state("nowhere", Some(true));
    assert!(!s.primary_window_open && !s.pathing_window_open && !s.timers_window_open);
    *s.get_window_state_mut("pathing").unwrap() = true;
    assert!(s.pathing_window_open);
    assert!(s.get_window_state_mut("nowhere").is_none());
}

#[test]
fn toggling_a_timer_twice_leaves_no_trace() {
    let mut s = settings();
    assert!(s.toggle_timer("a".to_string()));
    assert_eq!(s.timers.get("a"), Some(&TimerSettings { disabled: true }));
    assert_eq!(s.count_disabled_timers(), 1);
    assert!(!s.toggle_timer("a".to_string()));
    assert!(s.timers.get("a").is_none());
    assert_eq!(s.count_disabled_timers(), 0);
}

#[test]
fn disabled_timers_are_counted() {
    let mut s = settings();
    s.disable_timer("a".to_string());
    s.disable_timer("b".to_string());
    s.enable_timer("c".to_string());
    s.disable_timer("a".to_string());
    assert_eq!(s.count_disabled_timers(), 2);
    s.enable_timer("a".to_string());
    assert_eq!(s.count_disabled_timers(), 1);
    assert_eq!(s.timers.get("a"), Some(&TimerSettings { disabled: false }));
    assert!(s.toggle_timer("c".to_string()));
    assert_eq!(s.count_disabled_timers(), 2);
}

#[test]
fn toggling_a_marker_keeps_its_entry() {
    let mut s = settings();
    assert!(s.toggle_marker("m".to_string()));
    assert!(!s.toggle_marker("m".to_string()));
    assert_eq!(s.markers.get("m"), Some(&MarkerSettings { disabled: false }));
    s.disable_marker("m".to_string());
    assert_eq!(s.markers.get("m"), Some(&MarkerSettings { disabled: true }));
    s.enable_marker("n".to_string());
    assert_eq!(s.markers.get("n"), Some(&MarkerSettings { disabled: false }));
}

#[test]
fn marker_settings_switch() {
    let mut m = MarkerSettings::default();
    assert!(!m.disabled);
    m.disable();
    assert!(m.disabled);
    assert!(!m.toggle());
    m.enable();
    assert!(!m.disabled);
}

#[test]
fn progress_bar_changes_one_field_at_a_time() {
    let mut s = settings();
    let r = s.set_progress_bar(ProgressBarStyleChange::Centre(true));
    assert_eq!(r, ProgressBarSettings { centre_after: true, ..bar() });
    let r = s.set_progress_bar(ProgressBarStyleChange::Height(30.5f32.to_bits()));
    assert_eq!(f32::from_bits(r.height), 30.5);
    let r = s.set_progress_bar(ProgressBarStyleChange::Font(TextFont::Big));
    assert_eq!(r.font, TextFont::Big);
    let r = s.set_progress_bar(ProgressBarStyleChange::Stock(true));
    assert!(r.stock);
    let r = s.set_progress_bar(ProgressBarStyleChange::Shadow(false));
    assert!(!r.shadow && r.stock && r.centre_after);
    assert_eq!(s.progress_bar, r);
}

#[test]
fn katrender_and_autoplace_are_set() {
    let mut s = settings();
    s.toggle_katrender();
    assert!(s.enable_katrender);
    s.toggle_katrender();
    assert!(!s.enable_katrender);
    let wanted = MarkerAutoPlaceSettings::Place(SquadCondition::IfCommander);
    s.set_marker_autoplace_settings(&wanted);
    assert_eq!(s.marker_autoplace, wanted);
}

#[test]
fn settings_file_lies_in_the_directory() {
    let path = Settings::file_path("addons/hud");
    assert!(path == "addons/hud/settings.json" || path == "addons/hud\\settings.json");
}

#[test]
fn unsaved_settings_are_saved_until_written() {
    let mut s = settings();
    assert_eq!(s.try_commit(), Commit::Clean);
    s.mark_dirty();
    assert!(s.is_dirty());
    assert_eq!(s.try_commit(), Commit::Save);
    assert!(!s.is_dirty());
    s.save_to(false);
    assert!(s.is_dirty());
    assert_eq!(s.try_commit(), Commit::Save);
    s.save_to(true);
    assert_eq!(s.try_commit(), Commit::Clean);
}

#[test]
fn window_state_alone_makes_settings_unsaved() {
    let mut s = settings();
    s.ui_state = UiState { dirty: true };
    assert!(s.is_dirty());
    assert!(s.is_state_dirty());
    assert_eq!(s.try_commit(), Commit::Save);
    assert!(!s.is_state_dirty());
}

#[test]
fn read_settings_belong_to_their_directory() {
    let mut read = settings();
    read.addon_dir = String::new();
    read.enable_katrender = true;
    let s = Settings::load(Some(read), "there", bar(), TaimiControls { bits: 0 });
    assert_eq!(s.addon_dir, "there");
    assert!(s.enable_katrender);
    assert_eq!(s.quick_access_visible, TaimiControls { bits: 3 });
    let s = Settings::load(None, "there", bar(), TaimiControls { bits: 9 });
    assert!(!s.enable_katrender);
    assert_eq!(s.quick_access_visible, TaimiControls { bits: 9 });
}

#[test]
fn settings_that_cannot_be_read_are_new_and_kept_aside() {
    let mut good = settings();
    good.markers_window_open = true;
    let (s, aside) = Settings::load_default(Ok::<Settings, ()>(good), "d", bar(), TaimiControls { bits: 0 });
    assert!(s.markers_window_open && !aside);
    let (s, aside) =
        Settings::load_default(Err::<Settings, ()>(()), "d", bar(), TaimiControls { bits: 0 });
    assert!(!s.markers_window_open && aside);
    assert_eq!(s.addon_dir, "d");
}

#[test]
fn optional_settings_are_made_when_changed() {
    let mut s = settings();
    assert_eq!(s.arc().text, "");
    assert!(!s.dirty);
    s.arc_mut().text = "x".to_string();
    assert!(s.dirty);
    assert_eq!(s.arc().text, "x");
    let mut s = settings();
    assert_eq!(s.pathing(), PathingSettings::default());
    s.pathing_mut().space.visible_map_mini = Some(true);
    assert!(s.dirty);
    assert_eq!(s.pathing().space.visible_map_mini, Some(true));
    assert_eq!(s.pathing().space.visible_space, None);
}

#[test]
fn installed_places_are_listed() {
    let mut s = settings();
    s.remotes.push(remote(SourceKind::Timers, "a", Some("timers/a")));
    s.remotes.push(remote(SourceKind::Timers, "b", None));
    s.remotes.push(remote(SourceKind::Markers, "a", Some("markers/a")));
    assert_eq!(s.get_paths(), vec!["timers/a", "markers/a"]);
}

#[test]
fn a_download_is_stored_in_the_place_of_the_old_record() {
    let mut s = settings();
    s.remotes.push(remote(SourceKind::Timers, "a", Some("timers/old")));
    s.remotes.push(remote(SourceKind::Markers, "a", None));
    let (at, commit) = s.download_latest(
        remote(SourceKind::Timers, "a", Some("timers/new")),
        Ok(("v2".to_string(), "timers/new".to_string())),
        None,
    );
    assert_eq!(at, 0);
    assert_eq!(s.remotes.len(), 2);
    assert_eq!(s.remotes[0].installed_path.as_deref(), Some("timers/new"));
    assert_eq!(commit.tag.as_deref(), Some("v2"));
    assert_eq!(commit.install_dest.as_deref(), Some("timers/new"));
    assert!(commit.result.is_ok());
    let (at, commit) = s.download_latest(
        remote(SourceKind::Pathing, "p", None),
        Err("no net".to_string()),
        None,
    );
    assert_eq!(at, 2);
    assert_eq!(s.remotes.len(), 3);
    assert!(commit.tag.is_none() && commit.install_dest.is_none());
    assert_eq!(commit.result, Err("no net".to_string()));
    let (_, commit) = s.download_latest(
        remote(SourceKind::Pathing, "p", None),
        Ok(("v3".to_string(), "p".to_string())),
        Some("busy".to_string()),
    );
    assert_eq!(commit.tag.as_deref(), Some("v3"));
    assert_eq!(commit.result, Err("busy".to_string()));
}

#[test]
fn update_checks_change_known_sources_only() {
    let mut s = settings();
    s.remotes.push(remote(SourceKind::Timers, "a", None));
    s.remotes.push(remote(SourceKind::Timers, "b", None));
    let now = Timestamp { secs: 5, nanos: 7 };
    s.check_for_updates_at(
        vec![
            UpdateReport {
                kind: SourceKind::Timers,
                name: "b".to_string(),
                state: NeedsUpdate::Known(true, "v9".to_string()),
            },
            UpdateReport {
                kind: SourceKind::Markers,
                name: "a".to_string(),
                state: NeedsUpdate::Error("x".to_string()),
            },
        ],
        now,
    );
    assert!(matches!(s.remotes[0].needs_update, NeedsUpdate::Unknown));
    assert!(matches!(&s.remotes[1].needs_update, NeedsUpdate::Known(true, v) if v == "v9"));
    assert_eq!(s.last_checked, Some(now));
    s.check_for_updates(vec![]);
    assert!(s.last_checked.unwrap().secs > 1_600_000_000);
    assert!(matches!(&s.remotes[1].needs_update, NeedsUpdate::Known(true, _)));
}

use taimi_hud::remotes::{
    list_update_targets, lookup_datasource, must_remove_old, removal_due, NeedsUpdate, RemoteState,
    UpdateTone,
};
use taimi_hud::settings::Settings;
use taimi_hud::source_dir::{
    collect_places, place_below, place_when, Directory, OpenError, Polled, SourceDirWalk, WalkStep,
};
use taimi_hud::controls::TaimiControls;
use taimi_hud::font::TextFont;
use taimi_hud::settings::ProgressBarSettings;
use taimi_hud::sources::{DeserializedSource, DirectSource, GitHubSource, Source, SourceKind};

fn direct(name: &str, url: &str) -> DeserializedSource {
    DeserializedSource::Direct(DirectSource { name: name.to_string(), url: url.to_string() })
}

fn remote(kind: SourceKind, name: &str, path: Option<&str>) -> RemoteState {
    RemoteState {
        kind,
        name: name.to_string(),
        source: direct(name, "https://example.com/own"),
        installed_path: path.map(|p| p.to_string()),
        needs_update: NeedsUpdate::default(),
    }
}

#[test]
fn update_states_are_told() {
    let states = [
        (NeedsUpdate::Unknown, "unknown", "L", UpdateTone::Unknown),
        (NeedsUpdate::Error("bad".to_string()), "error", "L: bad", UpdateTone::Error),
        (
            NeedsUpdate::Known(true, "v2".to_string()),
            "available",
            "L: v2",
            UpdateTone::Available,
        ),
        (NeedsUpdate::Known(false, "v2".to_string()), "up-to-date", "L", UpdateTone::UpToDate),
    ];
    for (state, ident, text, tone) in states {
        assert_eq!(state.label_ident(), ident);
        assert_eq!(state.text("L"), text);
        assert_eq!(state.tone(), tone);
    }
}

#[test]
fn the_first_record_of_a_source_is_found() {
    let remotes = vec![
        remote(SourceKind::Markers, "a", Some("1")),
        remote(SourceKind::Timers, "a", Some("2")),
        remote(SourceKind::Timers, "a", Some("3")),
    ];
    assert_eq!(lookup_datasource(&remotes, SourceKind::Timers, "a"), Some(1));
    assert_eq!(lookup_datasource(&remotes, SourceKind::Timers, "b"), None);
    assert_eq!(lookup_datasource(&remotes, SourceKind::Addon, "a"), None);
}

#[test]
fn known_sources_are_asked_before_recorded_ones() {
    let remotes = vec![
        remote(SourceKind::Timers, "a", None),
        remote(SourceKind::Timers, "b", None),
        remote(SourceKind::Timers, "c", None),
    ];
    let known = vec![
        Some(DeserializedSource::GitHub(GitHubSource {
            name: "A".to_string(),
            owner: "o".to_string(),
            repository: "r".to_string(),
        })),
        None,
        None,
    ];
    let targets = list_update_targets(&remotes, &vec![true, false, true], &known);
    assert_eq!(targets.len(), 2);
    assert_eq!(targets[0].name, "a");
    assert_eq!(targets[0].source.as_source().name(), "A");
    assert_eq!(targets[1].name, "c");
    assert_eq!(targets[1].source.as_source().name(), "c");
}

#[test]
fn old_data_is_removed_only_from_another_place() {
    assert!(must_remove_old(Some("timers/old"), Some("timers/new"), "timers/old", "timers/new"));
    assert!(!must_remove_old(Some("timers/a"), Some("timers/a"), "timers/a", "timers/a"));
    assert!(!must_remove_old(Some("timers/a"), Some("x/timers/b"), "timers/b", "timers/b"));
    assert!(!must_remove_old(None, Some("timers/new"), "", "timers/new"));
    assert!(!must_remove_old(Some("timers/old"), None, "timers/old", ""));
    assert!(!must_remove_old(Some("timers/a/"), Some("timers/a"), "x/a", "x/b"));
    assert!(!must_remove_old(Some("timers/a"), Some("timers/a/"), "x/a", "x/b"));
    assert!(must_remove_old(Some("/b/old/a"), Some("/b/new/a"), "old/a", "new/a"));
    assert!(!must_remove_old(Some("/b/old/a"), Some("/b/new/a"), "a", "a/"));
    assert!(removal_due(true, true, false, false));
    assert!(!removal_due(true, true, true, false));
    assert!(!removal_due(true, true, false, true));
    assert!(!removal_due(true, false, false, false));
}

#[test]
fn places_below_a_directory() {
    let at = "timers/pack".to_string();
    assert_eq!(place_below(Some(&at), "/base/timers", "timers").as_deref(), Some("pack"));
    let other = "markers/pack".to_string();
    assert_eq!(place_below(Some(&other), "/base/timers", "timers"), None);
    let deep = "timers/a/b".to_string();
    assert_eq!(place_below(Some(&deep), "/base/timers", "timers/").as_deref(), Some("a/b"));
    let near = "timersx/a".to_string();
    assert_eq!(place_below(Some(&near), "/base/timers", "timers"), None);
    let whole = "timers".to_string();
    assert_eq!(place_below(Some(&whole), "/base/timers", "timers").as_deref(), Some(""));
    assert_eq!(place_below(None, "/base/timers", "timers"), None);
    let root = "/base/timers";
    assert_eq!(place_when(true, "timers/pack", root, "timers").as_deref(), Some("pack"));
    assert_eq!(place_when(false, "timers/pack", root, "timers"), None);
    assert_eq!(place_when(false, "/base/timers/pack", root, "timers").as_deref(), Some("pack"));
    assert_eq!(place_when(true, "/base/timers/pack", root, "timers"), None);
}

#[test]
fn absolute_places_below_a_directory() {
    let at = "/base/timers/pack".to_string();
    assert_eq!(place_below(Some(&at), "/base/timers", "timers").as_deref(), Some("pack"));
    assert_eq!(place_below(Some(&at), "/base/timers/", "timers").as_deref(), Some("pack"));
    assert_eq!(place_below(Some(&at), "/base", "timers").as_deref(), Some("timers/pack"));
    assert_eq!(place_below(Some(&at), "/other/timers", "timers"), None);
    assert_eq!(place_below(Some(&at), "timers", "/base/timers"), None);
}

#[test]
fn sources_at_absolute_paths_are_told_with_their_entries() {
    let bar = ProgressBarSettings {
        centre_after: false,
        stock: false,
        shadow: false,
        height: 0,
        font: TextFont::Fontless,
    };
    let mut s = Settings::new("/base", bar, TaimiControls::empty());
    s.remotes.push(remote(SourceKind::Timers, "absolute", Some("/base/timers/one")));
    s.remotes.push(remote(SourceKind::Timers, "relative", Some("timers/two")));
    s.remotes.push(remote(SourceKind::Timers, "elsewhere", Some("/other/timers/three")));
    let mut w = s.read_source_dir(SourceKind::Timers, "/base/timers", "timers", Ok(()));
    let step = found(w.step(Polled::Entry("/base/timers/one".to_string())));
    assert_eq!(step, ("/base/timers/one".to_string(), Some("absolute".to_string())));
    let step = found(w.step(Polled::Entry("/base/timers/three".to_string())));
    assert_eq!(step.1, None);
    let step = found(w.step(Polled::Entry("/base/timers/two".to_string())));
    assert_eq!(step.1.as_deref(), Some("relative"));
    let step = found(w.step(Polled::Exhausted));
    assert_eq!(step, ("/other/timers/three".to_string(), Some("elsewhere".to_string())));
    assert!(matches!(w.step(Polled::Exhausted), WalkStep::End));
}

#[test]
fn of_two_sources_at_one_place_the_later_counts() {
    let remotes = vec![
        remote(SourceKind::Timers, "a", None),
        remote(SourceKind::Timers, "b", None),
        remote(SourceKind::Markers, "c", None),
        remote(SourceKind::Timers, "d", None),
    ];
    let place = |p: &str| Some(p.to_string());
    let map = collect_places(
        &remotes,
        SourceKind::Timers,
        &vec![place("x"), place("x"), place("y"), None],
    );
    assert_eq!(map.inside.len(), 1);
    assert_eq!(map.inside.get("x").map(|s| s.as_str()), Some("b"));
    assert!(map.outside.is_empty());
}

fn walk(opened: Result<(), OpenError>) -> SourceDirWalk {
    let bar = ProgressBarSettings {
        centre_after: false,
        stock: false,
        shadow: false,
        height: 0,
        font: TextFont::Fontless,
    };
    let mut s = Settings::new("base", bar, TaimiControls::empty());
    s.remotes.push(remote(SourceKind::Timers, "one", Some("timers/first")));
    s.remotes.push(remote(SourceKind::Timers, "two", Some("timers/second")));
    s.remotes.push(remote(SourceKind::Markers, "three", Some("timers/third")));
    s.read_source_dir(SourceKind::Timers, "/base/timers", "timers", opened)
}

fn found(step: WalkStep) -> (String, Option<String>) {
    match step {
        WalkStep::Found(path, source) => (path, source),
        _ => panic!("nothing was found"),
    }
}

#[test]
fn a_walk_tells_each_source_once() {
    let mut w = walk(Ok(()));
    assert_eq!(w.directory, Directory::Open);
    let step = found(w.step(Polled::Entry("/base/timers/second".to_string())));
    assert_eq!(step, ("/base/timers/second".to_string(), Some("two".to_string())));
    let step = found(w.step(Polled::Entry("/base/timers/second".to_string())));
    assert_eq!(step.1, None);
    let step = found(w.step(Polled::Entry("/base/timers/third".to_string())));
    assert_eq!(step.1, None);
    assert!(matches!(w.step(Polled::Failed), WalkStep::Error));
    let step = found(w.step(Polled::Exhausted));
    assert_eq!(step, ("first".to_string(), Some("one".to_string())));
    assert!(matches!(w.step(Polled::Exhausted), WalkStep::End));
    assert!(matches!(w.step(Polled::Exhausted), WalkStep::End));
}

#[test]
fn an_unopened_directory_ends_the_walk() {
    let mut w = walk(Err(OpenError::NotFound));
    assert!(matches!(w.step(Polled::Exhausted), WalkStep::End));
    assert!(matches!(w.step(Polled::Exhausted), WalkStep::End));
    let mut w = walk(Err(OpenError::Other));
    assert!(matches!(w.step(Polled::Exhausted), WalkStep::Error));
    assert!(matches!(w.step(Polled::Exhausted), WalkStep::End));
}

#[test]
fn all_unmet_sources_come_at_the_end() {
    let mut w = walk(Ok(()));
    let mut names: Vec<String> = Vec::new();
    for _ in 0..2 {
        names.push(found(w.step(Polled::Exhausted)).1.unwrap());
    }
    names.sort();
    assert_eq!(names, vec!["one", "two"]);
    assert!(matches!(w.step(Polled::Exhausted), WalkStep::End));
}

#[test]
fn sources_outside_the_directory_are_told_at_the_end() {
    let bar = ProgressBarSettings {
        centre_after: false,
        stock: false,
        shadow: false,
        height: 0,
        font: TextFont::Fontless,
    };
    let mut s = Settings::new("base", bar, TaimiControls::empty());
    s.remotes.push(remote(SourceKind::Timers, "inside", Some("timers/pack")));
    s.remotes.push(remote(SourceKind::Timers, "outside", Some("other/pack")));
    s.remotes.push(remote(SourceKind::Timers, "twin", Some("other/pack")));
    s.remotes.push(remote(SourceKind::Timers, "absent", None));
    let mut w = s.read_source_dir(SourceKind::Timers, "/base/timers", "timers", Ok(()));
    let step = found(w.step(Polled::Entry("/base/timers/pack".to_string())));
    assert_eq!(step.1.as_deref(), Some("inside"));
    let step = found(w.step(Polled::Exhausted));
    assert_eq!(step, ("other/pack".to_string(), Some("outside".to_string())));
    let step = found(w.step(Polled::Exhausted));
    assert_eq!(step, ("other/pack".to_string(), Some("twin".to_string())));
    assert!(matches!(w.step(Polled::Exhausted), WalkStep::End));
}

use std::sync::Arc;
use taimi_hud::controls::TaimiControls;
use taimi_hud::font::TextFont;
use taimi_hud::marker_set::MarkerSet;
use taimi_hud::marker_type::MarkerType;
use taimi_hud::name_map::NameMap;
use taimi_hud::render::{
    open_target, EngineCleanup, EngineState, FramePlan, IconStep, ReloadPlan, RenderAction,
    RenderEvent, RenderState, TextAlert,
};
use taimi_hud::settings::ProgressBarSettings;

fn bar() -> ProgressBarSettings {
    ProgressBarSettings {
        centre_after: true,
        stock: false,
        shadow: false,
        height: 1,
        font: TextFont::Big,
    }
}

fn alert(timer: u64) -> RenderEvent {
    RenderEvent::AlertStart(TextAlert { message: format!("t{}", timer), timer })
}

#[test]
fn an_alert_ends_with_its_own_timer() {
    let mut s = RenderState::new(bar());
    assert_eq!(s.alert_message(), None);
    assert!(s.draw(alert(1), true).1);
    assert_eq!(s.alert_message(), Some("t1"));
    s.draw(RenderEvent::AlertEnd(2), true);
    assert_eq!(s.alert_message(), Some("t1"));
    s.draw(alert(2), true);
    s.draw(RenderEvent::AlertEnd(1), true);
    assert_eq!(s.alert_message(), Some("t2"));
    s.draw(RenderEvent::AlertEnd(2), true);
    assert_eq!(s.alert_message(), None);
    s.draw(RenderEvent::AlertEnd(2), true);
    assert_eq!(s.alert_message(), None);
}

#[test]
fn errors_are_shown_until_dismissed() {
    let mut s = RenderState::new(bar());
    let error = |t: &str, e: &str| RenderEvent::OpenableError(t.to_string(), e.to_string());
    s.draw(error("a", "1"), true);
    s.draw(error("b", "2"), true);
    s.draw(error("a", "3"), true);
    assert_eq!(s.state_errors.get("a").map(|e| e.as_str()), Some("3"));
    s.dismiss(&vec!["a".to_string(), "c".to_string()]);
    assert!(!s.state_errors.contains_key("a"));
    assert!(s.state_errors.contains_key("b"));
    s.dismiss(&vec![]);
    assert_eq!(s.state_errors.len(), 1);
}

#[test]
fn new_data_drop_the_selection() {
    let mut s = RenderState::new(bar());
    s.timer_selection = Some("t".to_string());
    s.marker_selection = Some("m".to_string());
    assert!(matches!(
        s.draw(RenderEvent::TimerData(vec![]), true),
        (RenderAction::ShowTimers(t), true) if t.is_empty()
    ));
    assert!(s.timer_selection.is_none() && s.marker_selection.is_some());
    let mut sets: NameMap<Vec<Arc<MarkerSet>>> = NameMap::new();
    sets.insert("z".to_string(), vec![]);
    sets.insert("y".to_string(), vec![]);
    assert!(matches!(
        s.draw(RenderEvent::MarkerData(sets), true),
        (RenderAction::ShowMarkers { categories, markers }, true)
            if categories == vec!["z", "y"] && markers.len() == 2
    ));
    assert!(s.marker_selection.is_none());
}

#[test]
fn events_change_what_is_shown() {
    let mut s = RenderState::new(bar());
    let other = ProgressBarSettings { stock: true, ..bar() };
    s.draw(RenderEvent::ProgressBarUpdate(other), true);
    assert_eq!(s.progress_bar, other);
    s.draw(RenderEvent::CheckingForUpdates { checking: true, downloading: false }, true);
    assert!(s.checking_for_updates && !s.downloading_update);
    assert!(matches!(s.draw(RenderEvent::RenderKeybindUpdate, true).0, RenderAction::UpdateKeybinds));
    assert!(matches!(s.draw(RenderEvent::OpenEditMarkers(None), true).0, RenderAction::OpenEditor(None)));
    assert!(matches!(s.draw(RenderEvent::AlertFeed(4), true).0, RenderAction::NewPhase(4)));
    assert!(matches!(s.draw(RenderEvent::AlertReset(5), true).0, RenderAction::RemovePhase(5)));
    assert!(matches!(s.draw(RenderEvent::UiMapOpen(true), true).0, RenderAction::MapOpened(true)));
    assert!(matches!(s.draw(RenderEvent::UiDepthReleased, true).0, RenderAction::DepthChanged(false)));
    assert!(matches!(s.draw(RenderEvent::UiDepthAcquired, true).0, RenderAction::DepthChanged(true)));
    let menus = TaimiControls { bits: 6 };
    assert!(matches!(
        s.draw(RenderEvent::ContextMenuOpen { menus }, true).0,
        RenderAction::OpenMenus(m) if m == menus
    ));
    assert!(matches!(
        s.draw(RenderEvent::GiveMarkerPaths(vec!["p".to_string()]), true).0,
        RenderAction::SetFileNames(p) if p == vec!["p"]
    ));
    assert!(matches!(
        s.draw(RenderEvent::MarkerMap(vec![]), true).0,
        RenderAction::ShowMapMarkers(m) if m.is_empty()
    ));
}

#[test]
fn reloading_lets_the_engine_go() {
    let mut s = RenderState::new(bar());
    let plan = |a: RenderAction| match a {
        RenderAction::Reload(p) => p,
        _ => panic!("not a reload"),
    };
    let p = plan(s.draw(RenderEvent::Reload, true).0);
    assert_eq!(p, ReloadPlan { engine: EngineCleanup::Nothing, textures: false });
    s.engine = EngineState::Running;
    let p = plan(s.draw(RenderEvent::Reload, true).0);
    assert_eq!(p, ReloadPlan { engine: EngineCleanup::Foreground, textures: false });
    assert_eq!(s.engine, EngineState::Missing);
    s.engine = EngineState::Running;
    let p = plan(s.draw(RenderEvent::ReloadAll, false).0);
    assert_eq!(p, ReloadPlan { engine: EngineCleanup::Background, textures: true });
    s.engine = EngineState::Failed;
    let p = s.reload(false, true);
    assert_eq!(p, ReloadPlan { engine: EngineCleanup::Nothing, textures: true });
    assert_eq!(s.engine, EngineState::Missing);
}

#[test]
fn quitting_stops_the_drawing() {
    let mut s = RenderState::new(bar());
    s.engine = EngineState::Running;
    let (action, go_on) = s.draw(RenderEvent::Quit, false);
    assert!(matches!(action, RenderAction::Quit(EngineCleanup::Foreground)));
    assert!(!go_on);
    let mut s = RenderState::new(bar());
    s.engine = EngineState::Running;
    let out = s.shutdown(&vec![RenderEvent::Reload, RenderEvent::Quit, RenderEvent::Reload]);
    assert_eq!(out.taken, 2);
    assert_eq!(out.quit, Some(EngineCleanup::Foreground));
    assert_eq!(s.engine, EngineState::Missing);
    let mut s = RenderState::new(bar());
    s.engine = EngineState::Running;
    let out = s.shutdown(&vec![RenderEvent::Reload]);
    assert_eq!((out.taken, out.quit), (1, None));
    assert_eq!(s.engine, EngineState::Running);
    assert_eq!(s.cleanup(), EngineCleanup::Foreground);
    assert_eq!(s.cleanup(), EngineCleanup::Nothing);
    s.engine = EngineState::Running;
    assert_eq!(s.cleanup_background(), EngineCleanup::Background);
    let mut s = RenderState::new(bar());
    s.engine = EngineState::Running;
    assert_eq!(s.unload(), EngineCleanup::Foreground);
}

#[test]
fn frames_are_planned() {
    assert!(RenderState::pre_render(true, true));
    assert!(!RenderState::pre_render(false, true));
    assert!(RenderState::pre_render(false, false));
    let plan = |r, p| RenderState::render_ui(r, p);
    assert_eq!(plan(true, true), FramePlan { textures: true, draw: true, shutdown: false });
    assert_eq!(plan(false, true), FramePlan { textures: false, draw: false, shutdown: true });
    assert_eq!(plan(true, false), FramePlan { textures: true, draw: false, shutdown: false });
    assert!(RenderState::lets_go(plan(true, true), false));
    assert!(!RenderState::lets_go(plan(true, true), true));
    assert!(RenderState::lets_go(plan(false, true), false));
    assert!(!RenderState::lets_go(plan(true, false), false));
}

#[test]
fn pictures_are_loaded_once() {
    assert!(matches!(RenderState::icon(None, false, Some("d")), IconStep::Skip));
    assert!(matches!(
        RenderState::icon(Some("x/y.png"), true, Some("d")),
        IconStep::Show(k) if k == "x/y.png"
    ));
    assert!(matches!(
        RenderState::icon(Some("x/y.png"), false, None),
        IconStep::Show(k) if k == "x/y.png"
    ));
    match RenderState::icon(Some("x//y.png"), false, Some("d")) {
        IconStep::Load { key, path } => {
            assert_eq!(key, "x//y.png");
            assert!(path == "d/x/y.png" || path == "d\\x\\y.png");
        },
        _ => panic!("the picture is not loaded"),
    }
    assert!(matches!(
        RenderState::marker_icon(MarkerType::Heart, false, true),
        IconStep::LoadBuiltIn(k) if k == "Heart"
    ));
    assert!(matches!(
        RenderState::marker_icon(MarkerType::Heart, true, true),
        IconStep::Show(k) if k == "Heart"
    ));
    assert!(matches!(
        RenderState::marker_icon(MarkerType::Blank, false, false),
        IconStep::Show(k) if k == "Blank"
    ));
    assert_eq!(RenderState::push_font("ui"), Some(TextFont::Ui));
    assert_eq!(RenderState::push_font("none"), None);
}

#[test]
fn a_file_is_opened_by_its_directory() {
    assert_eq!(RenderState::draw_open_path_button("d/f.txt", Some(false)), "d");
    assert_eq!(RenderState::draw_open_path_button("d/e/f.txt", Some(false)), "d/e");
    assert_eq!(RenderState::draw_open_path_button("d/e", Some(true)), "d/e");
    assert_eq!(RenderState::draw_open_path_button("d/e", None), "d/e");
    assert_eq!(RenderState::draw_open_path_button("f.txt", Some(false)), "");
    assert_eq!(open_target("p", None, Some(false)), "p");
    assert_eq!(open_target("p", Some("q".to_string()), Some(false)), "q");
    assert_eq!(open_target("p", Some("q".to_string()), None), "p");
}

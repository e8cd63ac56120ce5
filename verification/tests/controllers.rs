use std::sync::Arc;
use taimi_hud::controller::markers::{
    MarkerSaveEvent, MarkersAction, MarkersController, MarkersEvent,
};
use taimi_hud::controller::pathing::{
    LensAction, LoadEvent, LoadWatch, MapContext, PathingAction, PathingController, PathingEvent,
};
use taimi_hud::controller::timers::{
    find_trigger, MachineKey, TimerFile, TimersAction, TimersController, TimersEvent,
};
use taimi_hud::controls::{
    TaimiControls, PATHING_MAP, PATHING_MINIMAP, PATHING_SPACE, TIMER_RESET, TIMER_TRIGGER_0_INDEX,
};
use taimi_hud::font::TextFont;
use taimi_hud::marker_set::{MarkerPosition, MarkerSet, MarkerSettings};
use taimi_hud::name_map::NameMap;
use taimi_hud::settings::{ProgressBarSettings, ProgressBarStyleChange, Settings, TimerSettings};
use taimi_hud::squad::{
    decide_autoplace, AutoplaceAction, GroupMember, MarkerAutoPlaceSettings, SquadCondition,
    SquadRank, SquadUpdateType, UserInfo, UserRole,
};

fn settings() -> Settings {
    let bar = ProgressBarSettings {
        centre_after: false,
        stock: false,
        shadow: false,
        height: 0,
        font: TextFont::Fontless,
    };
    Settings::new("base", bar, TaimiControls::empty())
}

fn set(name: &str, map_id: u32) -> Arc<MarkerSet> {
    Arc::new(MarkerSet {
        enabled: true,
        category: Some("c".to_string()),
        author: None,
        name: name.to_string(),
        description: String::new(),
        map_id,
        trigger: MarkerPosition { x: 0, y: 0, z: 0 },
        markers: Vec::new(),
        path: None,
        idx: None,
    })
}

fn loaded() -> NameMap<Vec<Arc<MarkerSet>>> {
    let mut map: NameMap<Vec<Arc<MarkerSet>>> = NameMap::new();
    map.insert("c".to_string(), vec![set("a", 1), set("b", 1)]);
    map.insert("d".to_string(), vec![set("e", 2)]);
    map
}

fn names(sets: &Vec<Arc<MarkerSet>>) -> Vec<&str> {
    sets.iter().map(|s| s.name.as_str()).collect()
}

#[test]
fn a_set_is_met_once_on_each_visit() {
    let mut c = MarkersController::new();
    c.setup(MarkerAutoPlaceSettings::DoNothing, Some(loaded()));
    assert_eq!(names(&c.handle_map_event(1)), vec!["a", "b"]);
    assert_eq!(names(&c.pending(Some(1))), vec!["a", "b"]);
    assert_eq!(names(&c.handle_position(Some(1), &vec![false, true])), vec!["b"]);
    assert_eq!(names(&c.pending(Some(1))), vec!["a"]);
    assert_eq!(names(&c.handle_position(Some(1), &vec![true])), vec!["a"]);
    assert!(c.pending(Some(1)).is_empty());
    assert!(c.pending(None).is_empty());
    assert!(c.pending(Some(9)).is_empty());
    c.clear_spent_autoplace();
    assert_eq!(c.pending(Some(1)).len(), 2);
    c.handle_position(Some(1), &vec![true, true]);
    assert!(c.handle_map_event(9).is_empty());
    assert_eq!(names(&c.handle_map_event(1)), vec!["a", "b"]);
    assert_eq!(c.pending(Some(1)).len(), 2);
}

#[test]
fn a_failed_load_keeps_the_sets() {
    let mut c = MarkersController::new();
    c.setup(MarkerAutoPlaceSettings::DoNothing, Some(loaded()));
    c.reload(None);
    assert_eq!(c.handle_map_event(2).len(), 1);
    let mut fewer: NameMap<Vec<Arc<MarkerSet>>> = NameMap::new();
    fewer.insert("c".to_string(), vec![set("a", 1)]);
    c.reload(Some(fewer));
    assert_eq!(c.handle_map_event(1).len(), 1);
    assert!(c.handle_map_event(2).is_empty());
    c.setup(MarkerAutoPlaceSettings::Place(SquadCondition::Never), None);
    assert_eq!(c.handle_map_event(1).len(), 1);
    assert_eq!(c.marker_autoplace, Some(MarkerAutoPlaceSettings::Place(SquadCondition::Never)));
}

fn member(name: &str, commander: bool, lieutenant: bool) -> GroupMember {
    GroupMember {
        account_name: name.to_string(),
        is_commander: commander,
        is_lieutenant: lieutenant,
    }
}

#[test]
fn the_rank_comes_from_the_best_source() {
    let mut c = MarkersController::new();
    assert_eq!(c.get_role(Some("me"), Some("me")), None);
    c.handle_mumble_identity(SquadRank::Commander);
    assert_eq!(c.get_role(Some("me"), Some("me")), Some(SquadRank::Commander));
    c.extras_squad_update(vec![
        UserInfo { account_name: None, role: UserRole::SquadLeader },
        UserInfo { account_name: Some("me".to_string()), role: UserRole::Lieutenant },
        UserInfo { account_name: Some("x".to_string()), role: UserRole::Other },
    ]);
    assert_eq!(c.get_role(Some("me"), Some("me")), Some(SquadRank::Lieutenant));
    assert_eq!(c.get_role(None, Some("x")), None);
    assert_eq!(c.get_role(None, Some("y")), Some(SquadRank::Commander));
    c.rtapi_squad_update(SquadUpdateType::Joined, member("me", false, false), Some("me"), Some("me"));
    assert_eq!(c.get_role(Some("me"), Some("me")), Some(SquadRank::Member));
    c.rtapi_squad_update(SquadUpdateType::Update, member("me", true, false), Some("me"), Some("me"));
    assert_eq!(c.get_role(Some("me"), Some("me")), Some(SquadRank::Commander));
    c.rtapi_squad_update(SquadUpdateType::Update, member("z", true, false), Some("me"), Some("z"));
    assert!(!c.rtapi_squad.contains_key("z"));
    c.rtapi_squad_update(SquadUpdateType::Joined, member("z", true, false), None, Some("z"));
    assert!(!c.rtapi_squad.contains_key("z"));
    c.rtapi_squad_update(SquadUpdateType::Joined, member("z", true, false), Some("me"), Some("z"));
    c.rtapi_squad_update(SquadUpdateType::Left, member("z", true, false), Some("me"), Some("z"));
    assert_eq!(c.rtapi_squad.len(), 1);
    c.rtapi_squad_update(SquadUpdateType::Joined, member("z", true, false), Some("me"), Some("z"));
    c.rtapi_squad_update(SquadUpdateType::Left, member("me", true, false), Some("me"), Some("me"));
    assert_eq!(c.rtapi_squad.len(), 0);
}

#[test]
fn ranks_have_numbers() {
    for n in 0..=255u8 {
        assert_eq!(SquadRank::from_repr(n).map(|r| r.repr()), if (1..=3).contains(&n) { Some(n) } else { None });
    }
    assert!(SquadRank::Commander.at_least(SquadRank::Lieutenant));
    assert!(!SquadRank::Member.at_least(SquadRank::Lieutenant));
    assert_eq!(SquadRank::default(), SquadRank::Member);
    assert_eq!(SquadCondition::Always.label_ident(), "always-do-action");
    assert_eq!(SquadCondition::IfCommander.label_ident(), "do-action-if-commander");
    assert_eq!(SquadCondition::IfLieutenantOrAbove.label_ident(), "do-action-if-lieutenant");
    assert_eq!(SquadCondition::Never.label_ident(), "never-do-action");
    let c = SquadCondition::default();
    assert_eq!(c, SquadCondition::Always);
    assert_eq!(MarkerAutoPlaceSettings::OpenWindow(c).label_ident(), "open-markers-window");
    assert_eq!(MarkerAutoPlaceSettings::Place(c).label_ident(), "place-markers-automatically");
    assert_eq!(MarkerAutoPlaceSettings::default().label_ident(), "do-nothing");
}

#[test]
fn autoplace_needs_the_rank() {
    let (always, never) = (SquadCondition::Always, SquadCondition::Never);
    let (commander, lieutenant) =
        (SquadCondition::IfCommander, SquadCondition::IfLieutenantOrAbove);
    let place = |c, role| decide_autoplace(true, Some(MarkerAutoPlaceSettings::Place(c)), role);
    assert_eq!(place(always, None), AutoplaceAction::Place);
    assert_eq!(place(never, Some(SquadRank::Commander)), AutoplaceAction::Nothing);
    assert_eq!(place(commander, Some(SquadRank::Lieutenant)), AutoplaceAction::Nothing);
    assert_eq!(place(commander, Some(SquadRank::Commander)), AutoplaceAction::Place);
    assert_eq!(place(lieutenant, Some(SquadRank::Lieutenant)), AutoplaceAction::Place);
    assert_eq!(place(lieutenant, Some(SquadRank::Member)), AutoplaceAction::Nothing);
    assert_eq!(place(lieutenant, None), AutoplaceAction::Nothing);
    let open = Some(MarkerAutoPlaceSettings::OpenWindow(always));
    assert_eq!(decide_autoplace(true, open, None), AutoplaceAction::OpenWindow);
    assert_eq!(decide_autoplace(false, open, None), AutoplaceAction::Nothing);
    assert_eq!(decide_autoplace(true, None, None), AutoplaceAction::Nothing);

    let mut c = MarkersController::new();
    c.setup(MarkerAutoPlaceSettings::Place(commander), None);
    c.handle_mumble_identity(SquadRank::Commander);
    let s = set("a", 1);
    assert_eq!(c.handle_marker_autoplace(&s, None, None, None), AutoplaceAction::Place);
    let mut off: NameMap<MarkerSettings> = NameMap::new();
    off.insert("c/a".to_string(), MarkerSettings { disabled: true });
    assert_eq!(c.handle_marker_autoplace(&s, Some(&off), None, None), AutoplaceAction::Nothing);
}

#[test]
fn marker_events_are_answered() {
    let mut c = MarkersController::new();
    let mut s = settings();
    let event = MarkersController::receive_mumble_identity(true);
    assert!(matches!(c.handle_event(event, &mut s, None), MarkersAction::Nothing));
    assert_eq!(c.mumble_role, Some(SquadRank::Commander));
    let event = MarkersController::receive_mumble_identity(false);
    c.handle_event(event, &mut s, None);
    assert_eq!(c.mumble_role, Some(SquadRank::Member));
    assert!(!s.is_dirty());
    let event = MarkersEvent::RTAPISquadUpdate(
        SquadUpdateType::Joined,
        member("me", false, true),
        Some("me".to_string()),
    );
    c.handle_event(event, &mut s, Some("me"));
    assert!(c.rtapi_squad.contains_key("me"));
    c.handle_event(MarkersEvent::MarkerToggle("m".to_string()), &mut s, None);
    assert_eq!(s.markers.get("m"), Some(&MarkerSettings { disabled: true }));
    assert!(s.is_dirty());
    c.handle_event(MarkersEvent::MarkerEnable("m".to_string()), &mut s, None);
    assert_eq!(s.markers.get("m"), Some(&MarkerSettings { disabled: false }));
    c.handle_event(MarkersEvent::MarkerDisable("m".to_string()), &mut s, None);
    assert_eq!(s.markers.get("m"), Some(&MarkerSettings { disabled: true }));
    let wanted = MarkerAutoPlaceSettings::OpenWindow(SquadCondition::Always);
    c.handle_event(MarkersEvent::MarkerAutoPlaceSettings(wanted), &mut s, None);
    assert_eq!(s.marker_autoplace, wanted);
    assert_eq!(c.marker_autoplace, Some(wanted));
    c.handle_event(
        MarkersEvent::ExtrasSquadUpdate(vec![UserInfo {
            account_name: Some("q".to_string()),
            role: UserRole::Member,
        }]),
        &mut s,
        None,
    );
    assert!(c.extras_squad.contains_key("q"));
    assert!(matches!(c.handle_event(MarkersEvent::ClearMarkers, &mut s, None), MarkersAction::Clear));
    assert!(matches!(c.handle_event(MarkersEvent::ReloadMarkers, &mut s, None), MarkersAction::Reload));
    assert!(matches!(
        c.handle_event(MarkersEvent::GetMarkerPaths, &mut s, None),
        MarkersAction::ListPaths
    ));
    assert!(matches!(
        c.handle_event(MarkersEvent::SetMarker(set("a", 1)), &mut s, None),
        MarkersAction::Place(x) if x.name == "a"
    ));
    let save = MarkerSaveEvent::Append((*set("a", 1)).clone(), "p".to_string());
    assert!(matches!(
        c.handle_event(MarkersEvent::SaveMarker(save), &mut s, None),
        MarkersAction::Save(MarkerSaveEvent::Append(_, p)) if p == "p"
    ));
    let delete =
        MarkersEvent::DeleteMarker { path: "p".to_string(), category: None, idx: 3 };
    assert!(matches!(
        c.handle_event(delete, &mut s, None),
        MarkersAction::Delete { idx: 3, category: None, .. }
    ));
    assert!(matches!(c.handle_event(MarkersEvent::UiResize, &mut s, None), MarkersAction::Nothing));
    assert!(matches!(c.handle_event(MarkersEvent::UiMapOpened, &mut s, None), MarkersAction::Nothing));
    c.spent_markers.push(set("a", 1));
    c.handle_event(MarkersEvent::ClearSpentAutoplace, &mut s, None);
    assert!(c.spent_markers.is_empty());
    let mut s = settings();
    MarkersController::open_window(&mut s);
    assert!(s.markers_window_open && s.dirty && !s.timers_window_open);
}

#[test]
fn markers_are_shown_and_hidden() {
    let mut s = settings();
    let change = PathingController::set_visible(&mut s, None, None, false, TaimiControls::empty());
    assert!(change.shown);
    assert_eq!(change.lens, LensAction::Refresh { delay: 2 });
    assert_eq!(change.quick_access, Some(TaimiControls { bits: PATHING_SPACE }));
    assert_eq!(s.pathing().space.visible_space, Some(true));
    assert!(s.dirty);
    let all = TaimiControls { bits: PATHING_SPACE | PATHING_MAP };
    let change = PathingController::set_visible(&mut s, None, Some(false), false, all);
    assert!(!change.shown);
    assert_eq!(change.lens, LensAction::Clear);
    assert_eq!(change.quick_access, Some(TaimiControls { bits: PATHING_MAP }));
    let change =
        PathingController::set_visible(&mut s, Some(MapContext::Global), Some(true), true, all);
    assert_eq!(change.quick_access, None);
    assert_eq!(change.lens, LensAction::Keep);
    assert_eq!(s.pathing().space.visible_map_world, Some(true));
    PathingController::set_visible(&mut s, Some(MapContext::Minimap), None, true, all);
    assert_eq!(s.pathing().space.visible_map_mini, Some(false));
    assert_eq!(s.pathing().space.visible_space, Some(false));
}

#[test]
fn pathing_events_are_answered() {
    let mut s = settings();
    let none = TaimiControls::empty();
    let mut answer =
        |e, s: &mut Settings| PathingController::handle_event(e, s, true, none);
    assert!(matches!(answer(PathingEvent::ReloadAll, &mut s), PathingAction::Reload));
    assert!(matches!(answer(PathingEvent::LoadAll, &mut s), PathingAction::Load));
    assert!(matches!(answer(PathingEvent::UnloadAll, &mut s), PathingAction::Unload));
    assert!(!s.dirty);
    s.disabled_paths.insert("x".to_string(), ());
    s.disabled_paths.insert("y".to_string(), ());
    assert!(matches!(
        answer(PathingEvent::RequestDisabledPaths, &mut s),
        PathingAction::ProvideDisabledPaths(p) if p == vec!["x", "y"]
    ));
    assert!(matches!(
        answer(PathingEvent::PathingStateUpdate("x".to_string(), true), &mut s),
        PathingAction::UpdatePath(p, true) if p == "x"
    ));
    assert!(s.dirty);
    assert!(matches!(answer(PathingEvent::ToggleKatRender, &mut s), PathingAction::Nothing));
    assert!(s.enable_katrender);
    assert!(matches!(
        answer(PathingEvent::visible_toggle_space(), &mut s),
        PathingAction::Visibility(c) if !c.shown
    ));
    assert_eq!(s.pathing().space.visible_space, Some(false));
    answer(PathingEvent::visible_toggle(MapContext::Global), &mut s);
    assert_eq!(s.pathing().space.visible_map_world, Some(false));
}

#[test]
fn pathing_keys_count_when_pressed() {
    let all = TaimiControls { bits: PATHING_SPACE | PATHING_MAP | PATHING_MINIMAP };
    assert_eq!(
        PathingController::handle_keybinds(all, all),
        vec![None, Some(MapContext::Global), Some(MapContext::Minimap)]
    );
    let map = TaimiControls { bits: PATHING_MAP };
    assert_eq!(PathingController::handle_keybinds(all, map), vec![Some(MapContext::Global)]);
    assert!(PathingController::handle_keybinds(TaimiControls::empty(), all).is_empty());
    assert_eq!(PathingController::control_of(Some(MapContext::Global)), map);
    assert_eq!(PathingController::control_of(None).bits, PATHING_SPACE);
    assert_eq!(PathingController::control_of(Some(MapContext::Minimap)).bits, PATHING_MINIMAP);
    assert!(PathingController::handle_presses(true, true));
    assert!(!PathingController::handle_presses(false, true));
    assert!(!PathingController::handle_presses(true, false));
}

#[test]
fn packs_have_names() {
    assert_eq!(PathingController::pack_name("dir/My Pack.taco"), "My Pack.taco");
    assert_eq!(PathingController::pack_label("dir/..", None), "dir/..");
    assert_eq!(PathingController::pack_name("dir/pack/"), "pack");
    assert_eq!(PathingController::pack_name("dir/.."), "dir/..");
    assert!(PathingController::is_taco("dir/a.TACO", false));
    assert!(PathingController::is_taco("dir/a.taco/", false));
    assert!(PathingController::is_taco("dir/a.Zip", false));
    assert!(!PathingController::is_taco("dir/a.taco/b", false));
    assert!(!PathingController::is_taco("dir/taco", false));
    assert!(PathingController::is_taco("dir/taco", true));
    assert_eq!(PathingController::pathing_load_pack(String::new(), "f".to_string()), "f");
    assert_eq!(PathingController::pathing_load_pack("own".to_string(), "f".to_string()), "own");
}

#[test]
fn the_engine_is_told_after_loads() {
    let mut w = LoadWatch::new();
    assert_eq!(w.timeout(), None);
    assert!(!w.step(LoadEvent::Ended(false)));
    assert_eq!(w.timeout(), None);
    assert!(!w.step(LoadEvent::Ended(true)));
    assert_eq!(w.timeout(), Some(174));
    assert!(!w.step(LoadEvent::Ended(false)));
    assert!(w.step(LoadEvent::TimedOut));
    assert_eq!(w.timeout(), None);
    assert!(!w.step(LoadEvent::Ended(true)));
    assert!(w.step(LoadEvent::Finished));
    let mut w = LoadWatch::new();
    assert!(!w.step(LoadEvent::Ended(false)));
    assert!(!w.step(LoadEvent::Finished));
}

fn timer(id: &str, map_id: u32, source: Option<&str>) -> Arc<TimerFile> {
    Arc::new(TimerFile {
        id: id.to_string(),
        name: id.to_uppercase(),
        category: "c".to_string(),
        map_id,
        association: source.map(|s| s.to_string()),
    })
}

fn ids(timers: &Vec<Arc<TimerFile>>) -> Vec<&str> {
    timers.iter().map(|t| t.id.as_str()).collect()
}

fn timers() -> Vec<Arc<TimerFile>> {
    vec![
        timer("a", 1, Some("s")),
        timer("b", 1, None),
        timer("c", 2, Some("s")),
        timer("a", 1, Some("t")),
    ]
}

#[test]
fn timers_are_found_by_map_and_source() {
    let mut c = TimersController::new();
    c.setup(timers());
    assert_eq!(ids(c.map_id_to_timers.get(&1).unwrap()), vec!["a", "b", "a"]);
    assert_eq!(ids(c.sources_to_timers.get("s").unwrap()), vec!["a", "c"]);
    assert_eq!(c.sources_to_timers.len(), 2);
    c.setup(vec![timer("d", 1, None)]);
    assert_eq!(ids(c.map_id_to_timers.get(&1).unwrap()), vec!["a", "b", "a", "d"]);
    assert_eq!(ids(&c.timers), vec!["d"]);
    assert!(matches!(c.reload(vec![timer("d", 1, None)]), TimersAction::Reset));
    assert_eq!(ids(c.map_id_to_timers.get(&1).unwrap()), vec!["d"]);
    assert!(c.map_id_to_timers.get(&2).is_none());
    assert_eq!(c.sources_to_timers.len(), 0);
}

#[test]
fn a_map_gets_machines_for_timers_that_are_on() {
    let mut c = TimersController::new();
    c.setup(timers());
    let mut s = settings();
    s.disable_timer("b".to_string());
    let (change, known) = c.handle_map_event(1, &s);
    assert!(known && change.cleanup.is_empty());
    assert_eq!(ids(&change.create), vec!["a", "a"]);
    let (change, known) = c.handle_map_event(7, &s);
    assert!(!known);
    assert_eq!(change.cleanup, vec![0, 1]);
    assert!(change.create.is_empty() && c.current_timers.is_empty());
}

#[test]
fn switched_timers_lose_or_get_machines() {
    let mut c = TimersController::new();
    c.setup(timers());
    let mut s = settings();
    c.handle_map_event(1, &s);
    assert_eq!(ids(&c.current_timers), vec!["a", "b", "a"]);
    let key = |machine| MachineKey { machine, trigger: 4, is_release: true };
    assert_eq!(c.timer_key_trigger_idx(4, true), vec![key(0), key(1), key(2)]);
    let change = c.toggle("a".to_string(), Some(1), &mut s);
    assert_eq!(change.cleanup, vec![0, 2]);
    assert!(change.create.is_empty());
    assert_eq!(ids(&c.current_timers), vec!["a", "b", "a"]);
    assert_eq!(s.timers.get("a"), Some(&TimerSettings { disabled: true }));
    assert!(s.dirty);
    let gone = c.disable("a".to_string(), &mut s);
    assert_eq!(gone, vec![0, 2]);
    assert_eq!(ids(&c.current_timers), vec!["b"]);
    let change = c.enable("a".to_string(), Some(1), &mut s);
    assert_eq!(ids(&change.create), vec!["a", "a"]);
    assert_eq!(ids(&c.current_timers), vec!["b", "a", "a"]);
    assert_eq!(s.timers.get("a"), Some(&TimerSettings { disabled: false }));
    let change = c.enable("c".to_string(), Some(1), &mut s);
    assert!(change.create.is_empty());
    let change = c.enable("c".to_string(), None, &mut s);
    assert!(change.create.is_empty());
    c.toggle("b".to_string(), Some(1), &mut s);
    let change = c.toggle("b".to_string(), Some(1), &mut s);
    assert_eq!(ids(&change.create), vec!["b"]);
    assert!(s.timers.get("b").is_none());
}

#[test]
fn triggers_are_named_by_their_last_digit() {
    assert_eq!(find_trigger("timer-key-trigger-7"), Some(7));
    assert_eq!(find_trigger("0"), Some(0));
    assert_eq!(find_trigger("x"), None);
    assert_eq!(find_trigger(""), None);
    assert_eq!(find_trigger("٣"), None);
    let c = TimersController::new();
    assert!(matches!(c.timer_key_trigger("t9", true), TimersAction::Key(9, true)));
}

#[test]
fn timer_keys_count_when_changed() {
    let bit = |i: u32| 1u32 << (TIMER_TRIGGER_0_INDEX + i);
    let state = TaimiControls { bits: TIMER_RESET | bit(2) };
    let changed = TaimiControls { bits: TIMER_RESET | bit(2) | bit(9) | bit(10) };
    let (keys, any) = TimersController::handle_keybinds(state, changed);
    assert!(keys.reset && any);
    assert_eq!(keys.triggers, vec![(2, false), (9, true)]);
    let (keys, any) =
        TimersController::handle_keybinds(TaimiControls::empty(), TaimiControls { bits: TIMER_RESET });
    assert!(!keys.reset && !any && keys.triggers.is_empty());
}

#[test]
fn timer_events_are_answered() {
    let mut c = TimersController::new();
    c.setup(timers());
    let mut s = settings();
    assert!(matches!(c.handle_event(TimersEvent::ReloadTimers, &mut s, None), TimersAction::Reload));
    assert!(matches!(c.handle_event(TimersEvent::TimerReset, &mut s, None), TimersAction::Reset));
    assert!(matches!(
        c.handle_event(TimersEvent::TimerKeyTrigger("k3".to_string(), false), &mut s, None),
        TimersAction::Key(3, false)
    ));
    assert!(!s.dirty);
    assert!(matches!(
        c.handle_event(
            TimersEvent::ProgressBarStyle(ProgressBarStyleChange::Stock(true)),
            &mut s,
            None
        ),
        TimersAction::Bar(b) if b.stock
    ));
    assert!(s.dirty && s.progress_bar.stock);
    assert!(matches!(
        c.handle_event(TimersEvent::TimerEnable("c".to_string()), &mut s, Some(2)),
        TimersAction::Switch(x) if x.create.len() == 1
    ));
    assert!(matches!(
        c.handle_event(TimersEvent::TimerToggle("c".to_string()), &mut s, Some(2)),
        TimersAction::Switch(x) if x.cleanup == vec![0]
    ));
    assert!(matches!(
        c.handle_event(TimersEvent::TimerDisable("c".to_string()), &mut s, Some(2)),
        TimersAction::Remove(x) if x == vec![0]
    ));
    assert!(c.current_timers.is_empty());
}

#[test]
fn control_sets_toggle_back() {
    let a = TaimiControls { bits: 0b1010 };
    let b = TaimiControls { bits: 0b0110 };
    assert_eq!(a.toggled(b).toggled(b), a);
    assert_eq!(a.toggled(b).bits, 0b1100);
    assert_eq!(a.union(b).bits, 0b1110);
    assert_eq!(a.intersection(b).bits, 0b0010);
    assert!(a.intersects(b));
    assert!(a.contains_index(3) && !a.contains_index(2));
}

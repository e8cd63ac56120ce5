use std::sync::Arc;
use taimi_hud::clock::Timestamp;
use taimi_hud::marker_file::{
    IntegratedMarkers, MarkerCategory, MarkerFile, MarkerFileError, MarkerFiletype, MarkerFormats,
    RuntimeMarkers,
};
use taimi_hud::marker_listing::{holds_same, index_by_map};
use taimi_hud::marker_loading::{plain_text, LoadOutcome, MarkerLoadError};
use taimi_hud::marker_set::{LocalPoint, MarkerEntry, MarkerPosition, MarkerSet, MarkerSettings};
use taimi_hud::marker_type::MarkerType;
use taimi_hud::name_map::NameMap;

fn position(x: f32, y: f32, z: f32) -> MarkerPosition {
    MarkerPosition { x: x.to_bits(), y: y.to_bits(), z: z.to_bits() }
}

fn set(name: &str, category: Option<&str>, map_id: u32) -> MarkerSet {
    MarkerSet {
        enabled: true,
        category: category.map(|c| c.to_string()),
        author: None,
        name: name.to_string(),
        description: String::new(),
        map_id,
        trigger: position(1.0, 2.0, 3.0),
        markers: vec![MarkerEntry {
            marker: MarkerType::Heart,
            id: None,
            position: position(4.0, 5.0, 6.0),
        }],
        path: None,
        idx: None,
    }
}

fn community(categories: Vec<(&str, Vec<MarkerSet>)>) -> RuntimeMarkers {
    RuntimeMarkers {
        path: Some("a.markers".to_string()),
        file: MarkerFormats::Community(MarkerFile {
            last_edit: Timestamp { secs: 1, nanos: 0 },
            path: None,
            categories: categories
                .into_iter()
                .map(|(name, marker_sets)| MarkerCategory { name: name.to_string(), marker_sets })
                .collect(),
        }),
    }
}

fn taimi(sets: Vec<MarkerSet>) -> RuntimeMarkers {
    RuntimeMarkers { path: Some("t.markers".to_string()), file: MarkerFormats::Taimi(sets) }
}

fn integrated(sets: Vec<MarkerSet>) -> RuntimeMarkers {
    RuntimeMarkers {
        path: Some("i.markers".to_string()),
        file: MarkerFormats::Integrated(IntegratedMarkers {
            version: "2.0.0".to_string(),
            path: None,
            squad_marker_preset: sets,
        }),
    }
}

fn names(pack: &RuntimeMarkers) -> Vec<(String, Vec<String>)> {
    let list = |sets: &Vec<MarkerSet>| sets.iter().map(|s| s.name.clone()).collect::<Vec<_>>();
    match &pack.file {
        MarkerFormats::Community(f) =>
            f.categories.iter().map(|c| (c.name.clone(), list(&c.marker_sets))).collect(),
        MarkerFormats::Integrated(c) => vec![(String::new(), list(&c.squad_marker_preset))],
        MarkerFormats::Taimi(t) => vec![(String::new(), list(t))],
    }
}

fn listed(pairs: &[(&str, &[&str])]) -> Vec<(String, Vec<String>)> {
    pairs
        .iter()
        .map(|(c, s)| (c.to_string(), s.iter().map(|n| n.to_string()).collect()))
        .collect()
}

#[test]
fn a_set_is_filed_under_its_category() {
    let now = Timestamp { secs: 9, nanos: 3 };
    let mut pack = community(vec![("Raids", vec![set("a", Some("Raids"), 1)])]);
    assert!(pack.append_raw_at(set("b", Some("Raids"), 1), now).is_ok());
    assert!(pack.append_raw_at(set("c", Some("Fractals"), 1), now).is_ok());
    assert!(pack.append_raw_at(set("d", None, 1), now).is_ok());
    assert!(pack.append_raw_at(set("e", None, 1), now).is_ok());
    assert_eq!(
        names(&pack),
        listed(&[("Raids", &["a", "b"]), ("Fractals", &["c"]), ("No category", &["d", "e"])])
    );
    match &pack.file {
        MarkerFormats::Community(f) => assert_eq!(f.last_edit, now),
        _ => panic!("the form has changed"),
    }
}

#[test]
fn the_present_is_noted_when_a_set_is_added() {
    let mut pack = community(vec![]);
    assert!(pack.append_raw(set("a", Some("x"), 1)).is_ok());
    match &pack.file {
        MarkerFormats::Community(f) => assert!(f.last_edit.secs > 1_600_000_000),
        _ => panic!("the form has changed"),
    }
}

#[test]
fn lists_without_categories_take_sets_at_the_end() {
    let now = Timestamp { secs: 9, nanos: 3 };
    let mut pack = taimi(vec![set("a", None, 1)]);
    assert!(pack.append_raw_at(set("b", Some("x"), 1), now).is_ok());
    assert_eq!(names(&pack), listed(&[("", &["a", "b"])]));
    let mut pack = integrated(vec![]);
    assert!(pack.append_raw_at(set("b", Some("x"), 1), now).is_ok());
    assert_eq!(names(&pack), listed(&[("", &["b"])]));
}

#[test]
fn taking_out_undoes_adding() {
    let now = Timestamp { secs: 9, nanos: 3 };
    let mut pack = community(vec![("Raids", vec![set("a", Some("Raids"), 1)])]);
    assert!(pack.append_raw_at(set("b", Some("Raids"), 1), now).is_ok());
    let taken = pack.remove(Some("Raids".to_string()), 1).ok().unwrap();
    assert_eq!(taken.name, "b");
    assert_eq!(names(&pack), listed(&[("Raids", &["a"])]));
    let mut pack = taimi(vec![set("a", None, 1)]);
    assert!(pack.append_raw_at(set("b", None, 1), now).is_ok());
    assert_eq!(pack.remove(None, 1).ok().unwrap().name, "b");
    assert_eq!(names(&pack), listed(&[("", &["a"])]));
}

#[test]
fn a_file_with_categories_needs_a_category() {
    let mut pack = community(vec![("Raids", vec![set("a", Some("Raids"), 1)])]);
    let e = pack.remove(None, 0).err().unwrap();
    assert!(matches!(e, MarkerFileError::CategoryMissing));
    assert_eq!(e.message(), "Category not provided, required for File format");
    let e = pack.get_entry(Some("Fractals".to_string()), 0).err().unwrap();
    assert!(matches!(&e, MarkerFileError::NoSuchCategory(c) if c == "Fractals"));
    assert_eq!(e.message(), "Couldn't find category Fractals");
    assert!(pack.delete(None, 0).is_err());
    assert!(pack.covers(&None, 7));
    assert!(pack.covers(&Some("Raids".to_string()), 0));
    assert!(!pack.covers(&Some("Raids".to_string()), 1));
    assert_eq!(names(&pack), listed(&[("Raids", &["a"])]));
}

#[test]
fn an_entry_can_be_changed_in_place() {
    let mut pack = community(vec![("Raids", vec![set("a", None, 1), set("b", None, 1)])]);
    pack.get_entry(Some("Raids".to_string()), 1).ok().unwrap().name = "z".to_string();
    assert_eq!(names(&pack), listed(&[("Raids", &["a", "z"])]));
    let mut pack = integrated(vec![set("a", None, 1)]);
    pack.get_entry(None, 0).ok().unwrap().name = "z".to_string();
    assert_eq!(names(&pack), listed(&[("", &["z"])]));
}

#[test]
fn an_edit_keeps_the_number_of_sets() {
    let now = Timestamp { secs: 9, nanos: 3 };
    let raids = || Some("Raids".to_string());
    let mut pack = community(vec![(
        "Raids",
        vec![set("a", Some("Raids"), 1), set("b", Some("Raids"), 1)],
    )]);
    assert!(pack.edit_at(set("c", Some("Raids"), 1), raids(), 0, now).is_ok());
    assert_eq!(names(&pack), listed(&[("Raids", &["c", "b"])]));
    assert!(pack.edit_at(set("d", Some("Other"), 1), raids(), 0, now).is_ok());
    assert_eq!(names(&pack), listed(&[("Raids", &["b"]), ("Other", &["d"])]));
    assert!(pack.edit(set("e", None, 1), Some("Other".to_string()), 0).is_ok());
    assert_eq!(
        names(&pack),
        listed(&[("Raids", &["b"]), ("Other", &[]), ("No category", &["e"])])
    );
    assert!(pack.edit(set("f", None, 1), None, 0).is_err());
}

#[test]
fn a_new_file_holds_one_set() {
    let now = Timestamp { secs: 4, nanos: 5 };
    for (format, category) in [
        (MarkerFiletype::Community, "No category"),
        (MarkerFiletype::Integrated, ""),
        (MarkerFiletype::Taimi, ""),
    ] {
        let made = RuntimeMarkers::create_at("p.markers".to_string(), format, set("a", None, 1), now);
        assert_eq!(names(&made), listed(&[(category, &["a"])]));
        assert_eq!(made.path.as_deref(), Some("p.markers"));
        if let MarkerFormats::Integrated(c) = &made.file {
            assert_eq!(c.version, "2.0.0");
        }
    }
}

#[test]
fn a_new_file_lies_among_the_markers() {
    let made =
        RuntimeMarkers::create("dir", "mine", MarkerFiletype::Taimi, set("a", None, 1));
    let path = made.path.unwrap();
    assert!(path == "dir/mine.markers" || path == "dir\\mine.markers");
    assert_eq!(RuntimeMarkers::new_file_path("dir", "mine"), path);
    let nameless = RuntimeMarkers::new_file_path("dir", "");
    assert!(nameless == "dir/.markers" || nameless == "dir\\.markers");
}

#[test]
fn every_file_below_a_directory_is_looked_for() {
    assert_eq!(RuntimeMarkers::glob(), "**/*");
    let pattern = RuntimeMarkers::path_glob("dir");
    assert!(pattern == "dir/**/*" || pattern == "dir\\**/*");
}

#[test]
fn sets_are_shown_with_their_place() {
    let packs = vec![
        Arc::new(community(vec![
            ("Raids", vec![set("a", None, 1), set("b", Some("Wrong"), 2)]),
            ("Empty", vec![]),
        ])),
        Arc::new(taimi(vec![set("c", Some("Raids"), 1), set("d", None, 1)])),
        Arc::new(integrated(vec![set("e", None, 2)])),
    ];
    let shown = RuntimeMarkers::markers(&packs);
    let of = |c: &str| {
        shown
            .get(c)
            .map(|l| {
                l.iter()
                    .map(|s| (s.name.clone(), s.path.clone().unwrap(), s.idx.unwrap()))
                    .collect::<Vec<_>>()
            })
            .unwrap_or_default()
    };
    let entry = |n: &str, p: &str, i: usize| (n.to_string(), p.to_string(), i);
    assert_eq!(
        of("Raids"),
        vec![entry("a", "a.markers", 0), entry("b", "a.markers", 1), entry("c", "t.markers", 0)]
    );
    assert_eq!(of("No category"), vec![entry("d", "t.markers", 1)]);
    assert_eq!(of("Integrated"), vec![entry("e", "i.markers", 0)]);
    assert_eq!(of("Empty"), vec![]);
    assert!(shown.contains_key("Empty"));
    assert!(!shown.contains_key("Wrong"));
    assert_eq!(shown.len(), 4);
    for s in shown.get("Raids").unwrap() {
        assert_eq!(s.category.as_deref(), Some("Raids"));
    }
    let index = index_by_map(&shown);
    let count = |id: u32| index.get(&id).map(|l| l.len()).unwrap_or(0);
    assert_eq!((count(1), count(2), count(3)), (3, 2, 0));
}

#[test]
fn equal_sets_are_indexed_once() {
    let same = || Arc::new(set("a", Some("x"), 7));
    let mut other = set("a", Some("x"), 7);
    other.trigger.y = (-0.0f32).to_bits();
    let mut zero = set("a", Some("x"), 7);
    zero.trigger.y = 0.0f32.to_bits();
    let mut map: NameMap<Vec<Arc<MarkerSet>>> = NameMap::new();
    map.insert("x".to_string(), vec![same(), same(), Arc::new(other), Arc::new(zero)]);
    let index = index_by_map(&map);
    assert_eq!(index.get(&7).map(|l| l.len()), Some(2));
    assert!(holds_same(index.get(&7).unwrap(), &same()));
    assert!(!holds_same(index.get(&7).unwrap(), &set("b", Some("x"), 7)));
}

#[test]
fn positions_compare_as_numbers() {
    let p = position(1.0, 0.0, f32::NAN);
    let mut q = position(1.0, -0.0, f32::NAN);
    q.z |= 1;
    assert!(p.same(&q));
    assert!(!p.same(&position(1.0, 0.0, 0.0)));
    let local = p.to_local();
    assert_eq!(
        local,
        LocalPoint { x: 1.0f32.to_bits(), y: f32::NAN.to_bits(), z: 0.0f32.to_bits() }
    );
    assert_eq!(MarkerPosition::from_local(local), p);
    assert_eq!(LocalPoint::from(p), local);
    assert_eq!(MarkerPosition::from(local), p);
}

#[test]
fn a_set_is_known_by_its_texts() {
    let mut s = set("n", Some("c"), 1);
    assert_eq!(s.id(), "c/n");
    s.author = Some("au".to_string());
    s.description = "d".to_string();
    assert_eq!(s.id(), "c/au/d/n");
    s.name = String::new();
    s.category = None;
    assert_eq!(s.id(), "au/d");
    assert_eq!(s.combined(), "\nAuthor: au");
    s.author = None;
    s.description = String::new();
    assert_eq!(s.id(), "");
    s.name = "n".to_string();
    assert_eq!(s.combined(), "n\nUnknown Author");
}

#[test]
fn settings_decide_whether_a_set_is_on() {
    let mut s = set("n", Some("c"), 1);
    let mut map: NameMap<MarkerSettings> = NameMap::new();
    assert!(s.status(None));
    assert!(s.status(Some(&map)));
    map.insert("c/n".to_string(), MarkerSettings { disabled: true });
    assert!(!s.status(Some(&map)));
    s.enabled = false;
    assert!(!s.status(None));
    map.insert("c/n".to_string(), MarkerSettings { disabled: false });
    assert!(s.status(Some(&map)));
}

#[test]
fn comments_are_blanked_out() {
    assert_eq!(plain_text("[1]".to_string()), Ok("[1]".to_string()));
    assert_eq!(plain_text("[1] // x".to_string()), Ok("[1]     ".to_string()));
    assert_eq!(plain_text("[1, ]".to_string()), Ok("[1  ]".to_string()));
    assert_eq!(plain_text("\"a//b\"".to_string()), Ok("\"a//b\"".to_string()));
    assert_eq!(plain_text("[1] /x".to_string()), Err(MarkerLoadError::BadComment));
}

#[test]
fn failed_loads_are_counted() {
    let tally = RuntimeMarkers::load_many(vec![
        LoadOutcome::Loaded(Arc::new(taimi(vec![set("a", None, 1)]))),
        LoadOutcome::LoadFailed,
        LoadOutcome::JoinFailed,
        LoadOutcome::LoadFailed,
        LoadOutcome::Loaded(Arc::new(taimi(vec![]))),
    ]);
    assert_eq!(tally.marker_files.len(), 2);
    assert_eq!(names(&tally.marker_files[0]), listed(&[("", &["a"])]));
    assert_eq!((tally.load_errors, tally.join_errors), (2, 1));
    let read = RuntimeMarkers::load_arcless("x".to_string(), MarkerFormats::Taimi(vec![]));
    assert_eq!(read.path.as_deref(), Some("x"));
}

#[test]
fn a_shown_set_leads_back_to_its_file() {
    let make = || {
        vec![
            community(vec![
                ("Raids", vec![set("a", None, 1), set("b", None, 2)]),
                ("Other", vec![set("c", Some("Raids"), 2)]),
            ]),
            taimi(vec![set("d", Some("Raids"), 1), set("e", None, 1)]),
            integrated(vec![set("f", None, 2)]),
        ]
    };
    let mut packs = make();
    let shown = RuntimeMarkers::markers(&make().into_iter().map(Arc::new).collect());
    let mut seen = 0;
    for i in 0..shown.len() {
        for s in shown.entry_at(i).1 {
            let pack = packs.iter_mut().find(|p| p.path == s.path).unwrap();
            assert!(pack.covers(&s.category, s.idx.unwrap()));
            let found = pack.get_entry(s.category.clone(), s.idx.unwrap()).ok().unwrap();
            assert_eq!(found.name, s.name);
            seen += 1;
        }
    }
    assert_eq!(seen, 6);
}

#[test]
fn a_set_that_is_switched_over_changes() {
    let mut s = set("n", Some("c"), 1);
    let mut map: NameMap<MarkerSettings> = NameMap::new();
    let mut toggle = |map: &mut NameMap<MarkerSettings>| {
        let mut entry = map.get("c/n").copied().unwrap_or_default();
        entry.toggle();
        map.insert("c/n".to_string(), entry);
    };
    toggle(&mut map);
    assert!(!s.status(Some(&map)));
    toggle(&mut map);
    assert!(s.status(Some(&map)));
    s.enabled = false;
    assert!(s.status(Some(&map)));
}

use taimi_hud::asset_form::RemoteAssetForm;
use taimi_hud::controls::{Control, GameBind};
use taimi_hud::festival::{Festival, Festivals};
use taimi_hud::font::{select_font, TextFont};
use taimi_hud::marker_type::MarkerType;
use taimi_hud::name_map::NameMap;
use taimi_hud::sources::{
    DeserializedSource, DirectSource, GitHubSource, Source, SourceKind, SourcesFile,
};
use taimi_hud::text::{eq_ignore_ascii_case, join_with, str_eq};

#[test]
fn marker_numbers_go_both_ways() {
    for n in 0..=255u8 {
        match MarkerType::from_repr(n) {
            Some(m) => assert_eq!(m.repr(), n),
            None => assert!(n > 9),
        }
    }
    assert_eq!(MarkerType::from_repr(6), Some(MarkerType::Spiral));
}

#[test]
fn real_markers_are_the_eight_shapes() {
    let names: Vec<&str> = MarkerType::iter_real_values().iter().map(|m| m.name()).collect();
    assert_eq!(
        names,
        vec!["Arrow", "Circle", "Heart", "Square", "Star", "Spiral", "Triangle", "Cross"]
    );
}

#[test]
fn markers_have_game_actions() {
    assert_eq!(
        MarkerType::Spiral.to_place_world_gamebind(),
        GameBind::SquadMarkerPlaceWorldSwirl
    );
    assert_eq!(MarkerType::Cross.to_set_agent_gamebind(), GameBind::SquadMarkerSetAgentCross);
    assert_eq!(
        MarkerType::ClearMarkers.to_set_agent_gamebind(),
        GameBind::SquadMarkerClearAllWorld
    );
    assert_eq!(MarkerType::Cross.control_location(), Control::SquadLocationX);
    assert_eq!(MarkerType::Heart.control_object(), Control::SquadObjectHeart);
    assert_eq!(
        MarkerType::ClearMarkers.control_object(),
        Control::SquadClearAllObjectMarkers
    );
}

#[test]
fn festivals_are_named() {
    for f in Festival::all() {
        assert_eq!(Festival::parse(f.as_str()), Some(f));
    }
    assert_eq!(Festival::parse("LunarNewYear"), Some(Festival::LunarNewYear));
    assert_eq!(Festival::parse("SUPERADVENTUREFESTIVAL"), Some(Festival::SuperAdventureBox));
    assert_eq!(Festival::parse("superadventurebox"), None);
    assert_eq!(Festival::parse(""), None);
    assert_eq!(Festival::FourWinds.as_str(), "festivalofthefourwinds");
}

#[test]
fn festival_sets_hold_their_festivals() {
    assert_eq!(Festivals::for_festival(Festival::Wintersday).bits, 0x20);
    for f in Festival::all() {
        let one = Festivals::from(f);
        assert_eq!(one.to_festival(), Some(f));
        for g in Festival::all() {
            assert_eq!(one.get(g), f == g);
        }
    }
    let two = Festivals::from_iter(&vec![Festival::Halloween, Festival::LunarNewYear]);
    assert_eq!(two.bits, 0x11);
    assert_eq!(two.to_festival(), None);
    assert_eq!(two.iter_festivals(), vec![Festival::LunarNewYear, Festival::Halloween]);
    assert_eq!(Festivals::from_iter(&two.iter_festivals()), two);
    assert_eq!(Festivals { bits: 0xff00 }.iter_festivals(), vec![]);
    assert_eq!(Festivals { bits: 0x0104 }.iter_festivals(), vec![Festival::DragonBash]);
    assert_eq!(Festivals { bits: 0x0104 }.to_festival(), None);
    assert_eq!(Festivals::from(None), Festivals::empty());
    assert_eq!(Festivals::from(Some(Festival::DragonBash)).bits, 4);
    assert_eq!(Festivals::default(), Festivals::empty());
    let both = Festivals { bits: 1 }.union(Festivals { bits: 2 });
    assert_eq!(both.bits, 3);
}

#[test]
fn fonts_are_found_by_name() {
    for font in [TextFont::Font, TextFont::Ui, TextFont::Big] {
        assert_eq!(select_font(font.as_str()), Some(font));
    }
    assert_eq!(select_font("fontless"), None);
    assert_eq!(select_font("BIG"), None);
    assert_eq!(TextFont::default(), TextFont::Fontless);
}

#[test]
fn source_kinds_have_names_and_directories() {
    assert_eq!(SourceKind::Timers.label_ident(), "timers");
    assert_eq!(SourceKind::DataSources.label_ident(), "data-sources");
    assert_eq!(SourceKind::Unspecified.label_ident(), "unspecified");
    let dir = SourceKind::DataSources.get_unpack_dir("base");
    assert!(dir == "base/sources" || dir == "base\\sources");
    let dir = SourceKind::Pathing.get_user_dir("base");
    assert!(dir == "base/pathing" || dir == "base\\pathing");
    assert_eq!(SourceKind::Pathing.get_unpack_dir("base"), dir);
    assert_eq!(SourceKind::Timers.get_unpack_dir("base/"), "base/timers");
    assert_eq!(SourceKind::Timers.is(SourceKind::Timers), Some(true));
    assert_eq!(SourceKind::Timers.is(SourceKind::Unspecified), Some(false));
    assert_eq!(SourceKind::Unspecified.is(SourceKind::Timers), None);
    assert_eq!(SourceKind::Unspecified.is(SourceKind::Unspecified), Some(true));
    assert_eq!(SourceKind::default(), SourceKind::Timers);
}

fn direct(name: &str) -> DeserializedSource {
    DeserializedSource::Direct(DirectSource { name: name.to_string(), url: "u".to_string() })
}

fn github(name: &str) -> DeserializedSource {
    DeserializedSource::GitHub(GitHubSource {
        name: name.to_string(),
        owner: "o".to_string(),
        repository: "r".to_string(),
    })
}

#[test]
fn sources_are_looked_up_by_kind_and_name() {
    let mut file = SourcesFile::empty();
    assert!(file.lookup(SourceKind::Timers, "a").is_none());
    file.insert(SourceKind::Timers, vec![direct("a"), github("b"), github("a")]);
    file.insert(SourceKind::Markers, vec![github("c")]);
    assert!(matches!(
        file.lookup(SourceKind::Timers, "a"),
        Some(DeserializedSource::Direct(_))
    ));
    assert_eq!(file.lookup(SourceKind::Timers, "b").unwrap().as_source().name(), "b");
    assert!(file.lookup(SourceKind::Markers, "a").is_none());
    let listed: Vec<(SourceKind, String)> =
        file.iter().iter().map(|(k, s)| (*k, s.as_source().name())).collect();
    let expected: Vec<(SourceKind, String)> = [
        (SourceKind::Timers, "a"),
        (SourceKind::Timers, "b"),
        (SourceKind::Timers, "a"),
        (SourceKind::Markers, "c"),
    ]
    .iter()
    .map(|(k, n)| (*k, n.to_string()))
    .collect();
    assert_eq!(listed, expected);
    assert_eq!(file.into_iter().len(), 4);
    assert_eq!(SourcesFile::FILENAME, "sources.toml");
}

#[test]
fn stock_sources_stand_in_for_a_failed_download() {
    let mut stock = SourcesFile::empty();
    stock.insert(SourceKind::Timers, vec![direct("stock")]);
    let stock = SourcesFile::stock(Some(stock));
    assert_eq!(SourcesFile::stock(None).into_iter().len(), 0);
    let kept = SourcesFile::get_sources(Err::<SourcesFile, &str>("no net"), false, stock);
    assert_eq!(kept.ok().unwrap().into_iter().len(), 1);
    let kept = SourcesFile::get_sources(Err::<SourcesFile, &str>("no net"), true, SourcesFile::empty());
    assert_eq!(kept.err(), Some("no net"));
    let mut got = SourcesFile::empty();
    got.insert(SourceKind::Addon, vec![github("x"), github("y")]);
    let kept = SourcesFile::get_sources(Ok::<SourcesFile, &str>(got), true, SourcesFile::empty());
    assert_eq!(kept.ok().unwrap().into_iter().len(), 2);
}

#[test]
fn assets_are_told_by_their_extension() {
    let file = Some(RemoteAssetForm::File);
    let tar = Some(RemoteAssetForm::Tarball);
    assert_eq!(file, Some(RemoteAssetForm::FILE));
    assert_eq!(tar, Some(RemoteAssetForm::TAR));
    assert_eq!(tar, Some(RemoteAssetForm::TAR_GZ));
    let of = |kind, name: &str| RemoteAssetForm::with_asset(kind, name, RemoteAssetForm::CONTENT_TYPE_BINARY);
    assert_eq!(of(SourceKind::Addon, "a.DLL"), file);
    assert_eq!(of(SourceKind::Addon, "a.zip"), None);
    assert_eq!(of(SourceKind::DataSources, "x/a.toml"), file);
    assert_eq!(of(SourceKind::Pathing, "a.taco"), file);
    assert_eq!(of(SourceKind::Timers, "a.tar.gz"), tar);
    assert_eq!(of(SourceKind::Timers, "a.gz"), None);
    assert_eq!(of(SourceKind::Timers, "a.tgz"), tar);
    assert_eq!(of(SourceKind::Timers, "a.tar"), tar);
    assert_eq!(of(SourceKind::Timers, "a.bhtimer"), file);
    assert_eq!(of(SourceKind::Timers, "a.zip"), None);
    assert_eq!(of(SourceKind::Markers, "a.markers"), file);
    assert_eq!(of(SourceKind::Markers, ".markers"), None);
    assert_eq!(of(SourceKind::Unspecified, "anything"), file);
    for name in ["x/a.tar.gz", "a.Bhtimer", "a.b.ZIP", "tgz"] {
        assert_eq!(
            of(SourceKind::Timers, name),
            RemoteAssetForm::with_asset(SourceKind::Timers, &name.to_ascii_uppercase(), "text/html")
        );
    }
    assert_eq!(RemoteAssetForm::Tarball.for_source_archive(SourceKind::Markers), tar);
    assert_eq!(RemoteAssetForm::Tarball.for_source_archive(SourceKind::Addon), None);
}

#[test]
fn texts_are_compared_and_joined() {
    assert!(str_eq("héllo", "héllo"));
    assert!(!str_eq("a", "ab"));
    assert!(eq_ignore_ascii_case("AbÉ", "aBÉ"));
    assert!(!eq_ignore_ascii_case("é", "É"));
    let list = vec!["a".to_string(), String::new(), "b".to_string()];
    assert_eq!(join_with(&list, "/"), "a//b");
    assert_eq!(join_with(&vec![], "/"), "");
}

#[test]
fn names_keep_their_order() {
    let mut map: NameMap<u32> = NameMap::new();
    assert_eq!(map.insert("b".to_string(), 1), None);
    assert_eq!(map.insert("a".to_string(), 2), None);
    assert_eq!(map.insert("b".to_string(), 3), Some(1));
    assert_eq!(map.len(), 2);
    assert_eq!(map.entry_at(0), ("b", &3));
    assert_eq!(map.entry_at(1), ("a", &2));
    assert_eq!(map.remove("b"), Some(3));
    assert_eq!(map.remove("b"), None);
    assert!(!map.contains_key("b"));
    assert_eq!(map.get("a"), Some(&2));
    map.clear();
    assert_eq!(map.len(), 0);
}

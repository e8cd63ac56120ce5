//! What stands for what: numbers, names, inputs and directories.
#[allow(unused_imports)]
use crate::controls::{Control, GameBind};
#[allow(unused_imports)]
use crate::festival::{bits_of, festival_bit, festival_name, festivals_in_order, Festival, Festivals};
#[allow(unused_imports)]
use crate::font::{font_name, font_to_push, TextFont};
#[allow(unused_imports)]
use crate::marker_type::{
    location_control, marker_name, marker_number, object_control, place_world_bind,
    real_marker_types, set_agent_bind, MarkerType,
};
#[allow(unused_imports)]
use crate::picks::{keeps_just, lemma_filter_keeps_at};
#[allow(unused_imports)]
use crate::sources::{unpack_dir_name, SourceKind};
#[allow(unused_imports)]
use crate::text::{lower, lower_seq, same_ignoring_case};
use vstd::prelude::*;

verus! {

/// Kinds of marker are numbered in files from zero on, and those that mark something are listed by
/// their numbers.
pub proof fn law_numbers_of_markers(m: MarkerType, i: int)
    ensures
        marker_number(m) == 0 <==> m == MarkerType::Blank,
        marker_number(m) == 1 <==> m == MarkerType::Arrow,
        marker_number(m) == 2 <==> m == MarkerType::Circle,
        marker_number(m) == 3 <==> m == MarkerType::Heart,
        marker_number(m) == 4 <==> m == MarkerType::Square,
        marker_number(m) == 5 <==> m == MarkerType::Star,
        marker_number(m) == 6 <==> m == MarkerType::Spiral,
        marker_number(m) == 7 <==> m == MarkerType::Triangle,
        marker_number(m) == 8 <==> m == MarkerType::Cross,
        marker_number(m) == 9 <==> m == MarkerType::ClearMarkers,
        real_marker_types().len() == 8,
        0 <= i < 8 ==> marker_number(real_marker_types()[i]) == i + 1,
{
}

/// Each marker is put on the ground by its own bind and control.
pub proof fn law_ground_actions(m: MarkerType)
    ensures
        place_world_bind(m) == Some(GameBind::SquadMarkerPlaceWorldArrow) <==> m
            == MarkerType::Arrow,
        place_world_bind(m) == Some(GameBind::SquadMarkerPlaceWorldCircle) <==> m
            == MarkerType::Circle,
        place_world_bind(m) == Some(GameBind::SquadMarkerPlaceWorldHeart) <==> m
            == MarkerType::Heart,
        place_world_bind(m) == Some(GameBind::SquadMarkerPlaceWorldSquare) <==> m
            == MarkerType::Square,
        place_world_bind(m) == Some(GameBind::SquadMarkerPlaceWorldStar) <==> m == MarkerType::Star,
        place_world_bind(m) == Some(GameBind::SquadMarkerPlaceWorldSwirl) <==> m
            == MarkerType::Spiral,
        place_world_bind(m) == Some(GameBind::SquadMarkerPlaceWorldTriangle) <==> m
            == MarkerType::Triangle,
        place_world_bind(m) == Some(GameBind::SquadMarkerPlaceWorldCross) <==> m
            == MarkerType::Cross,
        place_world_bind(m) == Some(GameBind::SquadMarkerClearAllWorld) <==> m
            == MarkerType::ClearMarkers,
        location_control(m) == Some(Control::SquadLocationArrow) <==> m == MarkerType::Arrow,
        location_control(m) == Some(Control::SquadLocationCircle) <==> m == MarkerType::Circle,
        location_control(m) == Some(Control::SquadLocationHeart) <==> m == MarkerType::Heart,
        location_control(m) == Some(Control::SquadLocationSquare) <==> m == MarkerType::Square,
        location_control(m) == Some(Control::SquadLocationStar) <==> m == MarkerType::Star,
        location_control(m) == Some(Control::SquadLocationSpiral) <==> m == MarkerType::Spiral,
        location_control(m) == Some(Control::SquadLocationTriangle) <==> m == MarkerType::Triangle,
        location_control(m) == Some(Control::SquadLocationX) <==> m == MarkerType::Cross,
        location_control(m) == Some(Control::SquadClearAllLocationMarkers) <==> m
            == MarkerType::ClearMarkers,
        place_world_bind(m) is None <==> m == MarkerType::Blank,
        location_control(m) is None <==> m == MarkerType::Blank,
{
}

/// Each marker is put on a target by its own bind and control; clearing is the same bind for ground
/// and targets.
pub proof fn law_target_actions(m: MarkerType)
    ensures
        set_agent_bind(m) == Some(GameBind::SquadMarkerSetAgentArrow) <==> m == MarkerType::Arrow,
        set_agent_bind(m) == Some(GameBind::SquadMarkerSetAgentCircle) <==> m == MarkerType::Circle,
        set_agent_bind(m) == Some(GameBind::SquadMarkerSetAgentHeart) <==> m == MarkerType::Heart,
        set_agent_bind(m) == Some(GameBind::SquadMarkerSetAgentSquare) <==> m == MarkerType::Square,
        set_agent_bind(m) == Some(GameBind::SquadMarkerSetAgentStar) <==> m == MarkerType::Star,
        set_agent_bind(m) == Some(GameBind::SquadMarkerSetAgentSwirl) <==> m == MarkerType::Spiral,
        set_agent_bind(m) == Some(GameBind::SquadMarkerSetAgentTriangle) <==> m
            == MarkerType::Triangle,
        set_agent_bind(m) == Some(GameBind::SquadMarkerSetAgentCross) <==> m == MarkerType::Cross,
        set_agent_bind(m) == Some(GameBind::SquadMarkerClearAllWorld) <==> m
            == MarkerType::ClearMarkers,
        object_control(m) == Some(Control::SquadObjectArrow) <==> m == MarkerType::Arrow,
        object_control(m) == Some(Control::SquadObjectCircle) <==> m == MarkerType::Circle,
        object_control(m) == Some(Control::SquadObjectHeart) <==> m == MarkerType::Heart,
        object_control(m) == Some(Control::SquadObjectSquare) <==> m == MarkerType::Square,
        object_control(m) == Some(Control::SquadObjectStar) <==> m == MarkerType::Star,
        object_control(m) == Some(Control::SquadObjectSpiral) <==> m == MarkerType::Spiral,
        object_control(m) == Some(Control::SquadObjectTriangle) <==> m == MarkerType::Triangle,
        object_control(m) == Some(Control::SquadObjectX) <==> m == MarkerType::Cross,
        object_control(m) == Some(Control::SquadClearAllObjectMarkers) <==> m
            == MarkerType::ClearMarkers,
        set_agent_bind(m) is None <==> m == MarkerType::Blank,
        object_control(m) is None <==> m == MarkerType::Blank,
{
}

/// Each kind of marker goes by its own name.
pub proof fn law_names_of_markers(m: MarkerType)
    ensures
        m == MarkerType::Blank ==> marker_name(m) == "Blank"@,
        m == MarkerType::Arrow ==> marker_name(m) == "Arrow"@,
        m == MarkerType::Circle ==> marker_name(m) == "Circle"@,
        m == MarkerType::Heart ==> marker_name(m) == "Heart"@,
        m == MarkerType::Square ==> marker_name(m) == "Square"@,
        m == MarkerType::Star ==> marker_name(m) == "Star"@,
        m == MarkerType::Spiral ==> marker_name(m) == "Spiral"@,
        m == MarkerType::Triangle ==> marker_name(m) == "Triangle"@,
        m == MarkerType::Cross ==> marker_name(m) == "Cross"@,
        m == MarkerType::ClearMarkers ==> marker_name(m) == "ClearMarkers"@,
{
}

/// Festivals stand in the order of the year, each once, and each has the bit of its place there and
/// its own name.
pub proof fn law_festivals_of_the_year(f: Festival)
    ensures
        ({
            let place = match f {
                Festival::LunarNewYear => 0int,
                Festival::SuperAdventureBox => 1,
                Festival::DragonBash => 2,
                Festival::FourWinds => 3,
                Festival::Halloween => 4,
                Festival::Wintersday => 5,
            };
            &&& festivals_in_order().len() == 6
            &&& festivals_in_order()[place] == f
            &&& festival_bit(f) == 1u16 << (place as u16)
        }),
        f == Festival::Halloween ==> festival_name(f) == "halloween"@,
        f == Festival::Wintersday ==> festival_name(f) == "wintersday"@,
        f == Festival::SuperAdventureBox ==> festival_name(f) == "superadventurefestival"@,
        f == Festival::LunarNewYear ==> festival_name(f) == "lunarnewyear"@,
        f == Festival::FourWinds ==> festival_name(f) == "festivalofthefourwinds"@,
        f == Festival::DragonBash ==> festival_name(f) == "dragonbash"@,
{
    assert(1u16 << 0u16 == 1 && 1u16 << 1u16 == 2 && 1u16 << 2u16 == 4 && 1u16 << 3u16 == 8
        && 1u16 << 4u16 == 16 && 1u16 << 5u16 == 32) by (bit_vector);
}

/// A set lists its festivals in the order of the year, each once.
pub proof fn law_festivals_are_listed_in_order(set: Festivals)
    ensures
        keeps_just(
            set.members(),
            festivals_in_order(),
            6,
            |i: int| set.bits & festival_bit(festivals_in_order()[i]) != 0,
        ),
{
    let all = festivals_in_order();
    let inside = |f: Festival| set.has(f);
    let which = |i: int| set.bits & festival_bit(festivals_in_order()[i]) != 0;
    assert forall|i: int| 0 <= i < all.len() implies inside(#[trigger] all[i]) == which(i) by {
        let bit = festival_bit(all[i]);
        let bits = set.bits;
        assert((bits & bit == bit) == (bits & bit != 0)) by (bit_vector)
            requires
                bit == 1 || bit == 2 || bit == 4 || bit == 8 || bit == 16 || bit == 32,
        ;
    }
    lemma_filter_keeps_at(all, inside, which);
}

/// Each font goes by its own name, and a name leads to the font that has it.
pub proof fn law_names_of_fonts(name: Seq<char>)
    ensures
        font_name(TextFont::Fontless) == "fontless"@,
        font_name(TextFont::Font) == "font"@,
        font_name(TextFont::Ui) == "ui"@,
        font_name(TextFont::Big) == "big"@,
        font_to_push(name) == Some(TextFont::Font) <==> name == "font"@,
        font_to_push(name) == Some(TextFont::Ui) <==> name == "ui"@,
        font_to_push(name) == Some(TextFont::Big) <==> name == "big"@,
        font_to_push(name) != Some(TextFont::Fontless),
{
    crate::font::law_fonts_found_by_name(TextFont::Font);
    crate::font::law_fonts_found_by_name(TextFont::Ui);
    crate::font::law_fonts_found_by_name(TextFont::Big);
}

/// Each kind of data that is unpacked has a directory of its own, and add-ons and unspecified data
/// have none.
pub proof fn law_directories_of_kinds(kind: SourceKind)
    ensures
        kind == SourceKind::Timers ==> unpack_dir_name(kind) == Some("timers"@),
        kind == SourceKind::Markers ==> unpack_dir_name(kind) == Some("markers"@),
        kind == SourceKind::Pathing ==> unpack_dir_name(kind) == Some("pathing"@),
        kind == SourceKind::DataSources ==> unpack_dir_name(kind) == Some("sources"@),
        unpack_dir_name(kind) is None <==> kind == SourceKind::Addon || kind
            == SourceKind::Unspecified,
{
}

/// Texts are the same up to case just where they are as long and, place by place, have the same
/// character or the same letter of the alphabet in the two cases.
pub proof fn law_same_up_to_case(a: Seq<char>, b: Seq<char>)
    ensures
        same_ignoring_case(a, b) <==> a.len() == b.len() && forall|i: int|
            0 <= i < a.len() ==> {
                let (x, y) = (#[trigger] a[i], b[i]);
                ||| x == y
                ||| 'A' <= x && x <= 'Z' && y as int == x as int + 32
                ||| 'A' <= y && y <= 'Z' && x as int == y as int + 32
            },
{
    let s = lower_seq(a);
    let t = lower_seq(b);
    assert(s.len() == a.len() && t.len() == b.len());
    assert forall|i: int| 0 <= i < a.len() && i < b.len() implies (s[i] == t[i]) == ({
        let (x, y) = (#[trigger] a[i], b[i]);
        ||| x == y
        ||| 'A' <= x && x <= 'Z' && y as int == x as int + 32
        ||| 'A' <= y && y <= 'Z' && x as int == y as int + 32
    }) by {
        assert(s[i] == lower(a[i]));
        assert(t[i] == lower(b[i]));
    }
    if same_ignoring_case(a, b) {
        assert forall|i: int| 0 <= i < a.len() implies {
            let (x, y) = (#[trigger] a[i], b[i]);
            ||| x == y
            ||| 'A' <= x && x <= 'Z' && y as int == x as int + 32
            ||| 'A' <= y && y <= 'Z' && x as int == y as int + 32
        } by {
            assert(s[i] == t[i]);
        }
    }
    if a.len() == b.len() && forall|i: int|
        0 <= i < a.len() ==> {
            let (x, y) = (#[trigger] a[i], b[i]);
            ||| x == y
            ||| 'A' <= x && x <= 'Z' && y as int == x as int + 32
            ||| 'A' <= y && y <= 'Z' && x as int == y as int + 32
        } {
        assert forall|i: int| 0 <= i < s.len() implies s[i] == t[i] by {
            assert(a[i] == a[i]);
        }
        assert(s =~= t);
    }
}

} // verus!

//! What holds of the sets that the player comes near, and of how events are answered.
#[allow(unused_imports)]
use crate::controller::markers::{
    marked, pending_sets, MarkersAction, MarkersController, MarkersEvent,
};
#[allow(unused_imports)]
use crate::marker_listing::has_same;
#[allow(unused_imports)]
use crate::marker_set::{MarkerSet, MarkerSetView, MarkerSettings};
use crate::name_map::NameMap;
#[allow(unused_imports)]
use crate::picks::{
    is_at_places, keeps_just, lemma_filter_keeps_at, lemma_keeps_more, lemma_keeps_none,
};
#[allow(unused_imports)]
use crate::settings::Settings;
#[allow(unused_imports)]
use crate::squad::{
    AutoplaceAction, GroupMember, MarkerAutoPlaceSettings, SquadCondition, SquadRank,
    SquadUpdateType, UserInfo, UserRole,
};
#[allow(unused_imports)]
use crate::squad_laws::{
    is_last_report, is_meant, law_changes_touch_one_member, law_conditions,
    law_reports_make_the_squad,
};
use std::sync::Arc;
use vstd::prelude::*;

verus! {

/// The places of a list with a set that is the same as no spent one.
pub open spec fn not_spent(
    list: Seq<MarkerSetView>,
    spent: Seq<MarkerSetView>,
) -> spec_fn(int) -> bool {
    |i: int|
        forall|k: int| 0 <= k < spent.len() ==> #[trigger] spent[k].canon() != list[i].canon()
}

/// The sets that can still be met are just those that are the same as no spent one, in their order.
pub proof fn law_what_can_still_be_met(list: Seq<MarkerSetView>, spent: Seq<MarkerSetView>)
    ensures
        keeps_just(
            pending_sets(list, spent),
            list,
            list.len() as int,
            not_spent(list, spent),
        ),
{
    let free = |set: MarkerSetView| !has_same(spent, set);
    assert forall|i: int| 0 <= i < list.len() implies free(#[trigger] list[i]) == not_spent(
        list,
        spent,
    )(i) by {}
    lemma_filter_keeps_at(list, free, not_spent(list, spent));
}

/// The sets that the player came near are just those that are marked as near, in their order.
pub proof fn law_what_is_met(list: Seq<MarkerSetView>, marks: Seq<bool>, n: nat)
    requires
        n <= list.len(),
        marks.len() == list.len(),
    ensures
        keeps_just(marked(list, marks, n), list, n as int, |i: int| marks[i]),
    decreases n,
{
    let which = |i: int| marks[i];
    if n == 0 {
        lemma_keeps_none(list, which);
    } else {
        law_what_is_met(list, marks, (n - 1) as nat);
        lemma_keeps_more(marked(list, marks, (n - 1) as nat), list, n - 1, which);
    }
}

/// On a map can be met what is found under its number, as far as it is not spent; and nothing where
/// the player is on no map.
pub proof fn law_what_can_be_met_on_a_map(controller: MarkersController, map_id: u32)
    ensures
        controller.on_map(map_id) == (if controller.map_id_to_markers@.contains_key(map_id) {
            controller.map_id_to_markers@[map_id].deep_view()
        } else {
            Seq::empty()
        }),
        controller.to_meet(None).len() == 0,
        keeps_just(
            controller.to_meet(Some(map_id)),
            controller.on_map(map_id),
            controller.on_map(map_id).len() as int,
            not_spent(controller.on_map(map_id), controller.spent_markers.deep_view()),
        ),
{
    law_what_can_still_be_met(controller.on_map(map_id), controller.spent_markers.deep_view());
}

/// Coming near a set leads to something only where the set is on and the setting asks for it, and
/// then to what it asks for; where the setting names a rank, only where the first source that knows
/// the player tells of that rank, or of a higher one where those are meant too.
pub proof fn law_coming_near_does_what_is_set(
    controller: &MarkersController,
    marker: &MarkerSet,
    settings: Option<&NameMap<MarkerSettings>>,
    live_name: Option<&str>,
    account_name: Option<&str>,
    done: AutoplaceAction,
    rank: Option<SquadRank>,
    on: bool,
)
    requires
        call_ensures(
            MarkersController::handle_marker_autoplace,
            (controller, marker, settings, live_name, account_name),
            done,
        ),
        call_ensures(MarkersController::get_role, (controller, live_name, account_name), rank),
        call_ensures(MarkerSet::status, (marker, settings), on),
    ensures
        done == AutoplaceAction::OpenWindow <==> on && exists|c: SquadCondition| #[trigger]
            is_meant(c, rank) && controller.marker_autoplace == Some(
                MarkerAutoPlaceSettings::OpenWindow(c),
            ),
        done == AutoplaceAction::Place <==> on && exists|c: SquadCondition| #[trigger]
            is_meant(c, rank) && controller.marker_autoplace == Some(
                MarkerAutoPlaceSettings::Place(c),
            ),
{
    match controller.marker_autoplace {
        Some(MarkerAutoPlaceSettings::OpenWindow(c)) => {
            law_conditions(c, rank);
        },
        Some(MarkerAutoPlaceSettings::Place(c)) => {
            law_conditions(c, rank);
        },
        _ => {},
    }
}

/// The player's rank is the one that the first source tells which knows the player: the live data
/// of the squad, the combat log, the game's identity data.
pub proof fn law_controller_knows_the_rank(
    controller: MarkersController,
    live_name: Option<Seq<char>>,
    account_name: Option<Seq<char>>,
)
    ensures
        ({
            let rank = controller.role(live_name, account_name);
            let live = controller.rtapi_squad@;
            let log = controller.extras_squad@;
            let in_live = live_name is Some && live.contains_key(live_name->0);
            let in_log = account_name is Some && log.contains_key(account_name->0);
            &&& in_live ==> (rank == Some(SquadRank::Commander)
                <==> live[live_name->0].is_commander) && (rank == Some(SquadRank::Lieutenant)
                <==> !live[live_name->0].is_commander && live[live_name->0].is_lieutenant) && rank
                is Some
            &&& !in_live && in_log ==> (rank == Some(SquadRank::Commander)
                <==> log[account_name->0].role == UserRole::SquadLeader) && (rank == Some(
                SquadRank::Lieutenant,
            ) <==> log[account_name->0].role == UserRole::Lieutenant) && (rank is None
                <==> log[account_name->0].role == UserRole::Other)
            &&& !in_live && !in_log ==> rank == controller.mumble_role
        }),
{
}

/// Each event asks for its own thing outside, with what it carries; all others ask for nothing.
pub proof fn law_events_ask_for_their_own(event: MarkersEvent)
    ensures
        ({
            let action = MarkersController::outside(event);
            &&& action is Clear <==> event is ClearMarkers
            &&& action is Reload <==> event is ReloadMarkers
            &&& action is ListPaths <==> event is GetMarkerPaths
            &&& action is Place <==> event is SetMarker
            &&& action is Save <==> event is SaveMarker
            &&& action is Delete <==> event is DeleteMarker
            &&& (event matches MarkersEvent::SetMarker(set) ==> action == MarkersAction::Place(set))
            &&& (event matches MarkersEvent::SaveMarker(save) ==> action == MarkersAction::Save(
                save,
            ))
            &&& (event matches MarkersEvent::DeleteMarker { path, category, idx } ==> action == (
            MarkersAction::Delete { path, category, idx }))
        }),
{
}

/// Only the events about a set's switch and about the setting change the settings, which must be
/// saved then: the named set is on, off or switched over, and no other is touched.
pub proof fn law_settings_change_where_asked(
    before: Settings,
    after: Settings,
    event: MarkersEvent,
    other: Seq<char>,
)
    requires
        MarkersController::settles(before, after, event),
    ensures
        ({
            let named = match event {
                MarkersEvent::MarkerEnable(id) => Some(id@),
                MarkersEvent::MarkerDisable(id) => Some(id@),
                MarkersEvent::MarkerToggle(id) => Some(id@),
                _ => None,
            };
            let was_off = |id: Seq<char>| before.markers@.contains_key(id)
                && before.markers@[id].disabled;
            &&& after.dirty == (before.dirty || named is Some || event is MarkerAutoPlaceSettings)
            &&& named is Some ==> after.markers@.contains_key(named->0)
                && after.markers@[named->0].disabled == (event is MarkerDisable || (event
                is MarkerToggle && !was_off(named->0)))
            &&& named != Some(other) ==> after.markers@.contains_key(other)
                == before.markers@.contains_key(other) && (before.markers@.contains_key(other)
                ==> after.markers@[other] == before.markers@[other])
            &&& after.marker_autoplace == (if event is MarkerAutoPlaceSettings {
                event->MarkerAutoPlaceSettings_0
            } else {
                before.marker_autoplace
            })
            &&& after == (Settings {
                dirty: after.dirty,
                markers: after.markers,
                marker_autoplace: after.marker_autoplace,
                ..before
            })
        }),
{
}

/// An event changes of the controller what it is about and nothing else: who is in the squad as the
/// live data or the combat log tell it, the rank that the identity data tell, which sets are spent,
/// or what happens near a set.
pub proof fn law_controller_changes_where_told(
    before: MarkersController,
    after: MarkersController,
    event: MarkersEvent,
    own_name: Option<Seq<char>>,
)
    requires
        before.answers(after, event, own_name),
    ensures
        after.mumble_role == (if event is MumbleIdentityUpdated {
            Some(event->role)
        } else {
            before.mumble_role
        }),
        after.marker_autoplace == (if event is MarkerAutoPlaceSettings {
            Some(event->MarkerAutoPlaceSettings_0)
        } else {
            before.marker_autoplace
        }),
        event is ClearSpentAutoplace ==> after.spent_markers@.len() == 0,
        !(event is ClearSpentAutoplace) ==> after.spent_markers == before.spent_markers,
        !(event is RTAPISquadUpdate) ==> after.rtapi_squad == before.rtapi_squad,
        !(event is ExtrasSquadUpdate) ==> after.extras_squad == before.extras_squad,
        after.markers == before.markers,
        after.map_id_to_markers == before.map_id_to_markers,
{
}

/// Where the player comes to a map, the sets that are found under its number can be met, all of
/// them again.
pub proof fn law_sets_come_with_the_map()
    ensures
        forall|controller: &mut MarkersController, map_id: u32, sets: Vec<Arc<MarkerSet>>|
            #[trigger]
            call_ensures(MarkersController::handle_map_event, (controller, map_id), sets) ==> {
                let maps = controller.map_id_to_markers@;
                &&& maps.contains_key(map_id) ==> sets.deep_view() == maps[map_id].deep_view()
                &&& !maps.contains_key(map_id) ==> sets@.len() == 0
                &&& final(controller).spent_markers@.len() == 0
                &&& final(controller).to_meet(Some(map_id)) == sets.deep_view()
                &&& final(controller).map_id_to_markers == controller.map_id_to_markers
                &&& final(controller).markers == controller.markers
            },
{
    assert forall|controller: &mut MarkersController, map_id: u32, sets: Vec<Arc<MarkerSet>>|
        #[trigger]
        call_ensures(MarkersController::handle_map_event, (controller, map_id), sets) implies {
        let maps = controller.map_id_to_markers@;
        &&& maps.contains_key(map_id) ==> sets.deep_view() == maps[map_id].deep_view()
        &&& !maps.contains_key(map_id) ==> sets@.len() == 0
        &&& final(controller).spent_markers@.len() == 0
        &&& final(controller).to_meet(Some(map_id)) == sets.deep_view()
        &&& final(controller).map_id_to_markers == controller.map_id_to_markers
        &&& final(controller).markers == controller.markers
    } by {
        law_what_can_be_met_on_a_map(*controller, map_id);
        assert(sets.deep_view().len() == sets@.len());
    }
}

/// The player meets just the sets that are near of those that can still be met, and meets none of
/// them again: afterwards no set that can be met is the same as one that was.
pub proof fn law_each_set_is_met_once()
    ensures
        forall|
            controller: &mut MarkersController,
            map_id: Option<u32>,
            near: &Vec<bool>,
            met: Vec<Arc<MarkerSet>>,
            j: int,
            k: int,
        |
            near@.len() == controller.to_meet(map_id).len() && #[trigger] call_ensures(
                MarkersController::handle_position,
                (controller, map_id, near),
                met,
            ) ==> {
                &&& keeps_just(
                    met.deep_view(),
                    controller.to_meet(map_id),
                    near@.len() as int,
                    |i: int| near@[i],
                )
                &&& 0 <= j < final(controller).to_meet(map_id).len() && 0 <= k < met@.len()
                    ==> (#[trigger] final(controller).to_meet(map_id)[j]).canon() != (
                #[trigger] met.deep_view()[k]).canon()
            },
{
    assert forall|
        controller: &mut MarkersController,
        map_id: Option<u32>,
        near: &Vec<bool>,
        met: Vec<Arc<MarkerSet>>,
        j: int,
        k: int,
    |
        near@.len() == controller.to_meet(map_id).len() && #[trigger] call_ensures(
            MarkersController::handle_position,
            (controller, map_id, near),
            met,
        ) implies {
        &&& keeps_just(
            met.deep_view(),
            controller.to_meet(map_id),
            near@.len() as int,
            |i: int| near@[i],
        )
        &&& 0 <= j < final(controller).to_meet(map_id).len() && 0 <= k < met@.len() ==> (
        #[trigger] final(controller).to_meet(map_id)[j]).canon() != (
        #[trigger] met.deep_view()[k]).canon()
    } by {
        law_what_is_met(controller.to_meet(map_id), near@, near@.len());
        if 0 <= j < final(controller).to_meet(map_id).len() && 0 <= k < met@.len() {
            let list = controller.on_map(map_id->0);
            let spent = final(controller).spent_markers.deep_view();
            law_what_can_be_met_on_a_map(*final(controller), map_id->0);
            let free = final(controller).to_meet(map_id);
            let places = choose|places: Seq<int>|
                {
                    &&& #[trigger] is_at_places(free, list, places)
                    &&& forall|i: int| #[trigger]
                        places.contains(i) <==> 0 <= i < list.len() && not_spent(list, spent)(i)
                };
            assert(places.contains(places[j]));
            assert(met.deep_view().len() == met@.len());
            let before = controller.spent_markers.deep_view();
            assert(spent[before.len() + k] == met.deep_view()[k]);
        }
    }
}

/// Where it is forgotten which sets were met, all sets of the map can be met again.
pub proof fn law_sets_can_be_met_again(map_id: u32)
    ensures
        forall|controller: &mut MarkersController| #[trigger]
            call_ensures(MarkersController::clear_spent_autoplace, (controller,), ()) ==> {
                &&& final(controller).to_meet(Some(map_id)) == controller.on_map(map_id)
                &&& final(controller).marker_autoplace == controller.marker_autoplace
            },
{
    assert forall|controller: &mut MarkersController| #[trigger]
        call_ensures(MarkersController::clear_spent_autoplace, (controller,), ()) implies {
        &&& final(controller).to_meet(Some(map_id)) == controller.on_map(map_id)
        &&& final(controller).marker_autoplace == controller.marker_autoplace
    } by {
        let list = controller.on_map(map_id);
        let spent = final(controller).spent_markers.deep_view();
        assert(spent.len() == 0);
        law_what_can_be_met_on_a_map(*final(controller), map_id);
        lemma_all_kept(final(controller).to_meet(Some(map_id)), list, not_spent(list, spent));
    }
}

/// What keeps every place of a list is the list.
proof fn lemma_all_kept(
    part: Seq<MarkerSetView>,
    list: Seq<MarkerSetView>,
    which: spec_fn(int) -> bool,
)
    requires
        keeps_just(part, list, list.len() as int, which),
        forall|i: int| 0 <= i < list.len() ==> #[trigger] which(i),
    ensures
        part == list,
{
    let places = choose|places: Seq<int>|
        {
            &&& #[trigger] is_at_places(part, list, places)
            &&& forall|i: int| #[trigger] places.contains(i) <==> 0 <= i < list.len() && which(i)
        };
    lemma_places_run(places, list.len() as int);
    assert forall|a: int| 0 <= a < list.len() implies part[a] == list[a] by {
        assert(places[a] == a);
    }
    assert(part =~= list);
}

/// Ascending places that are all of the first `n` are these in a row.
proof fn lemma_places_run(places: Seq<int>, n: int)
    requires
        n >= 0,
        forall|x: int, y: int| 0 <= x < y < places.len() ==> places[x] < places[y],
        forall|i: int| #[trigger] places.contains(i) <==> 0 <= i < n,
    ensures
        places.len() == n,
        forall|a: int| 0 <= a < n ==> #[trigger] places[a] == a,
    decreases n,
{
    assert forall|x: int| 0 <= x < places.len() implies 0 <= #[trigger] places[x] < n by {
        assert(places.contains(places[x]));
    }
    if n > 0 {
        assert(places.contains(n - 1));
        let a = choose|a: int| 0 <= a < places.len() && places[a] == n - 1;
        if a < places.len() - 1 {
            assert(places[a] < places[places.len() - 1]);
        }
        let rest = places.drop_last();
        assert forall|i: int| #[trigger] rest.contains(i) <==> 0 <= i < n - 1 by {
            if rest.contains(i) {
                let b = choose|b: int| 0 <= b < rest.len() && rest[b] == i;
                assert(places[b] == i && places[b] < places[a]);
                assert(places.contains(i));
            }
            if 0 <= i < n - 1 {
                assert(places.contains(i));
                let b = choose|b: int| 0 <= b < places.len() && places[b] == i;
                assert(rest[b] == i);
            }
        }
        lemma_places_run(rest, n - 1);
        assert forall|b: int| 0 <= b < n implies #[trigger] places[b] == b by {
            if b < n - 1 {
                assert(rest[b] == b);
            }
        }
    } else if places.len() > 0 {
        assert(places.contains(places[0]));
    }
}

/// A combat-log report that comes as an event makes up the squad of that source: a name is in it
/// just where it is reported on, with what the last report on it says.
pub proof fn law_reported_squad_is_held(
    before: MarkersController,
    after: MarkersController,
    members: Vec<UserInfo>,
    own_name: Option<Seq<char>>,
    name: Seq<char>,
)
    requires
        before.answers(after, MarkersEvent::ExtrasSquadUpdate(members), own_name),
    ensures
        after.extras_squad@.contains_key(name) <==> exists|i: int| #[trigger]
            is_last_report(members@, name, i),
        forall|i: int| #[trigger]
            is_last_report(members@, name, i) ==> after.extras_squad@[name] == members@[i],
{
    law_reports_make_the_squad(members@, name);
}

/// A change to a member that comes as an event is made to that member alone: one who joined is held
/// as reported, one who left is not, and of others only what is known already is replaced. Where the
/// player leaves, nobody is held any more.
pub proof fn law_changed_squad_is_held(
    before: MarkersController,
    after: MarkersController,
    change: SquadUpdateType,
    member: GroupMember,
    member_name: String,
    own: Seq<char>,
    other: Seq<char>,
)
    requires
        before.answers(
            after,
            MarkersEvent::RTAPISquadUpdate(change, member, Some(member_name)),
            Some(own),
        ),
    ensures
        ({
            let held = before.rtapi_squad@;
            let now = after.rtapi_squad@;
            let name = member_name@;
            if change == SquadUpdateType::Left && name == own {
                !now.contains_key(other)
            } else if other != name {
                &&& now.contains_key(other) == held.contains_key(other)
                &&& held.contains_key(other) ==> now[other] == held[other]
            } else {
                &&& change == SquadUpdateType::Joined ==> now.contains_key(name)
                &&& change == SquadUpdateType::Left ==> !now.contains_key(name)
                &&& change == SquadUpdateType::Update ==> now.contains_key(name)
                    == held.contains_key(name)
                &&& now.contains_key(name) ==> now[name] == member
            }
        }),
{
    assert(Some(member_name).deep_view() == Some(member_name@));
    law_changes_touch_one_member(
        before.rtapi_squad@,
        change,
        own,
        member_name@,
        member,
        other,
    );
}

/// What a source tells of the squad is held for that source, and changes nothing else.
pub proof fn law_squads_are_taken_over(name: Seq<char>)
    ensures
        forall|controller: &mut MarkersController, members: Vec<UserInfo>| #[trigger]
            call_ensures(MarkersController::extras_squad_update, (controller, members), ()) ==> {
                let now = final(controller).extras_squad@;
                &&& now.contains_key(name) <==> exists|i: int| #[trigger]
                    is_last_report(members@, name, i)
                &&& forall|i: int| #[trigger]
                    is_last_report(members@, name, i) ==> now[name] == members@[i]
                &&& final(controller).rtapi_squad == controller.rtapi_squad
                &&& final(controller).mumble_role == controller.mumble_role
                &&& final(controller).spent_markers == controller.spent_markers
            },
        forall|controller: &mut MarkersController, role: SquadRank| #[trigger]
            call_ensures(MarkersController::handle_mumble_identity, (controller, role), ()) ==> {
                &&& final(controller).mumble_role == Some(role)
                &&& final(controller).rtapi_squad == controller.rtapi_squad
                &&& final(controller).extras_squad == controller.extras_squad
            },
{
    assert forall|controller: &mut MarkersController, members: Vec<UserInfo>| #[trigger]
        call_ensures(MarkersController::extras_squad_update, (controller, members), ()) implies {
        let now = final(controller).extras_squad@;
        &&& now.contains_key(name) <==> exists|i: int| #[trigger]
            is_last_report(members@, name, i)
        &&& forall|i: int| #[trigger]
            is_last_report(members@, name, i) ==> now[name] == members@[i]
        &&& final(controller).rtapi_squad == controller.rtapi_squad
        &&& final(controller).mumble_role == controller.mumble_role
        &&& final(controller).spent_markers == controller.spent_markers
    } by {
        law_reports_make_the_squad(members@, name);
    }
}

} // verus!

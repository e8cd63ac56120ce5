//! What holds of the timers at hand and of their machines.
#[allow(unused_imports)]
use crate::controller::timers::{
    are_places, changed_triggers, has_source, of_map, of_source, other_id, same_id, switched_on,
    trigger_of, under, under_name, with_id, without_id, MachineChange, MachineKey, TimerFile,
    TimersAction, TimersController, TimersEvent,
};
#[allow(unused_imports)]
use crate::controls::{TaimiControls, TIMER_TRIGGER_0_INDEX};
#[allow(unused_imports)]
use crate::picks::{is_at_places, keeps_just, lemma_filter_keeps_at};
#[allow(unused_imports)]
use crate::settings::{timer_off, Settings, TimerSettings};
use std::sync::Arc;
use vstd::prelude::*;

verus! {

/// The places of a list with a timer for a map.
pub open spec fn for_map(timers: Seq<Arc<TimerFile>>, map_id: u32) -> spec_fn(int) -> bool {
    |i: int| timers[i].map_id == map_id
}

/// The places of a list with a timer from a source.
pub open spec fn from_source(timers: Seq<Arc<TimerFile>>, source: Seq<char>) -> spec_fn(int) -> bool {
    |i: int| timers[i].association is Some && timers[i].association->0@ == source
}

/// The places of a list with a timer that has an id.
pub open spec fn of_id(timers: Seq<Arc<TimerFile>>, id: Seq<char>) -> spec_fn(int) -> bool {
    |i: int| timers[i].id@ == id
}

/// The places of a list with a timer that has another id.
pub open spec fn not_of_id(timers: Seq<Arc<TimerFile>>, id: Seq<char>) -> spec_fn(int) -> bool {
    |i: int| timers[i].id@ != id
}

/// Timers are picked by map, by source and by id: of each list just those for the map, from the
/// source, or with the id are kept, in the order of the list and as often as they stand in it.
pub proof fn law_timers_are_picked(
    timers: Seq<Arc<TimerFile>>,
    map_id: u32,
    source: Seq<char>,
    id: Seq<char>,
)
    ensures
        ({
            let n = timers.len() as int;
            &&& keeps_just(of_map(timers, map_id), timers, n, for_map(timers, map_id))
            &&& keeps_just(of_source(timers, source), timers, n, from_source(timers, source))
            &&& keeps_just(with_id(timers, id), timers, n, of_id(timers, id))
            &&& keeps_just(without_id(timers, id), timers, n, not_of_id(timers, id))
        }),
{
    lemma_filter_keeps_at(
        timers,
        |t: Arc<TimerFile>| t.map_id == map_id,
        for_map(timers, map_id),
    );
    lemma_filter_keeps_at(timers, has_source(source), from_source(timers, source));
    lemma_filter_keeps_at(timers, same_id(id), of_id(timers, id));
    lemma_filter_keeps_at(timers, other_id(id), not_of_id(timers, id));
}

/// Of a list, the timers run that the settings do not switch off, in the order of the list.
pub proof fn law_timers_that_run(
    timers: Seq<Arc<TimerFile>>,
    settings: Map<Seq<char>, TimerSettings>,
)
    ensures
        keeps_just(
            switched_on(timers, settings),
            timers,
            timers.len() as int,
            |i: int| !(settings.contains_key(timers[i].id@) && settings[timers[i].id@].disabled),
        ),
{
    lemma_filter_keeps_at(
        timers,
        |t: Arc<TimerFile>| !timer_off(settings, t.id@),
        |i: int| !(settings.contains_key(timers[i].id@) && settings[timers[i].id@].disabled),
    );
}

/// Timers that are found by map and by source are all the timers that there are: under the number of
/// a map stand just the timers for it, and under the name of a source just those from it, in the
/// order of all timers; and nothing stands for a map or a source without timers.
pub proof fn law_timers_are_found(controller: TimersController, map_id: u32, source: Seq<char>)
    requires
        controller.is_indexed(),
    ensures
        ({
            let all = controller.timers@;
            let n = all.len() as int;
            &&& controller.map_id_to_timers@.contains_key(map_id) ==> keeps_just(
                controller.map_id_to_timers@[map_id]@,
                all,
                n,
                for_map(all, map_id),
            )
            &&& controller.map_id_to_timers@.contains_key(map_id) <==> exists|i: int|
                0 <= i < n && (#[trigger] all[i]).map_id == map_id
            &&& controller.sources_to_timers@.contains_key(source) ==> keeps_just(
                controller.sources_to_timers@[source]@,
                all,
                n,
                from_source(all, source),
            )
            &&& controller.sources_to_timers@.contains_key(source) <==> exists|i: int|
                0 <= i < n && (#[trigger] all[i]).association is Some && all[i].association->0@
                    == source
        }),
{
    let all = controller.timers@;
    law_timers_are_picked(all, map_id, source, Seq::empty());
    lemma_some_kept(of_map(all, map_id), all, for_map(all, map_id));
    lemma_some_kept(of_source(all, source), all, from_source(all, source));
    assert(under(controller.map_id_to_timers@, map_id) == of_map(all, map_id));
    assert(under_name(controller.sources_to_timers@, source) == of_source(all, source));
    if exists|i: int| 0 <= i < all.len() && (#[trigger] all[i]).map_id == map_id {
        let i = choose|i: int| 0 <= i < all.len() && (#[trigger] all[i]).map_id == map_id;
        assert(for_map(all, map_id)(i));
    }
    if exists|i: int|
        0 <= i < all.len() && (#[trigger] all[i]).association is Some && all[i].association->0@
            == source {
        let i = choose|i: int|
            0 <= i < all.len() && (#[trigger] all[i]).association is Some
                && all[i].association->0@ == source;
        assert(from_source(all, source)(i));
    }
}

proof fn lemma_some_kept<A>(part: Seq<A>, list: Seq<A>, which: spec_fn(int) -> bool)
    requires
        keeps_just(part, list, list.len() as int, which),
    ensures
        part.len() > 0 ==> exists|i: int| #![trigger list[i]] 0 <= i < list.len() && which(i),
        (exists|i: int| 0 <= i < list.len() && #[trigger] which(i)) ==> part.len() > 0,
{
    let places = choose|places: Seq<int>|
        {
            &&& #[trigger] is_at_places(part, list, places)
            &&& forall|i: int| #[trigger]
                places.contains(i) <==> 0 <= i < list.len() && which(i)
        };
    if part.len() > 0 {
        let i = places[0];
        assert(places.contains(i));
        assert(part[0] == list[i]);
    }
    if exists|i: int| 0 <= i < list.len() && #[trigger] which(i) {
        let i = choose|i: int| 0 <= i < list.len() && #[trigger] which(i);
        assert(places.contains(i));
    }
}

/// The places of the timers with an id are all of them, each once and in order, and no others.
pub proof fn law_places_are_all(
    places: Seq<usize>,
    timers: Seq<Arc<TimerFile>>,
    id: Seq<char>,
    k: usize,
)
    requires
        are_places(places, timers, id),
        k < timers.len(),
    ensures
        places.contains(k) <==> timers[k as int].id@ == id,
        forall|i: int, j: int| 0 <= i < j < places.len() ==> places[i] < places[j],
        forall|i: int| 0 <= i < places.len() ==> #[trigger] places[i] < timers.len(),
{
    if places.contains(k) {
        let i = choose|i: int| 0 <= i < places.len() && places[i] == k;
        assert(timers[places[i] as int].id@ == id);
    }
    if timers[k as int].id@ == id {
        assert((k as int) as usize == k);
        assert(places.contains((k as int) as usize));
    }
}

/// The timers that a switched-on timer brings to the player's map are those of its id that are found
/// under the map's number, and none where the player is on no map.
pub proof fn law_timers_brought_to_a_map(
    controller: TimersController,
    map_id: Option<u32>,
    id: Seq<char>,
)
    ensures
        map_id is None ==> controller.on_map_with_id(map_id, id).len() == 0,
        map_id is Some && !controller.map_id_to_timers@.contains_key(map_id->0)
            ==> controller.on_map_with_id(map_id, id).len() == 0,
        map_id is Some && controller.map_id_to_timers@.contains_key(map_id->0) ==> ({
            let there = controller.map_id_to_timers@[map_id->0]@;
            keeps_just(
                controller.on_map_with_id(map_id, id),
                there,
                there.len() as int,
                of_id(there, id),
            )
        }),
{
    if map_id is Some {
        let there = under(controller.map_id_to_timers@, map_id->0);
        law_timers_are_picked(there, 0, Seq::empty(), id);
        if !controller.map_id_to_timers@.contains_key(map_id->0) {
            reveal(Seq::filter);
        }
    }
}

/// The trigger that a key's name ends in is the digit that it ends in; there is none where it ends
/// in anything else.
pub proof fn law_triggers_are_digits(name: Seq<char>)
    ensures
        trigger_of(name) is Some <==> name.len() > 0 && (name.last() == '0' || name.last() == '1'
            || name.last() == '2' || name.last() == '3' || name.last() == '4' || name.last() == '5'
            || name.last() == '6' || name.last() == '7' || name.last() == '8' || name.last()
            == '9'),
        trigger_of(name) matches Some(t) ==> t < 10 && t as int == name.last() as int - '0' as int,
{
}

/// Keys tell of just the triggers whose keys have changed, in their order and each once, and of
/// each whether its key is up.
pub proof fn law_changed_keys_are_told(state: TaimiControls, changed: TaimiControls, n: nat)
    requires
        n <= 10,
    ensures
        ({
            let told = changed_triggers(state, changed, n);
            &&& forall|i: int, j: int| 0 <= i < j < told.len() ==> told[i].0 < told[j].0
            &&& forall|i: int|
                0 <= i < told.len() ==> (#[trigger] told[i]).0 < n && (changed.bits >> ((4
                    + told[i].0) as u32)) & 1 == 1 && told[i].1 == ((state.bits >> ((4 + told[i].0) as u32))
                    & 1 != 1)
            &&& forall|t: u32|
                t < n && (#[trigger] (changed.bits >> ((4 + t) as u32))) & 1 == 1 ==> exists|i: int|
                    0 <= i < told.len() && (#[trigger] told[i]).0 == t
        }),
    decreases n,
{
    if n > 0 {
        law_changed_keys_are_told(state, changed, (n - 1) as nat);
        let before = changed_triggers(state, changed, (n - 1) as nat);
        let told = changed_triggers(state, changed, n);
        let last = (n - 1) as u32;
        assert forall|t: u32|
            t < n && (#[trigger] (changed.bits >> ((4 + t) as u32))) & 1 == 1 implies exists|i: int|
                0 <= i < told.len() && (#[trigger] told[i]).0 == t by {
            if t < last {
                let i = choose|i: int| 0 <= i < before.len() && (#[trigger] before[i]).0 == t;
                assert(told[i].0 == t);
            } else {
                assert(told[before.len() as int].0 == t);
            }
        }
    }
}

/// The places of a list with a timer for a map that the settings do not switch off.
pub open spec fn runs_on(
    timers: Seq<Arc<TimerFile>>,
    map_id: u32,
    settings: Map<Seq<char>, TimerSettings>,
) -> spec_fn(int) -> bool {
    |i: int|
        timers[i].map_id == map_id && !(settings.contains_key(timers[i].id@)
            && settings[timers[i].id@].disabled)
}

/// The places of a list with a timer for a map that has an id.
pub open spec fn of_id_on(
    timers: Seq<Arc<TimerFile>>,
    map_id: u32,
    id: Seq<char>,
) -> spec_fn(int) -> bool {
    |i: int| timers[i].map_id == map_id && timers[i].id@ == id
}

/// A list that was filtered twice keeps the elements that meet both conditions.
proof fn lemma_filter_twice<A>(list: Seq<A>, p: spec_fn(A) -> bool, q: spec_fn(A) -> bool)
    ensures
        list.filter(p).filter(q) == list.filter(|a: A| p(a) && q(a)),
    decreases list.len(),
{
    reveal(Seq::filter);
    if list.len() > 0 {
        lemma_filter_twice(list.drop_last(), p, q);
        let before = list.drop_last().filter(p);
        if p(list.last()) {
            assert(before.push(list.last()).drop_last() =~= before);
        }
    }
}

/// Where the player comes to a map, every machine is cleaned up, and just the timers for that map
/// that are not switched off run from then on, in the order of all timers. It is told whether there
/// are any timers for the map.
pub proof fn law_timers_come_with_the_map()
    ensures
        forall|
            controller: &mut TimersController,
            map_id: u32,
            settings: &Settings,
            told: (MachineChange, bool),
        |
            controller.is_indexed() && #[trigger] call_ensures(
                TimersController::handle_map_event,
                (controller, map_id, settings),
                told,
            ) ==> {
                let all = controller.timers@;
                &&& keeps_just(
                    told.0.create@,
                    all,
                    all.len() as int,
                    runs_on(all, map_id, settings.timers@),
                )
                &&& final(controller).current_timers@ == told.0.create@
                &&& told.0.cleanup@.len() == controller.current_timers@.len()
                &&& forall|i: int|
                    0 <= i < told.0.cleanup@.len() ==> #[trigger] told.0.cleanup@[i] == i
                &&& told.1 <==> exists|i: int|
                    0 <= i < all.len() && (#[trigger] all[i]).map_id == map_id
                &&& final(controller).timers == controller.timers
                &&& final(controller).map_id_to_timers == controller.map_id_to_timers
                &&& final(controller).sources_to_timers == controller.sources_to_timers
            },
{
    assert forall|
        controller: &mut TimersController,
        map_id: u32,
        settings: &Settings,
        told: (MachineChange, bool),
    |
        controller.is_indexed() && #[trigger] call_ensures(
            TimersController::handle_map_event,
            (controller, map_id, settings),
            told,
        ) implies {
        let all = controller.timers@;
        &&& keeps_just(
            told.0.create@,
            all,
            all.len() as int,
            runs_on(all, map_id, settings.timers@),
        )
        &&& final(controller).current_timers@ == told.0.create@
        &&& told.0.cleanup@.len() == controller.current_timers@.len()
        &&& forall|i: int| 0 <= i < told.0.cleanup@.len() ==> #[trigger] told.0.cleanup@[i] == i
        &&& told.1 <==> exists|i: int| 0 <= i < all.len() && (#[trigger] all[i]).map_id == map_id
        &&& final(controller).timers == controller.timers
        &&& final(controller).map_id_to_timers == controller.map_id_to_timers
        &&& final(controller).sources_to_timers == controller.sources_to_timers
    } by {
        let all = controller.timers@;
        let there = |t: Arc<TimerFile>| t.map_id == map_id;
        let on = |t: Arc<TimerFile>| !timer_off(settings.timers@, t.id@);
        law_timers_are_found(*controller, map_id, Seq::empty());
        assert(under(controller.map_id_to_timers@, map_id) == of_map(all, map_id));
        lemma_filter_twice(all, there, on);
        lemma_filter_keeps_at(
            all,
            |t: Arc<TimerFile>| there(t) && on(t),
            runs_on(all, map_id, settings.timers@),
        );
        assert(told.0.cleanup.len() == told.0.cleanup@.len());
    }
}

/// The timers of an id that are found under the number of a map are just those of all timers that
/// are for the map and have the id.
pub proof fn law_timers_of_an_id_on_a_map(
    controller: TimersController,
    map_id: u32,
    id: Seq<char>,
)
    requires
        controller.is_indexed(),
    ensures
        keeps_just(
            controller.on_map_with_id(Some(map_id), id),
            controller.timers@,
            controller.timers@.len() as int,
            of_id_on(controller.timers@, map_id, id),
        ),
{
    let all = controller.timers@;
    let there = |t: Arc<TimerFile>| t.map_id == map_id;
    assert(under(controller.map_id_to_timers@, map_id) == of_map(all, map_id));
    lemma_filter_twice(all, there, same_id(id));
    lemma_filter_keeps_at(
        all,
        |t: Arc<TimerFile>| there(t) && same_id(id)(t),
        of_id_on(all, map_id, id),
    );
}

/// A timer that is switched on starts a machine for each timer of its id for the player's map, and
/// none where the player is on no map; no machine is cleaned up.
pub proof fn law_switched_on_timers_start()
    ensures
        forall|
            controller: &mut TimersController,
            id: String,
            map_id: Option<u32>,
            settings: &mut Settings,
            change: MachineChange,
        |
            controller.is_indexed() && #[trigger] call_ensures(
                TimersController::enable,
                (controller, id, map_id, settings),
                change,
            ) ==> {
                let all = controller.timers@;
                &&& change.cleanup@.len() == 0
                &&& map_id is None ==> change.create@.len() == 0
                &&& map_id is Some ==> keeps_just(
                    change.create@,
                    all,
                    all.len() as int,
                    of_id_on(all, map_id->0, id@),
                )
                &&& final(controller).current_timers@ == controller.current_timers@
                    + change.create@
                &&& final(controller).timers == controller.timers
                &&& !timer_off(final(settings).timers@, id@)
            },
{
    assert forall|
        controller: &mut TimersController,
        id: String,
        map_id: Option<u32>,
        settings: &mut Settings,
        change: MachineChange,
    |
        controller.is_indexed() && #[trigger] call_ensures(
            TimersController::enable,
            (controller, id, map_id, settings),
            change,
        ) implies {
        let all = controller.timers@;
        &&& change.cleanup@.len() == 0
        &&& map_id is None ==> change.create@.len() == 0
        &&& map_id is Some ==> keeps_just(
            change.create@,
            all,
            all.len() as int,
            of_id_on(all, map_id->0, id@),
        )
        &&& final(controller).current_timers@ == controller.current_timers@ + change.create@
        &&& final(controller).timers == controller.timers
        &&& !timer_off(final(settings).timers@, id@)
    } by {
        if map_id is Some {
            law_timers_of_an_id_on_a_map(*controller, map_id->0, id@);
        }
    }
}

/// A timer that is switched off has all the machines of its id cleaned up and taken out, and no
/// others; those that stay keep their order.
pub proof fn law_switched_off_timers_stop(k: usize)
    ensures
        forall|
            controller: &mut TimersController,
            id: String,
            settings: &mut Settings,
            places: Vec<usize>,
        |
            #[trigger] call_ensures(
                TimersController::disable,
                (controller, id, settings),
                places,
            ) ==> {
                let machines = controller.current_timers@;
                &&& places@.contains(k) <==> k < machines.len() && machines[k as int].id@ == id@
                &&& keeps_just(
                    final(controller).current_timers@,
                    machines,
                    machines.len() as int,
                    not_of_id(machines, id@),
                )
                &&& final(controller).timers == controller.timers
                &&& timer_off(final(settings).timers@, id@)
            },
{
    assert forall|
        controller: &mut TimersController,
        id: String,
        settings: &mut Settings,
        places: Vec<usize>,
    |
        #[trigger] call_ensures(
            TimersController::disable,
            (controller, id, settings),
            places,
        ) implies {
        let machines = controller.current_timers@;
        &&& places@.contains(k) <==> k < machines.len() && machines[k as int].id@ == id@
        &&& keeps_just(
            final(controller).current_timers@,
            machines,
            machines.len() as int,
            not_of_id(machines, id@),
        )
        &&& final(controller).timers == controller.timers
        &&& timer_off(final(settings).timers@, id@)
    } by {
        let machines = controller.current_timers@;
        law_timers_are_picked(machines, 0, Seq::empty(), id@);
        if k < machines.len() {
            law_places_are_all(places@, machines, id@, k);
        }
    }
}

/// Switching a timer over starts its machines where it was off, and has them cleaned up where it
/// was on.
pub proof fn law_switched_over_timers_start_or_stop(k: usize)
    ensures
        forall|
            controller: &mut TimersController,
            id: String,
            map_id: Option<u32>,
            settings: &mut Settings,
            change: MachineChange,
        |
            controller.is_indexed() && #[trigger] call_ensures(
                TimersController::toggle,
                (controller, id, map_id, settings),
                change,
            ) ==> {
                let all = controller.timers@;
                let machines = controller.current_timers@;
                let off = timer_off(settings.timers@, id@);
                &&& off ==> change.cleanup@.len() == 0
                &&& off && map_id is Some ==> keeps_just(
                    change.create@,
                    all,
                    all.len() as int,
                    of_id_on(all, map_id->0, id@),
                )
                &&& !off || map_id is None ==> change.create@.len() == 0
                &&& !off ==> (change.cleanup@.contains(k) <==> k < machines.len()
                    && machines[k as int].id@ == id@)
                &&& final(controller).current_timers@ == machines + change.create@
                &&& timer_off(final(settings).timers@, id@) == !off
            },
{
    assert forall|
        controller: &mut TimersController,
        id: String,
        map_id: Option<u32>,
        settings: &mut Settings,
        change: MachineChange,
    |
        controller.is_indexed() && #[trigger] call_ensures(
            TimersController::toggle,
            (controller, id, map_id, settings),
            change,
        ) implies {
        let all = controller.timers@;
        let machines = controller.current_timers@;
        let off = timer_off(settings.timers@, id@);
        &&& off ==> change.cleanup@.len() == 0
        &&& off && map_id is Some ==> keeps_just(
            change.create@,
            all,
            all.len() as int,
            of_id_on(all, map_id->0, id@),
        )
        &&& !off || map_id is None ==> change.create@.len() == 0
        &&& !off ==> (change.cleanup@.contains(k) <==> k < machines.len() && machines[k as int].id@
            == id@)
        &&& final(controller).current_timers@ == machines + change.create@
        &&& timer_off(final(settings).timers@, id@) == !off
    } by {
        let machines = controller.current_timers@;
        if map_id is Some {
            law_timers_of_an_id_on_a_map(*controller, map_id->0, id@);
        }
        if !timer_off(settings.timers@, id@) && k < machines.len() {
            law_places_are_all(change.cleanup@, machines, id@, k);
        }
    }
}

/// A key reaches every machine once, with its trigger and whether it was released.
pub proof fn law_keys_reach_every_machine(
    controller: &TimersController,
    trigger: u32,
    is_release: bool,
    told: Vec<MachineKey>,
)
    requires
        call_ensures(
            TimersController::timer_key_trigger_idx,
            (controller, trigger, is_release),
            told,
        ),
    ensures
        told@.len() == controller.current_timers@.len(),
        forall|i: int|
            0 <= i < told@.len() ==> (#[trigger] told@[i]).machine == i && told@[i].trigger
                == trigger && told@[i].is_release == is_release,
{
    assert(told.len() == told@.len());
}

/// An event switches, tells or loads what it names, and no more.
pub proof fn law_events_reach_timers(map_id: Option<u32>)
    ensures
        forall|
            controller: &mut TimersController,
            event: TimersEvent,
            settings: &mut Settings,
            action: TimersAction,
        |
            #[trigger] call_ensures(
                TimersController::handle_event,
                (controller, event, settings, map_id),
                action,
            ) ==> {
                &&& event is ReloadTimers <==> action is Reload
                &&& event is TimerReset <==> action is Reset
                &&& event is TimerKeyTrigger <==> action is Key
                &&& event is TimerDisable <==> action is Remove
                &&& event is TimerEnable || event is TimerToggle <==> action is Switch
                &&& event is ProgressBarStyle <==> action is Bar
                &&& event matches TimersEvent::TimerKeyTrigger(name, is_release) ==> trigger_of(
                    name@,
                ) is Some ==> action->Key_0 as int == name@.last() as int - '0' as int
                    && action->Key_1 == is_release
                &&& event matches TimersEvent::TimerEnable(id) ==> !timer_off(
                    final(settings).timers@,
                    id@,
                )
                &&& event matches TimersEvent::TimerDisable(id) ==> timer_off(
                    final(settings).timers@,
                    id@,
                )
                &&& event matches TimersEvent::TimerToggle(id) ==> timer_off(
                    final(settings).timers@,
                    id@,
                ) == !timer_off(settings.timers@, id@)
                &&& event matches TimersEvent::ProgressBarStyle(style) ==> action->Bar_0
                    == final(settings).progress_bar
                &&& event is ReloadTimers || event is TimerReset || event is TimerKeyTrigger
                    ==> *final(controller) == *controller && *final(settings) == *settings
                &&& final(controller).timers == controller.timers
            },
{
}

/// Timers that were loaded again are all the timers that there are, are found by map, and have every
/// machine start over.
pub proof fn law_reloaded_timers_are_found(map_id: u32)
    ensures
        forall|
            controller: &mut TimersController,
            loaded: Vec<Arc<TimerFile>>,
            action: TimersAction,
        |
            #[trigger] call_ensures(TimersController::reload, (controller, loaded), action) ==> {
                let maps = final(controller).map_id_to_timers@;
                &&& final(controller).timers == loaded
                &&& final(controller).current_timers == controller.current_timers
                &&& action is Reset
                &&& maps.contains_key(map_id) ==> keeps_just(
                    maps[map_id]@,
                    loaded@,
                    loaded@.len() as int,
                    for_map(loaded@, map_id),
                )
                &&& maps.contains_key(map_id) <==> exists|i: int|
                    0 <= i < loaded@.len() && (#[trigger] loaded@[i]).map_id == map_id
            },
{
    assert forall|
        controller: &mut TimersController,
        loaded: Vec<Arc<TimerFile>>,
        action: TimersAction,
    |
        #[trigger] call_ensures(TimersController::reload, (controller, loaded), action) implies {
        let maps = final(controller).map_id_to_timers@;
        &&& final(controller).timers == loaded
        &&& final(controller).current_timers == controller.current_timers
        &&& action is Reset
        &&& maps.contains_key(map_id) ==> keeps_just(
            maps[map_id]@,
            loaded@,
            loaded@.len() as int,
            for_map(loaded@, map_id),
        )
        &&& maps.contains_key(map_id) <==> exists|i: int|
            0 <= i < loaded@.len() && (#[trigger] loaded@[i]).map_id == map_id
    } by {
        law_timers_are_found(*final(controller), map_id, Seq::empty());
    }
}

} // verus!

//! Timers at hand, and which of them run.
//!
//! A running timer is a machine that the host drives. The machines stand in the order of
//! `current_timers`, and what is to be done to them is told by their places in that order.
#[allow(unused_imports)]
use crate::controls::{
    TaimiControls, TIMER_RESET, TIMER_TRIGGER_0_INDEX, TIMER_TRIGGER_COUNT,
};
use crate::name_map::NameMap;
#[allow(unused_imports)]
use crate::settings::{
    restyled, timer_off, timer_toggled, ProgressBarSettings, ProgressBarStyleChange, Settings,
    TimerSettings,
};
use crate::text::{chars_of, str_eq};
use std::collections::HashMap;
use std::sync::Arc;
use vstd::prelude::*;

verus! {

/// What is known of a timer before it runs.
pub struct TimerFile {
    pub id: String,
    pub name: String,
    pub category: String,
    pub map_id: u32,
    /// The source that the timer is from.
    pub association: Option<String>,
}

/// What the controller is told.
pub enum TimersEvent {
    ProgressBarStyle(ProgressBarStyleChange),
    /// A key was pressed or released; the key's name ends in the number of its trigger.
    TimerKeyTrigger(String, bool),
    ReloadTimers,
    TimerEnable(String),
    TimerDisable(String),
    TimerReset,
    TimerToggle(String),
}

/// What is to be done to the machines after timers were switched on or off.
pub struct MachineChange {
    /// The places of the machines to clean up.
    pub cleanup: Vec<usize>,
    /// The timers to make machines for, behind the machines that stay.
    pub create: Vec<Arc<TimerFile>>,
}

/// What is to be done outside about an event.
pub enum TimersAction {
    /// Load all timers again.
    Reload,
    /// Clean machines up, and make new ones.
    Switch(MachineChange),
    /// Clean machines up, and take them out.
    Remove(Vec<usize>),
    /// Start all machines over.
    Reset,
    /// Tell all machines of a trigger, and whether its key was released.
    Key(u32, bool),
    /// Draw bars anew.
    Bar(ProgressBarSettings),
}

/// A machine, told by its place, is to hear of a trigger, and of whether its key was released.
#[derive(Clone, Copy, PartialEq, Eq, Structural, Debug)]
pub struct MachineKey {
    pub machine: usize,
    pub trigger: u32,
    pub is_release: bool,
}

/// What the keys did.
pub struct TimerKeys {
    /// Start all machines over.
    pub reset: bool,
    /// The triggers whose keys have changed, and whether each was released.
    pub triggers: Vec<(u32, bool)>,
}

/// The timers of a list that are for a map.
pub open spec fn of_map(timers: Seq<Arc<TimerFile>>, map_id: u32) -> Seq<Arc<TimerFile>> {
    timers.filter(|t: Arc<TimerFile>| t.map_id == map_id)
}

/// Whether a timer is from a source.
pub open spec fn has_source(source: Seq<char>) -> spec_fn(Arc<TimerFile>) -> bool {
    |t: Arc<TimerFile>| t.association is Some && t.association->0@ == source
}

/// The timers of a list that are from a source.
pub open spec fn of_source(timers: Seq<Arc<TimerFile>>, source: Seq<char>) -> Seq<Arc<TimerFile>> {
    timers.filter(has_source(source))
}

/// Whether a timer has an id.
pub open spec fn same_id(id: Seq<char>) -> spec_fn(Arc<TimerFile>) -> bool {
    |t: Arc<TimerFile>| t.id@ == id
}

/// The timers of a list with an id.
pub open spec fn with_id(timers: Seq<Arc<TimerFile>>, id: Seq<char>) -> Seq<Arc<TimerFile>> {
    timers.filter(same_id(id))
}

/// Whether a timer has any other id.
pub open spec fn other_id(id: Seq<char>) -> spec_fn(Arc<TimerFile>) -> bool {
    |t: Arc<TimerFile>| t.id@ != id
}

/// The timers of a list with any other id.
pub open spec fn without_id(timers: Seq<Arc<TimerFile>>, id: Seq<char>) -> Seq<Arc<TimerFile>> {
    timers.filter(other_id(id))
}

/// The timers of a list that are not switched off.
pub open spec fn switched_on(
    timers: Seq<Arc<TimerFile>>,
    settings: Map<Seq<char>, TimerSettings>,
) -> Seq<Arc<TimerFile>> {
    timers.filter(|t: Arc<TimerFile>| !timer_off(settings, t.id@))
}

/// What a map from map ids gives for an id.
pub open spec fn under(map: Map<u32, Vec<Arc<TimerFile>>>, id: u32) -> Seq<Arc<TimerFile>> {
    if map.contains_key(id) {
        map[id]@
    } else {
        Seq::empty()
    }
}

/// What a map from names gives for a name.
pub open spec fn under_name(map: Map<Seq<char>, Vec<Arc<TimerFile>>>, name: Seq<char>) -> Seq<
    Arc<TimerFile>,
> {
    if map.contains_key(name) {
        map[name]@
    } else {
        Seq::empty()
    }
}

/// `places` are the places of the timers with an id, in order.
pub open spec fn are_places(places: Seq<usize>, timers: Seq<Arc<TimerFile>>, id: Seq<char>) -> bool {
    &&& forall|i: int, j: int| 0 <= i < j < places.len() ==> places[i] < places[j]
    &&& forall|i: int|
        0 <= i < places.len() ==> #[trigger] places[i] < timers.len() && timers[places[i] as int].id@
            == id
    &&& forall|k: int|
        0 <= k < timers.len() && (#[trigger] timers[k]).id@ == id ==> places.contains(k as usize)
}

/// The trigger that a key's name ends in.
pub open spec fn trigger_of(name: Seq<char>) -> Option<u32> {
    if name.len() > 0 && '0' <= name.last() && name.last() <= '9' {
        Some((name.last() as u32 - '0' as u32) as u32)
    } else {
        None
    }
}

/// The first `n` triggers whose keys have changed, and whether each was released.
pub open spec fn changed_triggers(state: TaimiControls, changed: TaimiControls, n: nat) -> Seq<
    (u32, bool),
>
    decreases n,
{
    if n == 0 {
        Seq::empty()
    } else {
        let before = changed_triggers(state, changed, (n - 1) as nat);
        let place = (TIMER_TRIGGER_0_INDEX + (n - 1)) as u32;
        if changed.has_index(place) {
            before.push(((n - 1) as u32, !state.has_index(place)))
        } else {
            before
        }
    }
}

/// Finds the trigger that a key's name ends in.
pub fn find_trigger(name: &str) -> (r: Option<u32>)
    ensures
        r == trigger_of(name@),
{
    let chars = chars_of(name);
    let n = chars.len();
    if n == 0 {
        return None;
    }
    let c = chars[n - 1];
    if '0' <= c && c <= '9' {
        Some(c as u32 - '0' as u32)
    } else {
        None
    }
}

fn pick_by_id(timers: &Vec<Arc<TimerFile>>, id: &str, same: bool) -> (r: Vec<Arc<TimerFile>>)
    ensures
        r@ == (if same {
            with_id(timers@, id@)
        } else {
            without_id(timers@, id@)
        }),
{
    let ghost keep = if same {
        same_id(id@)
    } else {
        other_id(id@)
    };
    let mut out: Vec<Arc<TimerFile>> = Vec::new();
    let mut i: usize = 0;
    proof {
        reveal(Seq::filter);
        assert(timers@.take(0).filter(keep) =~= Seq::empty());
    }
    while i < timers.len()
        invariant
            i <= timers@.len(),
            keep == (if same {
                same_id(id@)
            } else {
                other_id(id@)
            }),
            out@ == timers@.take(i as int).filter(keep),
        decreases timers@.len() - i,
    {
        proof {
            assert(timers@.take(i + 1) =~= timers@.take(i as int).push(timers@[i as int]));
            timers@.take(i as int).lemma_filter_push(timers@[i as int], keep);
        }
        if str_eq(timers[i].id.as_str(), id) == same {
            out.push(timers[i].clone());
        }
        i += 1;
    }
    assert(timers@.take(i as int) =~= timers@);
    out
}

fn pick_places(timers: &Vec<Arc<TimerFile>>, id: &str) -> (r: Vec<usize>)
    ensures
        are_places(r@, timers@, id@),
{
    let mut out: Vec<usize> = Vec::new();
    let mut i: usize = 0;
    while i < timers.len()
        invariant
            i <= timers@.len(),
            forall|a: int, b: int| 0 <= a < b < out@.len() ==> out@[a] < out@[b],
            forall|a: int|
                0 <= a < out@.len() ==> #[trigger] out@[a] < i && timers@[out@[a] as int].id@ == id@,
            forall|k: int|
                0 <= k < i && (#[trigger] timers@[k]).id@ == id@ ==> out@.contains(k as usize),
        decreases timers@.len() - i,
    {
        if str_eq(timers[i].id.as_str(), id) {
            let ghost before = out@;
            out.push(i);
            proof {
                assert(out@[before.len() as int] == i);
                assert forall|k: int|
                    0 <= k < i + 1 && (#[trigger] timers@[k]).id@ == id@ implies out@.contains(
                    k as usize,
                ) by {
                    if k < i {
                        let a = choose|a: int| 0 <= a < before.len() && before[a] == k as usize;
                        assert(out@[a] == k as usize);
                    }
                }
            }
        }
        i += 1;
    }
    out
}

fn push_under(map: &mut HashMap<u32, Vec<Arc<TimerFile>>>, id: u32, timer: Arc<TimerFile>)
    ensures
        forall|k: u32| #[trigger]
            final(map)@.contains_key(k) == (old(map)@.contains_key(k) || k == id),
        forall|k: u32| #[trigger]
            under(final(map)@, k) == (if k == id {
                under(old(map)@, k).push(timer)
            } else {
                under(old(map)@, k)
            }),
{
    broadcast use vstd::std_specs::hash::group_hash_axioms;

    let mut list: Vec<Arc<TimerFile>> = match map.remove(&id) {
        Some(l) => l,
        None => Vec::new(),
    };
    assert(list@ =~= under(old(map)@, id));
    list.push(timer);
    map.insert(id, list);
}

fn push_under_name(map: &mut NameMap<Vec<Arc<TimerFile>>>, name: String, timer: Arc<TimerFile>)
    ensures
        forall|k: Seq<char>| #[trigger]
            final(map)@.contains_key(k) == (old(map)@.contains_key(k) || k == name@),
        forall|k: Seq<char>| #[trigger]
            under_name(final(map)@, k) == (if k == name@ {
                under_name(old(map)@, k).push(timer)
            } else {
                under_name(old(map)@, k)
            }),
{
    let mut list: Vec<Arc<TimerFile>> = match map.insert(name.clone(), Vec::new()) {
        Some(l) => l,
        None => Vec::new(),
    };
    assert(list@ =~= under_name(old(map)@, name@));
    list.push(timer);
    map.insert(name, list);
}

/// The timer controller's state.
pub struct TimersController {
    pub timers: Vec<Arc<TimerFile>>,
    /// The timers that have a machine, in the order of the machines.
    pub current_timers: Vec<Arc<TimerFile>>,
    pub sources_to_timers: NameMap<Vec<Arc<TimerFile>>>,
    pub map_id_to_timers: HashMap<u32, Vec<Arc<TimerFile>>>,
}

impl TimersController {
    /// The timers are found by map and by source.
    pub open spec fn is_indexed(&self) -> bool {
        &&& forall|id: u32| #[trigger] under(self.map_id_to_timers@, id) == of_map(self.timers@, id)
        &&& forall|id: u32| #[trigger]
            self.map_id_to_timers@.contains_key(id) ==> of_map(self.timers@, id).len() > 0
        &&& forall|name: Seq<char>| #[trigger]
            under_name(self.sources_to_timers@, name) == of_source(self.timers@, name)
        &&& forall|name: Seq<char>| #[trigger]
            self.sources_to_timers@.contains_key(name) ==> of_source(self.timers@, name).len() > 0
    }

    /// A controller that knows no timers yet.
    pub fn new() -> (r: TimersController)
        ensures
            r.timers@ == Seq::<Arc<TimerFile>>::empty(),
            r.current_timers@ == Seq::<Arc<TimerFile>>::empty(),
            r.sources_to_timers@ == Map::<Seq<char>, Vec<Arc<TimerFile>>>::empty(),
            r.map_id_to_timers@ == Map::<u32, Vec<Arc<TimerFile>>>::empty(),
            r.is_indexed(),
    {
        broadcast use vstd::std_specs::hash::group_hash_axioms;

        let r = TimersController {
            timers: Vec::new(),
            current_timers: Vec::new(),
            sources_to_timers: NameMap::new(),
            map_id_to_timers: HashMap::new(),
        };
        proof {
            r.lemma_empty_is_indexed();
        }
        r
    }

    proof fn lemma_empty_is_indexed(&self)
        requires
            self.timers@.len() == 0,
            self.sources_to_timers@ == Map::<Seq<char>, Vec<Arc<TimerFile>>>::empty(),
            self.map_id_to_timers@ == Map::<u32, Vec<Arc<TimerFile>>>::empty(),
        ensures
            self.is_indexed(),
    {
        reveal(Seq::filter);
        assert forall|id: u32| #[trigger]
            under(self.map_id_to_timers@, id) == of_map(self.timers@, id) by {
            assert(of_map(self.timers@, id) =~= Seq::empty());
        }
        assert forall|name: Seq<char>| #[trigger]
            under_name(self.sources_to_timers@, name) == of_source(self.timers@, name) by {
            assert(of_source(self.timers@, name) =~= Seq::empty());
        }
    }

    /// Takes loaded timers over as all there are, and adds them to those that are found by map
    /// and by source.
    pub fn setup(&mut self, loaded: Vec<Arc<TimerFile>>)
        ensures
            final(self).timers == loaded,
            final(self).current_timers == old(self).current_timers,
            forall|id: u32| #[trigger]
                under(final(self).map_id_to_timers@, id) == under(old(self).map_id_to_timers@, id)
                    + of_map(loaded@, id),
            forall|id: u32| #[trigger]
                final(self).map_id_to_timers@.contains_key(id) == (old(
                    self).map_id_to_timers@.contains_key(id) || of_map(loaded@, id).len() > 0),
            forall|name: Seq<char>| #[trigger]
                under_name(final(self).sources_to_timers@, name) == under_name(
                    old(self).sources_to_timers@,
                    name,
                ) + of_source(loaded@, name),
            forall|name: Seq<char>| #[trigger]
                final(self).sources_to_timers@.contains_key(name) == (old(
                    self).sources_to_timers@.contains_key(name) || of_source(loaded@, name).len()
                    > 0),
    {
        let ghost maps = self.map_id_to_timers@;
        let ghost sources = self.sources_to_timers@;
        let mut i: usize = 0;
        proof {
            reveal(Seq::filter);
            assert forall|id: u32| #[trigger]
                under(self.map_id_to_timers@, id) == under(maps, id) + of_map(loaded@.take(0), id) by {
                assert(of_map(loaded@.take(0), id) =~= Seq::empty());
                assert(under(maps, id) + Seq::empty() =~= under(maps, id));
            }
            assert forall|name: Seq<char>| #[trigger]
                under_name(self.sources_to_timers@, name) == under_name(sources, name) + of_source(
                    loaded@.take(0),
                    name,
                ) by {
                assert(of_source(loaded@.take(0), name) =~= Seq::empty());
                assert(under_name(sources, name) + Seq::empty() =~= under_name(sources, name));
            }
        }
        while i < loaded.len()
            invariant
                i <= loaded@.len(),
                self.timers == old(self).timers,
                self.current_timers == old(self).current_timers,
                forall|id: u32| #[trigger]
                    under(self.map_id_to_timers@, id) == under(maps, id) + of_map(
                        loaded@.take(i as int),
                        id,
                    ),
                forall|id: u32| #[trigger]
                    self.map_id_to_timers@.contains_key(id) == (maps.contains_key(id) || of_map(
                        loaded@.take(i as int),
                        id,
                    ).len() > 0),
                forall|name: Seq<char>| #[trigger]
                    under_name(self.sources_to_timers@, name) == under_name(sources, name)
                        + of_source(loaded@.take(i as int), name),
                forall|name: Seq<char>| #[trigger]
                    self.sources_to_timers@.contains_key(name) == (sources.contains_key(name)
                        || of_source(loaded@.take(i as int), name).len() > 0),
            decreases loaded@.len() - i,
        {
            let timer = &loaded[i];
            let ghost prior = *self;
            let ghost so_far = loaded@.take(i as int);
            proof {
                assert(loaded@.take(i + 1) =~= so_far.push(*timer));
            }
            match &timer.association {
                Some(source) => {
                    push_under_name(&mut self.sources_to_timers, source.clone(), timer.clone());
                },
                None => {},
            }
            push_under(&mut self.map_id_to_timers, timer.map_id, timer.clone());
            proof {
                assert forall|id: u32| #[trigger]
                    under(self.map_id_to_timers@, id) == under(maps, id) + of_map(
                        loaded@.take(i + 1),
                        id,
                    ) by {
                    so_far.lemma_filter_push(*timer, |t: Arc<TimerFile>| t.map_id == id);
                    assert(under(prior.map_id_to_timers@, id) == under(maps, id) + of_map(
                        so_far,
                        id,
                    ));
                }
                assert forall|id: u32| #[trigger]
                    self.map_id_to_timers@.contains_key(id) == (maps.contains_key(id) || of_map(
                    loaded@.take(i + 1),
                    id,
                ).len() > 0) by {
                    so_far.lemma_filter_push(*timer, |t: Arc<TimerFile>| t.map_id == id);
                    assert(prior.map_id_to_timers@.contains_key(id) == (maps.contains_key(id)
                        || of_map(so_far, id).len() > 0));
                }
                assert forall|name: Seq<char>| #[trigger]
                    under_name(self.sources_to_timers@, name) == under_name(sources, name)
                        + of_source(loaded@.take(i + 1), name) by {
                    so_far.lemma_filter_push(*timer, has_source(name));
                    assert(under_name(prior.sources_to_timers@, name) == under_name(sources, name)
                        + of_source(so_far, name));
                }
                assert forall|name: Seq<char>| #[trigger]
                    self.sources_to_timers@.contains_key(name) == (sources.contains_key(name)
                    || of_source(loaded@.take(i + 1), name).len() > 0) by {
                    so_far.lemma_filter_push(*timer, has_source(name));
                    assert(prior.sources_to_timers@.contains_key(name) == (sources.contains_key(
                        name,
                    ) || of_source(so_far, name).len() > 0));
                }
            }
            i += 1;
        }
        assert(loaded@.take(i as int) =~= loaded@);
        self.timers = loaded;
    }

    /// Takes loaded timers over as all there are. All machines are to be started over.
    pub fn reload(&mut self, loaded: Vec<Arc<TimerFile>>) -> (r: TimersAction)
        ensures
            final(self).timers == loaded,
            final(self).current_timers == old(self).current_timers,
            final(self).is_indexed(),
            r is Reset,
    {
        broadcast use vstd::std_specs::hash::group_hash_axioms;

        self.timers = Vec::new();
        self.sources_to_timers.clear();
        self.map_id_to_timers = HashMap::new();
        let ghost cleared = *self;
        self.setup(loaded);
        proof {
            assert forall|id: u32| #[trigger]
                under(self.map_id_to_timers@, id) == of_map(self.timers@, id) by {
                assert(Seq::empty() + of_map(loaded@, id) =~= of_map(loaded@, id));
            }
            assert forall|name: Seq<char>| #[trigger]
                under_name(self.sources_to_timers@, name) == of_source(self.timers@, name) by {
                assert(Seq::empty() + of_source(loaded@, name) =~= of_source(loaded@, name));
            }
        }
        self.reset()
    }

    /// The timers with an id that are for a map, where the player is on one.
    pub open spec fn on_map_with_id(&self, map_id: Option<u32>, id: Seq<char>) -> Seq<
        Arc<TimerFile>,
    > {
        match map_id {
            Some(map) => with_id(under(self.map_id_to_timers@, map), id),
            None => Seq::empty(),
        }
    }

    fn start(&mut self, id: &str, map_id: Option<u32>) -> (r: Vec<Arc<TimerFile>>)
        ensures
            r@ == old(self).on_map_with_id(map_id, id@),
            final(self).current_timers@ == old(self).current_timers@ + r@,
            *final(self) == (TimersController {
                current_timers: final(self).current_timers,
                ..*old(self)
            }),
    {
        broadcast use vstd::std_specs::hash::group_hash_axioms;

        let found = match map_id {
            Some(map) => match self.map_id_to_timers.get(&map) {
                Some(list) => pick_by_id(list, id, true),
                None => {
                    proof {
                        reveal(Seq::filter);
                        assert(with_id(Seq::empty(), id@) =~= Seq::empty());
                    }
                    Vec::new()
                },
            },
            None => Vec::new(),
        };
        let mut i: usize = 0;
        assert(self.current_timers@ =~= old(self).current_timers@ + found@.take(0));
        while i < found.len()
            invariant
                i <= found@.len(),
                self.current_timers@ == old(self).current_timers@ + found@.take(i as int),
                *self == (TimersController { current_timers: self.current_timers, ..*old(self) }),
            decreases found@.len() - i,
        {
            self.current_timers.push(found[i].clone());
            assert(self.current_timers@ =~= old(self).current_timers@ + found@.take(i + 1));
            i += 1;
        }
        assert(found@.take(i as int) =~= found@);
        found
    }

    /// Switches a timer over. A timer that is on gets machines where it is for the player's map;
    /// the machines of one that is off are cleaned up, and stay.
    pub fn toggle(&mut self, id: String, map_id: Option<u32>, settings: &mut Settings) -> (r:
        MachineChange)
        ensures
            final(settings).timers@ == timer_toggled(old(settings).timers@, id@),
            *final(settings) == (Settings {
                dirty: true,
                timers: final(settings).timers,
                ..*old(settings)
            }),
            if timer_off(old(settings).timers@, id@) {
                &&& r.cleanup@.len() == 0
                &&& r.create@ == old(self).on_map_with_id(map_id, id@)
            } else {
                &&& are_places(r.cleanup@, old(self).current_timers@, id@)
                &&& r.create@.len() == 0
            },
            final(self).current_timers@ == old(self).current_timers@ + r.create@,
            *final(self) == (TimersController {
                current_timers: final(self).current_timers,
                ..*old(self)
            }),
    {
        settings.mark_dirty();
        let disabled = settings.toggle_timer(id.clone());
        if disabled {
            let cleanup = pick_places(&self.current_timers, id.as_str());
            let create: Vec<Arc<TimerFile>> = Vec::new();
            assert(self.current_timers@ + create@ =~= self.current_timers@);
            MachineChange { cleanup, create }
        } else {
            MachineChange { cleanup: Vec::new(), create: self.start(id.as_str(), map_id) }
        }
    }

    /// Switches a timer on. It gets machines where it is for the player's map.
    pub fn enable(&mut self, id: String, map_id: Option<u32>, settings: &mut Settings) -> (r:
        MachineChange)
        ensures
            final(settings).timers@ == old(settings).timers@.insert(
                id@,
                TimerSettings { disabled: false },
            ),
            *final(settings) == (Settings {
                dirty: true,
                timers: final(settings).timers,
                ..*old(settings)
            }),
            r.cleanup@.len() == 0,
            r.create@ == old(self).on_map_with_id(map_id, id@),
            final(self).current_timers@ == old(self).current_timers@ + r.create@,
            *final(self) == (TimersController {
                current_timers: final(self).current_timers,
                ..*old(self)
            }),
    {
        settings.mark_dirty();
        settings.enable_timer(id.clone());
        MachineChange { cleanup: Vec::new(), create: self.start(id.as_str(), map_id) }
    }

    /// Switches a timer off. Its machines are cleaned up and taken out; the rest keep their order.
    pub fn disable(&mut self, id: String, settings: &mut Settings) -> (r: Vec<usize>)
        ensures
            final(settings).timers@ == old(settings).timers@.insert(
                id@,
                TimerSettings { disabled: true },
            ),
            *final(settings) == (Settings {
                dirty: true,
                timers: final(settings).timers,
                ..*old(settings)
            }),
            are_places(r@, old(self).current_timers@, id@),
            final(self).current_timers@ == without_id(old(self).current_timers@, id@),
            *final(self) == (TimersController {
                current_timers: final(self).current_timers,
                ..*old(self)
            }),
    {
        settings.mark_dirty();
        settings.disable_timer(id.clone());
        let places = pick_places(&self.current_timers, id.as_str());
        let rest = pick_by_id(&self.current_timers, id.as_str(), false);
        self.current_timers = rest;
        places
    }

    /// All machines are to be started over.
    pub fn reset(&self) -> (r: TimersAction)
        ensures
            r is Reset,
    {
        TimersAction::Reset
    }

    /// Tells all machines of the trigger that a key's name ends in.
    pub fn timer_key_trigger(&self, id: &str, is_release: bool) -> (r: TimersAction)
        requires
            trigger_of(id@) is Some,
        ensures
            r == TimersAction::Key(trigger_of(id@)->0, is_release),
    {
        match find_trigger(id) {
            Some(trigger) => TimersAction::Key(trigger, is_release),
            None => vstd::pervasive::unreached(),
        }
    }

    /// Lists the machines that are to hear of a trigger: all of them, in their order.
    pub fn timer_key_trigger_idx(&self, idx: u32, is_release: bool) -> (r: Vec<MachineKey>)
        ensures
            r@ == Seq::new(
                self.current_timers@.len(),
                |i: int| MachineKey { machine: i as usize, trigger: idx, is_release },
            ),
    {
        let mut out: Vec<MachineKey> = Vec::new();
        let n = self.current_timers.len();
        let mut i: usize = 0;
        while i < n
            invariant
                i <= n,
                out@ == Seq::new(
                    i as nat,
                    |k: int| MachineKey { machine: k as usize, trigger: idx, is_release },
                ),
            decreases n - i,
        {
            out.push(MachineKey { machine: i, trigger: idx, is_release });
            assert(out@ =~= Seq::new(
                (i + 1) as nat,
                |k: int| MachineKey { machine: k as usize, trigger: idx, is_release },
            ));
            i += 1;
        }
        out
    }

    /// Tells what the keys did, given which inputs are down and which have changed, and whether
    /// any trigger has changed.
    pub fn handle_keybinds(state: TaimiControls, changed: TaimiControls) -> (r: (TimerKeys, bool))
        ensures
            r.0.reset == (state.bits & changed.bits & TIMER_RESET != 0),
            r.0.triggers@ == changed_triggers(state, changed, TIMER_TRIGGER_COUNT as nat),
            r.1 == (r.0.triggers@.len() > 0),
    {
        let pressed = state.intersection(changed);
        let reset = pressed.intersects(TaimiControls { bits: TIMER_RESET });
        let mut triggers: Vec<(u32, bool)> = Vec::new();
        let mut i: u32 = 0;
        while i < TIMER_TRIGGER_COUNT
            invariant
                i <= TIMER_TRIGGER_COUNT,
                triggers@ == changed_triggers(state, changed, i as nat),
            decreases TIMER_TRIGGER_COUNT - i,
        {
            let place = TIMER_TRIGGER_0_INDEX + i;
            if changed.contains_index(place) {
                triggers.push((i, !state.contains_index(place)));
            }
            i += 1;
        }
        let any = triggers.len() > 0;
        (TimerKeys { reset, triggers }, any)
    }

    /// Notes that the player entered a map. All machines are cleaned up and taken out, and the
    /// map's timers that are not switched off get new ones. Tells whether the map has timers; if
    /// so, the new machines are told the map.
    pub fn handle_map_event(&mut self, new_map_id: u32, settings: &Settings) -> (r: (
        MachineChange,
        bool,
    ))
        ensures
            r.0.cleanup@ == Seq::new(old(self).current_timers@.len(), |i: int| i as usize),
            r.0.create@ == switched_on(
                under(old(self).map_id_to_timers@, new_map_id),
                settings.timers@,
            ),
            r.1 == old(self).map_id_to_timers@.contains_key(new_map_id),
            final(self).current_timers@ == r.0.create@,
            *final(self) == (TimersController {
                current_timers: final(self).current_timers,
                ..*old(self)
            }),
    {
        broadcast use vstd::std_specs::hash::group_hash_axioms;

        let mut cleanup: Vec<usize> = Vec::new();
        let n = self.current_timers.len();
        let mut i: usize = 0;
        while i < n
            invariant
                i <= n,
                cleanup@ == Seq::new(i as nat, |k: int| k as usize),
            decreases n - i,
        {
            cleanup.push(i);
            assert(cleanup@ =~= Seq::new((i + 1) as nat, |k: int| k as usize));
            i += 1;
        }
        let mut current: Vec<Arc<TimerFile>> = Vec::new();
        let mut create: Vec<Arc<TimerFile>> = Vec::new();
        let ghost on = |t: Arc<TimerFile>| !timer_off(settings.timers@, t.id@);
        let known = match self.map_id_to_timers.get(&new_map_id) {
            Some(list) => {
                let mut j: usize = 0;
                proof {
                    reveal(Seq::filter);
                    assert(list@.take(0).filter(on) =~= Seq::empty());
                }
                while j < list.len()
                    invariant
                        j <= list@.len(),
                        on == (|t: Arc<TimerFile>| !timer_off(settings.timers@, t.id@)),
                        current@ == list@.take(j as int).filter(on),
                        create@ == current@,
                    decreases list@.len() - j,
                {
                    proof {
                        assert(list@.take(j + 1) =~= list@.take(j as int).push(list@[j as int]));
                        list@.take(j as int).lemma_filter_push(list@[j as int], on);
                    }
                    let enabled = match settings.timers.get(list[j].id.as_str()) {
                        Some(setting) => !setting.disabled,
                        None => true,
                    };
                    if enabled {
                        current.push(list[j].clone());
                        create.push(list[j].clone());
                    }
                    j += 1;
                }
                assert(list@.take(j as int) =~= list@);
                true
            },
            None => {
                proof {
                    reveal(Seq::filter);
                    assert(Seq::<Arc<TimerFile>>::empty().filter(on) =~= Seq::empty());
                }
                false
            },
        };
        self.current_timers = current;
        (MachineChange { cleanup, create }, known)
    }

    /// Changes how bars are drawn, and tells how they are drawn now.
    pub fn progress_bar_style(style: ProgressBarStyleChange, settings: &mut Settings) -> (r:
        ProgressBarSettings)
        ensures
            r == restyled(old(settings).progress_bar, style),
            *final(settings) == (Settings { dirty: true, progress_bar: r, ..*old(settings) }),
    {
        settings.mark_dirty();
        settings.set_progress_bar(style)
    }

    /// Answers an event, given the player's map where it is known, and tells what is to be done
    /// outside.
    pub fn handle_event(
        &mut self,
        event: TimersEvent,
        settings: &mut Settings,
        map_id: Option<u32>,
    ) -> (r: TimersAction)
        requires
            event matches TimersEvent::TimerKeyTrigger(id, _) ==> trigger_of(id@) is Some,
        ensures
            match event {
                TimersEvent::ReloadTimers => r is Reload && *final(self) == *old(self)
                    && *final(settings) == *old(settings),
                TimersEvent::TimerReset => r is Reset && *final(self) == *old(self) && *final(
                    settings) == *old(settings),
                TimersEvent::TimerKeyTrigger(id, is_release) => r == TimersAction::Key(
                    trigger_of(id@)->0,
                    is_release,
                ) && *final(self) == *old(self) && *final(settings) == *old(settings),
                TimersEvent::ProgressBarStyle(style) => {
                    &&& r == TimersAction::Bar(restyled(old(settings).progress_bar, style))
                    &&& *final(self) == *old(self)
                    &&& *final(settings) == (Settings {
                        dirty: true,
                        progress_bar: restyled(old(settings).progress_bar, style),
                        ..*old(settings)
                    })
                },
                TimersEvent::TimerEnable(id) => {
                    &&& r matches TimersAction::Switch(change) && change.cleanup@.len() == 0
                        && change.create@ == old(self).on_map_with_id(map_id, id@) && final(
                        self).current_timers@ == old(self).current_timers@ + change.create@
                    &&& final(settings).timers@ == old(settings).timers@.insert(
                        id@,
                        TimerSettings { disabled: false },
                    )
                },
                TimersEvent::TimerDisable(id) => {
                    &&& r matches TimersAction::Remove(places) && are_places(
                        places@,
                        old(self).current_timers@,
                        id@,
                    )
                    &&& final(self).current_timers@ == without_id(old(self).current_timers@, id@)
                    &&& final(settings).timers@ == old(settings).timers@.insert(
                        id@,
                        TimerSettings { disabled: true },
                    )
                },
                TimersEvent::TimerToggle(id) => {
                    &&& r matches TimersAction::Switch(change) && final(self).current_timers@
                        == old(self).current_timers@ + change.create@ && if timer_off(
                        old(settings).timers@,
                        id@,
                    ) {
                        &&& change.cleanup@.len() == 0
                        &&& change.create@ == old(self).on_map_with_id(map_id, id@)
                    } else {
                        &&& are_places(change.cleanup@, old(self).current_timers@, id@)
                        &&& change.create@.len() == 0
                    }
                    &&& final(settings).timers@ == timer_toggled(old(settings).timers@, id@)
                },
            },
            *final(self) == (TimersController {
                current_timers: final(self).current_timers,
                ..*old(self)
            }),
            *final(settings) == (Settings {
                dirty: final(settings).dirty,
                timers: final(settings).timers,
                progress_bar: final(settings).progress_bar,
                ..*old(settings)
            }),
            event is TimerEnable || event is TimerDisable || event is TimerToggle ==> final(
                settings).dirty && final(settings).progress_bar == old(settings).progress_bar,
    {
        match event {
            TimersEvent::ReloadTimers => TimersAction::Reload,
            TimersEvent::TimerEnable(id) => TimersAction::Switch(
                self.enable(id, map_id, settings),
            ),
            TimersEvent::TimerDisable(id) => TimersAction::Remove(self.disable(id, settings)),
            TimersEvent::TimerToggle(id) => TimersAction::Switch(
                self.toggle(id, map_id, settings),
            ),
            TimersEvent::TimerReset => self.reset(),
            TimersEvent::TimerKeyTrigger(id, is_release) => self.timer_key_trigger(
                id.as_str(),
                is_release,
            ),
            TimersEvent::ProgressBarStyle(style) => TimersAction::Bar(
                TimersController::progress_bar_style(style, settings),
            ),
        }
    }
}

/// A timer that was switched off has no machine, and no other timer has lost one.
pub proof fn law_disabled_has_no_machine(
    current: Seq<Arc<TimerFile>>,
    id: Seq<char>,
    timer: Arc<TimerFile>,
)
    ensures
        without_id(current, id).contains(timer) == (current.contains(timer) && timer.id@ != id),
{
    let rest = without_id(current, id);
    let other = other_id(id);
    if rest.contains(timer) {
        let i = choose|i: int| 0 <= i < rest.len() && rest[i] == timer;
        current.lemma_filter_pred(other, i);
        current.lemma_filter_contains_rev(other, timer);
    }
    if current.contains(timer) && timer.id@ != id {
        let i = choose|i: int| 0 <= i < current.len() && current[i] == timer;
        current.lemma_filter_contains(other, i);
    }
}

/// After the player entered a map, exactly the timers for that map that are not switched off have
/// machines.
pub proof fn law_machines_on_map(
    timers: Seq<Arc<TimerFile>>,
    map_id: u32,
    settings: Map<Seq<char>, TimerSettings>,
    timer: Arc<TimerFile>,
)
    ensures
        switched_on(of_map(timers, map_id), settings).contains(timer) == (timers.contains(timer)
            && timer.map_id == map_id && !timer_off(settings, timer.id@)),
{
    let there = |t: Arc<TimerFile>| t.map_id == map_id;
    let on = |t: Arc<TimerFile>| !timer_off(settings, t.id@);
    let mid = of_map(timers, map_id);
    let out = switched_on(mid, settings);
    if out.contains(timer) {
        let i = choose|i: int| 0 <= i < out.len() && out[i] == timer;
        mid.lemma_filter_pred(on, i);
        mid.lemma_filter_contains_rev(on, timer);
        let j = choose|j: int| 0 <= j < mid.len() && mid[j] == timer;
        timers.lemma_filter_pred(there, j);
        timers.lemma_filter_contains_rev(there, timer);
    }
    if timers.contains(timer) && timer.map_id == map_id && !timer_off(settings, timer.id@) {
        let i = choose|i: int| 0 <= i < timers.len() && timers[i] == timer;
        timers.lemma_filter_contains(there, i);
        let j = choose|j: int| 0 <= j < mid.len() && mid[j] == timer;
        mid.lemma_filter_contains(on, j);
    }
}

} // verus!

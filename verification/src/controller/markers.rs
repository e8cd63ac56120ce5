//! Marker sets at hand, the squad, and which sets the player has come near.
use crate::marker_file::MarkerFiletype;
#[allow(unused_imports)]
use crate::marker_listing::{flat_sets, has_same, holds_same, index_by_map, indexes};
#[allow(unused_imports)]
use crate::marker_set::{MarkerSet, MarkerSetView, MarkerSettings};
use crate::name_map::NameMap;
#[allow(unused_imports)]
use crate::settings::{marker_toggled, Settings, Window};
#[allow(unused_imports)]
use crate::squad::{
    autoplace_action, collect_users, decide_autoplace, find_rank, named_users, player_rank,
    squad_after, update_squad, AutoplaceAction, GroupMember, MarkerAutoPlaceSettings, SquadRank,
    SquadUpdateType, UserInfo,
};
use std::collections::HashMap;
use std::sync::Arc;
use vstd::prelude::*;

verus! {

/// A change to a marker file.
pub enum MarkerSaveEvent {
    /// Add a set to a file.
    Append(MarkerSet, String),
    /// Write a set to a new file.
    Create(MarkerSet, String, MarkerFiletype),
    /// Put a set in the place of another, which is told by its category and its place there.
    Edit(MarkerSet, String, Option<String>, usize),
}

/// What the marker controller is told.
pub enum MarkersEvent {
    /// A change to a squad member, and the member's name where it can be told.
    RTAPISquadUpdate(SquadUpdateType, GroupMember, Option<String>),
    ClearSpentAutoplace,
    ExtrasSquadUpdate(Vec<UserInfo>),
    ClearMarkers,
    MarkerAutoPlaceSettings(MarkerAutoPlaceSettings),
    SetMarker(Arc<MarkerSet>),
    SaveMarker(MarkerSaveEvent),
    DeleteMarker { path: String, category: Option<String>, idx: usize },
    GetMarkerPaths,
    ReloadMarkers,
    MarkerToggle(String),
    MarkerEnable(String),
    MarkerDisable(String),
    UiResize,
    UiMapOpened,
    MumbleIdentityUpdated { role: SquadRank },
}

/// What is to be done outside about an event.
pub enum MarkersAction {
    Nothing,
    /// Clear all markers of the squad.
    Clear,
    /// Place the markers of a set.
    Place(Arc<MarkerSet>),
    /// Change a file, then load all files again.
    Save(MarkerSaveEvent),
    /// Take a set out of a file, then load all files again.
    Delete { path: String, category: Option<String>, idx: usize },
    /// Tell which files there are.
    ListPaths,
    /// Load all files again.
    Reload,
}

/// The sets of a list that no spent set is equal to.
pub open spec fn pending_sets(list: Seq<MarkerSetView>, spent: Seq<MarkerSetView>) -> Seq<
    MarkerSetView,
> {
    list.filter(|set: MarkerSetView| !has_same(spent, set))
}

/// The elements of the first `n` of a list that are marked.
pub open spec fn marked(list: Seq<MarkerSetView>, marks: Seq<bool>, n: nat) -> Seq<MarkerSetView>
    decreases n,
{
    if n == 0 {
        Seq::empty()
    } else if marks[n - 1] {
        marked(list, marks, (n - 1) as nat).push(list[n - 1])
    } else {
        marked(list, marks, (n - 1) as nat)
    }
}

/// The marker controller's state.
pub struct MarkersController {
    pub rtapi_squad: NameMap<GroupMember>,
    pub extras_squad: NameMap<UserInfo>,
    pub markers: NameMap<Vec<Arc<MarkerSet>>>,
    /// The sets that the player came near since the map was entered.
    pub spent_markers: Vec<Arc<MarkerSet>>,
    pub map_id_to_markers: HashMap<u32, Vec<Arc<MarkerSet>>>,
    pub marker_autoplace: Option<MarkerAutoPlaceSettings>,
    pub mumble_role: Option<SquadRank>,
}

impl MarkersController {
    /// The sets of a map.
    pub open spec fn on_map(&self, map_id: u32) -> Seq<MarkerSetView> {
        if self.map_id_to_markers@.contains_key(map_id) {
            self.map_id_to_markers@[map_id].deep_view()
        } else {
            Seq::empty()
        }
    }

    /// The sets that the player can still come near.
    pub open spec fn to_meet(&self, map_id: Option<u32>) -> Seq<MarkerSetView> {
        match map_id {
            Some(id) => pending_sets(self.on_map(id), self.spent_markers.deep_view()),
            None => Seq::empty(),
        }
    }

    /// The sets are found by map as the categories list them.
    pub open spec fn is_indexed(&self) -> bool {
        indexes(self.map_id_to_markers@, flat_sets(&self.markers, self.markers.names().len()))
    }

    /// A controller that knows nothing yet.
    pub fn new() -> (r: MarkersController)
        ensures
            r.rtapi_squad@ == Map::<Seq<char>, GroupMember>::empty(),
            r.extras_squad@ == Map::<Seq<char>, UserInfo>::empty(),
            r.markers@ == Map::<Seq<char>, Vec<Arc<MarkerSet>>>::empty(),
            r.spent_markers@ == Seq::<Arc<MarkerSet>>::empty(),
            r.map_id_to_markers@ == Map::<u32, Vec<Arc<MarkerSet>>>::empty(),
            r.marker_autoplace is None,
            r.mumble_role is None,
            r.is_indexed(),
    {
        broadcast use vstd::std_specs::hash::group_hash_axioms;

        let markers: NameMap<Vec<Arc<MarkerSet>>> = NameMap::new();
        MarkersController {
            rtapi_squad: NameMap::new(),
            extras_squad: NameMap::new(),
            markers,
            spent_markers: Vec::new(),
            map_id_to_markers: HashMap::new(),
            marker_autoplace: None,
            mumble_role: None,
        }
    }

    fn rebuild_index(&mut self)
        ensures
            final(self).is_indexed(),
            *final(self) == (MarkersController {
                map_id_to_markers: final(self).map_id_to_markers,
                ..*old(self)
            }),
    {
        let index = index_by_map(&self.markers);
        self.map_id_to_markers = index;
    }

    /// Starts with a setting and the sets that could be loaded. Where loading failed, the sets
    /// stay as they were.
    pub fn setup(
        &mut self,
        autoplace: MarkerAutoPlaceSettings,
        loaded: Option<NameMap<Vec<Arc<MarkerSet>>>>,
    )
        ensures
            final(self).is_indexed(),
            *final(self) == (MarkersController {
                marker_autoplace: Some(autoplace),
                markers: match loaded {
                    Some(markers) => markers,
                    None => old(self).markers,
                },
                map_id_to_markers: final(self).map_id_to_markers,
                ..*old(self)
            }),
    {
        self.marker_autoplace = Some(autoplace);
        match loaded {
            Some(markers) => {
                self.markers = markers;
            },
            None => {},
        }
        self.rebuild_index();
    }

    /// Takes the sets over that were loaded again. Where loading failed, nothing changes.
    pub fn reload(&mut self, loaded: Option<NameMap<Vec<Arc<MarkerSet>>>>)
        ensures
            match loaded {
                Some(markers) => final(self).is_indexed() && *final(self) == (MarkersController {
                    markers,
                    map_id_to_markers: final(self).map_id_to_markers,
                    ..*old(self)
                }),
                None => *final(self) == *old(self),
            },
    {
        match loaded {
            Some(markers) => {
                self.markers = markers;
                self.rebuild_index();
            },
            None => {},
        }
    }

    /// Opens the window of the marker sets.
    pub fn open_window(settings: &mut Settings)
        ensures
            *final(settings) == (Settings { dirty: true, markers_window_open: true, ..*old(settings) }),
    {
        settings.mark_dirty();
        proof {
            crate::settings::law_windows_have_names();
        }
        settings.set_window_state("markers", Some(true));
    }

    /// Notes that the player entered a map, and gives its sets. Every one of them can be met
    /// again.
    pub fn handle_map_event(&mut self, map_id: u32) -> (r: Vec<Arc<MarkerSet>>)
        ensures
            r.deep_view() == old(self).on_map(map_id),
            final(self).spent_markers@ == Seq::<Arc<MarkerSet>>::empty(),
            *final(self) == (MarkersController {
                spent_markers: final(self).spent_markers,
                ..*old(self)
            }),
            final(self).to_meet(Some(map_id)) == old(self).on_map(map_id),
    {
        let found = self.sets_on(map_id);
        self.spent_markers = Vec::new();
        proof {
            assert(self.spent_markers.deep_view() =~= Seq::<MarkerSetView>::empty());
            law_all_pending_at_first(self.on_map(map_id));
        }
        found
    }

    fn sets_on(&self, map_id: u32) -> (r: Vec<Arc<MarkerSet>>)
        ensures
            r.deep_view() == self.on_map(map_id),
    {
        broadcast use vstd::std_specs::hash::group_hash_axioms;

        let mut out: Vec<Arc<MarkerSet>> = Vec::new();
        assert(out.deep_view() =~= Seq::<MarkerSetView>::empty());
        match self.map_id_to_markers.get(&map_id) {
            Some(list) => {
                let mut i: usize = 0;
                while i < list.len()
                    invariant
                        i <= list@.len(),
                        out.deep_view() == list.deep_view().take(i as int),
                    decreases list@.len() - i,
                {
                    let ghost before = out.deep_view();
                    out.push(list[i].clone());
                    assert(out.deep_view() =~= before.push(list.deep_view()[i as int]));
                    assert(list.deep_view().take(i + 1) =~= list.deep_view().take(i as int).push(
                        list.deep_view()[i as int],
                    ));
                    i += 1;
                }
                assert(list.deep_view().take(i as int) =~= list.deep_view());
            },
            None => {},
        }
        out
    }

    /// Lists the sets that the player can still come near.
    pub fn pending(&self, map_id: Option<u32>) -> (r: Vec<Arc<MarkerSet>>)
        ensures
            r.deep_view() == self.to_meet(map_id),
    {
        let mut out: Vec<Arc<MarkerSet>> = Vec::new();
        assert(out.deep_view() =~= Seq::<MarkerSetView>::empty());
        match map_id {
            Some(id) => {
                let list = self.sets_on(id);
                let ghost spent = self.spent_markers.deep_view();
                let ghost free = |set: MarkerSetView| !has_same(spent, set);
                let mut i: usize = 0;
                proof {
                    reveal(Seq::filter);
                    assert(list.deep_view().take(0).filter(free) =~= Seq::empty());
                }
                while i < list.len()
                    invariant
                        i <= list@.len(),
                        spent == self.spent_markers.deep_view(),
                        free == (|set: MarkerSetView| !has_same(spent, set)),
                        out.deep_view() == list.deep_view().take(i as int).filter(free),
                    decreases list@.len() - i,
                {
                    let ghost before = out.deep_view();
                    proof {
                        let so_far = list.deep_view().take(i as int);
                        let e = list.deep_view()[i as int];
                        assert(list.deep_view().take(i + 1) =~= so_far.push(e));
                        so_far.lemma_filter_push(e, free);
                    }
                    if !holds_same(&self.spent_markers, &list[i]) {
                        out.push(list[i].clone());
                        assert(out.deep_view() =~= before.push(list.deep_view()[i as int]));
                    }
                    i += 1;
                }
                assert(list.deep_view().take(i as int) =~= list.deep_view());
            },
            None => {},
        }
        out
    }

    /// Notes where the player is, and gives the sets that the player came near only now. `near`
    /// tells of each set that can still be met whether the player is near it.
    pub fn handle_position(&mut self, map_id: Option<u32>, near: &Vec<bool>) -> (r: Vec<
        Arc<MarkerSet>,
    >)
        requires
            near@.len() == old(self).to_meet(map_id).len(),
        ensures
            r.deep_view() == marked(old(self).to_meet(map_id), near@, near@.len()),
            final(self).spent_markers.deep_view() == old(self).spent_markers.deep_view()
                + r.deep_view(),
            *final(self) == (MarkersController {
                spent_markers: final(self).spent_markers,
                ..*old(self)
            }),
    {
        let list = self.pending(map_id);
        assert(list@.len() == list.deep_view().len());
        let mut met: Vec<Arc<MarkerSet>> = Vec::new();
        let mut i: usize = 0;
        assert(met.deep_view() =~= Seq::<MarkerSetView>::empty());
        assert(self.spent_markers.deep_view() =~= old(self).spent_markers.deep_view()
            + met.deep_view());
        while i < list.len()
            invariant
                i <= list@.len(),
                near@.len() == list@.len(),
                met.deep_view() == marked(list.deep_view(), near@, i as nat),
                self.spent_markers.deep_view() == old(self).spent_markers.deep_view()
                    + met.deep_view(),
                *self == (MarkersController { spent_markers: self.spent_markers, ..*old(self) }),
            decreases list@.len() - i,
        {
            if near[i] {
                let ghost before = met.deep_view();
                let ghost spent = self.spent_markers.deep_view();
                let ghost e = list.deep_view()[i as int];
                met.push(list[i].clone());
                self.spent_markers.push(list[i].clone());
                assert(met.deep_view() =~= before.push(e));
                assert(self.spent_markers.deep_view() =~= spent.push(e));
            }
            i += 1;
        }
        met
    }

    /// Forgets which sets the player came near.
    pub fn clear_spent_autoplace(&mut self)
        ensures
            final(self).spent_markers@ == Seq::<Arc<MarkerSet>>::empty(),
            *final(self) == (MarkersController {
                spent_markers: final(self).spent_markers,
                ..*old(self)
            }),
    {
        self.spent_markers = Vec::new();
    }

    /// Decides what to do about a set that the player came near.
    pub fn handle_marker_autoplace(
        &self,
        marker: &MarkerSet,
        settings: Option<&NameMap<MarkerSettings>>,
        live_name: Option<&str>,
        account_name: Option<&str>,
    ) -> (r: AutoplaceAction)
        ensures
            r == autoplace_action(
                marker@.status(
                    match settings {
                        Some(m) => Some(m@),
                        None => None,
                    },
                ),
                self.marker_autoplace,
                self.role(live_name.deep_view(), account_name.deep_view()),
            ),
    {
        if !marker.status(settings) {
            return AutoplaceAction::Nothing;
        }
        decide_autoplace(true, self.marker_autoplace, self.get_role(live_name, account_name))
    }

    /// The player's rank in the squad.
    pub open spec fn role(
        &self,
        live_name: Option<Seq<char>>,
        account_name: Option<Seq<char>>,
    ) -> Option<SquadRank> {
        player_rank(
            self.rtapi_squad@,
            self.extras_squad@,
            self.mumble_role,
            live_name,
            account_name,
        )
    }

    /// Finds the player's rank in the squad, given the player's name in the live game data and
    /// the player's account name, where they are known.
    pub fn get_role(&self, live_name: Option<&str>, account_name: Option<&str>) -> (r: Option<
        SquadRank,
    >)
        ensures
            r == self.role(live_name.deep_view(), account_name.deep_view()),
    {
        find_rank(
            &self.rtapi_squad,
            &self.extras_squad,
            self.mumble_role,
            live_name,
            account_name,
        )
    }

    /// Notes the rank that the game's identity data tell.
    pub fn handle_mumble_identity(&mut self, role: SquadRank)
        ensures
            *final(self) == (MarkersController { mumble_role: Some(role), ..*old(self) }),
    {
        self.mumble_role = Some(role);
    }

    /// The event that the game's identity data give rise to.
    pub fn receive_mumble_identity(is_commander: bool) -> (r: MarkersEvent)
        ensures
            r == (MarkersEvent::MumbleIdentityUpdated {
                role: if is_commander {
                    SquadRank::Commander
                } else {
                    SquadRank::Member
                },
            }),
    {
        MarkersEvent::MumbleIdentityUpdated { role: SquadRank::from_commander_flag(is_commander) }
    }

    /// Takes a combat-log report over as the whole squad.
    pub fn extras_squad_update(&mut self, data: Vec<UserInfo>)
        ensures
            final(self).extras_squad@ == named_users(data@),
            *final(self) == (MarkersController {
                extras_squad: final(self).extras_squad,
                ..*old(self)
            }),
    {
        self.extras_squad = collect_users(data);
    }

    /// Applies a change to a member of the squad, given the player's account name and the
    /// member's, where they are known.
    pub fn rtapi_squad_update(
        &mut self,
        change: SquadUpdateType,
        member: GroupMember,
        own_name: Option<&str>,
        member_name: Option<&str>,
    )
        ensures
            final(self).rtapi_squad@ == squad_after(
                old(self).rtapi_squad@,
                change,
                own_name.deep_view(),
                member_name.deep_view(),
                member,
            ),
            *final(self) == (MarkersController {
                rtapi_squad: final(self).rtapi_squad,
                ..*old(self)
            }),
    {
        update_squad(&mut self.rtapi_squad, change, own_name, member_name, member);
    }

    /// Sets what happens when the player comes near a set.
    pub fn set_autoplace_settings(
        &mut self,
        settings: &mut Settings,
        maps: MarkerAutoPlaceSettings,
    )
        ensures
            *final(settings) == (Settings { dirty: true, marker_autoplace: maps, ..*old(settings) }),
            *final(self) == (MarkersController { marker_autoplace: Some(maps), ..*old(self) }),
    {
        settings.mark_dirty();
        settings.set_marker_autoplace_settings(&maps);
        self.marker_autoplace = Some(maps);
    }

    /// Switches a set over.
    pub fn toggle(settings: &mut Settings, id: String)
        ensures
            final(settings).markers@ == marker_toggled(old(settings).markers@, id@),
            *final(settings) == (Settings {
                dirty: true,
                markers: final(settings).markers,
                ..*old(settings)
            }),
    {
        settings.mark_dirty();
        settings.toggle_marker(id);
    }

    /// Switches a set on.
    pub fn enable(settings: &mut Settings, id: String)
        ensures
            final(settings).markers@ == old(settings).markers@.insert(
                id@,
                MarkerSettings { disabled: false },
            ),
            *final(settings) == (Settings {
                dirty: true,
                markers: final(settings).markers,
                ..*old(settings)
            }),
    {
        settings.mark_dirty();
        settings.enable_marker(id);
    }

    /// Switches a set off.
    pub fn disable(settings: &mut Settings, id: String)
        ensures
            final(settings).markers@ == old(settings).markers@.insert(
                id@,
                MarkerSettings { disabled: true },
            ),
            *final(settings) == (Settings {
                dirty: true,
                markers: final(settings).markers,
                ..*old(settings)
            }),
    {
        settings.mark_dirty();
        settings.disable_marker(id);
    }

    /// What an event leaves of the controller.
    pub open spec fn answers(
        self,
        after: MarkersController,
        event: MarkersEvent,
        own_name: Option<Seq<char>>,
    ) -> bool {
        match event {
            MarkersEvent::MumbleIdentityUpdated { role } => after == (MarkersController {
                mumble_role: Some(role),
                ..self
            }),
            MarkersEvent::RTAPISquadUpdate(change, member, name) => {
                &&& after.rtapi_squad@ == squad_after(
                    self.rtapi_squad@,
                    change,
                    own_name,
                    name.deep_view(),
                    member,
                )
                &&& after == (MarkersController { rtapi_squad: after.rtapi_squad, ..self })
            },
            MarkersEvent::ClearSpentAutoplace => {
                &&& after.spent_markers@ == Seq::<Arc<MarkerSet>>::empty()
                &&& after == (MarkersController { spent_markers: after.spent_markers, ..self })
            },
            MarkersEvent::ExtrasSquadUpdate(members) => {
                &&& after.extras_squad@ == named_users(members@)
                &&& after == (MarkersController { extras_squad: after.extras_squad, ..self })
            },
            MarkersEvent::MarkerAutoPlaceSettings(maps) => after == (MarkersController {
                marker_autoplace: Some(maps),
                ..self
            }),
            _ => after == self,
        }
    }

    /// What an event leaves of the settings.
    pub open spec fn settles(before: Settings, after: Settings, event: MarkersEvent) -> bool {
        match event {
            MarkersEvent::MarkerEnable(id) => {
                &&& after.markers@ == before.markers@.insert(id@, MarkerSettings { disabled: false })
                &&& after == (Settings { dirty: true, markers: after.markers, ..before })
            },
            MarkersEvent::MarkerDisable(id) => {
                &&& after.markers@ == before.markers@.insert(id@, MarkerSettings { disabled: true })
                &&& after == (Settings { dirty: true, markers: after.markers, ..before })
            },
            MarkersEvent::MarkerToggle(id) => {
                &&& after.markers@ == marker_toggled(before.markers@, id@)
                &&& after == (Settings { dirty: true, markers: after.markers, ..before })
            },
            MarkersEvent::MarkerAutoPlaceSettings(maps) => after == (Settings {
                dirty: true,
                marker_autoplace: maps,
                ..before
            }),
            _ => after == before,
        }
    }

    /// What is to be done outside about an event.
    pub open spec fn outside(event: MarkersEvent) -> MarkersAction {
        match event {
            MarkersEvent::ClearMarkers => MarkersAction::Clear,
            MarkersEvent::ReloadMarkers => MarkersAction::Reload,
            MarkersEvent::SetMarker(set) => MarkersAction::Place(set),
            MarkersEvent::SaveMarker(save) => MarkersAction::Save(save),
            MarkersEvent::DeleteMarker { path, category, idx } => MarkersAction::Delete {
                path,
                category,
                idx,
            },
            MarkersEvent::GetMarkerPaths => MarkersAction::ListPaths,
            _ => MarkersAction::Nothing,
        }
    }

    /// Answers an event, given the player's account name where it is known, and tells what is to
    /// be done outside.
    pub fn handle_event(
        &mut self,
        event: MarkersEvent,
        settings: &mut Settings,
        own_name: Option<&str>,
    ) -> (r: MarkersAction)
        ensures
            old(self).answers(*final(self), event, own_name.deep_view()),
            MarkersController::settles(*old(settings), *final(settings), event),
            r == MarkersController::outside(event),
    {
        match event {
            MarkersEvent::MumbleIdentityUpdated { role } => {
                self.handle_mumble_identity(role);
                MarkersAction::Nothing
            },
            MarkersEvent::RTAPISquadUpdate(change, member, name) => {
                match &name {
                    Some(n) => self.rtapi_squad_update(change, member, own_name, Some(n.as_str())),
                    None => self.rtapi_squad_update(change, member, own_name, None),
                }
                MarkersAction::Nothing
            },
            MarkersEvent::ClearMarkers => MarkersAction::Clear,
            MarkersEvent::ClearSpentAutoplace => {
                self.clear_spent_autoplace();
                MarkersAction::Nothing
            },
            MarkersEvent::MarkerEnable(id) => {
                MarkersController::enable(settings, id);
                MarkersAction::Nothing
            },
            MarkersEvent::MarkerDisable(id) => {
                MarkersController::disable(settings, id);
                MarkersAction::Nothing
            },
            MarkersEvent::MarkerToggle(id) => {
                MarkersController::toggle(settings, id);
                MarkersAction::Nothing
            },
            MarkersEvent::ExtrasSquadUpdate(members) => {
                self.extras_squad_update(members);
                MarkersAction::Nothing
            },
            MarkersEvent::MarkerAutoPlaceSettings(maps) => {
                self.set_autoplace_settings(settings, maps);
                MarkersAction::Nothing
            },
            MarkersEvent::ReloadMarkers => MarkersAction::Reload,
            MarkersEvent::SetMarker(set) => MarkersAction::Place(set),
            MarkersEvent::SaveMarker(save) => MarkersAction::Save(save),
            MarkersEvent::DeleteMarker { path, category, idx } => MarkersAction::Delete {
                path,
                category,
                idx,
            },
            MarkersEvent::GetMarkerPaths => MarkersAction::ListPaths,
            MarkersEvent::UiResize => MarkersAction::Nothing,
            MarkersEvent::UiMapOpened => MarkersAction::Nothing,
        }
    }
}

/// While nothing is spent, every set can be met.
pub proof fn law_all_pending_at_first(list: Seq<MarkerSetView>)
    ensures
        pending_sets(list, Seq::empty()) == list,
    decreases list.len(),
{
    reveal(Seq::filter);
    let free = |set: MarkerSetView| !has_same(Seq::empty(), set);
    if list.len() > 0 {
        law_all_pending_at_first(list.drop_last());
        assert(free(list.last()));
        assert(list.drop_last().push(list.last()) =~= list);
    } else {
        assert(list.filter(free) =~= list);
    }
}

/// A set that the player came near is not met again: what is met of the sets that can still be
/// met cannot be met any more once it is spent.
pub proof fn law_met_once(
    list: Seq<MarkerSetView>,
    spent: Seq<MarkerSetView>,
    marks: Seq<bool>,
    set: MarkerSetView,
)
    requires
        marks.len() == pending_sets(list, spent).len(),
        ({
            let met = marked(pending_sets(list, spent), marks, marks.len());
            has_same(met, set) || has_same(spent, set)
        }),
    ensures
        ({
            let met = marked(pending_sets(list, spent), marks, marks.len());
            !pending_sets(list, spent + met).contains(set)
        }),
{
    let met = marked(pending_sets(list, spent), marks, marks.len());
    let all = spent + met;
    assert(has_same(all, set)) by {
        if has_same(spent, set) {
            let i = choose|i: int| 0 <= i < spent.len() && #[trigger] spent[i].canon() == set.canon();
            assert(all[i].canon() == set.canon());
        } else {
            let i = choose|i: int| 0 <= i < met.len() && #[trigger] met[i].canon() == set.canon();
            assert(all[spent.len() + i].canon() == set.canon());
        }
    }
    let free = |s: MarkerSetView| !has_same(all, s);
    let left = pending_sets(list, all);
    if left.contains(set) {
        let i = choose|i: int| 0 <= i < left.len() && left[i] == set;
        list.lemma_filter_pred(free, i);
    }
}

/// Every set is found on its map: a set of any category, or one equal to it, is among the sets of
/// the map that it is for.
pub proof fn law_every_set_is_on_its_map(controller: MarkersController, k: int)
    requires
        controller.is_indexed(),
        0 <= k < flat_sets(&controller.markers, controller.markers.names().len()).len(),
    ensures
        ({
            let set = flat_sets(&controller.markers, controller.markers.names().len())[k];
            has_same(controller.on_map(set.map_id), set)
        }),
{
    let sets = flat_sets(&controller.markers, controller.markers.names().len());
    assert(sets[k].map_id == sets[k].map_id);
    assert(controller.map_id_to_markers@.contains_key(sets[k].map_id));
}

/// A set that was switched off is off, and one that was switched on is on, whatever its file says.
pub proof fn law_switched_set_follows_settings(
    markers: Map<Seq<char>, MarkerSettings>,
    set: MarkerSetView,
    disabled: bool,
)
    ensures
        set.status(Some(markers.insert(set.id(), MarkerSettings { disabled }))) == !disabled,
{
}

/// Switching a set over that the settings know, or that is on, turns it from on to off or back.
pub proof fn law_toggled_set_changes(markers: Map<Seq<char>, MarkerSettings>, set: MarkerSetView)
    requires
        markers.contains_key(set.id()) || set.enabled,
    ensures
        set.status(Some(marker_toggled(markers, set.id()))) == !set.status(Some(markers)),
{
}

} // verus!

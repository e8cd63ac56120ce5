//! Markers of the world: where they are shown, and when their packs are loaded.
use crate::asset_form::split_name;
#[allow(unused_imports)]
use crate::asset_form::{extension_of, has_extension};
use crate::controls::{TaimiControls, PATHING_MAP, PATHING_MINIMAP, PATHING_SPACE};
use crate::paths::file_name_of;
#[allow(unused_imports)]
use crate::paths::{end_of, ends_plain, plain_base, reads_name};
#[allow(unused_imports)]
use crate::settings::{PathingSettings, Settings, SpaceSettings};
use crate::text::eq_ignore_ascii_case;
use vstd::prelude::*;

verus! {

/// Whether the name of a pack is that of an archive.
pub open spec fn names_archive(name: Option<Seq<char>>) -> bool {
    name is Some && (has_extension(extension_of(name->0), "taco"@) || has_extension(
        extension_of(name->0),
        "zip"@,
    ))
}

/// The two maps that markers can be shown on.
#[derive(Clone, Copy, PartialEq, Eq, Structural, Debug)]
pub enum MapContext {
    Global,
    Minimap,
}

/// What the controller is told.
pub enum PathingEvent {
    /// Show or hide markers on a map, or in the world where no map is given. Without a state
    /// they are switched over.
    VisibleToggle { context: Option<MapContext>, set: Option<bool> },
    ReloadAll,
    LoadAll,
    UnloadAll,
    RequestDisabledPaths,
    /// Switch a category on or off.
    PathingStateUpdate(String, bool),
    ToggleKatRender,
}

impl PathingEvent {
    /// Switches the markers in the world over.
    pub fn visible_toggle_space() -> (r: PathingEvent)
        ensures
            r == (PathingEvent::VisibleToggle { context: None, set: None }),
    {
        PathingEvent::VisibleToggle { context: None, set: None }
    }

    /// Switches the markers on a map over.
    pub fn visible_toggle(context: MapContext) -> (r: PathingEvent)
        ensures
            r == (PathingEvent::VisibleToggle { context: Some(context), set: None }),
    {
        PathingEvent::VisibleToggle { context: Some(context), set: None }
    }
}

/// What is to be done about the lens that markers in the world are seen through.
#[derive(Clone, Copy, PartialEq, Eq, Structural, Debug)]
pub enum LensAction {
    Keep,
    /// Set it up again after so many frames.
    Refresh { delay: u32 },
    Clear,
}

/// What is to be done outside after markers were shown or hidden.
#[derive(Clone, Copy, PartialEq, Eq, Structural, Debug)]
pub struct VisibilityChange {
    /// Whether the markers are shown now.
    pub shown: bool,
    /// The inputs that quick access is to show as on, where they have changed.
    pub quick_access: Option<TaimiControls>,
    pub lens: LensAction,
}

/// What is to be done outside about an event.
pub enum PathingAction {
    Nothing,
    /// Unload all packs, then load all.
    Reload,
    Load,
    Unload,
    /// Tell the engine which categories are off.
    ProvideDisabledPaths(Vec<String>),
    /// Note in the settings that a category is on or off.
    UpdatePath(String, bool),
    /// Tell the engine and the host that markers were shown or hidden.
    Visibility(VisibilityChange),
}

/// The input that switches the markers on a map, or in the world, over.
pub open spec fn visibility_control(context: Option<MapContext>) -> u32 {
    match context {
        Some(MapContext::Global) => PATHING_MAP,
        Some(MapContext::Minimap) => PATHING_MINIMAP,
        None => PATHING_SPACE,
    }
}

/// The settings after markers were shown or hidden.
pub open spec fn with_visibility(
    pathing: PathingSettings,
    context: Option<MapContext>,
    set: bool,
) -> PathingSettings {
    PathingSettings {
        space: match context {
            Some(MapContext::Global) => SpaceSettings {
                visible_map_world: Some(set),
                ..pathing.space
            },
            Some(MapContext::Minimap) => SpaceSettings {
                visible_map_mini: Some(set),
                ..pathing.space
            },
            None => SpaceSettings { visible_space: Some(set), ..pathing.space },
        },
    }
}

/// The inputs that quick access shows as on, with one of them switched on or off.
pub open spec fn with_control(state: TaimiControls, control: u32, set: bool) -> TaimiControls {
    if set {
        TaimiControls { bits: state.bits | control }
    } else {
        TaimiControls { bits: state.bits & !control }
    }
}

/// What is to be done about the lens after markers were shown or hidden.
pub open spec fn lens_after(context: Option<MapContext>, set: bool) -> LensAction {
    match context {
        None => if set {
            LensAction::Refresh { delay: 2 }
        } else {
            LensAction::Clear
        },
        Some(_) => LensAction::Keep,
    }
}

/// What is to be done outside after markers were shown or hidden.
pub open spec fn visibility_change(
    context: Option<MapContext>,
    set: bool,
    quick_access: TaimiControls,
) -> VisibilityChange {
    let after = with_control(quick_access, visibility_control(context), set);
    VisibilityChange {
        shown: set,
        quick_access: if after == quick_access {
            None
        } else {
            Some(after)
        },
        lens: lens_after(context, set),
    }
}

/// Switches one input of quick access on or off, where it is not so already.
fn set_control(state: TaimiControls, control: u32, set: bool) -> (r: Option<TaimiControls>)
    requires
        control == PATHING_SPACE || control == PATHING_MAP || control == PATHING_MINIMAP,
    ensures
        r == (if with_control(state, control, set) == state {
            None
        } else {
            Some(with_control(state, control, set))
        }),
{
    let bits = state.bits;
    assert(bits & control != 0 ==> bits | control == bits && bits ^ control == bits & !control
        && bits & !control != bits) by (bit_vector)
        requires
            control == 1 || control == 2 || control == 4,
    ;
    assert(bits & control == 0 ==> bits & !control == bits && bits ^ control == bits | control
        && bits | control != bits) by (bit_vector)
        requires
            control == 1 || control == 2 || control == 4,
    ;
    let one = TaimiControls { bits: control };
    if state.intersects(one) != set {
        Some(state.toggled(one))
    } else {
        None
    }
}

/// The controller of the markers of the world.
pub struct PathingController {}

impl PathingController {
    /// Shows or hides markers, given whether they are shown so far, and which inputs quick access
    /// shows as on.
    pub fn set_visible(
        settings: &mut Settings,
        context: Option<MapContext>,
        set: Option<bool>,
        is_visible: bool,
        quick_access: TaimiControls,
    ) -> (r: VisibilityChange)
        ensures
            ({
                let shown = match set {
                    Some(s) => s,
                    None => !is_visible,
                };
                &&& r == visibility_change(context, shown, quick_access)
                &&& *final(settings) == (Settings {
                    dirty: true,
                    pathing: Some(
                        with_visibility(old(settings).pathing_or_default(), context, shown),
                    ),
                    ..*old(settings)
                })
            }),
    {
        let shown = match set {
            Some(s) => s,
            None => !is_visible,
        };
        let pathing = settings.pathing_mut();
        match context {
            Some(MapContext::Global) => {
                pathing.space.visible_map_world = Some(shown);
            },
            Some(MapContext::Minimap) => {
                pathing.space.visible_map_mini = Some(shown);
            },
            None => {
                pathing.space.visible_space = Some(shown);
            },
        }
        let control = PathingController::control_of(context).bits;
        let lens = match context {
            None => if shown {
                LensAction::Refresh { delay: 2 }
            } else {
                LensAction::Clear
            },
            Some(_) => LensAction::Keep,
        };
        VisibilityChange { shown, quick_access: set_control(quick_access, control, shown), lens }
    }

    /// The input that switches the markers on a map, or in the world, over.
    pub fn control_of(context: Option<MapContext>) -> (r: TaimiControls)
        ensures
            r.bits == visibility_control(context),
    {
        match context {
            Some(MapContext::Global) => TaimiControls { bits: PATHING_MAP },
            Some(MapContext::Minimap) => TaimiControls { bits: PATHING_MINIMAP },
            None => TaimiControls { bits: PATHING_SPACE },
        }
    }

    /// What a key press switches over, in order: the world, the world map, the minimap.
    pub open spec fn pressed_contexts(pressed: u32) -> Seq<Option<MapContext>> {
        (if pressed & PATHING_SPACE != 0 {
            seq![None]
        } else {
            Seq::empty()
        }) + (if pressed & PATHING_MAP != 0 {
            seq![Some(MapContext::Global)]
        } else {
            Seq::empty()
        }) + (if pressed & PATHING_MINIMAP != 0 {
            seq![Some(MapContext::Minimap)]
        } else {
            Seq::empty()
        })
    }

    /// Tells what to switch over, given which inputs are down and which have changed.
    pub fn handle_keybinds(state: TaimiControls, changed: TaimiControls) -> (r: Vec<
        Option<MapContext>,
    >)
        ensures
            r@ == PathingController::pressed_contexts(state.bits & changed.bits),
    {
        let pressed = state.intersection(changed);
        let mut out: Vec<Option<MapContext>> = Vec::new();
        if pressed.intersects(TaimiControls { bits: PATHING_SPACE }) {
            out.push(None);
        }
        if pressed.intersects(TaimiControls { bits: PATHING_MAP }) {
            out.push(Some(MapContext::Global));
        }
        if pressed.intersects(TaimiControls { bits: PATHING_MINIMAP }) {
            out.push(Some(MapContext::Minimap));
        }
        out
    }

    /// Whether the player interacts with something, given whether the key is down and whether it
    /// has changed.
    pub fn handle_presses(interact_down: bool, interact_changed: bool) -> (r: bool)
        ensures
            r == (interact_down && interact_changed),
    {
        interact_down && interact_changed
    }

    /// What an event leaves of the settings.
    pub open spec fn settles(
        before: Settings,
        after: Settings,
        event: PathingEvent,
        is_visible: bool,
    ) -> bool {
        match event {
            PathingEvent::PathingStateUpdate(..) => after == (Settings { dirty: true, ..before }),
            PathingEvent::ToggleKatRender => after == (Settings {
                dirty: true,
                enable_katrender: !before.enable_katrender,
                ..before
            }),
            PathingEvent::VisibleToggle { context, set } => after == (Settings {
                dirty: true,
                pathing: Some(
                    with_visibility(
                        before.pathing_or_default(),
                        context,
                        match set {
                            Some(s) => s,
                            None => !is_visible,
                        },
                    ),
                ),
                ..before
            }),
            _ => after == before,
        }
    }

    /// `action` is what is to be done outside about an event.
    pub open spec fn is_outside(
        action: PathingAction,
        event: PathingEvent,
        settings: Settings,
        is_visible: bool,
        quick_access: TaimiControls,
    ) -> bool {
        match event {
            PathingEvent::ReloadAll => action is Reload,
            PathingEvent::LoadAll => action is Load,
            PathingEvent::UnloadAll => action is Unload,
            PathingEvent::RequestDisabledPaths => action matches PathingAction::ProvideDisabledPaths(
                names,
            ) && names.deep_view() == settings.disabled_paths.names(),
            PathingEvent::PathingStateUpdate(path, state) => action == PathingAction::UpdatePath(
                path,
                state,
            ),
            PathingEvent::ToggleKatRender => action is Nothing,
            PathingEvent::VisibleToggle { context, set } => action == PathingAction::Visibility(
                visibility_change(
                    context,
                    match set {
                        Some(s) => s,
                        None => !is_visible,
                    },
                    quick_access,
                ),
            ),
        }
    }

    /// Answers an event, given whether the markers that it is about are shown so far, and which
    /// inputs quick access shows as on. Tells what is to be done outside.
    pub fn handle_event(
        event: PathingEvent,
        settings: &mut Settings,
        is_visible: bool,
        quick_access: TaimiControls,
    ) -> (r: PathingAction)
        ensures
            PathingController::settles(*old(settings), *final(settings), event, is_visible),
            PathingController::is_outside(r, event, *old(settings), is_visible, quick_access),
    {
        match event {
            PathingEvent::ReloadAll => PathingAction::Reload,
            PathingEvent::LoadAll => PathingAction::Load,
            PathingEvent::UnloadAll => PathingAction::Unload,
            PathingEvent::RequestDisabledPaths => PathingAction::ProvideDisabledPaths(
                PathingController::provide_disabled_paths(settings),
            ),
            PathingEvent::PathingStateUpdate(path, state) => {
                settings.mark_dirty();
                PathingAction::UpdatePath(path, state)
            },
            PathingEvent::ToggleKatRender => {
                settings.mark_dirty();
                settings.toggle_katrender();
                PathingAction::Nothing
            },
            PathingEvent::VisibleToggle { context, set } => PathingAction::Visibility(
                PathingController::set_visible(settings, context, set, is_visible, quick_access),
            ),
        }
    }

    /// Lists the categories that are off.
    pub fn provide_disabled_paths(settings: &Settings) -> (r: Vec<String>)
        ensures
            r.deep_view() == settings.disabled_paths.names(),
    {
        let mut out: Vec<String> = Vec::new();
        let ghost names = settings.disabled_paths.names();
        let n = settings.disabled_paths.len();
        let mut i: usize = 0;
        while i < n
            invariant
                i <= n,
                n == names.len(),
                names == settings.disabled_paths.names(),
                out@.len() == i,
                forall|j: int| 0 <= j < i ==> (#[trigger] out@[j])@ == names[j],
            decreases n - i,
        {
            let (name, _) = settings.disabled_paths.entry_at(i);
            out.push(name.to_owned());
            i += 1;
        }
        assert(out.deep_view() =~= names);
        out
    }

    /// The name that a pack goes by, given the last part of its path where it has one.
    pub fn pack_label(path: &str, name: Option<String>) -> (r: String)
        ensures
            r@ == (match name {
                Some(n) => n@,
                None => path@,
            }),
    {
        match name {
            Some(n) => n,
            None => path.to_owned(),
        }
    }

    /// The name that a pack goes by: the last part of its path.
    pub fn pack_name(path: &str) -> (r: String)
        ensures
            exists|name: Option<Seq<char>>| #[trigger]
                reads_name(path@, name) && r@ == (match name {
                    Some(n) => n,
                    None => path@,
                }),
            ends_plain(path@) ==> r@ == end_of(path@),
            plain_base(path@) && end_of(path@) == seq!['.', '.'] ==> r@ == path@,
    {
        PathingController::pack_label(path, file_name_of(path))
    }

    /// Whether a pack is an archive, given whether it is a file, and its name where it has one.
    pub fn is_archive(is_file: bool, name: Option<&str>) -> (r: bool)
        ensures
            r == (is_file || names_archive(
                match name {
                    Some(n) => Some(n@),
                    None => None,
                },
            )),
    {
        if is_file {
            return true;
        }
        match name {
            Some(n) => {
                let (_, ext) = split_name(n);
                match ext {
                    Some(e) => eq_ignore_ascii_case(e.as_str(), "taco") || eq_ignore_ascii_case(
                        e.as_str(),
                        "zip",
                    ),
                    None => false,
                }
            },
            None => false,
        }
    }

    /// Whether the pack at a path is an archive, given whether it is a file.
    pub fn is_taco(path: &str, is_file: bool) -> (r: bool)
        ensures
            is_file ==> r,
            exists|name: Option<Seq<char>>| #[trigger]
                reads_name(path@, name) && r == (is_file || names_archive(name)),
            ends_plain(path@) ==> {
                let ext = extension_of(end_of(path@));
                r == (is_file || has_extension(ext, "taco"@) || has_extension(ext, "zip"@))
            },
    {
        match file_name_of(path) {
            Some(n) => PathingController::is_archive(is_file, Some(n.as_str())),
            None => PathingController::is_archive(is_file, None),
        }
    }

    /// The name of a pack once it is loaded: its own, or that of its file where it has none.
    pub fn pathing_load_pack(own_name: String, file_name: String) -> (r: String)
        ensures
            r@ == (if own_name@.len() == 0 {
                file_name@
            } else {
                own_name@
            }),
    {
        if own_name.as_str().is_empty() {
            file_name
        } else {
            own_name
        }
    }
}

/// How long packs may take to load before the engine is told which categories are off, in
/// milliseconds.
pub const DISABLED_PATHS_DELAY: u64 = 174;

/// What comes while packs are loading.
#[derive(Clone, Copy, PartialEq, Eq, Structural, Debug)]
pub enum LoadEvent {
    /// A pack was loaded, or could not be.
    Ended(bool),
    /// No pack ended in time.
    TimedOut,
    /// No pack is left.
    Finished,
}

/// Telling the engine which categories are off, not too often while packs are loading.
#[derive(Clone, Copy, PartialEq, Eq, Structural, Debug)]
pub struct LoadWatch {
    /// Whether a pack was loaded since the engine was told.
    pub dirty: bool,
}

impl LoadWatch {
    /// Whether an event tells the engine.
    pub open spec fn sends(self, event: LoadEvent) -> bool {
        self.dirty && !(event is Ended)
    }

    /// The watch after an event.
    pub open spec fn after(self, event: LoadEvent) -> LoadWatch {
        match event {
            LoadEvent::Ended(loaded) => LoadWatch { dirty: self.dirty || loaded },
            _ => LoadWatch { dirty: false },
        }
    }

    /// A watch over packs of which none is loaded yet.
    pub fn new() -> (r: LoadWatch)
        ensures
            !r.dirty,
    {
        LoadWatch { dirty: false }
    }

    /// How long to wait for the next pack, in milliseconds; without end where nothing is given.
    pub fn timeout(&self) -> (r: Option<u64>)
        ensures
            r == (if self.dirty {
                Some(DISABLED_PATHS_DELAY)
            } else {
                None
            }),
    {
        if self.dirty {
            Some(DISABLED_PATHS_DELAY)
        } else {
            None
        }
    }

    /// Takes an event, and tells whether the engine is to be told now.
    pub fn step(&mut self, event: LoadEvent) -> (r: bool)
        ensures
            r == old(self).sends(event),
            *final(self) == old(self).after(event),
    {
        match event {
            LoadEvent::Ended(loaded) => {
                if loaded {
                    self.dirty = true;
                }
                false
            },
            LoadEvent::TimedOut | LoadEvent::Finished => {
                let send = self.dirty;
                self.dirty = false;
                send
            },
        }
    }

    /// The watch after the first `n` of some events.
    pub open spec fn after_all(self, events: Seq<LoadEvent>, n: nat) -> LoadWatch
        decreases n,
    {
        if n == 0 {
            self
        } else {
            self.after_all(events, (n - 1) as nat).after(events[n - 1])
        }
    }
}

/// No pack goes unnoticed: behind every pack that was loaded, the engine is told which categories
/// are off before loading is over.
pub proof fn law_every_load_is_told(watch: LoadWatch, events: Seq<LoadEvent>, i: int)
    requires
        events.len() > 0,
        events.last() is Finished,
        0 <= i < events.len(),
        events[i] == LoadEvent::Ended(true),
    ensures
        exists|j: int|
            i < j < events.len() && (#[trigger] watch.after_all(events, j as nat)).sends(events[j]),
{
    lemma_dirty_until_told(watch, events, i + 1);
}

proof fn lemma_dirty_until_told(watch: LoadWatch, events: Seq<LoadEvent>, k: int)
    requires
        events.len() > 0,
        events.last() is Finished,
        0 <= k < events.len(),
        watch.after_all(events, k as nat).dirty,
    ensures
        exists|j: int|
            k <= j < events.len() && (#[trigger] watch.after_all(events, j as nat)).sends(events[j]),
    decreases events.len() - k,
{
    if events[k] is Ended {
        lemma_dirty_until_told(watch, events, k + 1);
    } else {
        assert(watch.after_all(events, k as nat).sends(events[k]));
    }
}

/// The engine is told only where a pack was loaded since it was last told.
pub proof fn law_told_for_a_load(watch: LoadWatch, events: Seq<LoadEvent>, j: int)
    requires
        !watch.dirty,
        0 <= j < events.len(),
        watch.after_all(events, j as nat).sends(events[j]),
    ensures
        exists|i: int| 0 <= i < j && #[trigger] events[i] == LoadEvent::Ended(true),
{
    lemma_dirty_from_load(watch, events, j);
}

proof fn lemma_dirty_from_load(watch: LoadWatch, events: Seq<LoadEvent>, j: int)
    requires
        !watch.dirty,
        0 <= j <= events.len(),
        watch.after_all(events, j as nat).dirty,
    ensures
        exists|i: int| 0 <= i < j && #[trigger] events[i] == LoadEvent::Ended(true),
    decreases j,
{
    if j > 0 && events[j - 1] != LoadEvent::Ended(true) {
        lemma_dirty_from_load(watch, events, j - 1);
    }
}

/// Once markers were shown or hidden, quick access shows it, and shows everything else as before.
pub proof fn law_quick_access_follows(
    quick_access: TaimiControls,
    context: Option<MapContext>,
    set: bool,
    other: u32,
)
    requires
        other & visibility_control(context) == 0,
    ensures
        ({
            let after = with_control(quick_access, visibility_control(context), set);
            &&& (after.bits & visibility_control(context) != 0) == set
            &&& after.bits & other == quick_access.bits & other
        }),
{
    let c = visibility_control(context);
    let b = quick_access.bits;
    assert((b | c) & c != 0 && (b & !c) & c == 0 && (b | c) & other == b & other && (b & !c)
        & other == b & other) by (bit_vector)
        requires
            c == 1 || c == 2 || c == 4,
            other & c == 0,
    ;
}

} // verus!

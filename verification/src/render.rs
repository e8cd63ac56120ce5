//! What the overlay shows, and how it answers events while it draws.
use crate::controller::timers::TimerFile;
use crate::controls::TaimiControls;
#[allow(unused_imports)]
use crate::font::font_to_push;
use crate::font::{select_font, TextFont};
use crate::marker_set::MarkerSet;
use crate::marker_type::MarkerType;
#[allow(unused_imports)]
use crate::marker_type::marker_name;
use crate::name_map::NameMap;
#[allow(unused_imports)]
use crate::paths::{directly_below, extended, plain_name, reads_parent};
use crate::paths::{parent_of, relative_to_path};
use crate::settings::ProgressBarSettings;
use std::sync::Arc;
use vstd::prelude::*;

verus! {

/// A text that a timer shows. A timer is told by a number that no other timer has.
pub struct TextAlert {
    pub message: String,
    pub timer: u64,
}

/// What the overlay is told.
pub enum RenderEvent {
    TimerData(Vec<Arc<TimerFile>>),
    MarkerData(NameMap<Vec<Arc<MarkerSet>>>),
    MarkerMap(Vec<Arc<MarkerSet>>),
    /// A timer came to a phase, which the host knows by a number.
    AlertFeed(u64),
    /// Something failed: a heading, and what went wrong.
    OpenableError(String, String),
    AlertReset(u64),
    AlertStart(TextAlert),
    AlertEnd(u64),
    ContextMenuOpen { menus: TaimiControls },
    CheckingForUpdates { checking: bool, downloading: bool },
    RenderKeybindUpdate,
    OpenEditMarkers(Option<MarkerSet>),
    GiveMarkerPaths(Vec<String>),
    ProgressBarUpdate(ProgressBarSettings),
    Reload,
    ReloadAll,
    Quit,
    UiMapOpen(bool),
    UiDepthReleased,
    UiDepthAcquired,
}

/// How the engine that draws in the world is to be let go.
#[derive(Clone, Copy, PartialEq, Eq, Structural, Debug)]
pub enum EngineCleanup {
    /// There is none.
    Nothing,
    /// At once.
    Foreground,
    /// By another thread than the one that draws.
    Background,
}

/// How to start drawing anew.
#[derive(Clone, Copy, PartialEq, Eq, Structural, Debug)]
pub struct ReloadPlan {
    pub engine: EngineCleanup,
    /// Whether textures are to be let go too.
    pub textures: bool,
}

/// What is to be done outside about an event.
pub enum RenderAction {
    Nothing,
    OpenEditor(Option<MarkerSet>),
    ShowMapMarkers(Vec<Arc<MarkerSet>>),
    SetFileNames(Vec<String>),
    UpdateKeybinds,
    ShowTimers(Vec<Arc<TimerFile>>),
    /// Offer categories in the editor, and show the sets of each.
    ShowMarkers { categories: Vec<String>, markers: NameMap<Vec<Arc<MarkerSet>>> },
    OpenMenus(TaimiControls),
    NewPhase(u64),
    RemovePhase(u64),
    MapOpened(bool),
    DepthChanged(bool),
    Reload(ReloadPlan),
    /// Let the engine go, then let go of everything that is drawn with.
    Quit(EngineCleanup),
}

/// The engine that draws in the world.
#[derive(Clone, Copy, PartialEq, Eq, Structural, Debug)]
pub enum EngineState {
    Missing,
    Failed,
    Running,
}

/// What the overlay shows.
pub struct RenderState {
    pub alert: Option<TextAlert>,
    pub state_errors: NameMap<String>,
    pub progress_bar: ProgressBarSettings,
    pub checking_for_updates: bool,
    pub downloading_update: bool,
    /// The timer that the user has picked.
    pub timer_selection: Option<String>,
    /// The marker set that the user has picked.
    pub marker_selection: Option<String>,
    pub engine: EngineState,
}

/// How an engine is let go.
pub open spec fn cleanup_of(engine: EngineState, render_thread: bool) -> EngineCleanup {
    if engine != EngineState::Running {
        EngineCleanup::Nothing
    } else if render_thread {
        EngineCleanup::Foreground
    } else {
        EngineCleanup::Background
    }
}

/// What ends a run of events.
pub struct ShutdownOutcome {
    /// How many events were taken.
    pub taken: usize,
    /// How the engine is to be let go, where the overlay was told to quit.
    pub quit: Option<EngineCleanup>,
}

/// `n` is how many events are taken until the overlay is told to quit.
pub open spec fn is_up_to_quit(n: int, events: Seq<RenderEvent>) -> bool {
    &&& 0 <= n <= events.len()
    &&& forall|i: int| 0 <= i < n - 1 ==> !(#[trigger] events[i] is Quit)
    &&& n < events.len() ==> n > 0 && events[n - 1] is Quit
}

impl RenderState {
    /// An overlay that shows nothing yet, given how bars are drawn.
    pub fn new(progress_bar: ProgressBarSettings) -> (r: RenderState)
        ensures
            r.alert is None,
            r.state_errors@ == Map::<Seq<char>, String>::empty(),
            r.progress_bar == progress_bar,
            !r.checking_for_updates,
            !r.downloading_update,
            r.timer_selection is None,
            r.marker_selection is None,
            r.engine == EngineState::Missing,
    {
        RenderState {
            alert: None,
            state_errors: NameMap::new(),
            progress_bar,
            checking_for_updates: false,
            downloading_update: false,
            timer_selection: None,
            marker_selection: None,
            engine: EngineState::Missing,
        }
    }

    /// What an event leaves of the overlay.
    pub open spec fn answers(self, after: RenderState, event: RenderEvent) -> bool {
        match event {
            RenderEvent::OpenableError(title, text) => {
                &&& after.state_errors@ == self.state_errors@.insert(title@, text)
                &&& after == (RenderState { state_errors: after.state_errors, ..self })
            },
            RenderEvent::ProgressBarUpdate(bar) => after == (RenderState {
                progress_bar: bar,
                ..self
            }),
            RenderEvent::CheckingForUpdates { checking, downloading } => after == (RenderState {
                checking_for_updates: checking,
                downloading_update: downloading,
                ..self
            }),
            RenderEvent::TimerData(_) => after == (RenderState { timer_selection: None, ..self }),
            RenderEvent::MarkerData(_) => after == (RenderState { marker_selection: None, ..self }),
            RenderEvent::AlertStart(alert) => after == (RenderState { alert: Some(alert), ..self }),
            RenderEvent::AlertEnd(timer) => after == (RenderState {
                alert: if self.alert is Some && self.alert->0.timer == timer {
                    None
                } else {
                    self.alert
                },
                ..self
            }),
            RenderEvent::Reload | RenderEvent::ReloadAll | RenderEvent::Quit => after == (
            RenderState { engine: EngineState::Missing, ..self }),
            _ => after == self,
        }
    }

    /// `action` is what is to be done outside about an event.
    pub open spec fn is_outside(
        self,
        action: RenderAction,
        event: RenderEvent,
        render_thread: bool,
    ) -> bool {
        match event {
            RenderEvent::OpenEditMarkers(set) => action == RenderAction::OpenEditor(set),
            RenderEvent::MarkerMap(sets) => action == RenderAction::ShowMapMarkers(sets),
            RenderEvent::GiveMarkerPaths(paths) => action == RenderAction::SetFileNames(paths),
            RenderEvent::RenderKeybindUpdate => action is UpdateKeybinds,
            RenderEvent::TimerData(timers) => action == RenderAction::ShowTimers(timers),
            RenderEvent::MarkerData(sets) => action matches RenderAction::ShowMarkers {
                categories,
                markers,
            } && markers == sets && categories.deep_view() == sets.names(),
            RenderEvent::ContextMenuOpen { menus } => action == RenderAction::OpenMenus(menus),
            RenderEvent::AlertFeed(phase) => action == RenderAction::NewPhase(phase),
            RenderEvent::AlertReset(timer) => action == RenderAction::RemovePhase(timer),
            RenderEvent::UiMapOpen(open) => action == RenderAction::MapOpened(open),
            RenderEvent::UiDepthReleased => action == RenderAction::DepthChanged(false),
            RenderEvent::UiDepthAcquired => action == RenderAction::DepthChanged(true),
            RenderEvent::Reload => action == RenderAction::Reload(
                ReloadPlan { engine: cleanup_of(self.engine, render_thread), textures: false },
            ),
            RenderEvent::ReloadAll => action == RenderAction::Reload(
                ReloadPlan { engine: cleanup_of(self.engine, render_thread), textures: true },
            ),
            RenderEvent::Quit => action == RenderAction::Quit(cleanup_of(self.engine, true)),
            RenderEvent::OpenableError(..)
            | RenderEvent::ProgressBarUpdate(_)
            | RenderEvent::CheckingForUpdates { .. }
            | RenderEvent::AlertStart(_)
            | RenderEvent::AlertEnd(_) => action is Nothing,
        }
    }

    /// Answers an event, given whether this is the thread that draws, and tells what is to be
    /// done outside and whether to go on drawing.
    pub fn draw(&mut self, event: RenderEvent, render_thread: bool) -> (r: (RenderAction, bool))
        ensures
            old(self).answers(*final(self), event),
            old(self).is_outside(r.0, event, render_thread),
            r.1 == !(event is Quit),
    {
        match event {
            RenderEvent::OpenEditMarkers(set) => (RenderAction::OpenEditor(set), true),
            RenderEvent::MarkerMap(sets) => (RenderAction::ShowMapMarkers(sets), true),
            RenderEvent::GiveMarkerPaths(paths) => (RenderAction::SetFileNames(paths), true),
            RenderEvent::OpenableError(title, text) => {
                self.state_errors.insert(title, text);
                (RenderAction::Nothing, true)
            },
            RenderEvent::RenderKeybindUpdate => (RenderAction::UpdateKeybinds, true),
            RenderEvent::ProgressBarUpdate(bar) => {
                self.progress_bar = bar;
                (RenderAction::Nothing, true)
            },
            RenderEvent::CheckingForUpdates { checking, downloading } => {
                self.checking_for_updates = checking;
                self.downloading_update = downloading;
                (RenderAction::Nothing, true)
            },
            RenderEvent::TimerData(timers) => {
                self.timer_selection = None;
                (RenderAction::ShowTimers(timers), true)
            },
            RenderEvent::MarkerData(markers) => {
                self.marker_selection = None;
                let categories = list_categories(&markers);
                (RenderAction::ShowMarkers { categories, markers }, true)
            },
            RenderEvent::AlertStart(alert) => {
                self.alert = Some(alert);
                (RenderAction::Nothing, true)
            },
            RenderEvent::AlertEnd(timer) => {
                let ended = match &self.alert {
                    Some(alert) => alert.timer == timer,
                    None => false,
                };
                if ended {
                    self.alert = None;
                }
                (RenderAction::Nothing, true)
            },
            RenderEvent::ContextMenuOpen { menus } => (RenderAction::OpenMenus(menus), true),
            RenderEvent::AlertFeed(phase) => (RenderAction::NewPhase(phase), true),
            RenderEvent::AlertReset(timer) => (RenderAction::RemovePhase(timer), true),
            RenderEvent::UiMapOpen(open) => (RenderAction::MapOpened(open), true),
            RenderEvent::UiDepthReleased => (RenderAction::DepthChanged(false), true),
            RenderEvent::UiDepthAcquired => (RenderAction::DepthChanged(true), true),
            RenderEvent::Reload => (RenderAction::Reload(self.reload(true, render_thread)), true),
            RenderEvent::ReloadAll => (
                RenderAction::Reload(self.reload(false, render_thread)),
                true,
            ),
            RenderEvent::Quit => (RenderAction::Quit(self.cleanup()), false),
        }
    }

    /// Takes the errors away that the user has seen.
    pub fn dismiss(&mut self, titles: &Vec<String>)
        ensures
            final(self).state_errors@ == old(self).state_errors@.remove_keys(
                titles.deep_view().to_set(),
            ),
            *final(self) == (RenderState { state_errors: final(self).state_errors, ..*old(self) }),
    {
        let mut i: usize = 0;
        assert(self.state_errors@ =~= old(self).state_errors@.remove_keys(
            titles.deep_view().take(0).to_set(),
        ));
        while i < titles.len()
            invariant
                i <= titles@.len(),
                self.state_errors@ == old(self).state_errors@.remove_keys(
                    titles.deep_view().take(i as int).to_set(),
                ),
                *self == (RenderState { state_errors: self.state_errors, ..*old(self) }),
            decreases titles@.len() - i,
        {
            let ghost before = titles.deep_view().take(i as int);
            let ghost title = titles.deep_view()[i as int];
            self.state_errors.remove(titles[i].as_str());
            proof {
                let after = titles.deep_view().take(i + 1);
                assert(after =~= before.push(title));
                assert forall|k: Seq<char>| after.to_set().contains(k) == (before.to_set().contains(
                    k,
                ) || k == title) by {
                    if before.contains(k) {
                        let j = choose|j: int| 0 <= j < before.len() && before[j] == k;
                        assert(after[j] == k);
                    }
                    if after.contains(k) {
                        let j = choose|j: int| 0 <= j < after.len() && after[j] == k;
                        if j < before.len() {
                            assert(before[j] == k);
                        }
                    }
                    assert(after[before.len() as int] == title);
                }
                assert(self.state_errors@ =~= old(self).state_errors@.remove_keys(after.to_set()));
            }
            i += 1;
        }
        assert(titles.deep_view().take(i as int) =~= titles.deep_view());
    }

    /// The text to show across the screen.
    pub fn alert_message(&self) -> (r: Option<&str>)
        ensures
            match (self.alert, r) {
                (Some(alert), Some(text)) => text@ == alert.message@,
                (None, None) => true,
                _ => false,
            },
    {
        match &self.alert {
            Some(alert) => Some(alert.message.as_str()),
            None => None,
        }
    }

    /// Lets the engine go, and tells how.
    pub fn cleanup(&mut self) -> (r: EngineCleanup)
        ensures
            r == cleanup_of(old(self).engine, true),
            *final(self) == (RenderState { engine: EngineState::Missing, ..*old(self) }),
    {
        let engine = self.engine;
        self.engine = EngineState::Missing;
        match engine {
            EngineState::Running => EngineCleanup::Foreground,
            _ => EngineCleanup::Nothing,
        }
    }

    /// Lets the engine go from another thread than the one that draws, and tells how.
    pub fn cleanup_background(self) -> (r: EngineCleanup)
        ensures
            r == cleanup_of(self.engine, false),
    {
        match self.engine {
            EngineState::Running => EngineCleanup::Background,
            _ => EngineCleanup::Nothing,
        }
    }

    /// Lets the engine go, to be set up again when the next frame is drawn. Textures are kept
    /// where the reload is superficial.
    pub fn reload(&mut self, superficial: bool, render_thread: bool) -> (r: ReloadPlan)
        ensures
            r == (ReloadPlan {
                engine: cleanup_of(old(self).engine, render_thread),
                textures: !superficial,
            }),
            *final(self) == (RenderState { engine: EngineState::Missing, ..*old(self) }),
    {
        let engine = match self.engine {
            EngineState::Running => if render_thread {
                EngineCleanup::Foreground
            } else {
                EngineCleanup::Background
            },
            _ => EngineCleanup::Nothing,
        };
        self.engine = EngineState::Missing;
        ReloadPlan { engine, textures: !superficial }
    }

    /// Takes the events that are left, until the overlay is told to quit. The others are dropped.
    pub fn shutdown(&mut self, events: &Vec<RenderEvent>) -> (r: ShutdownOutcome)
        ensures
            is_up_to_quit(r.taken as int, events@),
            if exists|i: int| 0 <= i < events@.len() && #[trigger] events@[i] is Quit {
                &&& r.quit == Some(cleanup_of(old(self).engine, true))
                &&& r.taken > 0 && events@[r.taken - 1] is Quit
                &&& *final(self) == (RenderState { engine: EngineState::Missing, ..*old(self) })
            } else {
                &&& r.quit is None
                &&& r.taken == events@.len()
                &&& *final(self) == *old(self)
            },
    {
        let mut i: usize = 0;
        while i < events.len()
            invariant
                i <= events@.len(),
                *self == *old(self),
                forall|j: int| 0 <= j < i ==> !(#[trigger] events@[j] is Quit),
            decreases events@.len() - i,
        {
            match &events[i] {
                RenderEvent::Quit => {
                    let cleanup = self.cleanup();
                    assert(events@[i as int] is Quit);
                    return ShutdownOutcome { taken: i + 1, quit: Some(cleanup) };
                },
                _ => {},
            }
            i += 1;
        }
        ShutdownOutcome { taken: i, quit: None }
    }
}

fn list_categories(markers: &NameMap<Vec<Arc<MarkerSet>>>) -> (r: Vec<String>)
    ensures
        r.deep_view() == markers.names(),
{
    let mut out: Vec<String> = Vec::new();
    let n = markers.len();
    let mut i: usize = 0;
    while i < n
        invariant
            i <= n,
            n == markers.names().len(),
            out@.len() == i,
            forall|j: int| 0 <= j < i ==> (#[trigger] out@[j])@ == markers.names()[j],
        decreases n - i,
    {
        let (name, _) = markers.entry_at(i);
        out.push(name.to_owned());
        i += 1;
    }
    assert(out.deep_view() =~= markers.names());
    out
}

/// What to do in a frame.
#[derive(Clone, Copy, PartialEq, Eq, Structural, Debug)]
pub struct FramePlan {
    /// Load textures that were asked for.
    pub textures: bool,
    /// Draw what the overlay shows.
    pub draw: bool,
    /// Let go of the overlay.
    pub shutdown: bool,
}

/// What to do about a picture.
pub enum IconStep {
    /// There is none to show.
    Skip,
    /// Show the picture of a key, or an empty one where it is not loaded.
    Show(String),
    /// Load a picture from a file, and show an empty one for now.
    Load { key: String, path: String },
    /// Load the picture that the overlay holds for a key, and show an empty one for now.
    LoadBuiltIn(String),
}

/// What is opened for a path, given the directory that it lies in and whether it is a directory,
/// where these are known: the path itself, or the directory that a file lies in.
pub fn open_target(path: &str, parent: Option<String>, is_dir: Option<bool>) -> (r: String)
    ensures
        r@ == (if is_dir == Some(false) && parent is Some {
            parent->0@
        } else {
            path@
        }),
{
    match is_dir {
        Some(false) => match parent {
            Some(dir) => dir,
            None => path.to_owned(),
        },
        _ => path.to_owned(),
    }
}

impl RenderState {
    /// Whether the overlay can draw on this thread: it has drawn before, or it is not running and
    /// only has to be let go. Given is whether it has drawn before.
    pub fn pre_render(ready: bool, running: bool) -> (r: bool)
        ensures
            r == (ready || !running),
    {
        ready || !running
    }

    /// Decides what to do in a frame, given whether the overlay is running, and whether there is
    /// anything to draw or to let go.
    pub fn render_ui(running: bool, present: bool) -> (r: FramePlan)
        ensures
            r == (FramePlan {
                textures: running,
                draw: present && running,
                shutdown: present && !running,
            }),
    {
        FramePlan { textures: running, draw: present && running, shutdown: present && !running }
    }

    /// Decides whether the overlay is let go of at the end of a frame, given what was decided for the
    /// frame, and whether drawing it said to go on.
    pub fn lets_go(plan: FramePlan, going: bool) -> (r: bool)
        ensures
            r == (plan.shutdown || (plan.draw && !going)),
    {
        plan.shutdown || (plan.draw && !going)
    }

    /// Decides what to do about the picture of an alert, given whether it was asked for before, and
    /// the directory that it is named relative to.
    pub fn icon(alert_icon: Option<&str>, known: bool, path: Option<&str>) -> (r: IconStep)
        ensures
            match alert_icon {
                None => r is Skip,
                Some(name) => if known || path is None {
                    r matches IconStep::Show(key) && key@ == name@
                } else {
                    r matches IconStep::Load { key, path: file } && key@ == name@ && (file@ == extended(
                        path->0@,
                        false,
                        name@,
                        '/',
                    ) || file@ == extended(path->0@, false, name@, '\\'))
                },
            },
    {
        match alert_icon {
            None => IconStep::Skip,
            Some(name) => match path {
                Some(base) => if known {
                    IconStep::Show(name.to_owned())
                } else {
                    IconStep::Load { key: name.to_owned(), path: relative_to_path(name, base) }
                },
                None => IconStep::Show(name.to_owned()),
            },
        }
    }

    /// Decides what to do about the picture of a marker, given whether it was asked for before, and
    /// whether the overlay holds one.
    pub fn marker_icon(marker: MarkerType, known: bool, held: bool) -> (r: IconStep)
        ensures
            if !known && held {
                r matches IconStep::LoadBuiltIn(key) && key@ == marker_name(marker)
            } else {
                r matches IconStep::Show(key) && key@ == marker_name(marker)
            },
    {
        let key = marker.name().to_owned();
        if !known && held {
            IconStep::LoadBuiltIn(key)
        } else {
            IconStep::Show(key)
        }
    }

    /// What is opened for a path, given whether it is a directory where that is known.
    pub fn draw_open_path_button(path: &str, is_dir: Option<bool>) -> (r: String)
        ensures
            is_dir != Some(false) ==> r@ == path@,
            exists|parent: Option<Seq<char>>| #[trigger]
                reads_parent(path@, parent) && r@ == (if is_dir == Some(false) && parent is Some {
                    parent->0
                } else {
                    path@
                }),
            is_dir == Some(false) ==> forall|base: Seq<char>| #[trigger]
                directly_below(path@, base) ==> r@ == base,
            is_dir == Some(false) && plain_name(path@) ==> r@.len() == 0,
    {
        open_target(path, parent_of(path), is_dir)
    }

    /// The font to switch to for a name, where the name is that of a font and not of none.
    pub fn push_font(font: &str) -> (r: Option<TextFont>)
        ensures
            r == font_to_push(font@),
    {
        select_font(font)
    }

    /// Lets the engine go for good, and tells how.
    pub fn unload(self) -> (r: EngineCleanup)
        ensures
            r == cleanup_of(self.engine, true),
    {
        let mut state = self;
        state.cleanup()
    }
}

/// The end of one timer's alert does not take away the alert of another.
pub proof fn law_alerts_are_apart(
    before: RenderState,
    shown: RenderState,
    after: RenderState,
    alert: TextAlert,
    timer: u64,
)
    requires
        before.answers(shown, RenderEvent::AlertStart(alert)),
        shown.answers(after, RenderEvent::AlertEnd(timer)),
    ensures
        after.alert == if timer == alert.timer {
            None
        } else {
            Some(alert)
        },
{
}

/// An error is shown until the user has seen it: no event takes one away, and a new one under
/// another heading leaves it alone.
pub proof fn law_errors_stay(
    before: RenderState,
    after: RenderState,
    event: RenderEvent,
    title: Seq<char>,
)
    requires
        before.answers(after, event),
        before.state_errors@.contains_key(title),
    ensures
        after.state_errors@.contains_key(title),
        (event matches RenderEvent::OpenableError(other, _) ==> other@ != title)
            ==> after.state_errors@[title] == before.state_errors@[title],
{
}

} // verus!

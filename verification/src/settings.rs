//! What the user has set, and when it must be saved.
use crate::clock::{utc_now, Timestamp};
use crate::controls::TaimiControls;
use crate::font::TextFont;
use crate::marker_set::MarkerSettings;
use crate::name_map::NameMap;
use crate::paths::join_path;
#[allow(unused_imports)]
use crate::paths::{adjoined, plain_base, plain_tail, reads_joined};
#[allow(unused_imports)]
use crate::remotes::{
    apply_reports, commit_download, download_commit, installed_paths, list_installed,
    store_remote, with_remote, with_reports, DownloadCommit, RemoteState, UpdateReport,
};
#[allow(unused_imports)]
use crate::source_dir::{are_source_paths, Directory};
use crate::source_dir::{source_paths, OpenError, SourceDirWalk};
use crate::sources::SourceKind;
use crate::squad::MarkerAutoPlaceSettings;
use crate::text::str_eq;
use vstd::prelude::*;

verus! {

/// The value of a timer in the settings.
#[derive(Clone, Copy, PartialEq, Eq, Structural, Debug)]
pub struct TimerSettings {
    pub disabled: bool,
}

impl Default for TimerSettings {
    fn default() -> (r: TimerSettings)
        ensures
            !r.disabled,
    {
        TimerSettings { disabled: false }
    }
}

/// How the bar that shows a timer's progress is drawn.
#[derive(Clone, Copy, PartialEq, Eq, Structural, Debug)]
pub struct ProgressBarSettings {
    pub centre_after: bool,
    pub stock: bool,
    pub shadow: bool,
    /// The bits of the height, a floating point number of single precision.
    pub height: u32,
    pub font: TextFont,
}

/// A change to how the bar is drawn.
#[derive(Clone, Copy, PartialEq, Eq, Structural, Debug)]
pub enum ProgressBarStyleChange {
    Centre(bool),
    Stock(bool),
    Shadow(bool),
    Height(u32),
    Font(TextFont),
}

/// The bar after a change.
pub open spec fn restyled(
    bar: ProgressBarSettings,
    change: ProgressBarStyleChange,
) -> ProgressBarSettings {
    match change {
        ProgressBarStyleChange::Centre(t) => ProgressBarSettings { centre_after: t, ..bar },
        ProgressBarStyleChange::Stock(t) => ProgressBarSettings { stock: t, ..bar },
        ProgressBarStyleChange::Shadow(t) => ProgressBarSettings { shadow: t, ..bar },
        ProgressBarStyleChange::Height(h) => ProgressBarSettings { height: h, ..bar },
        ProgressBarStyleChange::Font(f) => ProgressBarSettings { font: f, ..bar },
    }
}

/// Where markers of the world are shown; unset where the user has not chosen.
#[derive(Clone, Copy, PartialEq, Eq, Structural, Debug)]
pub struct SpaceSettings {
    pub visible_space: Option<bool>,
    pub visible_map_world: Option<bool>,
    pub visible_map_mini: Option<bool>,
}

/// Settings of the markers of the world.
#[derive(Clone, Copy, PartialEq, Eq, Structural, Debug)]
pub struct PathingSettings {
    pub space: SpaceSettings,
}

impl Default for PathingSettings {
    fn default() -> (r: PathingSettings)
        ensures
            r == default_pathing(),
    {
        PathingSettings {
            space: SpaceSettings {
                visible_space: None,
                visible_map_world: None,
                visible_map_mini: None,
            },
        }
    }
}

/// The settings of the markers of the world before the user has chosen any.
pub open spec fn default_pathing() -> PathingSettings {
    PathingSettings {
        space: SpaceSettings { visible_space: None, visible_map_world: None, visible_map_mini: None },
    }
}

/// Settings that belong to the host, carried as the text that the host wrote.
pub struct ArcSettings {
    pub text: String,
}

impl Default for ArcSettings {
    fn default() -> (r: ArcSettings)
        ensures
            r.text@ == ""@,
    {
        ArcSettings { text: "".to_owned() }
    }
}

impl Clone for ArcSettings {
    fn clone(&self) -> (r: ArcSettings)
        ensures
            r == *self,
    {
        ArcSettings { text: self.text.clone() }
    }
}

/// What is remembered of the windows' contents, as far as saving goes.
#[derive(Clone, Copy, PartialEq, Eq, Structural, Debug)]
pub struct UiState {
    pub dirty: bool,
}

/// The settings.
pub struct Settings {
    pub last_checked: Option<Timestamp>,
    pub addon_dir: String,
    pub dirty: bool,
    pub timers: NameMap<TimerSettings>,
    pub markers: NameMap<MarkerSettings>,
    pub remotes: Vec<RemoteState>,
    pub primary_window_open: bool,
    pub timers_window_open: bool,
    pub pathing_window_open: bool,
    pub markers_window_open: bool,
    pub progress_bar: ProgressBarSettings,
    pub enable_katrender: bool,
    /// The bits of the scale, a floating point number of single precision.
    pub dpi_scaling: Option<u32>,
    pub quick_access_visible: TaimiControls,
    /// How the host draws quick access, as the text that the host wrote; unset where the user has
    /// not chosen.
    pub quick_access_style: Option<String>,
    pub marker_autoplace: MarkerAutoPlaceSettings,
    pub disabled_paths: NameMap<()>,
    pub arc: Option<ArcSettings>,
    pub pathing: Option<PathingSettings>,
    pub ui_state: UiState,
}

/// The windows that the settings know.
#[derive(Clone, Copy, PartialEq, Eq, Structural, Debug)]
pub enum Window {
    Primary,
    Timers,
    Markers,
    Pathing,
}

/// The window of a name.
pub open spec fn window_of(name: Seq<char>) -> Option<Window> {
    if name == "primary"@ {
        Some(Window::Primary)
    } else if name == "timers"@ {
        Some(Window::Timers)
    } else if name == "markers"@ {
        Some(Window::Markers)
    } else if name == "pathing"@ {
        Some(Window::Pathing)
    } else {
        None
    }
}

/// Finds the window of a name.
pub fn find_window(name: &str) -> (r: Option<Window>)
    ensures
        r == window_of(name@),
{
    if str_eq(name, "primary") {
        Some(Window::Primary)
    } else if str_eq(name, "timers") {
        Some(Window::Timers)
    } else if str_eq(name, "markers") {
        Some(Window::Markers)
    } else if str_eq(name, "pathing") {
        Some(Window::Pathing)
    } else {
        None
    }
}

/// Whether a timer is switched off.
pub open spec fn timer_off(timers: Map<Seq<char>, TimerSettings>, timer: Seq<char>) -> bool {
    timers.contains_key(timer) && timers[timer].disabled
}

/// Whether a marker set is switched off by the settings.
pub open spec fn marker_off(markers: Map<Seq<char>, MarkerSettings>, marker: Seq<char>) -> bool {
    markers.contains_key(marker) && markers[marker].disabled
}

/// The timers after one was switched over. A timer that is on again leaves no trace.
pub open spec fn timer_toggled(
    timers: Map<Seq<char>, TimerSettings>,
    timer: Seq<char>,
) -> Map<Seq<char>, TimerSettings> {
    if timer_off(timers, timer) {
        timers.remove(timer)
    } else {
        timers.insert(timer, TimerSettings { disabled: true })
    }
}

/// The marker sets after one was switched over.
pub open spec fn marker_toggled(
    markers: Map<Seq<char>, MarkerSettings>,
    marker: Seq<char>,
) -> Map<Seq<char>, MarkerSettings> {
    markers.insert(marker, MarkerSettings { disabled: !marker_off(markers, marker) })
}

/// What the caller must do about saving.
#[derive(Clone, Copy, PartialEq, Eq, Structural, Debug)]
pub enum Commit {
    /// Nothing has changed.
    Clean,
    /// Write the settings out.
    Save,
}

impl Settings {
    /// Whether a window is open.
    pub open spec fn window_open(&self, window: Window) -> bool {
        match window {
            Window::Primary => self.primary_window_open,
            Window::Timers => self.timers_window_open,
            Window::Markers => self.markers_window_open,
            Window::Pathing => self.pathing_window_open,
        }
    }

    /// The settings with a window opened or closed.
    pub open spec fn with_window(self, window: Window, state: bool) -> Settings {
        match window {
            Window::Primary => Settings { primary_window_open: state, ..self },
            Window::Timers => Settings { timers_window_open: state, ..self },
            Window::Markers => Settings { markers_window_open: state, ..self },
            Window::Pathing => Settings { pathing_window_open: state, ..self },
        }
    }

    /// Whether nothing is set yet.
    pub open spec fn is_new(
        &self,
        addon_dir: Seq<char>,
        progress_bar: ProgressBarSettings,
        quick_access: TaimiControls,
    ) -> bool {
        &&& self.last_checked is None
        &&& self.addon_dir@ == addon_dir
        &&& !self.dirty
        &&& self.timers@ == Map::<Seq<char>, TimerSettings>::empty()
        &&& self.markers@ == Map::<Seq<char>, MarkerSettings>::empty()
        &&& self.remotes@ == Seq::<RemoteState>::empty()
        &&& !self.primary_window_open && !self.timers_window_open
        &&& !self.pathing_window_open && !self.markers_window_open
        &&& self.progress_bar == progress_bar
        &&& !self.enable_katrender
        &&& self.dpi_scaling is None
        &&& self.quick_access_visible == quick_access
        &&& self.quick_access_style is None
        &&& self.marker_autoplace == MarkerAutoPlaceSettings::DoNothing
        &&& self.disabled_paths@ == Map::<Seq<char>, ()>::empty()
        &&& self.arc is None
        &&& self.pathing is None
        &&& !self.ui_state.dirty
    }

    /// Settings of which nothing is set yet, given how the host draws bars and which inputs it
    /// offers for quick access where the user has not chosen.
    pub fn new(
        addon_dir: &str,
        progress_bar: ProgressBarSettings,
        quick_access: TaimiControls,
    ) -> (r: Settings)
        ensures
            r.is_new(addon_dir@, progress_bar, quick_access),
    {
        Settings {
            last_checked: None,
            addon_dir: addon_dir.to_owned(),
            dirty: false,
            timers: NameMap::new(),
            markers: NameMap::new(),
            remotes: Vec::new(),
            primary_window_open: false,
            timers_window_open: false,
            pathing_window_open: false,
            markers_window_open: false,
            progress_bar,
            enable_katrender: false,
            dpi_scaling: None,
            quick_access_visible: quick_access,
            quick_access_style: None,
            marker_autoplace: MarkerAutoPlaceSettings::DoNothing,
            disabled_paths: NameMap::new(),
            arc: None,
            pathing: None,
            ui_state: UiState { dirty: false },
        }
    }

    /// How many timers are switched off.
    pub fn count_disabled_timers(&self) -> (r: usize)
        ensures
            self.timers@.dom().filter(|t: Seq<char>| timer_off(self.timers@, t)).finite(),
            r == self.timers@.dom().filter(|t: Seq<char>| timer_off(self.timers@, t)).len(),
    {
        let ghost all = self.timers@;
        let ghost off = |t: Seq<char>| timer_off(all, t);
        let ghost names = self.timers.names();
        let ghost mut found: Set<Seq<char>> = Set::empty();
        let n = self.timers.len();
        let mut count: usize = 0;
        let mut i: usize = 0;
        while i < n
            invariant
                i <= n,
                n == names.len(),
                all == self.timers@,
                names == self.timers.names(),
                names.no_duplicates(),
                off == (|t: Seq<char>| timer_off(all, t)),
                count <= i,
                found.finite(),
                found.len() == count,
                forall|t: Seq<char>|
                    #[trigger]
                    found.contains(t) <==> off(t) && exists|j: int|
                        0 <= j < i && #[trigger] names[j] == t,
            decreases n - i,
        {
            let (_, value) = self.timers.entry_at(i);
            proof {
                let t = names[i as int];
                assert(!found.contains(t));
                if value.disabled {
                    found = found.insert(t);
                }
            }
            if value.disabled {
                count += 1;
            }
            i += 1;
        }
        proof {
            assert forall|t: Seq<char>|
                found.contains(t) == self.timers@.dom().filter(off).contains(t) by {
                assert(names.to_set().contains(t) == names.contains(t));
            }
            assert(found =~= self.timers@.dom().filter(off));
        }
        count
    }

    /// Lists the places that data is installed in.
    pub fn get_paths(&self) -> (r: Vec<&String>)
        ensures
            r.deep_view() == installed_paths(self.remotes@, self.remotes@.len()),
    {
        list_installed(&self.remotes)
    }

    /// Opens or closes a window, or switches it over where no state is given. The name of no
    /// window changes nothing.
    pub fn set_window_state(&mut self, window: &str, state: Option<bool>)
        ensures
            *final(self) == (match window_of(window@) {
                Some(w) => old(self).with_window(
                    w,
                    match state {
                        Some(s) => s,
                        None => !old(self).window_open(w),
                    },
                ),
                None => *old(self),
            }),
    {
        match self.get_window_state_mut(window) {
            Some(open) => {
                match state {
                    Some(s) => {
                        *open = s;
                    },
                    None => {
                        *open = !*open;
                    },
                }
            },
            None => {},
        }
    }

    /// The state of a window, to read or to set.
    pub fn get_window_state_mut(&mut self, window: &str) -> (r: Option<&mut bool>)
        ensures
            match (window_of(window@), r) {
                (Some(w), Some(open)) => *open == old(self).window_open(w) && *final(self)
                    == old(self).with_window(w, *final(open)),
                (None, None) => *final(self) == *old(self),
                _ => false,
            },
    {
        match find_window(window) {
            Some(Window::Primary) => Some(&mut self.primary_window_open),
            Some(Window::Timers) => Some(&mut self.timers_window_open),
            Some(Window::Markers) => Some(&mut self.markers_window_open),
            Some(Window::Pathing) => Some(&mut self.pathing_window_open),
            None => None,
        }
    }

    /// Switches a timer over, and tells whether it is off now.
    pub fn toggle_timer(&mut self, timer: String) -> (r: bool)
        ensures
            r == !timer_off(old(self).timers@, timer@),
            final(self).timers@ == timer_toggled(old(self).timers@, timer@),
            *final(self) == (Settings { timers: final(self).timers, ..*old(self) }),
    {
        let off = match self.timers.get(timer.as_str()) {
            Some(t) => t.disabled,
            None => false,
        };
        if off {
            self.timers.remove(timer.as_str());
        } else {
            self.timers.insert(timer, TimerSettings { disabled: true });
        }
        !off
    }

    /// Switches a timer off.
    pub fn disable_timer(&mut self, timer: String)
        ensures
            final(self).timers@ == old(self).timers@.insert(
                timer@,
                TimerSettings { disabled: true },
            ),
            *final(self) == (Settings { timers: final(self).timers, ..*old(self) }),
    {
        self.timers.insert(timer, TimerSettings { disabled: true });
    }

    /// Switches a timer on.
    pub fn enable_timer(&mut self, timer: String)
        ensures
            final(self).timers@ == old(self).timers@.insert(
                timer@,
                TimerSettings { disabled: false },
            ),
            *final(self) == (Settings { timers: final(self).timers, ..*old(self) }),
    {
        self.timers.insert(timer, TimerSettings { disabled: false });
    }

    /// Switches a marker set over, and tells whether it is off now.
    pub fn toggle_marker(&mut self, marker: String) -> (r: bool)
        ensures
            r == !marker_off(old(self).markers@, marker@),
            final(self).markers@ == marker_toggled(old(self).markers@, marker@),
            *final(self) == (Settings { markers: final(self).markers, ..*old(self) }),
    {
        let mut entry = match self.markers.get(marker.as_str()) {
            Some(m) => *m,
            None => MarkerSettings { disabled: false },
        };
        let off = entry.toggle();
        self.markers.insert(marker, entry);
        off
    }

    /// Switches a marker set off.
    pub fn disable_marker(&mut self, marker: String)
        ensures
            final(self).markers@ == old(self).markers@.insert(
                marker@,
                MarkerSettings { disabled: true },
            ),
            *final(self) == (Settings { markers: final(self).markers, ..*old(self) }),
    {
        self.markers.insert(marker, MarkerSettings { disabled: true });
    }

    /// Switches a marker set on.
    pub fn enable_marker(&mut self, marker: String)
        ensures
            final(self).markers@ == old(self).markers@.insert(
                marker@,
                MarkerSettings { disabled: false },
            ),
            *final(self) == (Settings { markers: final(self).markers, ..*old(self) }),
    {
        self.markers.insert(marker, MarkerSettings { disabled: false });
    }

    /// Sets what happens when the player comes near a marker set.
    pub fn set_marker_autoplace_settings(&mut self, maps: &MarkerAutoPlaceSettings)
        ensures
            *final(self) == (Settings { marker_autoplace: *maps, ..*old(self) }),
    {
        self.marker_autoplace = *maps;
    }

    /// Changes how the bar is drawn, and gives back how it is drawn now.
    pub fn set_progress_bar(&mut self, style: ProgressBarStyleChange) -> (r: ProgressBarSettings)
        ensures
            r == restyled(old(self).progress_bar, style),
            *final(self) == (Settings { progress_bar: r, ..*old(self) }),
    {
        match style {
            ProgressBarStyleChange::Centre(t) => {
                self.progress_bar.centre_after = t;
            },
            ProgressBarStyleChange::Stock(t) => {
                self.progress_bar.stock = t;
            },
            ProgressBarStyleChange::Shadow(t) => {
                self.progress_bar.shadow = t;
            },
            ProgressBarStyleChange::Height(h) => {
                self.progress_bar.height = h;
            },
            ProgressBarStyleChange::Font(f) => {
                self.progress_bar.font = f;
            },
        }
        self.progress_bar
    }

    /// Switches the drawing of timers in the world over.
    pub fn toggle_katrender(&mut self)
        ensures
            *final(self) == (Settings {
                enable_katrender: !old(self).enable_katrender,
                ..*old(self)
            }),
    {
        self.enable_katrender = !self.enable_katrender;
    }

    /// Records a download: stores the record of the data, and tells where it is and what to
    /// commit to it.
    pub fn download_latest(
        &mut self,
        state: RemoteState,
        downloaded: Result<(String, String), String>,
        cleanup_error: Option<String>,
    ) -> (r: (usize, DownloadCommit))
        ensures
            final(self).remotes@ == with_remote(old(self).remotes@, state),
            *final(self) == (Settings { remotes: final(self).remotes, ..*old(self) }),
            r.0 < final(self).remotes@.len(),
            final(self).remotes@[r.0 as int] == state,
            r.1 == download_commit(downloaded, cleanup_error),
    {
        let i = store_remote(&mut self.remotes, state);
        (i, commit_download(downloaded, cleanup_error))
    }

    /// Takes the outcome of an update check over, which ended just now.
    pub fn check_for_updates(&mut self, reports: Vec<UpdateReport>)
        ensures
            final(self).remotes@ == with_reports(old(self).remotes@, reports@),
            final(self).last_checked is Some,
            final(self).last_checked->0.is_clock_time(),
            *final(self) == (Settings {
                remotes: final(self).remotes,
                last_checked: final(self).last_checked,
                ..*old(self)
            }),
    {
        self.check_for_updates_at(reports, utc_now());
    }

    /// Takes the outcome of an update check over, which ended at a given time.
    pub fn check_for_updates_at(&mut self, reports: Vec<UpdateReport>, now: Timestamp)
        ensures
            final(self).remotes@ == with_reports(old(self).remotes@, reports@),
            *final(self) == (Settings {
                remotes: final(self).remotes,
                last_checked: Some(now),
                ..*old(self)
            }),
    {
        apply_reports(&mut self.remotes, reports);
        self.last_checked = Some(now);
    }

    /// The file that the settings are kept in.
    pub fn file_path(addon_dir: &str) -> (r: String)
        ensures
            reads_joined(addon_dir@, "settings.json"@, r@),
            plain_base(addon_dir@) ==> adjoined(r@, addon_dir@, "settings.json"@),
    {
        proof {
            reveal_strlit("settings.json");
            assert(plain_tail("settings.json"@));
        }
        join_path(addon_dir, "settings.json")
    }

    /// The settings to start with: those that were read, or new ones where there was no file.
    /// Read settings belong to the directory that they were read from.
    pub fn load(
        read: Option<Settings>,
        addon_dir: &str,
        progress_bar: ProgressBarSettings,
        quick_access: TaimiControls,
    ) -> (r: Settings)
        ensures
            match read {
                Some(s) => r.addon_dir@ == addon_dir@ && r == (Settings {
                    addon_dir: r.addon_dir,
                    ..s
                }),
                None => r.is_new(addon_dir@, progress_bar, quick_access),
            },
    {
        match read {
            Some(mut s) => {
                s.addon_dir = addon_dir.to_owned();
                s
            },
            None => Settings::new(addon_dir, progress_bar, quick_access),
        }
    }

    /// The settings to start with, whatever came of loading them. Where that failed they are new,
    /// and the file that could not be read is to be kept aside.
    pub fn load_default<E>(
        loaded: Result<Settings, E>,
        addon_dir: &str,
        progress_bar: ProgressBarSettings,
        quick_access: TaimiControls,
    ) -> (r: (Settings, bool))
        ensures
            r.1 == (loaded is Err),
            match loaded {
                Ok(s) => r.0 == s,
                Err(_) => r.0.is_new(addon_dir@, progress_bar, quick_access),
            },
    {
        match loaded {
            Ok(s) => (s, false),
            Err(_) => (Settings::new(addon_dir, progress_bar, quick_access), true),
        }
    }

    /// Starts a walk through the directory that data of a kind is installed in, given that
    /// directory, its path relative to the add-on's directory, and whether it could be opened.
    pub fn read_source_dir(
        &self,
        kind: SourceKind,
        root: &str,
        root_relative: &str,
        opened: Result<(), OpenError>,
    ) -> (r: SourceDirWalk)
        ensures
            r.wf(),
            r.external is None,
            r.directory == (match opened {
                Ok(_) => Directory::Open,
                Err(e) => Directory::Failed(Some(e)),
            }),
            are_source_paths(
                r.sources@,
                r.outside@,
                self.remotes@,
                kind,
                root@,
                root_relative@,
            ),
    {
        let paths = source_paths(&self.remotes, kind, root, root_relative);
        SourceDirWalk::start(opened, paths)
    }

    /// Notes that the settings must be saved.
    pub fn mark_dirty(&mut self)
        ensures
            *final(self) == (Settings { dirty: true, ..*old(self) }),
    {
        self.dirty = true;
    }

    /// Whether the settings must be saved.
    pub open spec fn unsaved(&self) -> bool {
        self.dirty || self.ui_state.dirty
    }

    /// The settings once saving has begun.
    pub open spec fn committed(self) -> Settings {
        Settings { dirty: false, ui_state: UiState { dirty: false }, ..self }
    }

    /// The settings after an attempt to write them out.
    pub open spec fn after_write(self, written: bool) -> Settings {
        if written {
            self
        } else {
            Settings { dirty: true, ..self }
        }
    }

    /// Whether the settings must be saved.
    pub fn is_dirty(&self) -> (r: bool)
        ensures
            r == self.unsaved(),
    {
        self.dirty || self.is_state_dirty()
    }

    /// Whether what is remembered of the windows must be saved.
    pub fn is_state_dirty(&self) -> (r: bool)
        ensures
            r == self.ui_state.dirty,
    {
        self.ui_state.dirty
    }

    /// Decides whether to save now. What is found unsaved is taken to be saved from here on.
    pub fn try_commit(&mut self) -> (r: Commit)
        ensures
            r == (if old(self).unsaved() {
                Commit::Save
            } else {
                Commit::Clean
            }),
            *final(self) == old(self).committed(),
    {
        let dirty = self.dirty;
        self.dirty = false;
        if !dirty && !self.is_state_dirty() {
            return Commit::Clean;
        }
        self.start_save();
        Commit::Save
    }

    /// Notes that saving begins, and gives the file to write.
    pub fn start_save(&mut self) -> (r: String)
        ensures
            reads_joined(old(self).addon_dir@, "settings.json"@, r@),
            plain_base(old(self).addon_dir@) ==> adjoined(
                r@,
                old(self).addon_dir@,
                "settings.json"@,
            ),
            *final(self) == (Settings { ui_state: UiState { dirty: false }, ..*old(self) }),
    {
        self.ui_state = UiState { dirty: false };
        Settings::file_path(self.addon_dir.as_str())
    }

    /// Notes how saving ended. What could not be written must be saved again.
    pub fn save_to(&mut self, written: bool)
        ensures
            *final(self) == old(self).after_write(written),
    {
        if !written {
            self.dirty = true;
        }
    }

    /// The host's settings.
    pub fn arc(&self) -> (r: ArcSettings)
        ensures
            match self.arc {
                Some(a) => r == a,
                None => r.text@ == ""@,
            },
    {
        match &self.arc {
            Some(a) => a.clone(),
            None => ArcSettings::default(),
        }
    }

    /// The host's settings, to change.
    pub fn arc_mut(&mut self) -> (r: &mut ArcSettings)
        ensures
            match old(self).arc {
                Some(a) => *r == a,
                None => r.text@ == ""@,
            },
            *final(self) == (Settings { dirty: true, arc: Some(*final(r)), ..*old(self) }),
    {
        self.mark_dirty();
        if self.arc.is_none() {
            self.arc = Some(ArcSettings::default());
        }
        match &mut self.arc {
            Some(a) => a,
            None => vstd::pervasive::unreached(),
        }
    }

    /// The settings of the markers of the world.
    pub open spec fn pathing_or_default(&self) -> PathingSettings {
        match self.pathing {
            Some(p) => p,
            None => default_pathing(),
        }
    }

    /// The settings of the markers of the world.
    pub fn pathing(&self) -> (r: PathingSettings)
        ensures
            r == self.pathing_or_default(),
    {
        match self.pathing {
            Some(p) => p,
            None => PathingSettings::default(),
        }
    }

    /// The settings of the markers of the world, to change.
    pub fn pathing_mut(&mut self) -> (r: &mut PathingSettings)
        ensures
            *r == old(self).pathing_or_default(),
            *final(self) == (Settings { dirty: true, pathing: Some(*final(r)), ..*old(self) }),
    {
        self.mark_dirty();
        if self.pathing.is_none() {
            self.pathing = Some(PathingSettings::default());
        }
        match &mut self.pathing {
            Some(p) => p,
            None => vstd::pervasive::unreached(),
        }
    }
}

/// A change is not lost: settings that were committed are saved or must be saved still, and they
/// hold nothing but what they held before.
pub proof fn law_unsaved_until_written(settings: Settings, written: bool)
    ensures
        ({
            let after = settings.committed().after_write(written);
            &&& after.unsaved() == !written
            &&& settings == Settings { dirty: settings.dirty, ui_state: settings.ui_state, ..after }
        }),
{
}

/// Switching a timer over twice restores whether each timer is off.
pub proof fn law_timer_toggled_twice(
    timers: Map<Seq<char>, TimerSettings>,
    timer: Seq<char>,
    other: Seq<char>,
)
    ensures
        timer_off(timer_toggled(timer_toggled(timers, timer), timer), other) == timer_off(
            timers,
            other,
        ),
{
}

/// Switching a timer over changes that timer and no other.
pub proof fn law_timer_toggled(
    timers: Map<Seq<char>, TimerSettings>,
    timer: Seq<char>,
    other: Seq<char>,
)
    ensures
        timer_off(timer_toggled(timers, timer), other) == (if other == timer {
            !timer_off(timers, timer)
        } else {
            timer_off(timers, other)
        }),
{
}

/// A timer that was switched off and on again by switching over leaves the settings as if it had
/// never been touched.
pub proof fn law_timer_leaves_no_trace(timers: Map<Seq<char>, TimerSettings>, timer: Seq<char>)
    requires
        !timers.contains_key(timer),
    ensures
        timer_toggled(timer_toggled(timers, timer), timer) == timers,
{
    assert(timers.insert(timer, TimerSettings { disabled: true }).remove(timer) =~= timers);
}

/// Switching a marker set over twice restores whether each is off.
pub proof fn law_marker_toggled_twice(
    markers: Map<Seq<char>, MarkerSettings>,
    marker: Seq<char>,
    other: Seq<char>,
)
    ensures
        marker_off(marker_toggled(marker_toggled(markers, marker), marker), other) == marker_off(
            markers,
            other,
        ),
{
}

/// Opening or closing a window changes that window and no other.
pub proof fn law_windows_are_apart(settings: Settings, window: Window, state: bool, other: Window)
    ensures
        settings.with_window(window, state).window_open(other) == (if other == window {
            state
        } else {
            settings.window_open(other)
        }),
{
}

/// Each window has a name of its own.
pub proof fn law_windows_have_names()
    ensures
        window_of("primary"@) == Some(Window::Primary),
        window_of("timers"@) == Some(Window::Timers),
        window_of("markers"@) == Some(Window::Markers),
        window_of("pathing"@) == Some(Window::Pathing),
{
    reveal_strlit("primary");
    reveal_strlit("timers");
    reveal_strlit("markers");
    reveal_strlit("pathing");
    assert("primary"@[1] == 'r');
    assert("timers"@[0] == 't');
    assert("markers"@[0] == 'm');
    assert("pathing"@[1] == 'a');
    assert("primary"@[0] == 'p');
    assert("pathing"@[0] == 'p');
}

} // verus!

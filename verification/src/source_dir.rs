//! Walking through a directory of installed data, and telling which source each entry is from.
use crate::name_map::NameMap;
use crate::paths::{file_name_of, is_relative_path, strip_path_prefix};
#[allow(unused_imports)]
use crate::paths::{
    end_of, ends_plain, is_left_below, left_below, lemma_plain_relative, plain_path,
    plain_relative, plain_tail, reads_left, reads_name, reads_relative, untrailed,
};
#[allow(unused_imports)]
use crate::picks::{keeps_just, lemma_keeps_more, lemma_keeps_none};
use crate::remotes::RemoteState;
use crate::sources::SourceKind;
use std::collections::VecDeque;
use vstd::prelude::*;

verus! {

/// The names of sources by where their data lies below a directory. Of two at the same place the
/// later counts.
pub open spec fn sources_by_place(
    remotes: Seq<RemoteState>,
    kind: SourceKind,
    places: Seq<Option<Seq<char>>>,
    n: nat,
) -> Map<Seq<char>, Seq<char>>
    decreases n,
{
    if n == 0 {
        Map::empty()
    } else {
        let before = sources_by_place(remotes, kind, places, (n - 1) as nat);
        match places[n - 1] {
            Some(place) if remotes[n - 1].kind == kind => before.insert(
                place,
                remotes[n - 1].name@,
            ),
            _ => before,
        }
    }
}

/// Where the sources lie that are not below a directory, each with its name.
pub open spec fn sources_outside(
    remotes: Seq<RemoteState>,
    kind: SourceKind,
    places: Seq<Option<Seq<char>>>,
    n: nat,
) -> Seq<(Seq<char>, Seq<char>)>
    decreases n,
{
    if n == 0 {
        Seq::empty()
    } else {
        let before = sources_outside(remotes, kind, places, (n - 1) as nat);
        match remotes[n - 1].installed_path {
            Some(at) if remotes[n - 1].kind == kind && places[n - 1] is None => before.push(
                (at@, remotes[n - 1].name@),
            ),
            _ => before,
        }
    }
}

/// The text of each value of a map.
pub open spec fn texts(map: Map<Seq<char>, String>) -> Map<Seq<char>, Seq<char>> {
    map.map_values(|s: String| s@)
}

/// The texts of pairs of strings.
pub open spec fn pair_texts(pairs: Seq<(String, String)>) -> Seq<(Seq<char>, Seq<char>)> {
    pairs.map_values(|p: (String, String)| (p.0@, p.1@))
}

/// The entries of a map in the order of its names.
pub open spec fn entries(names: Seq<Seq<char>>, map: Map<Seq<char>, String>) -> Seq<
    (Seq<char>, Seq<char>),
> {
    Seq::new(names.len(), |i: int| (names[i], map[names[i]]@))
}

/// The sources of a kind, by where their data lies.
pub struct SourcePaths {
    /// The names of the sources below the directory, by their place there. Places are told apart
    /// by their texts.
    pub inside: NameMap<String>,
    /// Where the other sources lie, each with its name.
    pub outside: Vec<(String, String)>,
}

/// Collects the sources of a kind, given where each lies below a directory, if it does.
pub fn collect_places(
    remotes: &Vec<RemoteState>,
    kind: SourceKind,
    places: &Vec<Option<String>>,
) -> (r: SourcePaths)
    requires
        places@.len() == remotes@.len(),
    ensures
        texts(r.inside@) == sources_by_place(
            remotes@,
            kind,
            places.deep_view(),
            remotes@.len(),
        ),
        pair_texts(r.outside@) == sources_outside(
            remotes@,
            kind,
            places.deep_view(),
            remotes@.len(),
        ),
{
    let mut inside: NameMap<String> = NameMap::new();
    let mut outside: Vec<(String, String)> = Vec::new();
    let mut i: usize = 0;
    assert(texts(inside@) =~= Map::<Seq<char>, Seq<char>>::empty());
    assert(pair_texts(outside@) =~= Seq::empty());
    while i < remotes.len()
        invariant
            i <= remotes@.len(),
            places@.len() == remotes@.len(),
            texts(inside@) == sources_by_place(remotes@, kind, places.deep_view(), i as nat),
            pair_texts(outside@) == sources_outside(
                remotes@,
                kind,
                places.deep_view(),
                i as nat,
            ),
        decreases remotes@.len() - i,
    {
        let ghost before = inside@;
        let ghost others = outside@;
        let ghost remote = remotes@[i as int];
        assert(places.deep_view()[i as int] == places@[i as int].deep_view());
        if remotes[i].kind == kind {
            match &places[i] {
                Some(place) => {
                    inside.insert(place.clone(), remotes[i].name.clone());
                    assert(texts(inside@) =~= texts(before).insert(place@, remote.name@));
                },
                None => match &remotes[i].installed_path {
                    Some(at) => {
                        outside.push((at.clone(), remotes[i].name.clone()));
                        assert(pair_texts(outside@) =~= pair_texts(others).push(
                            (at@, remote.name@),
                        ));
                    },
                    None => {},
                },
            }
        }
        i += 1;
    }
    SourcePaths { inside, outside }
}

/// `place` is where data lies below a directory, given the path that it is installed at and whether
/// that is relative: a relative path is looked for below the directory's own relative path, and
/// another below the directory's path.
pub open spec fn is_place_when(
    relative: bool,
    place: Option<Seq<char>>,
    at: Seq<char>,
    root: Seq<char>,
    root_relative: Seq<char>,
) -> bool {
    let base = if relative {
        root_relative
    } else {
        root
    };
    reads_left(at, base, place) && is_left_below(place, at, base)
}

/// `place` is where data lies below a directory, given the path that it is installed at. Whether
/// the path is relative is up to the machine, unless it starts with neither a separator nor a drive
/// letter.
pub open spec fn is_place_of(
    place: Option<Seq<char>>,
    at: Seq<char>,
    root: Seq<char>,
    root_relative: Seq<char>,
) -> bool {
    exists|relative: bool|
        {
            &&& #[trigger] reads_relative(at, relative)
            &&& plain_tail(at) ==> relative
            &&& is_place_when(relative, place, at, root, root_relative)
        }
}

/// `place` is where data lies below a directory, given where it is installed, if it is.
pub open spec fn is_place_below(
    place: Option<Seq<char>>,
    installed: Option<Seq<char>>,
    root: Seq<char>,
    root_relative: Seq<char>,
) -> bool {
    match installed {
        None => place is None,
        Some(at) => is_place_of(place, at, root, root_relative),
    }
}

/// Finds where data lies below a directory, given whether the path that they are installed at is
/// relative.
pub fn place_when(relative: bool, at: &str, root: &str, root_relative: &str) -> (r: Option<String>)
    ensures
        is_place_when(relative, r.deep_view(), at@, root@, root_relative@),
{
    strip_path_prefix(
        at,
        if relative {
            root_relative
        } else {
            root
        },
    )
}

/// Finds where data lies below a directory. A relative path is taken to start where the
/// directory's own relative path does.
pub fn place_below(installed: Option<&String>, root: &str, root_relative: &str) -> (r: Option<String>)
    ensures
        is_place_below(
            r.deep_view(),
            match installed {
                Some(at) => Some(at@),
                None => None,
            },
            root@,
            root_relative@,
        ),
{
    match installed {
        None => None,
        Some(at) => {
            let relative = is_relative_path(at.as_str());
            place_when(relative, at.as_str(), root, root_relative)
        },
    }
}

/// Data that are installed at a relative path of plain names lie where that path leads below the
/// directory's own relative path.
pub proof fn law_relative_place(
    place: Option<Seq<char>>,
    at: Seq<char>,
    root: Seq<char>,
    root_relative: Seq<char>,
)
    requires
        is_place_of(place, at, root, root_relative),
        plain_relative(at),
        plain_path(untrailed(root_relative)),
    ensures
        place == left_below(at, untrailed(root_relative)),
{
    lemma_plain_relative(at);
}

/// Data that are installed at a path of plain names which the machine does not take for a relative
/// one lie where that path leads below the directory.
pub proof fn law_absolute_place(
    place: Option<Seq<char>>,
    at: Seq<char>,
    root: Seq<char>,
    root_relative: Seq<char>,
)
    requires
        is_place_of(place, at, root, root_relative),
        !reads_relative(at, true),
        plain_path(at),
        plain_path(untrailed(root)),
    ensures
        place == left_below(at, untrailed(root)),
{
}

/// `places` are where the sources lie below a directory.
pub open spec fn are_places_below(
    places: Seq<Option<Seq<char>>>,
    remotes: Seq<RemoteState>,
    root: Seq<char>,
    root_relative: Seq<char>,
) -> bool {
    &&& places.len() == remotes.len()
    &&& forall|i: int|
        0 <= i < places.len() ==> is_place_below(
            #[trigger] places[i],
            remotes[i].installed_path.deep_view(),
            root,
            root_relative,
        )
}

/// The sources of a kind are those inside a directory, by their place there, and those outside.
pub open spec fn are_source_paths(
    inside: Map<Seq<char>, String>,
    outside: Seq<(String, String)>,
    remotes: Seq<RemoteState>,
    kind: SourceKind,
    root: Seq<char>,
    root_relative: Seq<char>,
) -> bool {
    exists|places: Seq<Option<Seq<char>>>|
        {
            &&& #[trigger] are_places_below(places, remotes, root, root_relative)
            &&& texts(inside) == sources_by_place(remotes, kind, places, remotes.len())
            &&& pair_texts(outside) == sources_outside(remotes, kind, places, remotes.len())
        }
}

/// Collects the sources of a kind by where their data lies.
pub fn source_paths(
    remotes: &Vec<RemoteState>,
    kind: SourceKind,
    root: &str,
    root_relative: &str,
) -> (r: SourcePaths)
    ensures
        are_source_paths(r.inside@, r.outside@, remotes@, kind, root@, root_relative@),
{
    let mut places: Vec<Option<String>> = Vec::new();
    let mut i: usize = 0;
    while i < remotes.len()
        invariant
            i <= remotes@.len(),
            places@.len() == i,
            forall|j: int|
                0 <= j < i ==> is_place_below(
                    (#[trigger] places@[j]).deep_view(),
                    remotes@[j].installed_path.deep_view(),
                    root@,
                    root_relative@,
                ),
        decreases remotes@.len() - i,
    {
        let place = place_below(remotes[i].installed_path.as_ref(), root, root_relative);
        places.push(place);
        i += 1;
    }
    let r = collect_places(remotes, kind, &places);
    proof {
        let seen = places.deep_view();
        assert forall|j: int| 0 <= j < seen.len() implies is_place_below(
            #[trigger] seen[j],
            remotes@[j].installed_path.deep_view(),
            root@,
            root_relative@,
        ) by {
            assert(seen[j] == places@[j].deep_view());
        }
        assert(are_places_below(seen, remotes@, root@, root_relative@));
    }
    r
}

/// Why a directory could not be opened.
#[derive(Clone, Copy, PartialEq, Eq, Structural, Debug)]
pub enum OpenError {
    /// There is no such directory.
    NotFound,
    Other,
}

/// A directory that is being read.
#[derive(Clone, Copy, PartialEq, Eq, Structural, Debug)]
pub enum Directory {
    Open,
    /// It could not be opened; the error is held until it is told.
    Failed(Option<OpenError>),
}

/// What reading the next entry of the directory gave.
pub enum Polled {
    Entry(String),
    Failed,
    Exhausted,
}

/// What the walk gives next.
pub enum WalkStep {
    /// Installed data, and the name of the source that it is from where that is known.
    Found(String, Option<String>),
    /// The directory could not be opened or read.
    Error,
    End,
}

/// The walk through a directory. Sources whose data was not met come last, those outside the
/// directory behind the others.
pub struct SourceDirWalk {
    pub directory: Directory,
    /// The sources that an entry can be from, by the entry's name.
    pub sources: NameMap<String>,
    /// The sources that no entry can be from.
    pub outside: Vec<(String, String)>,
    /// The sources that were not met and not told yet, once the directory is exhausted.
    pub external: Option<VecDeque<(String, String)>>,
}

/// What a step of a walk does and gives, given what reading the next entry gave.
///
/// Each source is told once: with the entry of its name, or at the end. The walk through an open
/// directory ends when no source is left. A directory that is not there ends it at once; another
/// error is told, once, before the end.
pub open spec fn is_step(
    before: SourceDirWalk,
    after: SourceDirWalk,
    polled: Polled,
    r: WalkStep,
) -> bool {
    match before.directory {
        Directory::Failed(e) => {
            &&& after == (SourceDirWalk { directory: Directory::Failed(None), ..before })
            &&& r == (if e == Some(OpenError::Other) {
                WalkStep::Error
            } else {
                WalkStep::End
            })
        },
        Directory::Open => {
            &&& after.directory == Directory::Open
            &&& match polled {
                Polled::Failed => r is Error && after == before,
                Polled::Entry(path) => exists|name: Option<Seq<char>>|
                    {
                        &&& #[trigger] reads_name(path@, name)
                        &&& ends_plain(path@) ==> name == Some(end_of(path@))
                        &&& is_told(before, after, path, name, r)
                    },
                Polled::Exhausted => {
                    &&& after.external is Some
                    &&& after.sources@ == Map::<Seq<char>, String>::empty()
                    &&& if before.left().len() == 0 {
                        r is End && after.left().len() == 0
                    } else {
                        &&& r matches WalkStep::Found(place, Some(name)) && (place@, name@)
                            == before.left()[0]
                        &&& after.left() == before.left().drop_first()
                    }
                },
            }
        },
    }
}

/// An entry is told with the source of its name, where one is left, and else without a source.
pub open spec fn is_told(
    before: SourceDirWalk,
    after: SourceDirWalk,
    path: String,
    name: Option<Seq<char>>,
    r: WalkStep,
) -> bool {
    &&& after.directory == before.directory
    &&& after.outside == before.outside
    &&& after.external == before.external
    &&& match name {
        Some(n) if before.sources@.contains_key(n) => {
            &&& r == WalkStep::Found(path, Some(before.sources@[n]))
            &&& is_met(before, after, n)
        },
        _ => {
            &&& r == WalkStep::Found(path, None)
            &&& after.sources@ == before.sources@
            &&& after.left() == before.left()
        },
    }
}

/// The source of a name that an entry can have is met, and is not left any more.
pub open spec fn is_met(
    before: SourceDirWalk,
    after: SourceDirWalk,
    name: Seq<char>,
) -> bool {
    &&& before.sources@.contains_key(name)
    &&& after.sources@ == before.sources@.remove(name)
    &&& before.external is None ==> exists|i: int|
        0 <= i < before.left().len() && #[trigger] before.left()[i] == (
            name,
            before.sources@[name]@,
        ) && after.left() == before.left().remove(i)
}

impl SourceDirWalk {
    /// Every source that an entry can be from is named; and once the sources that were not met are
    /// listed, no entry can be from one.
    pub open spec fn wf(&self) -> bool {
        &&& self.sources.names().to_set() == self.sources@.dom()
        &&& self.external is Some ==> self.sources@ == Map::<Seq<char>, String>::empty()
    }

    /// The sources that were not told yet, each with its place, in the order in which they come at
    /// the end.
    pub open spec fn left(&self) -> Seq<(Seq<char>, Seq<char>)> {
        match self.external {
            Some(list) => pair_texts(list@),
            None => entries(self.sources.names(), self.sources@) + pair_texts(self.outside@),
        }
    }

    /// Starts a walk, given whether the directory could be opened and what is installed.
    pub fn start(opened: Result<(), OpenError>, paths: SourcePaths) -> (r: SourceDirWalk)
        ensures
            r.wf(),
            r.directory == (match opened {
                Ok(_) => Directory::Open,
                Err(e) => Directory::Failed(Some(e)),
            }),
            r.sources == paths.inside,
            r.outside == paths.outside,
            r.external is None,
    {
        // Counting the names tells that they are those of the map.
        let _ = paths.inside.len();
        SourceDirWalk {
            directory: match opened {
                Ok(()) => Directory::Open,
                Err(e) => Directory::Failed(Some(e)),
            },
            sources: paths.inside,
            outside: paths.outside,
            external: None,
        }
    }

    /// Gives an entry of the directory with the source that it is from, given the entry's name.
    pub fn meet(&mut self, path: String, name: Option<&str>) -> (r: WalkStep)
        ensures
            old(self).wf() ==> final(self).wf(),
            is_told(
                *old(self),
                *final(self),
                path,
                match name {
                    Some(n) => Some(n@),
                    None => None,
                },
                r,
            ),
    {
        let source = match name {
            Some(n) => self.sources.remove(n),
            None => None,
        };
        proof {
            if name is Some {
                let n = name->0@;
                if old(self).sources@.contains_key(n) {
                    lemma_left_without(*old(self), *self, n);
                } else {
                    assert(old(self).sources@.remove(n) =~= old(self).sources@);
                }
            }
        }
        WalkStep::Found(path, source)
    }

    /// Lists the sources that were not met.
    fn list_unmet(&mut self)
        requires
            old(self).wf(),
        ensures
            final(self).wf(),
            final(self).directory == old(self).directory,
            final(self).external is Some,
            final(self).left() == old(self).left(),
    {
        if self.external.is_none() {
            let mut list: VecDeque<(String, String)> = VecDeque::new();
            let ghost names = self.sources.names();
            let ghost map = self.sources@;
            let ghost all = self.left();
            let n = self.sources.len();
            let mut i: usize = 0;
            assert(pair_texts(list@) =~= all.take(0));
            while i < n
                invariant
                    i <= n,
                    n == names.len(),
                    names == self.sources.names(),
                    map == self.sources@,
                    all == entries(names, map) + pair_texts(self.outside@),
                    pair_texts(list@) == all.take(i as int),
                decreases n - i,
            {
                let (place, source) = self.sources.entry_at(i);
                let ghost before = list@;
                list.push_back((place.to_owned(), source.clone()));
                proof {
                    assert(all[i as int] == (place@, source@));
                    assert(pair_texts(list@) =~= pair_texts(before).push((place@, source@)));
                    assert(all.take(i + 1) =~= all.take(i as int).push(all[i as int]));
                }
                i += 1;
            }
            let m = self.outside.len();
            let mut j: usize = 0;
            while j < m
                invariant
                    j <= m,
                    m == self.outside@.len(),
                    n == names.len(),
                    all == entries(names, map) + pair_texts(self.outside@),
                    pair_texts(list@) == all.take(n + j),
                decreases m - j,
            {
                let ghost before = list@;
                let ghost at = n + j;
                let pair = (self.outside[j].0.clone(), self.outside[j].1.clone());
                list.push_back(pair);
                proof {
                    assert(all[at] == (pair.0@, pair.1@));
                    assert(pair_texts(list@) =~= pair_texts(before).push((pair.0@, pair.1@)));
                    assert(all.take(at + 1) =~= all.take(at).push(all[at]));
                }
                j += 1;
            }
            assert(all.take(n + m) =~= all);
            self.sources.clear();
            assert(self.sources.names().to_set() =~= self.sources@.dom());
            self.external = Some(list);
        }
    }

    /// Gives a source that was not met, or ends the walk.
    fn tell_unmet(&mut self) -> (r: WalkStep)
        requires
            old(self).wf(),
            old(self).external is Some,
        ensures
            final(self).wf(),
            final(self).directory == old(self).directory,
            final(self).sources == old(self).sources,
            final(self).external is Some,
            if old(self).left().len() == 0 {
                r is End && final(self).left().len() == 0
            } else {
                &&& r matches WalkStep::Found(place, Some(name)) && (place@, name@) == old(
                    self).left()[0]
                &&& final(self).left() == old(self).left().drop_first()
            },
    {
        let mut list: Option<VecDeque<(String, String)>> = None;
        core::mem::swap(&mut list, &mut self.external);
        match list {
            Some(mut list) => {
                let ghost before = list@;
                let step = match list.pop_front() {
                    Some((place, source)) => WalkStep::Found(place, Some(source)),
                    None => WalkStep::End,
                };
                proof {
                    if before.len() > 0 {
                        assert(pair_texts(list@) =~= pair_texts(before).drop_first());
                        assert(pair_texts(before)[0] == (before[0].0@, before[0].1@));
                    }
                }
                self.external = Some(list);
                step
            },
            None => WalkStep::End,
        }
    }

    /// Goes one step on, given what reading the next entry gave.
    pub fn step(&mut self, polled: Polled) -> (r: WalkStep)
        requires
            old(self).wf(),
        ensures
            final(self).wf(),
            is_step(*old(self), *final(self), polled, r),
    {
        match self.directory {
            Directory::Failed(e) => {
                self.directory = Directory::Failed(None);
                match e {
                    Some(OpenError::Other) => WalkStep::Error,
                    _ => WalkStep::End,
                }
            },
            Directory::Open => match polled {
                Polled::Failed => WalkStep::Error,
                Polled::Entry(path) => {
                    let name = file_name_of(path.as_str());
                    match name {
                        Some(n) => self.meet(path, Some(n.as_str())),
                        None => self.meet(path, None),
                    }
                },
                Polled::Exhausted => {
                    self.list_unmet();
                    self.tell_unmet()
                },
            },
        }
    }
}

proof fn lemma_left_without(before: SourceDirWalk, after: SourceDirWalk, name: Seq<char>)
    requires
        before.sources@.contains_key(name),
        after.sources@ == before.sources@.remove(name),
        after.outside == before.outside,
        after.external == before.external,
        exists|i: int|
            0 <= i < before.sources.names().len() && #[trigger] before.sources.names()[i] == name
                && after.sources.names() == before.sources.names().remove(i),
        before.sources.names().no_duplicates(),
    ensures
        is_met(before, after, name),
{
    if before.external is None {
        let names = before.sources.names();
        let i = choose|i: int|
            0 <= i < names.len() && #[trigger] names[i] == name && after.sources.names()
                == names.remove(i);
        let all = before.left();
        assert(all[i] == (name, before.sources@[name]@));
        assert forall|j: int| 0 <= j < names.len() && j != i implies #[trigger] names[j] != name by {}
        assert(after.left() =~= all.remove(i));
    }
}

/// No source is lost or told twice: a step through an open directory tells one source that was
/// left, and leaves all others, or it tells none and leaves all.
pub proof fn law_each_source_told_once(
    before: SourceDirWalk,
    after: SourceDirWalk,
    polled: Polled,
    r: WalkStep,
)
    requires
        before.wf(),
        is_step(before, after, polled, r),
        before.directory == Directory::Open,
    ensures
        match r {
            WalkStep::Found(_, Some(name)) => exists|i: int|
                0 <= i < before.left().len() && (#[trigger] before.left()[i]).1 == name@
                    && after.left() == before.left().remove(i),
            _ => after.left() == before.left(),
        },
{
    match polled {
        Polled::Exhausted => {
            if before.left().len() > 0 {
                assert(before.left()[0].1 == r->Found_1->0@);
                assert(before.left().drop_first() =~= before.left().remove(0));
            } else {
                assert(after.left() =~= before.left());
            }
        },
        Polled::Entry(path) => {
            if r->Found_1 is Some {
                let name = choose|name: Option<Seq<char>>| #[trigger]
                    reads_name(path@, name) && is_told(before, after, path, name, r);
                let n = name->0;
                let i = choose|i: int|
                    0 <= i < before.left().len() && #[trigger] before.left()[i] == (
                        n,
                        before.sources@[n]@,
                    ) && after.left() == before.left().remove(i);
                assert(before.left()[i].1 == r->Found_1->0@);
            }
        },
        Polled::Failed => {},
    }
}

/// A walk through an open directory ends only when no source is left.
pub proof fn law_walk_ends_when_all_is_told(
    before: SourceDirWalk,
    after: SourceDirWalk,
    polled: Polled,
)
    requires
        is_step(before, after, polled, WalkStep::End),
        before.directory == Directory::Open,
    ensures
        polled is Exhausted,
        before.left().len() == 0,
{
}

proof fn lemma_outside_is_listed(
    remotes: Seq<RemoteState>,
    kind: SourceKind,
    places: Seq<Option<Seq<char>>>,
    n: nat,
    i: int,
) -> (k: int)
    requires
        0 <= i < n,
        remotes[i].kind == kind,
        remotes[i].installed_path is Some,
        places[i] is None,
    ensures
        0 <= k < sources_outside(remotes, kind, places, n).len(),
        sources_outside(remotes, kind, places, n)[k] == (
            remotes[i].installed_path->0@,
            remotes[i].name@,
        ),
    decreases n,
{
    if i == n - 1 {
        sources_outside(remotes, kind, places, (n - 1) as nat).len() as int
    } else {
        lemma_outside_is_listed(remotes, kind, places, (n - 1) as nat, i)
    }
}

/// A source that is installed outside the directory is not left out: it is among the sources that
/// a walk which just started has yet to tell.
pub proof fn law_outside_source_is_left(
    walk: SourceDirWalk,
    remotes: Seq<RemoteState>,
    kind: SourceKind,
    root: Seq<char>,
    root_relative: Seq<char>,
    i: int,
)
    requires
        walk.external is None,
        are_source_paths(walk.sources@, walk.outside@, remotes, kind, root, root_relative),
        0 <= i < remotes.len(),
        remotes[i].kind == kind,
        remotes[i].installed_path is Some,
        plain_path(remotes[i].installed_path->0@),
        plain_path(untrailed(root_relative)),
        left_below(remotes[i].installed_path->0@, untrailed(root_relative)) is None,
        plain_relative(remotes[i].installed_path->0@) || (plain_path(untrailed(root))
            && left_below(remotes[i].installed_path->0@, untrailed(root)) is None),
    ensures
        walk.left().contains((remotes[i].installed_path->0@, remotes[i].name@)),
{
    let at = remotes[i].installed_path->0@;
    let places = choose|places: Seq<Option<Seq<char>>>|
        {
            &&& #[trigger] are_places_below(places, remotes, root, root_relative)
            &&& texts(walk.sources@) == sources_by_place(remotes, kind, places, remotes.len())
            &&& pair_texts(walk.outside@) == sources_outside(remotes, kind, places, remotes.len())
        };
    assert(is_place_below(
        places[i],
        remotes[i].installed_path.deep_view(),
        root,
        root_relative,
    ));
    assert(is_place_of(places[i], at, root, root_relative));
    if plain_relative(at) {
        law_relative_place(places[i], at, root, root_relative);
    }
    let k = lemma_outside_is_listed(remotes, kind, places, remotes.len(), i);
    let first = entries(walk.sources.names(), walk.sources@);
    assert(walk.left()[first.len() + k] == pair_texts(walk.outside@)[k]);
}

proof fn lemma_inside_is_mapped(
    remotes: Seq<RemoteState>,
    kind: SourceKind,
    places: Seq<Option<Seq<char>>>,
    n: nat,
    i: int,
)
    requires
        0 <= i < n,
        remotes[i].kind == kind,
        places[i] is Some,
        forall|j: int|
            i < j < n && (#[trigger] remotes[j]).kind == kind ==> places[j] != places[i],
    ensures
        sources_by_place(remotes, kind, places, n).contains_key(places[i]->0),
        sources_by_place(remotes, kind, places, n)[places[i]->0] == remotes[i].name@,
    decreases n,
{
    if i < n - 1 {
        lemma_inside_is_mapped(remotes, kind, places, (n - 1) as nat, i);
        assert(remotes[n - 1].kind == kind ==> places[n - 1] != places[i]);
    }
}

/// Every installed source is among those that a walk which just started has yet to tell, under its
/// place below the directory or, where it has none, under the path that it is installed at. Of
/// sources at the same place this is the last.
pub proof fn law_installed_source_is_left(
    walk: SourceDirWalk,
    remotes: Seq<RemoteState>,
    kind: SourceKind,
    places: Seq<Option<Seq<char>>>,
    i: int,
)
    requires
        walk.wf(),
        walk.external is None,
        places.len() == remotes.len(),
        texts(walk.sources@) == sources_by_place(remotes, kind, places, remotes.len()),
        pair_texts(walk.outside@) == sources_outside(remotes, kind, places, remotes.len()),
        0 <= i < remotes.len(),
        remotes[i].kind == kind,
        remotes[i].installed_path is Some,
        places[i] is Some ==> forall|j: int|
            i < j < remotes.len() && (#[trigger] remotes[j]).kind == kind ==> places[j] != places[i],
    ensures
        walk.left().contains(
            (
                match places[i] {
                    Some(place) => place,
                    None => remotes[i].installed_path->0@,
                },
                remotes[i].name@,
            ),
        ),
{
    let names = walk.sources.names();
    let first = entries(names, walk.sources@);
    match places[i] {
        Some(place) => {
            lemma_inside_is_mapped(remotes, kind, places, remotes.len(), i);
            assert(texts(walk.sources@).contains_key(place));
            assert(names.to_set().contains(place));
            let k = choose|k: int| 0 <= k < names.len() && names[k] == place;
            assert(texts(walk.sources@)[place] == walk.sources@[place]@);
            assert(walk.left()[k] == first[k]);
        },
        None => {
            let k = lemma_outside_is_listed(remotes, kind, places, remotes.len(), i);
            assert(walk.left()[first.len() + k] == pair_texts(walk.outside@)[k]);
        },
    }
}

/// A source whose data can only lie at one place below the directory.
pub open spec fn lies_at(
    remote: RemoteState,
    place: Seq<char>,
    root: Seq<char>,
    root_relative: Seq<char>,
) -> bool {
    forall|p: Option<Seq<char>>| #[trigger]
        is_place_below(p, remote.installed_path.deep_view(), root, root_relative) ==> p == Some(
            place,
        )
}

/// A source whose data can lie at a place below the directory.
pub open spec fn can_lie_at(
    remote: RemoteState,
    place: Seq<char>,
    root: Seq<char>,
    root_relative: Seq<char>,
) -> bool {
    is_place_below(Some(place), remote.installed_path.deep_view(), root, root_relative)
}

/// The entry that a source lies at is told with that source, as long as the walk has not told it
/// and no later source of the kind can lie there.
pub proof fn law_entry_is_told_with_its_source(
    before: SourceDirWalk,
    after: SourceDirWalk,
    path: String,
    r: WalkStep,
    remotes: Seq<RemoteState>,
    kind: SourceKind,
    root: Seq<char>,
    root_relative: Seq<char>,
    i: int,
)
    requires
        before.directory == Directory::Open,
        are_source_paths(before.sources@, before.outside@, remotes, kind, root, root_relative),
        is_step(before, after, Polled::Entry(path), r),
        ends_plain(path@),
        0 <= i < remotes.len(),
        remotes[i].kind == kind,
        lies_at(remotes[i], end_of(path@), root, root_relative),
        forall|j: int|
            i < j < remotes.len() && (#[trigger] remotes[j]).kind == kind ==> !can_lie_at(
                remotes[j],
                end_of(path@),
                root,
                root_relative,
            ),
    ensures
        r matches WalkStep::Found(p, Some(name)) && p == path && name@ == remotes[i].name@,
{
    let n = end_of(path@);
    let places = choose|places: Seq<Option<Seq<char>>>|
        {
            &&& #[trigger] are_places_below(places, remotes, root, root_relative)
            &&& texts(before.sources@) == sources_by_place(remotes, kind, places, remotes.len())
            &&& pair_texts(before.outside@) == sources_outside(
                remotes,
                kind,
                places,
                remotes.len(),
            )
        };
    assert(is_place_below(
        places[i],
        remotes[i].installed_path.deep_view(),
        root,
        root_relative,
    ));
    assert forall|j: int| i < j < remotes.len() && (#[trigger] remotes[j]).kind == kind implies places[j]
        != places[i] by {
        assert(is_place_below(
            places[j],
            remotes[j].installed_path.deep_view(),
            root,
            root_relative,
        ));
    }
    lemma_inside_is_mapped(remotes, kind, places, remotes.len(), i);
    assert(texts(before.sources@).contains_key(n));
    assert(texts(before.sources@)[n] == before.sources@[n]@);
    lemma_told_by_name(before, after, path, r);
}

proof fn lemma_told_by_name(before: SourceDirWalk, after: SourceDirWalk, path: String, r: WalkStep)
    requires
        before.directory == Directory::Open,
        is_step(before, after, Polled::Entry(path), r),
        ends_plain(path@),
    ensures
        is_told(before, after, path, Some(end_of(path@)), r),
{
}

proof fn lemma_mapped_is_inside(
    remotes: Seq<RemoteState>,
    kind: SourceKind,
    places: Seq<Option<Seq<char>>>,
    n: nat,
    place: Seq<char>,
) -> (i: int)
    requires
        sources_by_place(remotes, kind, places, n).contains_key(place),
    ensures
        0 <= i < n,
        remotes[i].kind == kind,
        places[i] == Some(place),
        sources_by_place(remotes, kind, places, n)[place] == remotes[i].name@,
    decreases n,
{
    if n > 0 && remotes[n - 1].kind == kind && places[n - 1] == Some(place) {
        n - 1
    } else {
        lemma_mapped_is_inside(remotes, kind, places, (n - 1) as nat, place)
    }
}

/// An entry is told with a source only where a source of the kind and of that name can lie at the
/// entry's name.
pub proof fn law_told_source_lies_there(
    before: SourceDirWalk,
    after: SourceDirWalk,
    path: String,
    r: WalkStep,
    remotes: Seq<RemoteState>,
    kind: SourceKind,
    root: Seq<char>,
    root_relative: Seq<char>,
)
    requires
        before.directory == Directory::Open,
        are_source_paths(before.sources@, before.outside@, remotes, kind, root, root_relative),
        is_step(before, after, Polled::Entry(path), r),
        ends_plain(path@),
    ensures
        r matches WalkStep::Found(_, Some(name)) ==> exists|i: int|
            {
                &&& 0 <= i < remotes.len()
                &&& (#[trigger] remotes[i]).kind == kind
                &&& remotes[i].name@ == name@
                &&& can_lie_at(remotes[i], end_of(path@), root, root_relative)
            },
{
    let n = end_of(path@);
    lemma_told_by_name(before, after, path, r);
    if before.sources@.contains_key(n) {
        let places = choose|places: Seq<Option<Seq<char>>>|
            {
                &&& #[trigger] are_places_below(places, remotes, root, root_relative)
                &&& texts(before.sources@) == sources_by_place(
                    remotes,
                    kind,
                    places,
                    remotes.len(),
                )
                &&& pair_texts(before.outside@) == sources_outside(
                    remotes,
                    kind,
                    places,
                    remotes.len(),
                )
            };
        assert(texts(before.sources@).contains_key(n));
        assert(texts(before.sources@)[n] == before.sources@[n]@);
        let i = lemma_mapped_is_inside(remotes, kind, places, remotes.len(), n);
        assert(is_place_below(
            places[i],
            remotes[i].installed_path.deep_view(),
            root,
            root_relative,
        ));
        assert(remotes[i].kind == kind);
    }
}

/// An entry leaves the sources that lie at other names as they are.
pub proof fn law_other_entries_stay_known(
    before: SourceDirWalk,
    after: SourceDirWalk,
    path: String,
    r: WalkStep,
    other: Seq<char>,
)
    requires
        before.directory == Directory::Open,
        is_step(before, after, Polled::Entry(path), r),
        ends_plain(path@),
        other != end_of(path@),
    ensures
        after.sources@.contains_key(other) == before.sources@.contains_key(other),
        before.sources@.contains_key(other) ==> after.sources@[other] == before.sources@[other],
{
    lemma_told_by_name(before, after, path, r);
}

/// The source at a place of a list is the last of a kind that lies at a place below a directory.
pub open spec fn is_last_at(
    remotes: Seq<RemoteState>,
    kind: SourceKind,
    places: Seq<Option<Seq<char>>>,
    n: nat,
    place: Seq<char>,
    i: int,
) -> bool {
    &&& 0 <= i < n
    &&& remotes[i].kind == kind && places[i] == Some(place)
    &&& forall|j: int|
        i < j < n ==> !((#[trigger] remotes[j]).kind == kind && places[j] == Some(place))
}

/// A place below the directory has a source just where one of the kind lies there, and of more than
/// one it is the last.
pub proof fn law_last_source_at_a_place_counts(
    remotes: Seq<RemoteState>,
    kind: SourceKind,
    places: Seq<Option<Seq<char>>>,
    n: nat,
    place: Seq<char>,
)
    requires
        n <= remotes.len(),
        places.len() == remotes.len(),
    ensures
        sources_by_place(remotes, kind, places, n).contains_key(place) <==> exists|i: int|
            #[trigger] is_last_at(remotes, kind, places, n, place, i),
        forall|i: int| #[trigger]
            is_last_at(remotes, kind, places, n, place, i) ==> sources_by_place(
                remotes,
                kind,
                places,
                n,
            )[place] == remotes[i].name@,
    decreases n,
{
    if n > 0 {
        let m = (n - 1) as nat;
        law_last_source_at_a_place_counts(remotes, kind, places, m, place);
        if remotes[n - 1].kind == kind && places[n - 1] == Some(place) {
            assert(is_last_at(remotes, kind, places, n, place, n - 1));
            assert forall|i: int| #[trigger]
                is_last_at(remotes, kind, places, n, place, i) implies i == n - 1 by {
                if i < n - 1 {
                    assert(!(remotes[n - 1].kind == kind && places[n - 1] == Some(place)));
                }
            }
        } else {
            assert forall|i: int| #[trigger]
                is_last_at(remotes, kind, places, n, place, i) == is_last_at(
                remotes,
                kind,
                places,
                m,
                place,
                i,
            ) by {}
            if exists|i: int| #[trigger] is_last_at(remotes, kind, places, n, place, i) {
                let i = choose|i: int| #[trigger] is_last_at(remotes, kind, places, n, place, i);
                assert(is_last_at(remotes, kind, places, m, place, i));
            }
            if exists|i: int| #[trigger] is_last_at(remotes, kind, places, m, place, i) {
                let i = choose|i: int| #[trigger] is_last_at(remotes, kind, places, m, place, i);
                assert(is_last_at(remotes, kind, places, n, place, i));
            }
        }
    }
}

/// The sources outside the directory are just those of the kind that are installed and lie at no
/// place below it, in their order, each under the path that it is installed at.
pub proof fn law_sources_outside_are_listed(
    remotes: Seq<RemoteState>,
    kind: SourceKind,
    places: Seq<Option<Seq<char>>>,
    n: nat,
)
    requires
        n <= remotes.len(),
        places.len() == remotes.len(),
    ensures
        keeps_just(
            sources_outside(remotes, kind, places, n),
            Seq::new(
                remotes.len(),
                |i: int| (remotes[i].installed_path->0@, remotes[i].name@),
            ),
            n as int,
            |i: int|
                remotes[i].kind == kind && remotes[i].installed_path is Some && places[i] is None,
        ),
    decreases n,
{
    let all = Seq::new(remotes.len(), |i: int| (remotes[i].installed_path->0@, remotes[i].name@));
    let which = |i: int|
        remotes[i].kind == kind && remotes[i].installed_path is Some && places[i] is None;
    if n == 0 {
        lemma_keeps_none(all, which);
    } else {
        law_sources_outside_are_listed(remotes, kind, places, (n - 1) as nat);
        lemma_keeps_more(sources_outside(remotes, kind, places, (n - 1) as nat), all, n - 1, which);
    }
}

/// A directory that is not there ends the walk at once, and another error is told once, before the
/// end: nothing else is told then, and no source.
pub proof fn law_unreadable_directory_ends_the_walk(
    before: SourceDirWalk,
    after: SourceDirWalk,
    last: SourceDirWalk,
    polled: Polled,
    again: Polled,
    r: WalkStep,
    s: WalkStep,
)
    requires
        before.directory is Failed,
        is_step(before, after, polled, r),
        is_step(after, last, again, s),
    ensures
        r is Error <==> before.directory == Directory::Failed(Some(OpenError::Other)),
        r is End <==> before.directory != Directory::Failed(Some(OpenError::Other)),
        s is End,
        after.left() == before.left(),
        last.left() == before.left(),
{
}

/// A walk through an open directory tells what reading it gives: an entry with its own path, an
/// error as an error, after which it goes on as before.
pub proof fn law_walk_tells_what_is_read(
    before: SourceDirWalk,
    after: SourceDirWalk,
    polled: Polled,
    r: WalkStep,
)
    requires
        before.directory == Directory::Open,
        is_step(before, after, polled, r),
    ensures
        after.directory == Directory::Open,
        polled is Failed ==> r is Error && after == before,
        polled matches Polled::Entry(path) ==> (r matches WalkStep::Found(p, _) && p == path),
        r is Error <==> polled is Failed,
{
}

/// Once a directory is exhausted, the sources that are left come one by one in their order, each
/// under its place, and then the walk ends.
pub proof fn law_rest_comes_in_order(
    before: SourceDirWalk,
    after: SourceDirWalk,
    r: WalkStep,
)
    requires
        before.directory == Directory::Open,
        is_step(before, after, Polled::Exhausted, r),
    ensures
        before.left().len() == 0 ==> r is End && after.left().len() == 0,
        before.left().len() > 0 ==> (r matches WalkStep::Found(place, Some(name)) && place@
            == before.left()[0].0 && name@ == before.left()[0].1),
        before.left().len() > 0 ==> after.left().len() == before.left().len() - 1,
        forall|k: int|
            0 <= k < after.left().len() ==> #[trigger] after.left()[k] == before.left()[k + 1],
{
}

/// What a walk which just started has yet to tell are sources of the kind and no others: each under
/// a place that it can lie at below the directory, or else under the path that it is installed at.
pub proof fn law_only_sources_of_the_kind_are_left(
    walk: SourceDirWalk,
    remotes: Seq<RemoteState>,
    kind: SourceKind,
    root: Seq<char>,
    root_relative: Seq<char>,
    k: int,
)
    requires
        walk.wf(),
        walk.external is None,
        are_source_paths(walk.sources@, walk.outside@, remotes, kind, root, root_relative),
        0 <= k < walk.left().len(),
    ensures
        exists|i: int|
            {
                &&& 0 <= i < remotes.len()
                &&& (#[trigger] remotes[i]).kind == kind
                &&& remotes[i].name@ == walk.left()[k].1
                &&& can_lie_at(remotes[i], walk.left()[k].0, root, root_relative) || (
                remotes[i].installed_path is Some && remotes[i].installed_path->0@
                    == walk.left()[k].0)
            },
{
    let places = choose|places: Seq<Option<Seq<char>>>|
        {
            &&& #[trigger] are_places_below(places, remotes, root, root_relative)
            &&& texts(walk.sources@) == sources_by_place(remotes, kind, places, remotes.len())
            &&& pair_texts(walk.outside@) == sources_outside(remotes, kind, places, remotes.len())
        };
    let names = walk.sources.names();
    let first = entries(names, walk.sources@);
    if k < first.len() {
        let place = names[k];
        assert(names.to_set().contains(place));
        assert(texts(walk.sources@).contains_key(place));
        assert(texts(walk.sources@)[place] == walk.sources@[place]@);
        let i = lemma_mapped_is_inside(remotes, kind, places, remotes.len(), place);
        assert(is_place_below(
            places[i],
            remotes[i].installed_path.deep_view(),
            root,
            root_relative,
        ));
        assert(walk.left()[k] == first[k]);
        assert(remotes[i].kind == kind);
    } else {
        let out = sources_outside(remotes, kind, places, remotes.len());
        let m = k - first.len();
        assert(walk.left()[k] == out[m]);
        let i = lemma_listed_is_outside(remotes, kind, places, remotes.len(), m);
        assert(remotes[i].kind == kind);
    }
}

proof fn lemma_listed_is_outside(
    remotes: Seq<RemoteState>,
    kind: SourceKind,
    places: Seq<Option<Seq<char>>>,
    n: nat,
    k: int,
) -> (i: int)
    requires
        0 <= k < sources_outside(remotes, kind, places, n).len(),
    ensures
        0 <= i < n,
        remotes[i].kind == kind,
        remotes[i].installed_path is Some,
        sources_outside(remotes, kind, places, n)[k] == (
            remotes[i].installed_path->0@,
            remotes[i].name@,
        ),
    decreases n,
{
    let before = sources_outside(remotes, kind, places, (n - 1) as nat);
    if n > 0 && k == before.len() {
        n - 1
    } else {
        lemma_listed_is_outside(remotes, kind, places, (n - 1) as nat, k)
    }
}

} // verus!

//! Where data comes from: kinds of source, and the file that lists them.
use crate::paths::join_path;
#[allow(unused_imports)]
use crate::paths::{
    adjoined, joined_by, joint_fits, plain_base, plain_tail, reads_joined, Joint,
};
use crate::text::str_eq;
use vstd::pervasive::unreached;
use vstd::prelude::*;
#[allow(unused_imports)]
use vstd::string::*;

verus! {

/// What a source provides.
#[derive(Clone, Copy, PartialEq, Eq, Structural, Hash, Debug)]
pub enum SourceKind {
    Timers,
    Pathing,
    Markers,
    Addon,
    /// A list of further sources.
    DataSources,
    Unspecified,
}

impl Default for SourceKind {
    fn default() -> (r: SourceKind)
        ensures
            r == SourceKind::Timers,
    {
        SourceKind::Timers
    }
}

/// The directory that data of a kind is unpacked in, for the kinds that have one.
pub open spec fn unpack_dir_name(kind: SourceKind) -> Option<Seq<char>> {
    match kind {
        SourceKind::Timers => Some("timers"@),
        SourceKind::Markers => Some("markers"@),
        SourceKind::Pathing => Some("pathing"@),
        SourceKind::DataSources => Some("sources"@),
        SourceKind::Addon | SourceKind::Unspecified => None,
    }
}

/// The directory that data of a kind is unpacked in, on a machine that joins paths in a way.
pub open spec fn unpack_dir(kind: SourceKind, addon_dir: Seq<char>, joint: Joint) -> Seq<char> {
    joined_by(joint, addon_dir, unpack_dir_name(kind)->0)
}

/// The directory that users put data of a kind in, on a machine that joins paths in a way.
pub open spec fn user_dir(kind: SourceKind, addon_dir: Seq<char>, joint: Joint) -> Seq<char> {
    joined_by(
        joint,
        addon_dir,
        match kind {
            SourceKind::Timers => "timers"@,
            SourceKind::Markers => "markers"@,
            SourceKind::Pathing => "pathing"@,
            _ => "sources"@,
        },
    )
}

impl SourceKind {
    /// The key of the text that is shown for this kind.
    pub fn label_ident(&self) -> (r: &'static str)
        ensures
            r@ == (match self {
                SourceKind::Timers => "timers"@,
                SourceKind::Pathing => "pathing"@,
                SourceKind::Markers => "markers"@,
                SourceKind::Addon => "addon"@,
                SourceKind::DataSources => "data-sources"@,
                SourceKind::Unspecified => "unspecified"@,
            }),
    {
        match self {
            SourceKind::Timers => "timers",
            SourceKind::Pathing => "pathing",
            SourceKind::Markers => "markers",
            SourceKind::Addon => "addon",
            SourceKind::DataSources => "data-sources",
            SourceKind::Unspecified => "unspecified",
        }
    }

    /// The directory that data of this kind is unpacked in. Add-ons and unspecified data have
    /// none.
    pub fn get_unpack_dir(&self, addon_dir: &str) -> (r: String)
        requires
            unpack_dir_name(*self) is Some,
        ensures
            reads_joined(addon_dir@, unpack_dir_name(*self)->0, r@),
            plain_base(addon_dir@) ==> exists|joint: Joint|
                joint_fits(joint, addon_dir@) && r@ == #[trigger] unpack_dir(
                    *self,
                    addon_dir@,
                    joint,
                ),
    {
        let type_dir = match self {
            SourceKind::Timers => "timers",
            SourceKind::Markers => "markers",
            SourceKind::Pathing => "pathing",
            SourceKind::DataSources => "sources",
            SourceKind::Addon | SourceKind::Unspecified => unreached(),
        };
        proof {
            reveal_strlit("timers");
            reveal_strlit("markers");
            reveal_strlit("pathing");
            reveal_strlit("sources");
            assert(plain_tail(type_dir@));
        }
        let dir = join_path(addon_dir, type_dir);
        proof {
            if plain_base(addon_dir@) {
                let joint = choose|joint: Joint|
                    joint_fits(joint, addon_dir@) && dir@ == #[trigger] joined_by(
                        joint,
                        addon_dir@,
                        type_dir@,
                    );
                assert(dir@ == unpack_dir(*self, addon_dir@, joint));
            }
        }
        dir
    }

    /// The directory that users put data of this kind in: the one that it is unpacked in.
    pub fn get_user_dir(&self, addon_dir: &str) -> (r: String)
        requires
            unpack_dir_name(*self) is Some,
        ensures
            call_ensures(SourceKind::get_unpack_dir, (self, addon_dir), r),
            reads_joined(addon_dir@, unpack_dir_name(*self)->0, r@),
            plain_base(addon_dir@) ==> exists|joint: Joint|
                joint_fits(joint, addon_dir@) && r@ == #[trigger] user_dir(
                    *self,
                    addon_dir@,
                    joint,
                ),
    {
        let dir = self.get_unpack_dir(addon_dir);
        proof {
            if plain_base(addon_dir@) {
                let joint = choose|joint: Joint|
                    joint_fits(joint, addon_dir@) && dir@ == #[trigger] unpack_dir(
                        *self,
                        addon_dir@,
                        joint,
                    );
                assert(dir@ == user_dir(*self, addon_dir@, joint));
            }
        }
        dir
    }

    /// Whether this is the given kind; unknown where this kind is unspecified.
    pub fn is(&self, kind: SourceKind) -> (r: Option<bool>)
        ensures
            r == (if *self == kind {
                Some(true)
            } else if *self == SourceKind::Unspecified {
                None
            } else {
                Some(false)
            }),
    {
        if *self == kind {
            Some(true)
        } else if *self == SourceKind::Unspecified {
            None
        } else {
            Some(false)
        }
    }
}

/// Something that data can be had from.
pub trait Source {
    /// The name of the source.
    spec fn source_name(&self) -> Seq<char>;

    /// The name of the source.
    fn name(&self) -> (r: String)
        ensures
            r@ == self.source_name(),
    ;
}

/// Releases of a repository.
pub struct GitHubSource {
    pub name: String,
    pub owner: String,
    pub repository: String,
}

/// A file at an address.
pub struct DirectSource {
    pub name: String,
    pub url: String,
}

impl Source for GitHubSource {
    open spec fn source_name(&self) -> Seq<char> {
        self.name@
    }

    fn name(&self) -> (r: String) {
        self.name.clone()
    }
}

impl Source for DirectSource {
    open spec fn source_name(&self) -> Seq<char> {
        self.name@
    }

    fn name(&self) -> (r: String) {
        self.name.clone()
    }
}

/// A source as a sources file names it.
pub enum DeserializedSource {
    GitHub(GitHubSource),
    Direct(DirectSource),
}

impl Clone for DeserializedSource {
    fn clone(&self) -> (r: DeserializedSource)
        ensures
            r == *self,
    {
        match self {
            DeserializedSource::GitHub(s) => DeserializedSource::GitHub(
                GitHubSource {
                    name: s.name.clone(),
                    owner: s.owner.clone(),
                    repository: s.repository.clone(),
                },
            ),
            DeserializedSource::Direct(s) => DeserializedSource::Direct(
                DirectSource { name: s.name.clone(), url: s.url.clone() },
            ),
        }
    }
}

impl DeserializedSource {
    /// The name of the source.
    pub open spec fn spec_name(&self) -> Seq<char> {
        match self {
            DeserializedSource::GitHub(s) => s.name@,
            DeserializedSource::Direct(s) => s.name@,
        }
    }

    /// This as a source, whichever it is.
    pub fn as_source(&self) -> (r: SourceRef<'_>)
        ensures
            r.source_name() == self.spec_name(),
            match self {
                DeserializedSource::GitHub(s) => r == SourceRef::GitHub(s),
                DeserializedSource::Direct(s) => r == SourceRef::Direct(s),
            },
    {
        match self {
            DeserializedSource::GitHub(s) => SourceRef::GitHub(s),
            DeserializedSource::Direct(s) => SourceRef::Direct(s),
        }
    }
}

/// A source of either sort, borrowed.
pub enum SourceRef<'a> {
    GitHub(&'a GitHubSource),
    Direct(&'a DirectSource),
}

impl<'a> Source for SourceRef<'a> {
    open spec fn source_name(&self) -> Seq<char> {
        match self {
            SourceRef::GitHub(s) => s.source_name(),
            SourceRef::Direct(s) => s.source_name(),
        }
    }

    fn name(&self) -> (r: String) {
        match self {
            SourceRef::GitHub(s) => s.name(),
            SourceRef::Direct(s) => s.name(),
        }
    }
}

/// The sources to be had, by kind.
pub struct SourcesFile {
    pub timers: Option<Vec<DeserializedSource>>,
    pub pathing: Option<Vec<DeserializedSource>>,
    pub markers: Option<Vec<DeserializedSource>>,
    pub addon: Option<Vec<DeserializedSource>>,
    pub data_sources: Option<Vec<DeserializedSource>>,
    pub unspecified: Option<Vec<DeserializedSource>>,
}

/// The sources of one kind, with the kind.
pub open spec fn kind_listing(
    kind: SourceKind,
    sources: Option<Vec<DeserializedSource>>,
) -> Seq<(SourceKind, DeserializedSource)> {
    match sources {
        Some(v) => v@.map_values(|s: DeserializedSource| (kind, s)),
        None => Seq::empty(),
    }
}

/// `i` is the place of the first source of the given name.
pub open spec fn is_first_source(
    sources: Seq<DeserializedSource>,
    name: Seq<char>,
    i: int,
) -> bool {
    &&& 0 <= i < sources.len()
    &&& sources[i].spec_name() == name
    &&& forall|j: int| 0 <= j < i ==> (#[trigger] sources[j]).spec_name() != name
}

impl SourcesFile {
    /// The name of the file that sources are kept in.
    pub const FILENAME: &'static str = "sources.toml";

    /// The sources of a kind, where the file names the kind.
    pub open spec fn of_kind(&self, kind: SourceKind) -> Option<Vec<DeserializedSource>> {
        match kind {
            SourceKind::Timers => self.timers,
            SourceKind::Pathing => self.pathing,
            SourceKind::Markers => self.markers,
            SourceKind::Addon => self.addon,
            SourceKind::DataSources => self.data_sources,
            SourceKind::Unspecified => self.unspecified,
        }
    }

    /// All sources with their kinds, one kind after the other.
    pub open spec fn listing(&self) -> Seq<(SourceKind, DeserializedSource)> {
        kind_listing(SourceKind::Timers, self.timers) + kind_listing(
            SourceKind::Pathing,
            self.pathing,
        ) + kind_listing(SourceKind::Markers, self.markers) + kind_listing(
            SourceKind::Addon,
            self.addon,
        ) + kind_listing(SourceKind::DataSources, self.data_sources) + kind_listing(
            SourceKind::Unspecified,
            self.unspecified,
        )
    }

    /// A file that names nothing.
    pub fn empty() -> (r: SourcesFile)
        ensures
            forall|kind: SourceKind| r.of_kind(kind) is None,
    {
        SourcesFile {
            timers: None,
            pathing: None,
            markers: None,
            addon: None,
            data_sources: None,
            unspecified: None,
        }
    }

    /// Puts the sources of a kind in the place of those that were named before.
    pub fn insert(&mut self, kind: SourceKind, sources: Vec<DeserializedSource>)
        ensures
            forall|k: SourceKind|
                final(self).of_kind(k) == (if k == kind {
                    Some(sources)
                } else {
                    old(self).of_kind(k)
                }),
    {
        match kind {
            SourceKind::Timers => {
                self.timers = Some(sources);
            },
            SourceKind::Pathing => {
                self.pathing = Some(sources);
            },
            SourceKind::Markers => {
                self.markers = Some(sources);
            },
            SourceKind::Addon => {
                self.addon = Some(sources);
            },
            SourceKind::DataSources => {
                self.data_sources = Some(sources);
            },
            SourceKind::Unspecified => {
                self.unspecified = Some(sources);
            },
        }
    }

    /// The sources of a kind, where the file names the kind.
    pub fn get_by_kind(&self, kind: SourceKind) -> (r: Option<&Vec<DeserializedSource>>)
        ensures
            match r {
                Some(v) => self.of_kind(kind) == Some(*v),
                None => self.of_kind(kind) is None,
            },
    {
        match kind {
            SourceKind::Timers => self.timers.as_ref(),
            SourceKind::Pathing => self.pathing.as_ref(),
            SourceKind::Markers => self.markers.as_ref(),
            SourceKind::Addon => self.addon.as_ref(),
            SourceKind::DataSources => self.data_sources.as_ref(),
            SourceKind::Unspecified => self.unspecified.as_ref(),
        }
    }

    /// The first source of a kind that has the given name.
    pub fn lookup(&self, kind: SourceKind, name: &str) -> (r: Option<&DeserializedSource>)
        ensures
            match r {
                Some(s) => self.of_kind(kind) is Some && exists|i: int| #[trigger]
                    is_first_source(self.of_kind(kind)->0@, name@, i) && *s == self.of_kind(
                        kind,
                    )->0@[i],
                None => self.of_kind(kind) matches Some(v) ==> forall|i: int|
                    0 <= i < v@.len() ==> (#[trigger] v@[i]).spec_name() != name@,
            },
    {
        match self.get_by_kind(kind) {
            None => None,
            Some(sources) => {
                let mut i: usize = 0;
                while i < sources.len()
                    invariant
                        i <= sources@.len(),
                        self.of_kind(kind) == Some(*sources),
                        forall|j: int|
                            0 <= j < i ==> (#[trigger] sources@[j]).spec_name() != name@,
                    decreases sources@.len() - i,
                {
                    if str_eq(sources[i].as_source().name().as_str(), name) {
                        assert(is_first_source(self.of_kind(kind)->0@, name@, i as int));
                        return Some(&sources[i]);
                    }
                    i += 1;
                }
                None
            },
        }
    }

    /// All sources with their kinds, one kind after the other.
    pub fn into_iter(self) -> (r: Vec<(SourceKind, DeserializedSource)>)
        ensures
            r@ == self.listing(),
    {
        let mut out: Vec<(SourceKind, DeserializedSource)> = Vec::new();
        take_kind(&mut out, SourceKind::Timers, self.timers);
        take_kind(&mut out, SourceKind::Pathing, self.pathing);
        take_kind(&mut out, SourceKind::Markers, self.markers);
        take_kind(&mut out, SourceKind::Addon, self.addon);
        take_kind(&mut out, SourceKind::DataSources, self.data_sources);
        take_kind(&mut out, SourceKind::Unspecified, self.unspecified);
        out
    }

    /// All sources with their kinds, one kind after the other, borrowed.
    pub fn iter(&self) -> (r: Vec<(SourceKind, &DeserializedSource)>)
        ensures
            r@.map_values(|p: (SourceKind, &DeserializedSource)| (p.0, *p.1)) == self.listing(),
    {
        let mut out: Vec<(SourceKind, &DeserializedSource)> = Vec::new();
        borrow_kind(&mut out, SourceKind::Timers, &self.timers);
        borrow_kind(&mut out, SourceKind::Pathing, &self.pathing);
        borrow_kind(&mut out, SourceKind::Markers, &self.markers);
        borrow_kind(&mut out, SourceKind::Addon, &self.addon);
        borrow_kind(&mut out, SourceKind::DataSources, &self.data_sources);
        borrow_kind(&mut out, SourceKind::Unspecified, &self.unspecified);
        out
    }

    /// The sources that came with the program, where they could be read; else none.
    pub fn stock(parsed: Option<SourcesFile>) -> (r: SourcesFile)
        ensures
            parsed matches Some(s) ==> r == s,
            parsed is None ==> forall|kind: SourceKind| r.of_kind(kind) is None,
    {
        match parsed {
            Some(s) => s,
            None => SourcesFile::empty(),
        }
    }

    /// The sources to keep after a download was tried: the downloaded ones, or those that came
    /// with the program where there is no earlier file to fall back on.
    pub fn get_sources<E>(
        downloaded: Result<SourcesFile, E>,
        file_exists: bool,
        stock: SourcesFile,
    ) -> (r: Result<SourcesFile, E>)
        ensures
            r == (match downloaded {
                Ok(s) => Ok(s),
                Err(e) => if file_exists {
                    Err(e)
                } else {
                    Ok(stock)
                },
            }),
    {
        match downloaded {
            Ok(s) => Ok(s),
            Err(e) => if file_exists {
                Err(e)
            } else {
                Ok(stock)
            },
        }
    }
}

fn take_kind(
    out: &mut Vec<(SourceKind, DeserializedSource)>,
    kind: SourceKind,
    sources: Option<Vec<DeserializedSource>>,
)
    ensures
        final(out)@ == old(out)@ + kind_listing(kind, sources),
{
    match sources {
        None => {},
        Some(v) => {
            let ghost all = v@;
            let ghost before = out@;
            for s in it: v
                invariant
                    it.seq() == all,
                    out@ == before + all.take(it.index()).map_values(
                        |s: DeserializedSource| (kind, s),
                    ),
            {
                out.push((kind, s));
                proof {
                    assert(out@ =~= before + all.take(it.index() + 1).map_values(
                        |s: DeserializedSource| (kind, s),
                    ));
                }
            }
            assert(all.take(all.len() as int) =~= all);
        },
    }
}

fn borrow_kind<'a>(
    out: &mut Vec<(SourceKind, &'a DeserializedSource)>,
    kind: SourceKind,
    sources: &'a Option<Vec<DeserializedSource>>,
)
    ensures
        final(out)@.map_values(|p: (SourceKind, &DeserializedSource)| (p.0, *p.1)) == old(
            out,
        )@.map_values(|p: (SourceKind, &DeserializedSource)| (p.0, *p.1)) + kind_listing(
            kind,
            *sources,
        ),
{
    match sources {
        None => {},
        Some(v) => {
            let ghost f = |p: (SourceKind, &DeserializedSource)| (p.0, *p.1);
            let ghost g = |s: DeserializedSource| (kind, s);
            let ghost before = out@.map_values(f);
            let mut i: usize = 0;
            while i < v.len()
                invariant
                    i <= v@.len(),
                    f == (|p: (SourceKind, &DeserializedSource)| (p.0, *p.1)),
                    g == (|s: DeserializedSource| (kind, s)),
                    out@.map_values(f) == before + v@.take(i as int).map_values(g),
                decreases v@.len() - i,
            {
                let ghost prev = out@;
                out.push((kind, &v[i]));
                proof {
                    assert(out@.map_values(f) =~= prev.map_values(f).push((kind, v@[i as int])));
                    assert(v@.take(i + 1).map_values(g) =~= v@.take(i as int).map_values(g).push(
                        (kind, v@[i as int]),
                    ));
                    assert(out@.map_values(f) =~= before + v@.take(i + 1).map_values(g));
                }
                i += 1;
            }
            assert(v@.take(v@.len() as int) =~= v@);
        },
    }
}

proof fn lemma_kind_listing(
    kind: SourceKind,
    sources: Option<Vec<DeserializedSource>>,
    k: SourceKind,
    source: DeserializedSource,
)
    ensures
        kind_listing(kind, sources).contains((k, source)) == (k == kind && sources is Some
            && sources->0@.contains(source)),
{
    let list = kind_listing(kind, sources);
    if list.contains((k, source)) {
        let i = choose|i: int| 0 <= i < list.len() && list[i] == (k, source);
        assert(sources->0@[i] == source);
    }
    if k == kind && sources is Some && sources->0@.contains(source) {
        let i = choose|i: int| 0 <= i < sources->0@.len() && sources->0@[i] == source;
        assert(list[i] == (k, source));
    }
}

proof fn lemma_contains_either<A>(a: Seq<A>, b: Seq<A>, x: A)
    ensures
        (a + b).contains(x) == (a.contains(x) || b.contains(x)),
{
    if a.contains(x) {
        let i = choose|i: int| 0 <= i < a.len() && a[i] == x;
        assert((a + b)[i] == x);
    }
    if b.contains(x) {
        let i = choose|i: int| 0 <= i < b.len() && b[i] == x;
        assert((a + b)[a.len() + i] == x);
    }
    if (a + b).contains(x) {
        let i = choose|i: int| 0 <= i < (a + b).len() && (a + b)[i] == x;
        if i < a.len() {
            assert(a[i] == x);
        } else {
            assert(b[i - a.len()] == x);
        }
    }
}

/// A source is listed with a kind just where the file names it under that kind.
pub proof fn law_listed_by_kind(file: SourcesFile, kind: SourceKind, source: DeserializedSource)
    ensures
        file.listing().contains((kind, source)) == (file.of_kind(kind) is Some && file.of_kind(
            kind,
        )->0@.contains(source)),
{
    let x = (kind, source);
    let t = kind_listing(SourceKind::Timers, file.timers);
    let p = kind_listing(SourceKind::Pathing, file.pathing);
    let m = kind_listing(SourceKind::Markers, file.markers);
    let a = kind_listing(SourceKind::Addon, file.addon);
    let d = kind_listing(SourceKind::DataSources, file.data_sources);
    let u = kind_listing(SourceKind::Unspecified, file.unspecified);
    lemma_contains_either(t, p, x);
    lemma_contains_either(t + p, m, x);
    lemma_contains_either(t + p + m, a, x);
    lemma_contains_either(t + p + m + a, d, x);
    lemma_contains_either(t + p + m + a + d, u, x);
    lemma_kind_listing(SourceKind::Timers, file.timers, kind, source);
    lemma_kind_listing(SourceKind::Pathing, file.pathing, kind, source);
    lemma_kind_listing(SourceKind::Markers, file.markers, kind, source);
    lemma_kind_listing(SourceKind::Addon, file.addon, kind, source);
    lemma_kind_listing(SourceKind::DataSources, file.data_sources, kind, source);
    lemma_kind_listing(SourceKind::Unspecified, file.unspecified, kind, source);
}

/// Users put data of a kind in the directory that it is unpacked in: whichever way a machine joins
/// paths, the two are the same.
pub proof fn law_user_dir_is_unpack_dir(kind: SourceKind, addon_dir: Seq<char>, joint: Joint)
    requires
        unpack_dir_name(kind) is Some,
    ensures
        user_dir(kind, addon_dir, joint) == unpack_dir(kind, addon_dir, joint),
{
}

} // verus!

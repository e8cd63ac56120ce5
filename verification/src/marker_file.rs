//! Marker files: the forms that they come in, and how sets are found, added, changed and
//! taken out.
#[allow(unused_imports)]
use crate::clock::{utc_now, Timestamp};
use crate::marker_set::MarkerSet;
#[allow(unused_imports)]
use crate::marker_set::MarkerSetView;
use crate::paths::join_path;
#[allow(unused_imports)]
use crate::paths::{adjoined, plain_base, plain_tail, reads_joined};
use crate::text::{opt_eq, str_eq};
use vstd::prelude::*;
#[allow(unused_imports)]
use vstd::string::*;

verus! {

/// A named list of sets.
pub struct MarkerCategory {
    pub name: String,
    pub marker_sets: Vec<MarkerSet>,
}

/// A file in the community form: sets by category.
pub struct MarkerFile {
    pub last_edit: Timestamp,
    pub path: Option<String>,
    pub categories: Vec<MarkerCategory>,
}

/// A file in the integrated form: one list of sets, with a version.
pub struct IntegratedMarkers {
    pub version: String,
    pub path: Option<String>,
    pub squad_marker_preset: Vec<MarkerSet>,
}

/// The contents of a marker file.
pub enum MarkerFormats {
    Community(MarkerFile),
    Integrated(IntegratedMarkers),
    Taimi(Vec<MarkerSet>),
}

/// The forms that a marker file comes in.
#[derive(Clone, Copy, PartialEq, Eq, Structural, Debug)]
pub enum MarkerFiletype {
    Community,
    Integrated,
    Taimi,
}

/// A marker file and where it was read from.
pub struct RuntimeMarkers {
    pub path: Option<String>,
    pub file: MarkerFormats,
}

/// Why a set cannot be found in a file.
pub enum MarkerFileError {
    /// The community form needs a category.
    CategoryMissing,
    /// There is no category of this name.
    NoSuchCategory(String),
}

/// The contents of a [`MarkerCategory`].
#[verifier::ext_equal]
pub struct MarkerCategoryView {
    pub name: Seq<char>,
    pub marker_sets: Seq<MarkerSetView>,
}

/// The contents of a [`MarkerFormats`].
#[verifier::ext_equal]
pub enum MarkerFormatsView {
    Community {
        last_edit: Timestamp,
        path: Option<Seq<char>>,
        categories: Seq<MarkerCategoryView>,
    },
    Integrated { version: Seq<char>, path: Option<Seq<char>>, sets: Seq<MarkerSetView> },
    Taimi { sets: Seq<MarkerSetView> },
}

/// The contents of a [`RuntimeMarkers`].
#[verifier::ext_equal]
pub struct RuntimeMarkersView {
    pub path: Option<Seq<char>>,
    pub file: MarkerFormatsView,
}

/// The contents of a [`MarkerFileError`].
pub enum MarkerFileErrorView {
    CategoryMissing,
    NoSuchCategory(Seq<char>),
}

impl View for MarkerCategory {
    type V = MarkerCategoryView;

    open spec fn view(&self) -> MarkerCategoryView {
        MarkerCategoryView { name: self.name@, marker_sets: self.marker_sets.deep_view() }
    }
}

impl DeepView for MarkerCategory {
    type V = MarkerCategoryView;

    open spec fn deep_view(&self) -> MarkerCategoryView {
        self.view()
    }
}

impl View for MarkerFormats {
    type V = MarkerFormatsView;

    open spec fn view(&self) -> MarkerFormatsView {
        match self {
            MarkerFormats::Community(f) => MarkerFormatsView::Community {
                last_edit: f.last_edit,
                path: f.path.deep_view(),
                categories: f.categories.deep_view(),
            },
            MarkerFormats::Integrated(c) => MarkerFormatsView::Integrated {
                version: c.version@,
                path: c.path.deep_view(),
                sets: c.squad_marker_preset.deep_view(),
            },
            MarkerFormats::Taimi(t) => MarkerFormatsView::Taimi { sets: t.deep_view() },
        }
    }
}

impl View for RuntimeMarkers {
    type V = RuntimeMarkersView;

    open spec fn view(&self) -> RuntimeMarkersView {
        RuntimeMarkersView { path: self.path.deep_view(), file: self.file@ }
    }
}

impl DeepView for RuntimeMarkers {
    type V = RuntimeMarkersView;

    open spec fn deep_view(&self) -> RuntimeMarkersView {
        self.view()
    }
}

impl View for MarkerFileError {
    type V = MarkerFileErrorView;

    open spec fn view(&self) -> MarkerFileErrorView {
        match self {
            MarkerFileError::CategoryMissing => MarkerFileErrorView::CategoryMissing,
            MarkerFileError::NoSuchCategory(c) => MarkerFileErrorView::NoSuchCategory(c@),
        }
    }
}

/// Whether a list of categories has one of the given name.
pub open spec fn has_category(categories: Seq<MarkerCategoryView>, name: Seq<char>) -> bool {
    exists|i: int| 0 <= i < categories.len() && #[trigger] categories[i].name == name
}

/// `i` is the place of the first category of the given name.
pub open spec fn is_first_category(
    categories: Seq<MarkerCategoryView>,
    name: Seq<char>,
    i: int,
) -> bool {
    &&& 0 <= i < categories.len()
    &&& categories[i].name == name
    &&& forall|j: int| 0 <= j < i ==> #[trigger] categories[j].name != name
}

/// The place of the first category of the given name.
pub open spec fn first_category(categories: Seq<MarkerCategoryView>, name: Seq<char>) -> int {
    choose|i: int| is_first_category(categories, name, i)
}

/// There is one first category of a name at most.
pub proof fn lemma_first_category(categories: Seq<MarkerCategoryView>, name: Seq<char>, i: int)
    requires
        is_first_category(categories, name, i),
    ensures
        has_category(categories, name),
        first_category(categories, name) == i,
{
    let k = first_category(categories, name);
    assert(is_first_category(categories, name, k));
    if k < i {
        assert(categories[k].name != name);
    } else if i < k {
        assert(categories[i].name != name);
    }
}

/// The category that a set without one is filed under.
pub open spec fn no_category() -> Seq<char> {
    "No category"@
}

/// The category that a set is filed under.
pub open spec fn filing_category(set: MarkerSetView) -> Seq<char> {
    match set.category {
        Some(c) => c,
        None => no_category(),
    }
}

impl MarkerFormatsView {
    /// The list that a category names: a category's own in the community form, the only one
    /// in the others.
    pub open spec fn locate(self, category: Option<Seq<char>>) -> Result<
        Option<int>,
        MarkerFileErrorView,
    > {
        match self {
            MarkerFormatsView::Community { categories, .. } => match category {
                None => Err(MarkerFileErrorView::CategoryMissing),
                Some(c) => if has_category(categories, c) {
                    Ok(Some(first_category(categories, c)))
                } else {
                    Err(MarkerFileErrorView::NoSuchCategory(c))
                },
            },
            _ => Ok(None),
        }
    }

    /// The sets of a list.
    pub open spec fn sets(self, spot: Option<int>) -> Seq<MarkerSetView> {
        match self {
            MarkerFormatsView::Community { categories, .. } => categories[spot->0].marker_sets,
            MarkerFormatsView::Integrated { sets, .. } => sets,
            MarkerFormatsView::Taimi { sets } => sets,
        }
    }

    /// The file with other sets in a list.
    pub open spec fn with_sets(self, spot: Option<int>, sets: Seq<MarkerSetView>) -> Self {
        match self {
            MarkerFormatsView::Community {
                last_edit,
                path,
                categories,
            } => MarkerFormatsView::Community {
                last_edit,
                path,
                categories: categories.update(
                    spot->0,
                    MarkerCategoryView { marker_sets: sets, ..categories[spot->0] },
                ),
            },
            MarkerFormatsView::Integrated { version, path, .. } => MarkerFormatsView::Integrated {
                version,
                path,
                sets,
            },
            MarkerFormatsView::Taimi { .. } => MarkerFormatsView::Taimi { sets },
        }
    }

    /// The file with a set behind the others of its list. In the community form that is the
    /// list of the set's category, which is added if need be, and the file counts as edited.
    pub open spec fn appended(self, set: MarkerSetView, now: Timestamp) -> Self {
        match self {
            MarkerFormatsView::Community {
                path,
                categories,
                ..
            } => MarkerFormatsView::Community {
                last_edit: now,
                path,
                categories: with_filed(categories, set),
            },
            MarkerFormatsView::Integrated {
                version,
                path,
                sets,
            } => MarkerFormatsView::Integrated { version, path, sets: sets.push(set) },
            MarkerFormatsView::Taimi { sets } => MarkerFormatsView::Taimi { sets: sets.push(set) },
        }
    }
}

/// The categories with a set filed under its own.
pub open spec fn with_filed(categories: Seq<MarkerCategoryView>, set: MarkerSetView) -> Seq<
    MarkerCategoryView,
> {
    let c = filing_category(set);
    if has_category(categories, c) {
        let i = first_category(categories, c);
        categories.update(
            i,
            MarkerCategoryView {
                marker_sets: categories[i].marker_sets.push(set),
                ..categories[i]
            },
        )
    } else {
        categories.push(MarkerCategoryView { name: c, marker_sets: seq![set] })
    }
}

impl RuntimeMarkersView {
    /// Whether a category and a place name a set of the file, where they name a list at all.
    pub open spec fn in_range(self, category: Option<Seq<char>>, idx: usize) -> bool {
        self.file.locate(category) matches Ok(spot) ==> idx < self.file.sets(spot).len()
    }

    /// The file without a set.
    pub open spec fn without(self, spot: Option<int>, idx: usize) -> Self {
        RuntimeMarkersView {
            file: self.file.with_sets(spot, self.file.sets(spot).remove(idx as int)),
            ..self
        }
    }

    /// The file with a set replaced.
    pub open spec fn replaced(self, spot: Option<int>, idx: usize, set: MarkerSetView) -> Self {
        RuntimeMarkersView {
            file: self.file.with_sets(spot, self.file.sets(spot).update(idx as int, set)),
            ..self
        }
    }

    /// The file with a set added.
    pub open spec fn appended(self, set: MarkerSetView, now: Timestamp) -> Self {
        RuntimeMarkersView { file: self.file.appended(set, now), ..self }
    }

    /// What an edit makes of the file: the set at the old place is replaced where its
    /// category stays, and taken out and added anew where it changes.
    pub open spec fn edited(
        self,
        set: MarkerSetView,
        original: Option<Seq<char>>,
        idx: usize,
        now: Timestamp,
    ) -> Result<Self, MarkerFileErrorView> {
        match self.file.locate(original) {
            Err(e) => Err(e),
            Ok(spot) => if set.category != original {
                Ok(self.without(spot, idx).appended(set, now))
            } else {
                Ok(self.replaced(spot, idx, set))
            },
        }
    }
}

impl MarkerFileError {
    /// What a user is told.
    pub fn message(&self) -> (r: String)
        ensures
            r@ == (match self@ {
                MarkerFileErrorView::CategoryMissing =>
                    "Category not provided, required for File format"@,
                MarkerFileErrorView::NoSuchCategory(c) => "Couldn't find category "@ + c,
            }),
    {
        match self {
            MarkerFileError::CategoryMissing => {
                "Category not provided, required for File format".to_owned()
            },
            MarkerFileError::NoSuchCategory(c) => {
                let mut out = "Couldn't find category ".to_owned();
                out.append(c.as_str());
                out
            },
        }
    }
}

fn find_category(categories: &Vec<MarkerCategory>, name: &str) -> (r: Option<usize>)
    ensures
        match r {
            Some(i) => is_first_category(categories.deep_view(), name@, i as int) && has_category(
                categories.deep_view(),
                name@,
            ) && first_category(categories.deep_view(), name@) == i,
            None => !has_category(categories.deep_view(), name@),
        },
{
    let mut i: usize = 0;
    while i < categories.len()
        invariant
            i <= categories@.len(),
            forall|j: int| 0 <= j < i ==> #[trigger] categories.deep_view()[j].name != name@,
        decreases categories@.len() - i,
    {
        if str_eq(categories[i].name.as_str(), name) {
            proof {
                assert(categories.deep_view()[i as int].name == name@);
                lemma_first_category(categories.deep_view(), name@, i as int);
            }
            return Some(i);
        }
        i += 1;
    }
    None
}

fn set_at(sets: &mut Vec<MarkerSet>, idx: usize) -> (r: &mut MarkerSet)
    requires
        idx < old(sets)@.len(),
    ensures
        r@ == old(sets).deep_view()[idx as int],
        final(sets).deep_view() == old(sets).deep_view().update(idx as int, final(r)@),
{
    &mut sets[idx]
}

fn set_of_category(categories: &mut Vec<MarkerCategory>, i: usize, idx: usize) -> (r: &mut MarkerSet)
    requires
        i < old(categories)@.len(),
        idx < old(categories)@[i as int].marker_sets@.len(),
    ensures
        r@ == old(categories).deep_view()[i as int].marker_sets[idx as int],
        final(categories).deep_view() == old(categories).deep_view().update(
            i as int,
            MarkerCategoryView {
                marker_sets: old(categories).deep_view()[i as int].marker_sets.update(
                    idx as int,
                    final(r)@,
                ),
                ..old(categories).deep_view()[i as int]
            },
        ),
{
    let c = &mut categories[i];
    set_at(&mut c.marker_sets, idx)
}

impl RuntimeMarkers {
    /// The pattern for every file below a directory.
    pub fn glob() -> (r: String)
        ensures
            r@ == "**/*"@,
    {
        "**/*".to_owned()
    }

    /// The pattern for every file below the given directory.
    pub fn path_glob(path: &str) -> (r: String)
        ensures
            reads_joined(path@, "**/*"@, r@),
            plain_base(path@) ==> adjoined(r@, path@, "**/*"@),
    {
        let tail = RuntimeMarkers::glob();
        proof {
            reveal_strlit("**/*");
            assert(tail@ =~= seq!['*', '*', '/', '*']);
            assert(plain_tail(tail@));
        }
        join_path(path, tail.as_str())
    }

    /// Whether a category and a place name a set of the file, where they name a list at all.
    pub fn covers(&self, category: &Option<String>, idx: usize) -> (r: bool)
        ensures
            r == self@.in_range(category.deep_view(), idx),
    {
        match &self.file {
            MarkerFormats::Community(f) => match category {
                None => true,
                Some(name) => match find_category(&f.categories, name.as_str()) {
                    None => true,
                    Some(i) => idx < f.categories[i].marker_sets.len(),
                },
            },
            MarkerFormats::Taimi(t) => idx < t.len(),
            MarkerFormats::Integrated(c) => idx < c.squad_marker_preset.len(),
        }
    }

    /// Takes a set out of the file.
    pub fn remove(&mut self, category: Option<String>, idx: usize) -> (r: Result<
        MarkerSet,
        MarkerFileError,
    >)
        requires
            old(self)@.in_range(category.deep_view(), idx),
        ensures
            match old(self)@.file.locate(category.deep_view()) {
                Err(e) => r is Err && r->Err_0@ == e && final(self)@ == old(self)@,
                Ok(spot) => r is Ok && r->Ok_0@ == old(self)@.file.sets(spot)[idx as int]
                    && final(self)@ == old(self)@.without(spot, idx),
            },
    {
        match &mut self.file {
            MarkerFormats::Community(f) => {
                let name = match category {
                    None => {
                        return Err(MarkerFileError::CategoryMissing);
                    },
                    Some(c) => c,
                };
                match find_category(&f.categories, name.as_str()) {
                    None => Err(MarkerFileError::NoSuchCategory(name)),
                    Some(i) => {
                        let ghost cats = f.categories.deep_view();
                        let r = f.categories[i].marker_sets.remove(idx);
                        proof {
                            assert(f.categories[i as int].marker_sets.deep_view()
                                =~= cats[i as int].marker_sets.remove(idx as int));
                            assert(f.categories.deep_view() =~= cats.update(
                                i as int,
                                MarkerCategoryView {
                                    marker_sets: cats[i as int].marker_sets.remove(idx as int),
                                    ..cats[i as int]
                                },
                            ));
                        }
                        Ok(r)
                    },
                }
            },
            MarkerFormats::Taimi(t) => {
                let ghost sets = t.deep_view();
                let r = t.remove(idx);
                assert(t.deep_view() =~= sets.remove(idx as int));
                Ok(r)
            },
            MarkerFormats::Integrated(c) => {
                let ghost sets = c.squad_marker_preset.deep_view();
                let r = c.squad_marker_preset.remove(idx);
                assert(c.squad_marker_preset.deep_view() =~= sets.remove(idx as int));
                Ok(r)
            },
        }
    }

    /// A set of the file, to be changed in place.
    pub fn get_entry(&mut self, category: Option<String>, idx: usize) -> (r: Result<
        &mut MarkerSet,
        MarkerFileError,
    >)
        requires
            old(self)@.in_range(category.deep_view(), idx),
        ensures
            match old(self)@.file.locate(category.deep_view()) {
                Err(e) => r is Err && r->Err_0@ == e && final(self)@ == old(self)@,
                Ok(spot) => r matches Ok(set) && set@ == old(self)@.file.sets(spot)[idx as int]
                    && final(self)@ == old(self)@.replaced(spot, idx, final(set)@),
            },
    {
        match &mut self.file {
            MarkerFormats::Community(f) => {
                let name = match category {
                    None => {
                        return Err(MarkerFileError::CategoryMissing);
                    },
                    Some(c) => c,
                };
                match find_category(&f.categories, name.as_str()) {
                    None => Err(MarkerFileError::NoSuchCategory(name)),
                    Some(i) => {
                        Ok(set_of_category(&mut f.categories, i, idx))
                    },
                }
            },
            MarkerFormats::Taimi(t) => {
                Ok(set_at(t, idx))
            },
            MarkerFormats::Integrated(c) => {
                Ok(set_at(&mut c.squad_marker_preset, idx))
            },
        }
    }

    /// Files a set at a given time. This never fails.
    pub fn append_raw_at(&mut self, ms: MarkerSet, now: Timestamp) -> (r: Result<(), MarkerFileError>)
        ensures
            r is Ok,
            final(self)@ == old(self)@.appended(ms@, now),
    {
        match &mut self.file {
            MarkerFormats::Community(f) => {
                let name = match &ms.category {
                    Some(c) => c.clone(),
                    None => "No category".to_owned(),
                };
                let ghost cats = f.categories.deep_view();
                match find_category(&f.categories, name.as_str()) {
                    Some(i) => {
                        let c = &mut f.categories[i];
                        c.marker_sets.push(ms);
                        proof {
                            assert(f.categories@[i as int].marker_sets.deep_view()
                                =~= cats[i as int].marker_sets.push(ms@));
                        }
                    },
                    None => {
                        let mut marker_sets: Vec<MarkerSet> = Vec::new();
                        marker_sets.push(ms);
                        assert(marker_sets.deep_view() =~= seq![ms@]);
                        f.categories.push(MarkerCategory { name, marker_sets });
                    },
                }
                f.last_edit = now;
                assert(f.categories.deep_view() =~= with_filed(cats, ms@));
            },
            MarkerFormats::Taimi(t) => {
                let ghost sets = t.deep_view();
                t.push(ms);
                assert(t.deep_view() =~= sets.push(ms@));
            },
            MarkerFormats::Integrated(c) => {
                let ghost sets = c.squad_marker_preset.deep_view();
                c.squad_marker_preset.push(ms);
                assert(c.squad_marker_preset.deep_view() =~= sets.push(ms@));
            },
        }
        Ok(())
    }

    /// Files a set now. This never fails.
    pub fn append_raw(&mut self, ms: MarkerSet) -> (r: Result<(), MarkerFileError>)
        ensures
            r is Ok,
            exists|now: Timestamp|
                now.is_clock_time() && final(self)@ == #[trigger] old(self)@.appended(ms@, now),
    {
        let now = utc_now();
        self.append_raw_at(ms, now)
    }

    /// Puts a set in the place of an older version of itself, at a given time.
    pub fn edit_at(
        &mut self,
        ms: MarkerSet,
        original_category: Option<String>,
        idx: usize,
        now: Timestamp,
    ) -> (r: Result<(), MarkerFileError>)
        requires
            old(self)@.in_range(original_category.deep_view(), idx),
        ensures
            match old(self)@.edited(ms@, original_category.deep_view(), idx, now) {
                Err(e) => r is Err && r->Err_0@ == e && final(self)@ == old(self)@,
                Ok(f) => r is Ok && final(self)@ == f,
            },
    {
        if !opt_eq(&ms.category, &original_category) {
            match self.remove(original_category, idx) {
                Err(e) => Err(e),
                Ok(_) => self.append_raw_at(ms, now),
            }
        } else {
            match self.get_entry(original_category, idx) {
                Err(e) => Err(e),
                Ok(entry) => {
                    *entry = ms;
                    Ok(())
                },
            }
        }
    }

    /// Puts a set in the place of an older version of itself.
    pub fn edit(&mut self, ms: MarkerSet, original_category: Option<String>, idx: usize) -> (r: Result<
        (),
        MarkerFileError,
    >)
        requires
            old(self)@.in_range(original_category.deep_view(), idx),
        ensures
            exists|now: Timestamp|
                now.is_clock_time() && match #[trigger] old(self)@.edited(
                    ms@,
                    original_category.deep_view(),
                    idx,
                    now,
                ) {
                    Err(e) => r is Err && r->Err_0@ == e && final(self)@ == old(self)@,
                    Ok(f) => r is Ok && final(self)@ == f,
                },
    {
        let now = utc_now();
        self.edit_at(ms, original_category, idx, now)
    }

    /// Takes a set out of the file and forgets it.
    pub fn delete(&mut self, category: Option<String>, idx: usize) -> (r: Result<(), MarkerFileError>)
        requires
            old(self)@.in_range(category.deep_view(), idx),
        ensures
            match old(self)@.file.locate(category.deep_view()) {
                Err(e) => r is Err && r->Err_0@ == e && final(self)@ == old(self)@,
                Ok(spot) => r is Ok && final(self)@ == old(self)@.without(spot, idx),
            },
    {
        match self.remove(category, idx) {
            Err(e) => Err(e),
            Ok(_) => Ok(()),
        }
    }

    /// The path of a new marker file of the given name.
    pub fn new_file_path(markers_dir: &str, name: &str) -> (r: String)
        ensures
            reads_joined(markers_dir@, name@ + ".markers"@, r@),
            plain_base(markers_dir@) && plain_tail(name@ + ".markers"@) ==> adjoined(
                r@,
                markers_dir@,
                name@ + ".markers"@,
            ),
    {
        let mut file = name.to_owned();
        file.append(".markers");
        join_path(markers_dir, file.as_str())
    }

    /// A new file at a path that holds one set, made at a given time.
    pub fn create_at(path: String, format: MarkerFiletype, ms: MarkerSet, now: Timestamp) -> (r:
        RuntimeMarkers)
        ensures
            r@ == created(path@, format, ms@, now),
    {
        let category = match &ms.category {
            Some(c) => c.clone(),
            None => "No category".to_owned(),
        };
        let mut sets: Vec<MarkerSet> = Vec::new();
        sets.push(ms);
        assert(sets.deep_view() =~= seq![ms@]);
        let file = match format {
            MarkerFiletype::Community => {
                let mut categories: Vec<MarkerCategory> = Vec::new();
                categories.push(MarkerCategory { name: category, marker_sets: sets });
                assert(categories.deep_view() =~= seq![
                    MarkerCategoryView { name: filing_category(ms@), marker_sets: seq![ms@] },
                ]);
                MarkerFormats::Community(
                    MarkerFile { last_edit: now, path: Some(path.clone()), categories },
                )
            },
            MarkerFiletype::Taimi => MarkerFormats::Taimi(sets),
            MarkerFiletype::Integrated => MarkerFormats::Integrated(
                IntegratedMarkers {
                    version: "2.0.0".to_owned(),
                    path: Some(path.clone()),
                    squad_marker_preset: sets,
                },
            ),
        };
        RuntimeMarkers { path: Some(path), file }
    }

    /// A new file of the given name in the markers directory that holds one set.
    pub fn create(markers_dir: &str, name: &str, format: MarkerFiletype, ms: MarkerSet) -> (r:
        RuntimeMarkers)
        ensures
            exists|path: Seq<char>, now: Timestamp|
                {
                    &&& r@ == #[trigger] created(path, format, ms@, now)
                    &&& now.is_clock_time()
                    &&& reads_joined(markers_dir@, name@ + ".markers"@, path)
                    &&& plain_base(markers_dir@) && plain_tail(name@ + ".markers"@) ==> adjoined(
                        path,
                        markers_dir@,
                        name@ + ".markers"@,
                    )
                },
    {
        let path = RuntimeMarkers::new_file_path(markers_dir, name);
        let now = utc_now();
        RuntimeMarkers::create_at(path, format, ms, now)
    }

    /// A file as it was read from a path.
    pub fn load_arcless(path: String, file: MarkerFormats) -> (r: RuntimeMarkers)
        ensures
            r@ == (RuntimeMarkersView { path: Some(path@), file: file@ }),
    {
        RuntimeMarkers { path: Some(path), file }
    }
}

/// A new file at a path that holds one set.
pub open spec fn created(
    path: Seq<char>,
    format: MarkerFiletype,
    set: MarkerSetView,
    now: Timestamp,
) -> RuntimeMarkersView {
    RuntimeMarkersView {
        path: Some(path),
        file: match format {
            MarkerFiletype::Community => MarkerFormatsView::Community {
                last_edit: now,
                path: Some(path),
                categories: seq![
                    MarkerCategoryView { name: filing_category(set), marker_sets: seq![set] },
                ],
            },
            MarkerFiletype::Taimi => MarkerFormatsView::Taimi { sets: seq![set] },
            MarkerFiletype::Integrated => MarkerFormatsView::Integrated {
                version: "2.0.0"@,
                path: Some(path),
                sets: seq![set],
            },
        },
    }
}

} // verus!

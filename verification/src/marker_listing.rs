//! The marker sets of all files together, by category and by map.
use crate::marker_file::{MarkerFormats, RuntimeMarkers};
#[allow(unused_imports)]
use crate::marker_file::{
    filing_category, no_category, MarkerCategory, MarkerCategoryView, MarkerFormatsView,
    RuntimeMarkersView,
};
use crate::marker_set::MarkerSet;
#[allow(unused_imports)]
use crate::marker_set::MarkerSetView;
use crate::name_map::NameMap;
use std::collections::HashMap;
use std::sync::Arc;
use vstd::prelude::*;

verus! {

/// A set with the category that it is shown under and the place where it was found.
pub open spec fn labelled(
    set: MarkerSetView,
    category: Seq<char>,
    path: Option<Seq<char>>,
    idx: int,
) -> MarkerSetView {
    MarkerSetView { category: Some(category), path, idx: Some(idx as usize), ..set }
}

/// The sets of a category, labelled.
pub open spec fn category_listing(c: MarkerCategoryView, path: Option<Seq<char>>) -> Seq<
    MarkerSetView,
> {
    Seq::new(c.marker_sets.len(), |i: int| labelled(c.marker_sets[i], c.name, path, i))
}

/// The category that a set outside of the community form is shown under.
pub open spec fn own_category(set: MarkerSetView, otherwise: Seq<char>) -> Seq<char> {
    match set.category {
        Some(c) => c,
        None => otherwise,
    }
}

/// The sets of a list without categories, labelled.
pub open spec fn list_listing(
    sets: Seq<MarkerSetView>,
    otherwise: Seq<char>,
    path: Option<Seq<char>>,
) -> Seq<MarkerSetView> {
    Seq::new(sets.len(), |i: int| labelled(sets[i], own_category(sets[i], otherwise), path, i))
}

/// The first `n` categories' sets, labelled, one category after the other.
pub open spec fn categories_listing(
    categories: Seq<MarkerCategoryView>,
    path: Option<Seq<char>>,
    n: nat,
) -> Seq<MarkerSetView>
    decreases n,
{
    if n == 0 {
        Seq::empty()
    } else {
        categories_listing(categories, path, (n - 1) as nat) + category_listing(
            categories[n - 1],
            path,
        )
    }
}

/// The sets of a file, labelled, in the order of the file.
pub open spec fn pack_listing(pack: RuntimeMarkersView) -> Seq<MarkerSetView> {
    match pack.file {
        MarkerFormatsView::Community { categories, .. } => categories_listing(
            categories,
            pack.path,
            categories.len(),
        ),
        MarkerFormatsView::Taimi { sets } => list_listing(sets, no_category(), pack.path),
        MarkerFormatsView::Integrated { sets, .. } => list_listing(
            sets,
            "Integrated"@,
            pack.path,
        ),
    }
}

/// The sets of the first `n` files, labelled, one file after the other.
pub open spec fn packs_listing(packs: Seq<RuntimeMarkersView>, n: nat) -> Seq<MarkerSetView>
    decreases n,
{
    if n == 0 {
        Seq::empty()
    } else {
        packs_listing(packs, (n - 1) as nat) + pack_listing(packs[n - 1])
    }
}

/// The sets of a listing that are shown under a category.
pub open spec fn of_category(listing: Seq<MarkerSetView>, category: Seq<char>) -> Seq<
    MarkerSetView,
> {
    listing.filter(|s: MarkerSetView| s.category == Some(category))
}

/// Whether a file names a category: it has a category of the name, or a set that is shown
/// under it.
pub open spec fn pack_names(pack: RuntimeMarkersView, category: Seq<char>) -> bool {
    match pack.file {
        MarkerFormatsView::Community { categories, .. } => exists|i: int|
            0 <= i < categories.len() && #[trigger] categories[i].name == category,
        MarkerFormatsView::Taimi { sets } => exists|i: int|
            0 <= i < sets.len() && own_category(#[trigger] sets[i], no_category()) == category,
        MarkerFormatsView::Integrated { sets, .. } => exists|i: int|
            0 <= i < sets.len() && own_category(#[trigger] sets[i], "Integrated"@) == category,
    }
}

/// Whether one of the first `n` files names a category.
pub open spec fn packs_name(packs: Seq<RuntimeMarkersView>, n: nat, category: Seq<char>) -> bool {
    exists|i: int| 0 <= i < n && pack_names(#[trigger] packs[i], category)
}

/// A map from categories to lists of sets that shows a listing under the given names.
pub open spec fn shows(
    shown: Map<Seq<char>, Vec<Arc<MarkerSet>>>,
    listing: Seq<MarkerSetView>,
    named: spec_fn(Seq<char>) -> bool,
) -> bool {
    &&& forall|c: Seq<char>| #[trigger] shown.contains_key(c) <==> named(c)
    &&& forall|c: Seq<char>| #[trigger]
        shown.contains_key(c) ==> shown[c].deep_view() == of_category(listing, c)
    &&& forall|i: int|
        0 <= i < listing.len() ==> (#[trigger] listing[i]).category is Some && named(
            listing[i].category->0,
        )
}

proof fn lemma_of_category_unnamed(listing: Seq<MarkerSetView>, category: Seq<char>)
    requires
        forall|i: int| 0 <= i < listing.len() ==> (#[trigger] listing[i]).category != Some(category),
    ensures
        of_category(listing, category) == Seq::<MarkerSetView>::empty(),
    decreases listing.len(),
{
    reveal(Seq::filter);
    if listing.len() > 0 {
        assert forall|i: int| 0 <= i < listing.drop_last().len() implies (
        #[trigger] listing.drop_last()[i]).category != Some(category) by {
            assert(listing.drop_last()[i] == listing[i]);
        }
        lemma_of_category_unnamed(listing.drop_last(), category);
        assert(listing.last() == listing[listing.len() - 1]);
    }
}

/// Makes a category known, with no sets if it is new.
fn touch(
    shown: &mut NameMap<Vec<Arc<MarkerSet>>>,
    category: &String,
    Ghost(listing): Ghost<Seq<MarkerSetView>>,
    Ghost(named): Ghost<spec_fn(Seq<char>) -> bool>,
)
    requires
        shows(old(shown)@, listing, named),
    ensures
        shows(final(shown)@, listing, |c: Seq<char>| named(c) || c == category@),
{
    if !shown.contains_key(category.as_str()) {
        let list: Vec<Arc<MarkerSet>> = Vec::new();
        proof {
            lemma_of_category_unnamed(listing, category@);
            assert(list.deep_view() =~= Seq::<MarkerSetView>::empty());
        }
        shown.insert(category.clone(), list);
    }
}

/// Puts a set at the end of its category.
fn add_set(
    shown: &mut NameMap<Vec<Arc<MarkerSet>>>,
    category: &String,
    set: MarkerSet,
    Ghost(listing): Ghost<Seq<MarkerSetView>>,
    Ghost(named): Ghost<spec_fn(Seq<char>) -> bool>,
)
    requires
        shows(old(shown)@, listing, named),
        set@.category == Some(category@),
    ensures
        shows(final(shown)@, listing.push(set@), |c: Seq<char>| named(c) || c == category@),
{
    touch(shown, category, Ghost(listing), Ghost(named));
    let ghost before = shown@;
    let ghost named2 = |c: Seq<char>| named(c) || c == category@;
    let placeholder: Vec<Arc<MarkerSet>> = Vec::new();
    let mut list = match shown.insert(category.clone(), placeholder) {
        Some(l) => l,
        None => Vec::new(),
    };
    list.push(Arc::new(set));
    let ghost added = list.deep_view();
    shown.insert(category.clone(), list);
    proof {
        assert forall|c: Seq<char>| #[trigger] shown@.contains_key(c) implies shown@[c].deep_view()
            == of_category(listing.push(set@), c) by {
            listing.lemma_filter_push(set@, |s: MarkerSetView| s.category == Some(c));
            if c == category@ {
                assert(added =~= before[c].deep_view().push(set@));
            } else {
                assert(before.contains_key(c));
            }
        }
        assert forall|c: Seq<char>| #[trigger] shown@.contains_key(c) <==> named2(c) by {
            assert(before.contains_key(c) <==> named2(c));
        }
    }
}

fn show_list(
    shown: &mut NameMap<Vec<Arc<MarkerSet>>>,
    sets: &Vec<MarkerSet>,
    otherwise: &str,
    path: &Option<String>,
    Ghost(listing): Ghost<Seq<MarkerSetView>>,
    Ghost(named): Ghost<spec_fn(Seq<char>) -> bool>,
)
    requires
        shows(old(shown)@, listing, named),
    ensures
        shows(
            final(shown)@,
            listing + list_listing(sets.deep_view(), otherwise@, path.deep_view()),
            |c: Seq<char>|
                named(c) || exists|i: int|
                    0 <= i < sets@.len() && own_category(
                        #[trigger] sets.deep_view()[i],
                        otherwise@,
                    ) == c,
        ),
{
    let ghost full = list_listing(sets.deep_view(), otherwise@, path.deep_view());
    let ghost mut names = named;
    let mut i: usize = 0;
    assert(listing + full.take(0) =~= listing);
    while i < sets.len()
        invariant
            i <= sets@.len(),
            full == list_listing(sets.deep_view(), otherwise@, path.deep_view()),
            shows(shown@, listing + full.take(i as int), names),
            forall|c: Seq<char>| #[trigger]
                names(c) <==> named(c) || exists|j: int|
                    0 <= j < i && own_category(#[trigger] sets.deep_view()[j], otherwise@) == c,
        decreases sets@.len() - i,
    {
        let mut set = sets[i].clone();
        let category = match &sets[i].category {
            Some(c) => c.clone(),
            None => otherwise.to_owned(),
        };
        set.category = Some(category.clone());
        set.path = path.clone();
        set.idx = Some(i);
        proof {
            assert(set@ =~= full[i as int]);
            assert((listing + full.take(i as int)).push(set@) =~= listing + full.take(i + 1));
        }
        let ghost before = names;
        add_set(shown, &category, set, Ghost(listing + full.take(i as int)), Ghost(names));
        proof {
            names = |c: Seq<char>| before(c) || c == category@;
            assert(own_category(sets.deep_view()[i as int], otherwise@) == category@);
            assert forall|c: Seq<char>| #[trigger]
                names(c) <==> named(c) || exists|j: int|
                    0 <= j < i + 1 && own_category(#[trigger] sets.deep_view()[j], otherwise@)
                        == c by {
                if before(c) {
                    if !named(c) {
                        let j = choose|j: int|
                            0 <= j < i && own_category(
                                #[trigger] sets.deep_view()[j],
                                otherwise@,
                            ) == c;
                        assert(0 <= j < i + 1);
                    }
                }
            }
        }
        i += 1;
    }
    assert(full.take(sets@.len() as int) =~= full);
}

fn show_category(
    shown: &mut NameMap<Vec<Arc<MarkerSet>>>,
    category: &MarkerCategory,
    path: &Option<String>,
    Ghost(listing): Ghost<Seq<MarkerSetView>>,
    Ghost(named): Ghost<spec_fn(Seq<char>) -> bool>,
)
    requires
        shows(old(shown)@, listing, named),
    ensures
        shows(
            final(shown)@,
            listing + category_listing(category@, path.deep_view()),
            |c: Seq<char>| named(c) || c == category.name@,
        ),
{
    let ghost full = category_listing(category@, path.deep_view());
    let ghost names = |c: Seq<char>| named(c) || c == category.name@;
    touch(shown, &category.name, Ghost(listing), Ghost(named));
    let mut i: usize = 0;
    assert(listing + full.take(0) =~= listing);
    while i < category.marker_sets.len()
        invariant
            i <= category.marker_sets@.len(),
            full == category_listing(category@, path.deep_view()),
            names == (|c: Seq<char>| named(c) || c == category.name@),
            shows(shown@, listing + full.take(i as int), names),
        decreases category.marker_sets@.len() - i,
    {
        let mut set = category.marker_sets[i].clone();
        set.category = Some(category.name.clone());
        set.path = path.clone();
        set.idx = Some(i);
        proof {
            assert(set@ =~= full[i as int]);
            assert((listing + full.take(i as int)).push(set@) =~= listing + full.take(i + 1));
        }
        add_set(shown, &category.name, set, Ghost(listing + full.take(i as int)), Ghost(names));
        i += 1;
    }
    assert(full.take(category.marker_sets@.len() as int) =~= full);
}

fn show_pack(
    shown: &mut NameMap<Vec<Arc<MarkerSet>>>,
    pack: &RuntimeMarkers,
    Ghost(listing): Ghost<Seq<MarkerSetView>>,
    Ghost(named): Ghost<spec_fn(Seq<char>) -> bool>,
)
    requires
        shows(old(shown)@, listing, named),
    ensures
        shows(
            final(shown)@,
            listing + pack_listing(pack@),
            |c: Seq<char>| named(c) || pack_names(pack@, c),
        ),
{
    match &pack.file {
        MarkerFormats::Community(f) => {
            let ghost cats = f.categories.deep_view();
            let ghost mut names = named;
            let mut i: usize = 0;
            assert(listing + categories_listing(cats, pack@.path, 0) =~= listing);
            while i < f.categories.len()
                invariant
                    i <= f.categories@.len(),
                    cats == f.categories.deep_view(),
                    shows(
                        shown@,
                        listing + categories_listing(cats, pack.path.deep_view(), i as nat),
                        names,
                    ),
                    forall|c: Seq<char>| #[trigger]
                        names(c) <==> named(c) || exists|j: int|
                            0 <= j < i && #[trigger] cats[j].name == c,
                decreases f.categories@.len() - i,
            {
                let ghost so_far = listing + categories_listing(
                    cats,
                    pack.path.deep_view(),
                    i as nat,
                );
                let ghost before = names;
                show_category(shown, &f.categories[i], &pack.path, Ghost(so_far), Ghost(names));
                proof {
                    assert(cats[i as int] == f.categories@[i as int]@);
                    assert(so_far + category_listing(cats[i as int], pack.path.deep_view())
                        =~= listing + categories_listing(
                        cats,
                        pack.path.deep_view(),
                        (i + 1) as nat,
                    ));
                    names = |c: Seq<char>| before(c) || c == cats[i as int].name;
                    assert forall|c: Seq<char>| #[trigger]
                        names(c) <==> named(c) || exists|j: int|
                            0 <= j < i + 1 && #[trigger] cats[j].name == c by {
                        if before(c) && !named(c) {
                            let j = choose|j: int| 0 <= j < i && #[trigger] cats[j].name == c;
                            assert(0 <= j < i + 1);
                        }
                    }
                }
                i += 1;
            }
        },
        MarkerFormats::Taimi(t) => {
            show_list(shown, t, "No category", &pack.path, Ghost(listing), Ghost(named));
        },
        MarkerFormats::Integrated(c) => {
            show_list(
                shown,
                &c.squad_marker_preset,
                "Integrated",
                &pack.path,
                Ghost(listing),
                Ghost(named),
            );
        },
    }
}

impl RuntimeMarkers {
    /// The sets of all files, by the category that they are shown under. Each set knows that
    /// category, its file and its place there.
    pub fn markers(marker_packs: &Vec<Arc<RuntimeMarkers>>) -> (r: NameMap<Vec<Arc<MarkerSet>>>)
        ensures
            forall|c: Seq<char>| #[trigger]
                r@.contains_key(c) <==> packs_name(
                    marker_packs.deep_view(),
                    marker_packs@.len(),
                    c,
                ),
            forall|c: Seq<char>| #[trigger]
                r@.contains_key(c) ==> r@[c].deep_view() == of_category(
                    packs_listing(marker_packs.deep_view(), marker_packs@.len()),
                    c,
                ),
    {
        let ghost packs = marker_packs.deep_view();
        let mut shown: NameMap<Vec<Arc<MarkerSet>>> = NameMap::new();
        let ghost mut names = |c: Seq<char>| false;
        let mut i: usize = 0;
        while i < marker_packs.len()
            invariant
                i <= marker_packs@.len(),
                packs == marker_packs.deep_view(),
                shows(shown@, packs_listing(packs, i as nat), names),
                forall|c: Seq<char>| #[trigger] names(c) <==> packs_name(packs, i as nat, c),
            decreases marker_packs@.len() - i,
        {
            let ghost before = names;
            show_pack(
                &mut shown,
                &marker_packs[i],
                Ghost(packs_listing(packs, i as nat)),
                Ghost(names),
            );
            proof {
                assert(packs[i as int] == marker_packs@[i as int]@);
                names = |c: Seq<char>| before(c) || pack_names(packs[i as int], c);
                assert forall|c: Seq<char>| #[trigger]
                    names(c) <==> packs_name(packs, (i + 1) as nat, c) by {
                    if before(c) {
                        let j = choose|j: int| 0 <= j < i && pack_names(#[trigger] packs[j], c);
                        assert(0 <= j < i + 1);
                    }
                    if packs_name(packs, (i + 1) as nat, c) && !pack_names(packs[i as int], c) {
                        let j = choose|j: int| 0 <= j < i + 1 && pack_names(#[trigger] packs[j], c);
                        assert(j < i);
                    }
                }
            }
            i += 1;
        }
        shown
    }
}

/// Whether a list has a set equal to the given one.
pub open spec fn has_same(list: Seq<MarkerSetView>, set: MarkerSetView) -> bool {
    exists|i: int| 0 <= i < list.len() && #[trigger] list[i].canon() == set.canon()
}

/// Whether no two sets of a list are equal.
pub open spec fn all_distinct(list: Seq<MarkerSetView>) -> bool {
    forall|i: int, j: int|
        0 <= i < j < list.len() ==> #[trigger] list[i].canon() != #[trigger] list[j].canon()
}

/// Whether a list has a set equal to the given one.
pub fn holds_same(list: &Vec<Arc<MarkerSet>>, set: &MarkerSet) -> (r: bool)
    ensures
        r == has_same(list.deep_view(), set@),
{
    let mut i: usize = 0;
    while i < list.len()
        invariant
            i <= list@.len(),
            forall|j: int| 0 <= j < i ==> #[trigger] list.deep_view()[j].canon() != set@.canon(),
        decreases list@.len() - i,
    {
        if list[i].same(set) {
            assert(list.deep_view()[i as int].canon() == set@.canon());
            return true;
        }
        i += 1;
    }
    false
}

/// The sets under the first `n` categories of a map, one category after the other.
pub open spec fn flat_sets(markers: &NameMap<Vec<Arc<MarkerSet>>>, n: nat) -> Seq<MarkerSetView>
    decreases n,
{
    if n == 0 {
        Seq::empty()
    } else {
        flat_sets(markers, (n - 1) as nat) + markers@[markers.names()[n - 1]].deep_view()
    }
}

/// `index` gives, for each map id that a set of the list has, the sets with that id, equal ones
/// once.
pub open spec fn indexes(
    index: Map<u32, Vec<Arc<MarkerSet>>>,
    sets: Seq<MarkerSetView>,
) -> bool {
    &&& forall|id: u32| #[trigger]
        index.contains_key(id) <==> exists|k: int|
            0 <= k < sets.len() && #[trigger] sets[k].map_id == id
    &&& forall|id: u32| #[trigger]
        index.contains_key(id) ==> all_distinct(index[id].deep_view()) && forall|i: int|
            0 <= i < index[id]@.len() ==> {
                let e = #[trigger] index[id].deep_view()[i];
                e.map_id == id && sets.contains(e)
            }
    &&& forall|k: int|
        0 <= k < sets.len() ==> has_same(
            index[#[trigger] sets[k].map_id].deep_view(),
            sets[k],
        )
}

fn index_set(
    index: &mut HashMap<u32, Vec<Arc<MarkerSet>>>,
    set: &Arc<MarkerSet>,
    Ghost(sets): Ghost<Seq<MarkerSetView>>,
)
    requires
        indexes(old(index)@, sets),
    ensures
        indexes(final(index)@, sets.push(set@)),
{
    broadcast use vstd::std_specs::hash::group_hash_axioms;

    let id = set.map_id;
    let mut list: Vec<Arc<MarkerSet>> = match index.remove(&id) {
        Some(l) => l,
        None => Vec::new(),
    };
    let ghost before = list.deep_view();
    proof {
        if !old(index)@.contains_key(id) {
            assert(before =~= Seq::<MarkerSetView>::empty());
        }
    }
    if !holds_same(&list, set) {
        list.push(set.clone());
        assert(list.deep_view() =~= before.push(set@));
    }
    let ghost after = list.deep_view();
    index.insert(id, list);
    proof {
        let more = sets.push(set@);
        assert(more[sets.len() as int] == set@);
        assert forall|k: u32| #[trigger]
            index@.contains_key(k) <==> exists|j: int|
                0 <= j < more.len() && #[trigger] more[j].map_id == k by {
            if k == id {
                assert(more[sets.len() as int].map_id == k);
            } else {
                assert(index@.contains_key(k) <==> old(index)@.contains_key(k));
                if old(index)@.contains_key(k) {
                    let j = choose|j: int| 0 <= j < sets.len() && #[trigger] sets[j].map_id == k;
                    assert(more[j].map_id == k);
                }
                if exists|j: int| 0 <= j < more.len() && #[trigger] more[j].map_id == k {
                    let j = choose|j: int| 0 <= j < more.len() && #[trigger] more[j].map_id == k;
                    assert(sets[j].map_id == k);
                }
            }
        }
        assert forall|k: u32| #[trigger] index@.contains_key(k) implies all_distinct(
            index@[k].deep_view(),
        ) && forall|i: int|
            0 <= i < index@[k]@.len() ==> {
                let e = #[trigger] index@[k].deep_view()[i];
                e.map_id == k && more.contains(e)
            } by {
            if k == id {
                assert(index@[k].deep_view() == after);
                assert forall|i: int| 0 <= i < after.len() implies (#[trigger] after[i]).map_id == k
                    && more.contains(after[i]) by {
                    if i < before.len() {
                        assert(after[i] == old(index)@[k].deep_view()[i]);
                        let j = choose|j: int| 0 <= j < sets.len() && sets[j] == after[i];
                        assert(more[j] == after[i]);
                    } else {
                        assert(more[sets.len() as int] == after[i]);
                    }
                }
            } else {
                assert(old(index)@.contains_key(k));
                assert forall|i: int| 0 <= i < index@[k]@.len() implies more.contains(
                    #[trigger] index@[k].deep_view()[i],
                ) by {
                    let e = old(index)@[k].deep_view()[i];
                    let j = choose|j: int| 0 <= j < sets.len() && sets[j] == e;
                    assert(more[j] == e);
                }
            }
        }
        assert forall|j: int| 0 <= j < more.len() implies has_same(
            index@[#[trigger] more[j].map_id].deep_view(),
            more[j],
        ) by {
            if j < sets.len() {
                assert(more[j] == sets[j]);
                assert(has_same(old(index)@[sets[j].map_id].deep_view(), sets[j]));
                if sets[j].map_id == id {
                    let m = choose|m: int|
                        0 <= m < before.len() && #[trigger] before[m].canon() == sets[j].canon();
                    assert(after[m].canon() == sets[j].canon());
                }
            } else if has_same(before, set@) {
                let m = choose|m: int|
                    0 <= m < before.len() && #[trigger] before[m].canon() == set@.canon();
                assert(after[m].canon() == set@.canon());
            } else {
                assert(after[before.len() as int].canon() == set@.canon());
            }
        }
    }
}

/// The sets of all categories, by map.
pub fn index_by_map(markers: &NameMap<Vec<Arc<MarkerSet>>>) -> (r: HashMap<
    u32,
    Vec<Arc<MarkerSet>>,
>)
    ensures
        indexes(r@, flat_sets(markers, markers.names().len())),
{
    broadcast use vstd::std_specs::hash::group_hash_axioms;

    let mut index: HashMap<u32, Vec<Arc<MarkerSet>>> = HashMap::new();
    let n = markers.len();
    let mut i: usize = 0;
    while i < n
        invariant
            i <= n,
            n == markers.names().len(),
            indexes(index@, flat_sets(markers, i as nat)),
        decreases n - i,
    {
        let (_, list) = markers.entry_at(i);
        let ghost so_far = flat_sets(markers, i as nat);
        let mut j: usize = 0;
        assert(so_far + list.deep_view().take(0) =~= so_far);
        while j < list.len()
            invariant
                j <= list@.len(),
                indexes(index@, so_far + list.deep_view().take(j as int)),
            decreases list@.len() - j,
        {
            index_set(&mut index, &list[j], Ghost(so_far + list.deep_view().take(j as int)));
            proof {
                assert((so_far + list.deep_view().take(j as int)).push(list@[j as int]@)
                    =~= so_far + list.deep_view().take(j + 1));
            }
            j += 1;
        }
        assert(list.deep_view().take(list@.len() as int) =~= list.deep_view());
        i += 1;
    }
    index
}

} // verus!

//! Where each set of each file is listed, and under what.
#[allow(unused_imports)]
use crate::marker_file::{MarkerFormatsView, RuntimeMarkers, RuntimeMarkersView};
#[allow(unused_imports)]
use crate::marker_laws::{law_listing_is_complete, law_listing_of_files, set_count, sets_in, sets_of_files};
#[allow(unused_imports)]
use crate::marker_listing::{
    all_distinct, categories_listing, category_listing, flat_sets, has_same, indexes, of_category,
    own_category, pack_listing, pack_names, packs_listing, packs_name,
};
#[allow(unused_imports)]
use crate::marker_file::MarkerCategoryView;
#[allow(unused_imports)]
use crate::marker_loading::{count_of, loaded_files, LoadOutcome};
#[allow(unused_imports)]
use crate::marker_set::{MarkerSet, MarkerSetView};
use crate::name_map::NameMap;
#[allow(unused_imports)]
use crate::picks::{
    keeps_just, lemma_filter_keeps, lemma_keeps_more, lemma_keeps_none, lemma_keeps_same,
};
use std::sync::Arc;
use vstd::prelude::*;

verus! {

/// `listed` is a set of a file as it is listed: the set with all that it holds, under a category,
/// with its file and its place there.
pub open spec fn is_listed_as(
    listed: MarkerSetView,
    set: MarkerSetView,
    category: Seq<char>,
    path: Option<Seq<char>>,
    idx: int,
) -> bool {
    &&& listed.enabled == set.enabled
    &&& listed.author == set.author
    &&& listed.name == set.name
    &&& listed.description == set.description
    &&& listed.map_id == set.map_id
    &&& listed.trigger == set.trigger
    &&& listed.markers == set.markers
    &&& listed.category == Some(category)
    &&& listed.path == path
    &&& listed.idx == Some(idx as usize)
}

proof fn lemma_listed_at(
    categories: Seq<MarkerCategoryView>,
    path: Option<Seq<char>>,
    n: nat,
    c: int,
    i: int,
)
    requires
        0 <= c < n <= categories.len(),
        0 <= i < categories[c].marker_sets.len(),
    ensures
        categories_listing(categories, path, n).len() == sets_in(categories, n),
        sets_in(categories, c as nat) + i < sets_in(categories, n),
        is_listed_as(
            categories_listing(categories, path, n)[sets_in(categories, c as nat) + i],
            categories[c].marker_sets[i],
            categories[c].name,
            path,
            i,
        ),
    decreases n,
{
    lemma_listing_is_long(categories, path, (n - 1) as nat);
    lemma_listing_is_long(categories, path, n);
    if c < n - 1 {
        lemma_listed_at(categories, path, (n - 1) as nat, c, i);
    }
}

proof fn lemma_listing_is_long(categories: Seq<MarkerCategoryView>, path: Option<Seq<char>>, n: nat)
    requires
        n <= categories.len(),
    ensures
        categories_listing(categories, path, n).len() == sets_in(categories, n),
    decreases n,
{
    if n > 0 {
        lemma_listing_is_long(categories, path, (n - 1) as nat);
    }
}

/// Every set of a file with categories is listed under its category, behind the sets of the
/// categories before and behind those before it in its own.
pub proof fn law_sets_of_categories_are_listed(pack: RuntimeMarkersView, c: int, i: int)
    requires
        pack.file is Community,
        0 <= c < pack.file->categories.len(),
        0 <= i < pack.file->categories[c].marker_sets.len(),
    ensures
        ({
            let categories = pack.file->categories;
            let k = sets_in(categories, c as nat) + i;
            &&& k < pack_listing(pack).len()
            &&& is_listed_as(
                pack_listing(pack)[k],
                categories[c].marker_sets[i],
                categories[c].name,
                pack.path,
                i,
            )
        }),
{
    lemma_listed_at(pack.file->categories, pack.path, pack.file->categories.len(), c, i);
}

/// Every set of a file without categories is listed at its own place, under its own category, or
/// else under the one that the form has for such sets.
pub proof fn law_sets_of_lists_are_listed(pack: RuntimeMarkersView, sets: Seq<MarkerSetView>, i: int)
    requires
        match pack.file {
            MarkerFormatsView::Community { .. } => false,
            MarkerFormatsView::Integrated { sets: s, .. } => sets == s,
            MarkerFormatsView::Taimi { sets: s } => sets == s,
        },
        0 <= i < sets.len(),
    ensures
        pack_listing(pack).len() == sets.len(),
        is_listed_as(
            pack_listing(pack)[i],
            sets[i],
            if sets[i].category is Some {
                sets[i].category->0
            } else if pack.file is Taimi {
                "No category"@
            } else {
                "Integrated"@
            },
            pack.path,
            i,
        ),
{
}

/// What is shown under a category is just what is listed under it, in the order of the listing.
pub proof fn law_shown_in_order(listing: Seq<MarkerSetView>, category: Seq<char>)
    ensures
        keeps_just(
            of_category(listing, category),
            listing,
            listing.len() as int,
            |i: int| listing[i].category == Some(category),
        ),
{
    let mine = |s: MarkerSetView| s.category == Some(category);
    lemma_filter_keeps(listing, mine);
    lemma_keeps_same(
        of_category(listing, category),
        listing,
        listing.len() as int,
        |i: int| mine(listing[i]),
        |i: int| listing[i].category == Some(category),
    );
}

/// A category is shown just where a file has one of its name, even without sets, or has a set that
/// is listed under it.
pub proof fn law_categories_that_are_shown(
    packs: Seq<RuntimeMarkersView>,
    n: nat,
    category: Seq<char>,
)
    ensures
        packs_name(packs, n, category) <==> exists|k: int|
            {
                &&& 0 <= k < n
                &&& match (#[trigger] packs[k]).file {
                    MarkerFormatsView::Community { categories, .. } => exists|c: int|
                        0 <= c < categories.len() && #[trigger] categories[c].name == category,
                    MarkerFormatsView::Integrated { sets, .. } => exists|i: int|
                        0 <= i < sets.len() && ((#[trigger] sets[i]).category == Some(category) || (
                        sets[i].category is None && category == "Integrated"@)),
                    MarkerFormatsView::Taimi { sets } => exists|i: int|
                        0 <= i < sets.len() && ((#[trigger] sets[i]).category == Some(category) || (
                        sets[i].category is None && category == "No category"@)),
                }
            },
{
    assert forall|k: int| #[trigger] pack_names(packs[k], category) == match packs[k].file {
        MarkerFormatsView::Community { categories, .. } => exists|c: int|
            0 <= c < categories.len() && #[trigger] categories[c].name == category,
        MarkerFormatsView::Integrated { sets, .. } => exists|i: int|
            0 <= i < sets.len() && ((#[trigger] sets[i]).category == Some(category) || (
            sets[i].category is None && category == "Integrated"@)),
        MarkerFormatsView::Taimi { sets } => exists|i: int|
            0 <= i < sets.len() && ((#[trigger] sets[i]).category == Some(category) || (
            sets[i].category is None && category == "No category"@)),
    } by {
        lemma_pack_names(packs[k], category);
    }
    if packs_name(packs, n, category) {
        let k = choose|k: int| 0 <= k < n && pack_names(#[trigger] packs[k], category);
        assert(pack_names(packs[k], category));
    }
}

proof fn lemma_pack_names(pack: RuntimeMarkersView, category: Seq<char>)
    ensures
        pack_names(pack, category) == match pack.file {
            MarkerFormatsView::Community { categories, .. } => exists|c: int|
                0 <= c < categories.len() && #[trigger] categories[c].name == category,
            MarkerFormatsView::Integrated { sets, .. } => exists|i: int|
                0 <= i < sets.len() && ((#[trigger] sets[i]).category == Some(category) || (
                sets[i].category is None && category == "Integrated"@)),
            MarkerFormatsView::Taimi { sets } => exists|i: int|
                0 <= i < sets.len() && ((#[trigger] sets[i]).category == Some(category) || (
                sets[i].category is None && category == "No category"@)),
        },
{
    match pack.file {
        MarkerFormatsView::Integrated { sets, .. } => {
            assert forall|i: int| 0 <= i < sets.len() implies (own_category(
                #[trigger] sets[i],
                "Integrated"@,
            ) == category) == (sets[i].category == Some(category) || (sets[i].category is None
                && category == "Integrated"@)) by {}
        },
        MarkerFormatsView::Taimi { sets } => {
            assert forall|i: int| 0 <= i < sets.len() implies (own_category(
                #[trigger] sets[i],
                "No category"@,
            ) == category) == (sets[i].category == Some(category) || (sets[i].category is None
                && category == "No category"@)) by {}
        },
        _ => {},
    }
}

/// Whatever is listed for a file is shown: under its category, as it is listed.
pub proof fn law_everything_listed_is_shown(
    packs: &Vec<Arc<RuntimeMarkers>>,
    shown: NameMap<Vec<Arc<MarkerSet>>>,
    k: int,
    i: int,
)
    requires
        call_ensures(RuntimeMarkers::markers, (packs,), shown),
        0 <= k < packs@.len(),
        0 <= i < pack_listing(packs.deep_view()[k]).len(),
    ensures
        ({
            let listed = pack_listing(packs.deep_view()[k])[i];
            &&& listed.category is Some
            &&& shown@.contains_key(listed.category->0)
            &&& shown@[listed.category->0].deep_view().contains(listed)
        }),
{
    let all = packs.deep_view();
    let n = packs@.len();
    let listing = packs_listing(all, n);
    law_listing_of_files(all, n, k);
    law_listing_is_complete(all[k]);
    lemma_listing_grows(all, (k + 1) as nat, n);
    let listed = pack_listing(all[k])[i];
    let from = sets_of_files(all, k as nat) as int;
    let at = from + i;
    let mine = listing.subrange(from, sets_of_files(all, (k + 1) as nat) as int);
    assert(mine[i] == listing[at]);
    lemma_listed_names(all[k], i);
    let category = listed.category->0;
    assert(pack_names(all[k], category));
    assert(packs_name(all, n, category));
    assert(shown@.contains_key(category));
    listing.lemma_filter_contains(|s: MarkerSetView| s.category == Some(category), at);
}

proof fn lemma_listing_grows(packs: Seq<RuntimeMarkersView>, m: nat, n: nat)
    requires
        m <= n,
    ensures
        sets_of_files(packs, m) <= sets_of_files(packs, n),
    decreases n,
{
    if m < n {
        lemma_listing_grows(packs, m, (n - 1) as nat);
    }
}

proof fn lemma_listed_names(pack: RuntimeMarkersView, i: int)
    requires
        0 <= i < pack_listing(pack).len(),
    ensures
        pack_listing(pack)[i].category is Some,
        pack_names(pack, pack_listing(pack)[i].category->0),
{
    match pack.file {
        MarkerFormatsView::Community { categories, .. } => {
            lemma_listed_category(categories, pack.path, categories.len(), i);
        },
        MarkerFormatsView::Integrated { sets, .. } => {
            assert(own_category(sets[i], "Integrated"@) == pack_listing(pack)[i].category->0);
        },
        MarkerFormatsView::Taimi { sets } => {
            assert(own_category(sets[i], "No category"@) == pack_listing(pack)[i].category->0);
        },
    }
}

proof fn lemma_listed_category(
    categories: Seq<MarkerCategoryView>,
    path: Option<Seq<char>>,
    n: nat,
    i: int,
)
    requires
        n <= categories.len(),
        0 <= i < categories_listing(categories, path, n).len(),
    ensures
        categories_listing(categories, path, n)[i].category is Some,
        exists|c: int|
            0 <= c < n && #[trigger] categories[c].name == categories_listing(
                categories,
                path,
                n,
            )[i].category->0,
    decreases n,
{
    let before = categories_listing(categories, path, (n - 1) as nat);
    if i < before.len() {
        lemma_listed_category(categories, path, (n - 1) as nat, i);
        let c = choose|c: int|
            0 <= c < n - 1 && #[trigger] categories[c].name == before[i].category->0;
        assert(categories[c].name == categories_listing(categories, path, n)[i].category->0);
    } else {
        let own = category_listing(categories[n - 1], path);
        assert(categories_listing(categories, path, n)[i] == own[i - before.len()]);
        assert(categories[n - 1].name == own[i - before.len()].category->0);
    }
}

/// Sets are found by map: under a map's number stand sets for that map only, each of them a known
/// one and no two the same, and every known set, or one that is the same, is found under the number
/// of its map.
pub proof fn law_sets_are_found_by_map(
    index: Map<u32, Vec<Arc<MarkerSet>>>,
    sets: Seq<MarkerSetView>,
)
    requires
        indexes(index, sets),
    ensures
        forall|k: int|
            0 <= k < sets.len() ==> index.contains_key((#[trigger] sets[k]).map_id) && exists|i: int|
                0 <= i < index[sets[k].map_id]@.len() && #[trigger] index[sets[k].map_id].deep_view()[i].canon()
                    == sets[k].canon(),
        forall|id: u32, i: int|
            index.contains_key(id) && 0 <= i < index[id]@.len() ==> {
                let set = #[trigger] index[id].deep_view()[i];
                set.map_id == id && sets.contains(set)
            },
        forall|id: u32, i: int, j: int|
            index.contains_key(id) && 0 <= i < j < index[id]@.len()
                ==> #[trigger] index[id].deep_view()[i].canon()
                != #[trigger] index[id].deep_view()[j].canon(),
        forall|id: u32| #[trigger]
            index.contains_key(id) ==> exists|k: int|
                0 <= k < sets.len() && #[trigger] sets[k].map_id == id,
{
    assert forall|k: int| 0 <= k < sets.len() implies index.contains_key((
    #[trigger] sets[k]).map_id) && exists|i: int|
        0 <= i < index[sets[k].map_id]@.len() && #[trigger] index[sets[k].map_id].deep_view()[i].canon()
            == sets[k].canon() by {
        assert(has_same(index[sets[k].map_id].deep_view(), sets[k]));
        assert(index.contains_key(sets[k].map_id));
        let list = index[sets[k].map_id].deep_view();
        let i = choose|i: int| 0 <= i < list.len() && #[trigger] list[i].canon() == sets[k].canon();
        assert(index[sets[k].map_id].deep_view()[i].canon() == sets[k].canon());
    }
}

/// A list has a set that is the same as a given one just where one of its sets is.
pub proof fn law_has_the_same_set(list: Seq<MarkerSetView>, set: MarkerSetView)
    ensures
        has_same(list, set) <==> exists|i: int|
            0 <= i < list.len() && #[trigger] list[i].canon() == set.canon(),
{
}

/// The known sets are those of every category, all of them.
pub proof fn law_known_sets_are_of_every_category(
    markers: &NameMap<Vec<Arc<MarkerSet>>>,
    n: nat,
    c: int,
    i: int,
)
    requires
        n <= markers.names().len(),
        0 <= c < n,
        0 <= i < markers@[markers.names()[c]]@.len(),
    ensures
        flat_sets(markers, n).contains(markers@[markers.names()[c]].deep_view()[i]),
    decreases n,
{
    let before = flat_sets(markers, (n - 1) as nat);
    let all = flat_sets(markers, n);
    let set = markers@[markers.names()[c]].deep_view()[i];
    if c < n - 1 {
        law_known_sets_are_of_every_category(markers, (n - 1) as nat, c, i);
        let k = choose|k: int| 0 <= k < before.len() && before[k] == set;
        assert(all[k] == set);
    } else {
        assert(all[before.len() + i] == set);
    }
}

/// The files that were loaded are gathered in the order in which they came, and none that failed
/// is.
pub proof fn law_loaded_files_are_gathered(outcomes: Seq<LoadOutcome>)
    ensures
        keeps_just(
            loaded_files(outcomes),
            Seq::new(outcomes.len(), |i: int| outcomes[i]->Loaded_0),
            outcomes.len() as int,
            |i: int| outcomes[i] is Loaded,
        ),
{
    lemma_loaded_first(outcomes, outcomes.len() as int);
    assert(outcomes.take(outcomes.len() as int) =~= outcomes);
}

proof fn lemma_loaded_first(outcomes: Seq<LoadOutcome>, n: int)
    requires
        0 <= n <= outcomes.len(),
    ensures
        keeps_just(
            loaded_files(outcomes.take(n)),
            Seq::new(outcomes.len(), |i: int| outcomes[i]->Loaded_0),
            n,
            |i: int| outcomes[i] is Loaded,
        ),
    decreases n,
{
    let all = Seq::new(outcomes.len(), |i: int| outcomes[i]->Loaded_0);
    let which = |i: int| outcomes[i] is Loaded;
    if n == 0 {
        lemma_keeps_none(all, which);
    } else {
        lemma_loaded_first(outcomes, n - 1);
        assert(outcomes.take(n).drop_last() =~= outcomes.take(n - 1));
        assert(outcomes.take(n).last() == outcomes[n - 1]);
        lemma_keeps_more(loaded_files(outcomes.take(n - 1)), all, n - 1, which);
    }
}

/// Outcomes are counted: as many as there are places at which the condition holds.
pub proof fn law_outcomes_are_counted(outcomes: Seq<LoadOutcome>, which: spec_fn(LoadOutcome) -> bool)
    ensures
        count_of(outcomes, which) == outcomes.filter(which).len(),
        count_of(outcomes, which) <= outcomes.len(),
    decreases outcomes.len(),
{
    reveal(Seq::filter);
    if outcomes.len() > 0 {
        law_outcomes_are_counted(outcomes.drop_last(), which);
    }
}

} // verus!

//! What holds of marker files across several changes.
#[allow(unused_imports)]
use crate::clock::Timestamp;
#[allow(unused_imports)]
use crate::marker_file::{
    created, filing_category, first_category, has_category, is_first_category,
    lemma_first_category, with_filed, MarkerCategoryView, MarkerFiletype, MarkerFormatsView, RuntimeMarkersView,
};
#[allow(unused_imports)]
use crate::marker_listing::{
    categories_listing, category_listing, labelled, list_listing, of_category, own_category,
    pack_listing, packs_listing,
};
#[allow(unused_imports)]
use crate::marker_set::MarkerSetView;
use vstd::prelude::*;

verus! {

/// How many sets the first `n` categories hold.
pub open spec fn sets_in(categories: Seq<MarkerCategoryView>, n: nat) -> nat
    decreases n,
{
    if n == 0 {
        0
    } else {
        sets_in(categories, (n - 1) as nat) + categories[n - 1].marker_sets.len()
    }
}

/// How many sets a file holds.
pub open spec fn set_count(file: MarkerFormatsView) -> nat {
    match file {
        MarkerFormatsView::Community { categories, .. } => sets_in(categories, categories.len()),
        MarkerFormatsView::Integrated { sets, .. } => sets.len(),
        MarkerFormatsView::Taimi { sets } => sets.len(),
    }
}

/// A file of a form that holds nothing yet.
pub open spec fn empty_file(
    path: Seq<char>,
    format: MarkerFiletype,
    edited: Timestamp,
) -> RuntimeMarkersView {
    RuntimeMarkersView {
        path: Some(path),
        file: match format {
            MarkerFiletype::Community => MarkerFormatsView::Community {
                last_edit: edited,
                path: Some(path),
                categories: Seq::empty(),
            },
            MarkerFiletype::Taimi => MarkerFormatsView::Taimi { sets: Seq::empty() },
            MarkerFiletype::Integrated => MarkerFormatsView::Integrated {
                version: "2.0.0"@,
                path: Some(path),
                sets: Seq::empty(),
            },
        },
    }
}

/// Whether no two categories of a file have the same name.
pub open spec fn categories_apart(file: MarkerFormatsView) -> bool {
    match file {
        MarkerFormatsView::Community { categories, .. } => forall|i: int, j: int|
            0 <= i < j < categories.len() ==> #[trigger] categories[i].name
                != #[trigger] categories[j].name,
        _ => true,
    }
}

proof fn lemma_has_first(categories: Seq<MarkerCategoryView>, name: Seq<char>, i: int)
    requires
        0 <= i < categories.len(),
        categories[i].name == name,
    ensures
        is_first_category(categories, name, first_category(categories, name)),
    decreases i,
{
    if exists|j: int| 0 <= j < i && #[trigger] categories[j].name == name {
        let j = choose|j: int| 0 <= j < i && #[trigger] categories[j].name == name;
        lemma_has_first(categories, name, j);
    } else {
        assert(is_first_category(categories, name, i));
    }
}

proof fn lemma_located(file: MarkerFormatsView, category: Option<Seq<char>>)
    requires
        file.locate(category) is Ok,
        file is Community,
    ensures
        file.locate(category)->Ok_0 is Some,
        is_first_category(
            file->categories,
            category->0,
            file.locate(category)->Ok_0->0,
        ),
{
    let categories = file->categories;
    let i = choose|i: int| 0 <= i < categories.len() && #[trigger] categories[i].name == category->0;
    lemma_has_first(categories, category->0, i);
}

// Names of categories do not change with their sets, and so neither does what is found.
proof fn lemma_same_names(
    a: Seq<MarkerCategoryView>,
    b: Seq<MarkerCategoryView>,
    name: Seq<char>,
)
    requires
        a.len() == b.len(),
        forall|i: int| 0 <= i < a.len() ==> #[trigger] a[i].name == #[trigger] b[i].name,
        has_category(a, name),
    ensures
        has_category(b, name),
        first_category(b, name) == first_category(a, name),
        is_first_category(b, name, first_category(a, name)),
{
    let i = choose|i: int| 0 <= i < a.len() && #[trigger] a[i].name == name;
    lemma_has_first(a, name, i);
    let f = first_category(a, name);
    assert(a[f].name == b[f].name);
    assert forall|j: int| 0 <= j < f implies #[trigger] b[j].name != name by {
        assert(a[j].name == b[j].name);
    }
    lemma_first_category(b, name, f);
}

/// A set that was added is found last under its category, behind the sets that were there.
pub proof fn law_appended_is_found(file: MarkerFormatsView, set: MarkerSetView, now: Timestamp)
    ensures
        ({
            let category = Some(filing_category(set));
            let after = file.appended(set, now);
            &&& after.locate(category) is Ok
            &&& after.sets(after.locate(category)->Ok_0) == (match file.locate(category) {
                Ok(spot) => file.sets(spot).push(set),
                Err(_) => seq![set],
            })
        }),
{
    let name = filing_category(set);
    let category = Some(name);
    match file {
        MarkerFormatsView::Community { categories, .. } => {
            let filed = with_filed(categories, set);
            if has_category(categories, name) {
                lemma_located(file, category);
                assert forall|i: int| 0 <= i < categories.len() implies #[trigger] categories[i].name
                    == #[trigger] filed[i].name by {}
                lemma_same_names(categories, filed, name);
            } else {
                let f = categories.len() as int;
                assert(filed[f].name == name);
                assert forall|j: int| 0 <= j < f implies #[trigger] filed[j].name != name by {
                    assert(filed[j] == categories[j]);
                    assert(categories[j].name != name);
                }
                lemma_first_category(filed, name, f);
            }
        },
        _ => {},
    }
}

/// Adding a set to a file with categories leaves the sets of every other category alone.
pub proof fn law_append_keeps_others(
    file: MarkerFormatsView,
    set: MarkerSetView,
    now: Timestamp,
    other: Seq<char>,
)
    requires
        file is Community,
        other != filing_category(set),
        file.locate(Some(other)) is Ok,
    ensures
        ({
            let after = file.appended(set, now);
            &&& after.locate(Some(other)) is Ok
            &&& after.sets(after.locate(Some(other))->Ok_0) == file.sets(
                file.locate(Some(other))->Ok_0,
            )
        }),
{
    let categories = file->categories;
    let name = filing_category(set);
    let filed = with_filed(categories, set);
    lemma_located(file, Some(other));
    let f = first_category(categories, other);
    if has_category(categories, name) {
        lemma_located(file, Some(name));
        assert forall|i: int| 0 <= i < categories.len() implies #[trigger] categories[i].name
            == #[trigger] filed[i].name by {}
        lemma_same_names(categories, filed, other);
    } else {
        assert(filed[f] == categories[f]);
        assert forall|j: int| 0 <= j < f implies #[trigger] filed[j].name != other by {
            assert(filed[j] == categories[j]);
            assert(categories[j].name != other);
        }
        lemma_first_category(filed, other, f);
    }
}

/// What is left of a file when a set is taken out that was just added: the file, edited, with the
/// set's category where it was missing.
pub open spec fn append_undone(
    file: MarkerFormatsView,
    set: MarkerSetView,
    now: Timestamp,
) -> MarkerFormatsView {
    match file {
        MarkerFormatsView::Community { path, categories, .. } => MarkerFormatsView::Community {
            last_edit: now,
            path,
            categories: if has_category(categories, filing_category(set)) {
                categories
            } else {
                categories.push(
                    MarkerCategoryView {
                        name: filing_category(set),
                        marker_sets: Seq::empty(),
                    },
                )
            },
        },
        _ => file,
    }
}

/// Taking a set out that was just added restores the file, but for the time of the edit and for a
/// category that had to be made, which stays and is empty.
pub proof fn law_remove_undoes_append(pack: RuntimeMarkersView, set: MarkerSetView, now: Timestamp)
    requires
        set_count(pack.file) < usize::MAX,
    ensures
        ({
            let category = Some(filing_category(set));
            let added = pack.appended(set, now);
            let spot = added.file.locate(category)->Ok_0;
            let last = (added.file.sets(spot).len() - 1) as usize;
            &&& added.file.locate(category) is Ok
            &&& added.without(spot, last) == RuntimeMarkersView {
                file: append_undone(pack.file, set, now),
                ..pack
            }
        }),
{
    let name = filing_category(set);
    let category = Some(name);
    let added = pack.appended(set, now);
    law_appended_is_found(pack.file, set, now);
    law_append_counts(pack.file, set, now);
    let spot = added.file.locate(category)->Ok_0;
    let sets = added.file.sets(spot);
    let last = (sets.len() - 1) as usize;
    match pack.file {
        MarkerFormatsView::Community { categories, .. } => {
            lemma_located(added.file, category);
            lemma_some_of_all(added.file->categories, spot->0);
            let undone = append_undone(pack.file, set, now)->categories;
            let after = added.without(spot, last).file->categories;
            assert(sets.remove(last as int) =~= sets.drop_last());
            if has_category(categories, name) {
                lemma_located(pack.file, category);
                let f = first_category(categories, name);
                assert forall|i: int| 0 <= i < categories.len() implies #[trigger] categories[i].name
                    == #[trigger] added.file->categories[i].name by {}
                lemma_same_names(categories, added.file->categories, name);
                assert(sets.drop_last() =~= categories[f].marker_sets);
            } else {
                assert(sets.drop_last() =~= Seq::empty());
                assert(spot->0 == categories.len()) by {
                    let k = spot->0;
                    if k < categories.len() {
                        assert(added.file->categories[k] == categories[k]);
                        assert(categories[k].name == name);
                    }
                }
            }
            assert(after =~= undone);
        },
        MarkerFormatsView::Integrated { sets: before, .. } => {
            assert(sets.remove(sets.len() - 1) =~= before);
        },
        MarkerFormatsView::Taimi { sets: before } => {
            assert(sets.remove(sets.len() - 1) =~= before);
        },
    }
}

/// A set that was put in the place of another is found there; the file holds as many sets as
/// before.
pub proof fn law_replaced_is_found(
    pack: RuntimeMarkersView,
    category: Option<Seq<char>>,
    idx: usize,
    set: MarkerSetView,
)
    requires
        pack.file.locate(category) is Ok,
        idx < pack.file.sets(pack.file.locate(category)->Ok_0).len(),
    ensures
        ({
            let spot = pack.file.locate(category)->Ok_0;
            let after = pack.replaced(spot, idx, set);
            &&& after.file.locate(category) == pack.file.locate(category)
            &&& after.file.sets(spot)[idx as int] == set
            &&& after.file.sets(spot).len() == pack.file.sets(spot).len()
            &&& forall|i: int|
                0 <= i < pack.file.sets(spot).len() && i != idx ==> #[trigger] after.file.sets(
                    spot,
                )[i] == pack.file.sets(spot)[i]
        }),
{
    let spot = pack.file.locate(category)->Ok_0;
    let after = pack.replaced(spot, idx, set);
    if pack.file is Community {
        lemma_located(pack.file, category);
        let a = pack.file->categories;
        let b = after.file->categories;
        assert forall|i: int| 0 <= i < a.len() implies #[trigger] a[i].name
            == #[trigger] b[i].name by {}
        lemma_same_names(a, b, category->0);
    }
}

proof fn lemma_some_of_all(categories: Seq<MarkerCategoryView>, i: int)
    requires
        0 <= i < categories.len(),
    ensures
        categories[i].marker_sets.len() <= sets_in(categories, categories.len()),
{
    lemma_some_of_first(categories, i, categories.len());
}

proof fn lemma_some_of_first(categories: Seq<MarkerCategoryView>, i: int, n: nat)
    requires
        0 <= i < n <= categories.len(),
    ensures
        categories[i].marker_sets.len() <= sets_in(categories, n),
    decreases n,
{
    if i < n - 1 {
        lemma_some_of_first(categories, i, (n - 1) as nat);
    }
}

proof fn lemma_count_update(categories: Seq<MarkerCategoryView>, i: int, c: MarkerCategoryView, n: nat)
    requires
        0 <= i < categories.len(),
        n <= categories.len(),
    ensures
        sets_in(categories.update(i, c), n) == sets_in(categories, n) + (if i < n {
            c.marker_sets.len() - categories[i].marker_sets.len()
        } else {
            0
        }),
    decreases n,
{
    if n > 0 {
        lemma_count_update(categories, i, c, (n - 1) as nat);
    }
}

proof fn lemma_count_prefix(a: Seq<MarkerCategoryView>, b: Seq<MarkerCategoryView>, n: nat)
    requires
        n <= a.len(),
        n <= b.len(),
        forall|i: int| 0 <= i < n ==> a[i] == b[i],
    ensures
        sets_in(a, n) == sets_in(b, n),
    decreases n,
{
    if n > 0 {
        lemma_count_prefix(a, b, (n - 1) as nat);
    }
}

/// Adding a set makes one more.
pub proof fn law_append_counts(file: MarkerFormatsView, set: MarkerSetView, now: Timestamp)
    ensures
        set_count(file.appended(set, now)) == set_count(file) + 1,
{
    match file {
        MarkerFormatsView::Community { categories, .. } => {
            let name = filing_category(set);
            if has_category(categories, name) {
                lemma_located(file, Some(name));
                let i = first_category(categories, name);
                let c = MarkerCategoryView {
                    marker_sets: categories[i].marker_sets.push(set),
                    ..categories[i]
                };
                lemma_count_update(categories, i, c, categories.len());
            } else {
                let filed = with_filed(categories, set);
                lemma_count_prefix(categories, filed, categories.len());
            }
        },
        _ => {},
    }
}

/// Taking a set out makes one less.
pub proof fn law_remove_counts(pack: RuntimeMarkersView, category: Option<Seq<char>>, idx: usize)
    requires
        pack.file.locate(category) is Ok,
        idx < pack.file.sets(pack.file.locate(category)->Ok_0).len(),
    ensures
        set_count(pack.without(pack.file.locate(category)->Ok_0, idx).file) + 1 == set_count(
            pack.file,
        ),
{
    let spot = pack.file.locate(category)->Ok_0;
    match pack.file {
        MarkerFormatsView::Community { categories, .. } => {
            lemma_located(pack.file, category);
            let i = spot->0;
            let c = MarkerCategoryView {
                marker_sets: categories[i].marker_sets.remove(idx as int),
                ..categories[i]
            };
            lemma_count_update(categories, i, c, categories.len());
        },
        _ => {},
    }
}

/// Editing a set neither adds nor loses one, whether its category stays or changes.
pub proof fn law_edit_counts(
    pack: RuntimeMarkersView,
    set: MarkerSetView,
    original: Option<Seq<char>>,
    idx: usize,
    now: Timestamp,
)
    requires
        pack.file.locate(original) is Ok,
        idx < pack.file.sets(pack.file.locate(original)->Ok_0).len(),
    ensures
        pack.edited(set, original, idx, now) is Ok,
        set_count(pack.edited(set, original, idx, now)->Ok_0.file) == set_count(pack.file),
{
    let spot = pack.file.locate(original)->Ok_0;
    if set.category != original {
        law_remove_counts(pack, original, idx);
        law_append_counts(pack.without(spot, idx).file, set, now);
    } else {
        match pack.file {
            MarkerFormatsView::Community { categories, .. } => {
                lemma_located(pack.file, original);
                let i = spot->0;
                let c = MarkerCategoryView {
                    marker_sets: categories[i].marker_sets.update(idx as int, set),
                    ..categories[i]
                };
                lemma_count_update(categories, i, c, categories.len());
            },
            _ => {},
        }
    }
}

/// A new file is what adding the set to an empty file would give.
pub proof fn law_create_is_append(
    path: Seq<char>,
    format: MarkerFiletype,
    set: MarkerSetView,
    now: Timestamp,
    before: Timestamp,
)
    ensures
        created(path, format, set, now) == empty_file(path, format, before).appended(set, now),
{
    let after = empty_file(path, format, before).appended(set, now);
    match format {
        MarkerFiletype::Community => {
            let none = Seq::<MarkerCategoryView>::empty();
            assert(!has_category(none, filing_category(set)));
            assert(created(path, format, set, now).file->categories =~= after.file->categories);
        },
        _ => {
            assert(Seq::<MarkerSetView>::empty().push(set) =~= seq![set]);
        },
    }
}

proof fn lemma_listing_len(categories: Seq<MarkerCategoryView>, path: Option<Seq<char>>, n: nat)
    requires
        n <= categories.len(),
    ensures
        categories_listing(categories, path, n).len() == sets_in(categories, n),
    decreases n,
{
    if n > 0 {
        lemma_listing_len(categories, path, (n - 1) as nat);
    }
}

/// Every set of a file is listed.
pub proof fn law_listing_is_complete(pack: RuntimeMarkersView)
    ensures
        pack_listing(pack).len() == set_count(pack.file),
{
    match pack.file {
        MarkerFormatsView::Community { categories, .. } => {
            lemma_listing_len(categories, pack.path, categories.len());
        },
        _ => {},
    }
}

proof fn lemma_listed_in(
    categories: Seq<MarkerCategoryView>,
    path: Option<Seq<char>>,
    n: nat,
    k: int,
) -> (r: (int, int))
    requires
        n <= categories.len(),
        0 <= k < categories_listing(categories, path, n).len(),
    ensures
        0 <= r.0 < n,
        0 <= r.1 < categories[r.0].marker_sets.len(),
        categories_listing(categories, path, n)[k] == labelled(
            categories[r.0].marker_sets[r.1],
            categories[r.0].name,
            path,
            r.1,
        ),
    decreases n,
{
    let before = categories_listing(categories, path, (n - 1) as nat);
    if k < before.len() {
        lemma_listed_in(categories, path, (n - 1) as nat, k)
    } else {
        assert(categories_listing(categories, path, n)[k] == category_listing(
            categories[n - 1],
            path,
        )[k - before.len()]);
        (n - 1, k - before.len())
    }
}

/// A listed set can be found again: the category, file and place that it is listed with lead to
/// the set in the file, which is the same but for these labels.
pub proof fn law_listed_set_is_found(pack: RuntimeMarkersView, k: int)
    requires
        categories_apart(pack.file),
        set_count(pack.file) <= usize::MAX,
        0 <= k < pack_listing(pack).len(),
    ensures
        ({
            let listed = pack_listing(pack)[k];
            &&& listed.path == pack.path
            &&& listed.idx is Some
            &&& pack.file.locate(listed.category) is Ok
            &&& pack.in_range(listed.category, listed.idx->0)
            &&& ({
                let found = pack.file.sets(
                    pack.file.locate(listed.category)->Ok_0,
                )[listed.idx->0 as int];
                listed == labelled(found, listed.category->0, pack.path, listed.idx->0 as int)
            })
        }),
{
    match pack.file {
        MarkerFormatsView::Community { categories, .. } => {
            let (c, i) = lemma_listed_in(categories, pack.path, categories.len(), k);
            lemma_some_of_all(categories, c);
            assert(is_first_category(categories, categories[c].name, c));
            lemma_first_category(categories, categories[c].name, c);
            assert((i as usize) as int == i);
        },
        MarkerFormatsView::Taimi { sets } => {
            assert((k as usize) as int == k);
        },
        MarkerFormatsView::Integrated { sets, .. } => {
            assert((k as usize) as int == k);
        },
    }
}

/// Every listed set is shown under the category that it is listed with.
pub proof fn law_listed_set_is_shown(listing: Seq<MarkerSetView>, i: int)
    requires
        0 <= i < listing.len(),
        listing[i].category is Some,
    ensures
        of_category(listing, listing[i].category->0).contains(listing[i]),
{
    let category = listing[i].category->0;
    listing.lemma_filter_contains(|s: MarkerSetView| s.category == Some(category), i);
}

/// How many sets the first `n` files hold.
pub open spec fn sets_of_files(packs: Seq<RuntimeMarkersView>, n: nat) -> nat
    decreases n,
{
    if n == 0 {
        0
    } else {
        sets_of_files(packs, (n - 1) as nat) + set_count(packs[n - 1].file)
    }
}

/// The listing over all files loses and doubles no set: it is as long as the files hold sets, and
/// the listing of each file stands in it, behind those of the files before.
pub proof fn law_listing_of_files(packs: Seq<RuntimeMarkersView>, n: nat, k: int)
    requires
        n <= packs.len(),
        0 <= k < n,
    ensures
        packs_listing(packs, n).len() == sets_of_files(packs, n),
        packs_listing(packs, n).subrange(
            sets_of_files(packs, k as nat) as int,
            sets_of_files(packs, (k + 1) as nat) as int,
        ) == pack_listing(packs[k]),
    decreases n,
{
    lemma_files_len(packs, n);
    lemma_files_len(packs, (n - 1) as nat);
    lemma_files_len(packs, k as nat);
    lemma_files_len(packs, (k + 1) as nat);
    let before = packs_listing(packs, (n - 1) as nat);
    let all = packs_listing(packs, n);
    let from = sets_of_files(packs, k as nat) as int;
    let to = sets_of_files(packs, (k + 1) as nat) as int;
    law_listing_is_complete(packs[k]);
    if k == n - 1 {
        assert(all.subrange(from, to) =~= pack_listing(packs[k]));
    } else {
        law_listing_of_files(packs, (n - 1) as nat, k);
        lemma_files_grow(packs, (k + 1) as nat, (n - 1) as nat);
        assert(all.subrange(from, to) =~= before.subrange(from, to));
    }
}

proof fn lemma_files_len(packs: Seq<RuntimeMarkersView>, n: nat)
    requires
        n <= packs.len(),
    ensures
        packs_listing(packs, n).len() == sets_of_files(packs, n),
    decreases n,
{
    if n > 0 {
        lemma_files_len(packs, (n - 1) as nat);
        law_listing_is_complete(packs[n - 1]);
    }
}

proof fn lemma_files_grow(packs: Seq<RuntimeMarkersView>, m: nat, n: nat)
    requires
        m <= n,
    ensures
        sets_of_files(packs, m) <= sets_of_files(packs, n),
    decreases n,
{
    if m < n {
        lemma_files_grow(packs, m, (n - 1) as nat);
    }
}

/// Showing a listing by category loses and doubles no set: a set is shown under its own category
/// as often as it is listed, and under no other.
pub proof fn law_shown_as_often_as_listed(
    listing: Seq<MarkerSetView>,
    category: Seq<char>,
    set: MarkerSetView,
)
    ensures
        of_category(listing, category).to_multiset().count(set) == if set.category == Some(
            category,
        ) {
            listing.to_multiset().count(set)
        } else {
            0
        },
    decreases listing.len(),
{
    broadcast use vstd::seq_lib::group_to_multiset_ensures;

    reveal(Seq::filter);
    let mine = |s: MarkerSetView| s.category == Some(category);
    if listing.len() > 0 {
        let rest = listing.drop_last();
        law_shown_as_often_as_listed(rest, category, set);
        rest.lemma_filter_push(listing.last(), mine);
        assert(rest.push(listing.last()) =~= listing);
    } else {
        assert(listing.filter(mine) =~= Seq::empty());
        assert(listing =~= Seq::empty());
    }
}

} // verus!

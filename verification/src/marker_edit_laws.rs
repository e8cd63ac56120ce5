//! What adding, taking out and changing a set does to the lists of a marker file.
#[allow(unused_imports)]
use crate::clock::Timestamp;
#[allow(unused_imports)]
use crate::marker_file::{MarkerFileError, MarkerFormats, RuntimeMarkers};
#[allow(unused_imports)]
use crate::marker_file::{
    created, filing_category, first_category, has_category, is_first_category,
    lemma_first_category, with_filed, MarkerCategoryView, MarkerFileErrorView, MarkerFiletype,
    MarkerFormatsView, RuntimeMarkersView,
};
#[allow(unused_imports)]
use crate::marker_set::{MarkerSet, MarkerSetView};
use vstd::prelude::*;

verus! {

/// The lists of a file: one for each category in the community form, and else the only one.
pub open spec fn lists(file: MarkerFormatsView) -> Seq<Seq<MarkerSetView>> {
    match file {
        MarkerFormatsView::Community { categories, .. } => Seq::new(
            categories.len(),
            |i: int| categories[i].marker_sets,
        ),
        MarkerFormatsView::Integrated { sets, .. } => seq![sets],
        MarkerFormatsView::Taimi { sets } => seq![sets],
    }
}

/// The names of the categories of a file.
pub open spec fn category_names(file: MarkerFormatsView) -> Seq<Seq<char>> {
    match file {
        MarkerFormatsView::Community { categories, .. } => Seq::new(
            categories.len(),
            |i: int| categories[i].name,
        ),
        _ => Seq::empty(),
    }
}

/// A category leads to a list of a file: to that of the first category of its name in the community
/// form, and to the only list in the others.
pub open spec fn leads_to(file: MarkerFormatsView, category: Option<Seq<char>>, list: int) -> bool {
    match file {
        MarkerFormatsView::Community { categories, .. } => {
            &&& category is Some
            &&& 0 <= list < categories.len()
            &&& categories[list].name == category->0
            &&& forall|j: int| 0 <= j < list ==> #[trigger] categories[j].name != category->0
        },
        _ => list == 0,
    }
}

/// Two files that differ in their sets at most: form, names of categories, paths and version are
/// the same.
pub open spec fn same_but_for_sets(a: MarkerFormatsView, b: MarkerFormatsView) -> bool {
    &&& category_names(a) == category_names(b)
    &&& lists(a).len() == lists(b).len()
    &&& match (a, b) {
        (
            MarkerFormatsView::Community { last_edit: x, path: p, .. },
            MarkerFormatsView::Community { last_edit: y, path: q, .. },
        ) => x == y && p == q,
        (
            MarkerFormatsView::Integrated { version: v, path: p, .. },
            MarkerFormatsView::Integrated { version: w, path: q, .. },
        ) => v == w && p == q,
        (MarkerFormatsView::Taimi { .. }, MarkerFormatsView::Taimi { .. }) => true,
        _ => false,
    }
}

proof fn lemma_first(categories: Seq<MarkerCategoryView>, name: Seq<char>)
    ensures
        has_category(categories, name) <==> exists|i: int|
            0 <= i < categories.len() && #[trigger] categories[i].name == name,
        has_category(categories, name) ==> is_first_category(
            categories,
            name,
            first_category(categories, name),
        ),
{
    if has_category(categories, name) {
        let i = choose|i: int| 0 <= i < categories.len() && #[trigger] categories[i].name == name;
        lemma_first_up_to(categories, name, i);
    }
}

proof fn lemma_first_up_to(categories: Seq<MarkerCategoryView>, name: Seq<char>, i: int)
    requires
        0 <= i < categories.len(),
        categories[i].name == name,
    ensures
        is_first_category(categories, name, first_category(categories, name)),
    decreases i,
{
    if exists|j: int| 0 <= j < i && #[trigger] categories[j].name == name {
        let j = choose|j: int| 0 <= j < i && #[trigger] categories[j].name == name;
        lemma_first_up_to(categories, name, j);
    } else {
        assert(is_first_category(categories, name, i));
    }
}

proof fn lemma_leads_once(file: MarkerFormatsView, category: Option<Seq<char>>, list: int)
    requires
        leads_to(file, category, list),
    ensures
        file.locate(category) == Ok::<Option<int>, MarkerFileErrorView>(
            if file is Community {
                Some(list)
            } else {
                None
            },
        ),
        file.sets(file.locate(category)->Ok_0) == lists(file)[list],
        0 <= list < lists(file).len(),
{
    if file is Community {
        let categories = file->categories;
        assert(is_first_category(categories, category->0, list));
        lemma_first_category(categories, category->0, list);
    }
}

/// A list is found by its category: where a category leads to one, that is found; where none is
/// given for a file with categories, that is the error; and where there is none of the name, the
/// error names it.
pub proof fn law_lists_are_found(file: MarkerFormatsView, category: Option<Seq<char>>)
    ensures
        match file.locate(category) {
            Ok(spot) => exists|list: int|
                {
                    &&& #[trigger] leads_to(file, category, list)
                    &&& file.sets(spot) == lists(file)[list]
                },
            Err(e) => {
                &&& file is Community
                &&& forall|list: int| !#[trigger] leads_to(file, category, list)
                &&& e == (if category is None {
                    MarkerFileErrorView::CategoryMissing
                } else {
                    MarkerFileErrorView::NoSuchCategory(category->0)
                })
            },
        },
{
    match file {
        MarkerFormatsView::Community { categories, .. } => {
            if category is Some {
                lemma_first(categories, category->0);
                if has_category(categories, category->0) {
                    let f = first_category(categories, category->0);
                    assert(leads_to(file, category, f));
                } else {
                    assert forall|list: int| !#[trigger] leads_to(file, category, list) by {
                        if leads_to(file, category, list) {
                            assert(categories[list].name == category->0);
                        }
                    }
                }
            }
        },
        _ => {
            assert(leads_to(file, category, 0));
        },
    }
}

/// A place is one of a set just where the list that the category leads to, if it leads to one, is
/// longer than that.
pub proof fn law_places_in_range(pack: RuntimeMarkersView, category: Option<Seq<char>>, idx: usize)
    ensures
        pack.in_range(category, idx) <==> forall|list: int| #[trigger]
            leads_to(pack.file, category, list) ==> idx < lists(pack.file)[list].len(),
{
    law_lists_are_found(pack.file, category);
    if pack.file.locate(category) is Ok {
        let list = choose|list: int| #[trigger] leads_to(pack.file, category, list);
        lemma_leads_once(pack.file, category, list);
        assert forall|other: int| #[trigger] leads_to(pack.file, category, other) implies other
            == list by {
            lemma_leads_once(pack.file, category, other);
        }
    }
}

/// Taking a set out takes out the one at the given place of the list that the category leads to,
/// and that one alone: what comes before it stays where it is, what comes behind it moves up, and
/// all other lists stay.
pub proof fn law_one_set_is_taken_out(
    pack: RuntimeMarkersView,
    category: Option<Seq<char>>,
    idx: usize,
    list: int,
)
    requires
        leads_to(pack.file, category, list),
        idx < lists(pack.file)[list].len(),
    ensures
        ({
            let after = pack.without(pack.file.locate(category)->Ok_0, idx);
            let old_list = lists(pack.file)[list];
            let new_list = lists(after.file)[list];
            &&& after.path == pack.path
            &&& same_but_for_sets(after.file, pack.file)
            &&& forall|j: int|
                0 <= j < lists(pack.file).len() && j != list ==> #[trigger] lists(after.file)[j]
                    == lists(pack.file)[j]
            &&& new_list.len() == old_list.len() - 1
            &&& forall|i: int| 0 <= i < idx ==> #[trigger] new_list[i] == old_list[i]
            &&& forall|i: int| idx <= i < new_list.len() ==> #[trigger] new_list[i] == old_list[i + 1]
        }),
{
    lemma_leads_once(pack.file, category, list);
    let after = pack.without(pack.file.locate(category)->Ok_0, idx);
    assert(category_names(after.file) =~= category_names(pack.file));
}

/// The category that a set is filed under is its own, or the one for sets without a category.
pub proof fn law_filed_under_its_category(set: MarkerSetView)
    ensures
        set.category is Some ==> filing_category(set) == set.category->0,
        set.category is None ==> filing_category(set) == "No category"@,
{
}

/// Adding a set puts it behind the others of one list: that of its category in the community form,
/// or of the one for sets without, which is made behind the others where there is none; and of the
/// only list in the other forms. No other list changes.
pub proof fn law_added_at_the_end(
    file: MarkerFormatsView,
    set: MarkerSetView,
    now: Timestamp,
    name: Seq<char>,
)
    requires
        set.category is Some ==> name == set.category->0,
        set.category is None ==> name == "No category"@,
    ensures
        ({
            let after = file.appended(set, now);
            let before = lists(file);
            &&& forall|list: int| #[trigger]
                leads_to(file, Some(name), list) ==> {
                    &&& lists(after).len() == before.len()
                    &&& category_names(after) == category_names(file)
                    &&& lists(after)[list] == before[list].push(set)
                    &&& forall|j: int|
                        0 <= j < before.len() && j != list ==> #[trigger] lists(after)[j]
                            == before[j]
                }
            &&& (forall|list: int| !#[trigger] leads_to(file, Some(name), list)) ==> {
                &&& lists(after) == before.push(seq![set])
                &&& category_names(after) == category_names(file).push(name)
            }
        }),
{
    let after = file.appended(set, now);
    match file {
        MarkerFormatsView::Community { categories, .. } => {
            lemma_first(categories, name);
            assert forall|list: int| #[trigger] leads_to(file, Some(name), list) implies {
                &&& lists(after).len() == lists(file).len()
                &&& category_names(after) == category_names(file)
                &&& lists(after)[list] == lists(file)[list].push(set)
                &&& forall|j: int|
                    0 <= j < lists(file).len() && j != list ==> #[trigger] lists(after)[j]
                        == lists(file)[j]
            } by {
                assert(is_first_category(categories, name, list));
                lemma_first_category(categories, name, list);
                assert(category_names(after) =~= category_names(file));
            }
            if forall|list: int| !#[trigger] leads_to(file, Some(name), list) {
                if has_category(categories, name) {
                    assert(leads_to(file, Some(name), first_category(categories, name)));
                }
                assert(lists(after) =~= lists(file).push(seq![set]));
                assert(category_names(after) =~= category_names(file).push(name));
            }
        },
        _ => {
            assert(leads_to(file, Some(name), 0));
        },
    }
}

/// Adding a set leaves the form, the paths and the version of a file as they are; a file in the
/// community form is edited at that time.
pub proof fn law_adding_keeps_the_rest(pack: RuntimeMarkersView, set: MarkerSetView, now: Timestamp)
    ensures
        ({
            let after = pack.appended(set, now);
            &&& after.path == pack.path
            &&& match (pack.file, after.file) {
                (
                    MarkerFormatsView::Community { path: p, .. },
                    MarkerFormatsView::Community { last_edit, path: q, .. },
                ) => last_edit == now && p == q,
                (
                    MarkerFormatsView::Integrated { version: v, path: p, .. },
                    MarkerFormatsView::Integrated { version: w, path: q, .. },
                ) => v == w && p == q,
                (MarkerFormatsView::Taimi { .. }, MarkerFormatsView::Taimi { .. }) => true,
                _ => false,
            }
        }),
{
}

/// An edit that keeps the category puts the new set at the given place of the list that the
/// category leads to. Every other set of that list, every other list and everything else of the
/// file is as before.
pub proof fn law_edit_changes_one_set(
    pack: RuntimeMarkersView,
    set: MarkerSetView,
    original: Option<Seq<char>>,
    idx: usize,
    now: Timestamp,
    list: int,
)
    requires
        leads_to(pack.file, original, list),
        idx < lists(pack.file)[list].len(),
        set.category == original,
    ensures
        pack.edited(set, original, idx, now) is Ok,
        ({
            let after = pack.edited(set, original, idx, now)->Ok_0;
            let old_list = lists(pack.file)[list];
            let new_list = lists(after.file)[list];
            &&& after.path == pack.path
            &&& same_but_for_sets(after.file, pack.file)
            &&& forall|j: int|
                0 <= j < lists(pack.file).len() && j != list ==> #[trigger] lists(after.file)[j]
                    == lists(pack.file)[j]
            &&& new_list.len() == old_list.len()
            &&& new_list[idx as int] == set
            &&& forall|i: int|
                0 <= i < old_list.len() && i != idx ==> #[trigger] new_list[i] == old_list[i]
        }),
{
    lemma_leads_once(pack.file, original, list);
    let after = pack.edited(set, original, idx, now)->Ok_0;
    assert(category_names(after.file) =~= category_names(pack.file));
}

/// An edit that changes the category takes the old set out of the list that its category leads to,
/// and leaves the others of that list in their order; the new set stands last in the list of its
/// own category, behind what was there.
pub proof fn law_edit_moves_one_set(
    pack: RuntimeMarkersView,
    set: MarkerSetView,
    original: Option<Seq<char>>,
    idx: usize,
    now: Timestamp,
    list: int,
)
    requires
        leads_to(pack.file, original, list),
        idx < lists(pack.file)[list].len(),
        set.category != original,
    ensures
        pack.edited(set, original, idx, now) is Ok,
        ({
            let after = pack.edited(set, original, idx, now)->Ok_0;
            let old_list = lists(pack.file)[list];
            let new_list = lists(after.file)[list];
            let name = if set.category is Some {
                set.category->0
            } else {
                "No category"@
            };
            let target = choose|t: int| leads_to(after.file, Some(name), t);
            &&& after.path == pack.path
            &&& new_list.len() >= old_list.len() - 1
            &&& forall|i: int| 0 <= i < idx ==> #[trigger] new_list[i] == old_list[i]
            &&& forall|i: int|
                idx <= i < old_list.len() - 1 ==> #[trigger] new_list[i] == old_list[i + 1]
            &&& leads_to(after.file, Some(name), target)
            &&& lists(after.file)[target].len() > 0
            &&& lists(after.file)[target].last() == set
            &&& target != list ==> new_list.len() == old_list.len() - 1
            &&& target == list ==> new_list.len() == old_list.len()
            &&& forall|j: int|
                0 <= j < lists(pack.file).len() && j != list && j != target
                    ==> #[trigger] lists(after.file)[j] == lists(pack.file)[j]
            &&& target != list && target < lists(pack.file).len() ==> lists(
                after.file,
            )[target].drop_last() == lists(pack.file)[target]
            &&& target >= lists(pack.file).len() ==> lists(after.file)[target] == seq![set]
        }),
{
    lemma_leads_once(pack.file, original, list);
    let mid = pack.without(pack.file.locate(original)->Ok_0, idx);
    let after = mid.appended(set, now);
    let name = if set.category is Some {
        set.category->0
    } else {
        "No category"@
    };
    law_one_set_is_taken_out(pack, original, idx, list);
    law_added_at_the_end(mid.file, set, now, name);
    let m = category_names(mid.file);
    let a = category_names(after.file);
    if exists|t: int| leads_to(mid.file, Some(name), t) {
        let t = choose|t: int| leads_to(mid.file, Some(name), t);
        lemma_leads_once(mid.file, Some(name), t);
        if pack.file is Community {
            assert forall|j: int| 0 <= j < m.len() implies #[trigger] after.file->categories[j].name
                == mid.file->categories[j].name by {
                assert(a[j] == m[j]);
            }
            assert(after.file->categories.len() == lists(after.file).len());
            assert(leads_to(after.file, Some(name), t));
        } else {
            assert(leads_to(after.file, Some(name), 0));
        }
        lemma_only_target(after.file, name, t);
        assert(lists(after.file)[t].drop_last() =~= lists(mid.file)[t]);
    } else {
        let t = m.len() as int;
        assert(mid.file is Community) by {
            if !(mid.file is Community) {
                assert(leads_to(mid.file, Some(name), 0));
            }
        }
        lemma_first(mid.file->categories, name);
        assert(!has_category(mid.file->categories, name)) by {
            if has_category(mid.file->categories, name) {
                assert(leads_to(
                    mid.file,
                    Some(name),
                    first_category(mid.file->categories, name),
                ));
            }
        }
        assert(after.file->categories[t].name == name) by {
            assert(a[t] == name);
        }
        assert forall|j: int| 0 <= j < t implies #[trigger] after.file->categories[j].name
            != name by {
            assert(a[j] == m[j]);
            assert(m[j] == mid.file->categories[j].name);
            assert(mid.file->categories[j].name != name);
        }
        assert(leads_to(after.file, Some(name), t));
        lemma_only_target(after.file, name, t);
        assert forall|j: int| 0 <= j < t implies #[trigger] lists(after.file)[j] == lists(
            mid.file,
        )[j] by {}
    }
}

proof fn lemma_only_target(file: MarkerFormatsView, name: Seq<char>, t: int)
    requires
        leads_to(file, Some(name), t),
    ensures
        (choose|u: int| leads_to(file, Some(name), u)) == t,
{
    let u = choose|u: int| leads_to(file, Some(name), u);
    assert(leads_to(file, Some(name), u));
    lemma_leads_once(file, Some(name), t);
    lemma_leads_once(file, Some(name), u);
}

/// An edit fails just where the original category leads to no list, and then says why.
pub proof fn law_edit_fails_without_a_list(
    pack: RuntimeMarkersView,
    set: MarkerSetView,
    original: Option<Seq<char>>,
    idx: usize,
    now: Timestamp,
)
    ensures
        pack.edited(set, original, idx, now) is Err <==> forall|list: int|
            !#[trigger] leads_to(pack.file, original, list),
        pack.edited(set, original, idx, now) matches Err(e) ==> e == (if original is None {
            MarkerFileErrorView::CategoryMissing
        } else {
            MarkerFileErrorView::NoSuchCategory(original->0)
        }),
{
    law_lists_are_found(pack.file, original);
}

/// A new file has the path and the form that were asked for, and holds the one set and nothing
/// else; in the community form it stands under its category, and the file is edited at that time.
pub proof fn law_new_file_holds_one_set(
    path: Seq<char>,
    format: MarkerFiletype,
    set: MarkerSetView,
    now: Timestamp,
)
    ensures
        ({
            let file = created(path, format, set, now);
            &&& file.path == Some(path)
            &&& lists(file.file) == seq![seq![set]]
            &&& match file.file {
                MarkerFormatsView::Community { last_edit, path: p, categories } => {
                    &&& format == MarkerFiletype::Community
                    &&& last_edit == now
                    &&& p == Some(path)
                    &&& categories.len() == 1
                    &&& categories[0].name == (if set.category is Some {
                        set.category->0
                    } else {
                        "No category"@
                    })
                },
                MarkerFormatsView::Integrated { version, path: p, .. } => {
                    &&& format == MarkerFiletype::Integrated
                    &&& version == "2.0.0"@
                    &&& p == Some(path)
                },
                MarkerFormatsView::Taimi { .. } => format == MarkerFiletype::Taimi,
            }
        }),
{
    assert(lists(created(path, format, set, now).file) =~= seq![seq![set]]);
}

/// An edit of a file that keeps the category puts the new set in the place of the old one, and
/// leaves every other set of every list where it is.
pub proof fn law_edits_in_place(now: Timestamp)
    ensures
        forall|
            pack: &mut RuntimeMarkers,
            set: MarkerSet,
            original: Option<String>,
            idx: usize,
            r: Result<(), MarkerFileError>,
            list: int,
        |
            pack@.in_range(original.deep_view(), idx) && #[trigger] call_ensures(
                RuntimeMarkers::edit_at,
                (pack, set, original, idx, now),
                r,
            ) && set@.category == original.deep_view() && #[trigger] leads_to(
                pack@.file,
                original.deep_view(),
                list,
            ) ==> {
                let before = lists(pack@.file);
                let after = lists(final(pack)@.file);
                &&& r is Ok
                &&& final(pack)@.path == pack@.path
                &&& same_but_for_sets(final(pack)@.file, pack@.file)
                &&& after[list].len() == before[list].len()
                &&& after[list][idx as int] == set@
                &&& forall|i: int|
                    0 <= i < before[list].len() && i != idx ==> #[trigger] after[list][i]
                        == before[list][i]
                &&& forall|j: int|
                    0 <= j < before.len() && j != list ==> #[trigger] after[j] == before[j]
            },
{
    assert forall|
        pack: &mut RuntimeMarkers,
        set: MarkerSet,
        original: Option<String>,
        idx: usize,
        r: Result<(), MarkerFileError>,
        list: int,
    |
        pack@.in_range(original.deep_view(), idx) && #[trigger] call_ensures(
            RuntimeMarkers::edit_at,
            (pack, set, original, idx, now),
            r,
        ) && set@.category == original.deep_view() && #[trigger] leads_to(
            pack@.file,
            original.deep_view(),
            list,
        ) implies {
        let before = lists(pack@.file);
        let after = lists(final(pack)@.file);
        &&& r is Ok
        &&& final(pack)@.path == pack@.path
        &&& same_but_for_sets(final(pack)@.file, pack@.file)
        &&& after[list].len() == before[list].len()
        &&& after[list][idx as int] == set@
        &&& forall|i: int|
            0 <= i < before[list].len() && i != idx ==> #[trigger] after[list][i] == before[list][i]
        &&& forall|j: int| 0 <= j < before.len() && j != list ==> #[trigger] after[j] == before[j]
    } by {
        law_places_in_range(pack@, original.deep_view(), idx);
        law_edit_changes_one_set(pack@, set@, original.deep_view(), idx, now, list);
    }
}

/// An edit of a file that changes the category takes the old set out of its list, and puts the new
/// one last in the list of its own category.
pub proof fn law_edits_that_move(now: Timestamp, name: Seq<char>)
    ensures
        forall|
            pack: &mut RuntimeMarkers,
            set: MarkerSet,
            original: Option<String>,
            idx: usize,
            r: Result<(), MarkerFileError>,
            list: int,
        |
            pack@.in_range(original.deep_view(), idx) && #[trigger] call_ensures(
                RuntimeMarkers::edit_at,
                (pack, set, original, idx, now),
                r,
            ) && set@.category != original.deep_view() && (set@.category is Some ==> name
                == set@.category->0) && (set@.category is None ==> name == "No category"@)
                && #[trigger] leads_to(
                pack@.file,
                original.deep_view(),
                list,
            ) ==> {
                let before = lists(pack@.file)[list];
                let after = lists(final(pack)@.file)[list];
                &&& r is Ok
                &&& after.len() >= before.len() - 1
                &&& forall|i: int| 0 <= i < idx ==> #[trigger] after[i] == before[i]
                &&& forall|i: int|
                    idx <= i < before.len() - 1 ==> #[trigger] after[i] == before[i + 1]
                &&& exists|target: int|
                    {
                        &&& #[trigger] leads_to(final(pack)@.file, Some(name), target)
                        &&& lists(final(pack)@.file)[target].last() == set@
                        &&& target != list ==> after.len() == before.len() - 1
                    }
            },
{
    assert forall|
        pack: &mut RuntimeMarkers,
        set: MarkerSet,
        original: Option<String>,
        idx: usize,
        r: Result<(), MarkerFileError>,
        list: int,
    |
        pack@.in_range(original.deep_view(), idx) && #[trigger] call_ensures(
            RuntimeMarkers::edit_at,
            (pack, set, original, idx, now),
            r,
        ) && set@.category != original.deep_view() && (set@.category is Some ==> name
                == set@.category->0) && (set@.category is None ==> name == "No category"@)
                && #[trigger] leads_to(
            pack@.file,
            original.deep_view(),
            list,
        ) implies {
        let before = lists(pack@.file)[list];
        let after = lists(final(pack)@.file)[list];
        &&& r is Ok
        &&& after.len() >= before.len() - 1
        &&& forall|i: int| 0 <= i < idx ==> #[trigger] after[i] == before[i]
        &&& forall|i: int| idx <= i < before.len() - 1 ==> #[trigger] after[i] == before[i + 1]
        &&& exists|target: int|
            {
                &&& #[trigger] leads_to(final(pack)@.file, Some(name), target)
                &&& lists(final(pack)@.file)[target].last() == set@
                &&& target != list ==> after.len() == before.len() - 1
            }
    } by {
        law_places_in_range(pack@, original.deep_view(), idx);
        law_edit_moves_one_set(pack@, set@, original.deep_view(), idx, now, list);
    }
}

/// A set that is taken out of a file is the one at the given place of the list that the category
/// leads to; no other set goes.
pub proof fn law_sets_are_taken_out()
    ensures
        forall|
            pack: &mut RuntimeMarkers,
            category: Option<String>,
            idx: usize,
            r: Result<MarkerSet, MarkerFileError>,
            list: int,
        |
            pack@.in_range(category.deep_view(), idx) && #[trigger] call_ensures(
                RuntimeMarkers::remove,
                (pack, category, idx),
                r,
            ) && #[trigger] leads_to(pack@.file, category.deep_view(), list) ==> {
                let before = lists(pack@.file);
                let after = lists(final(pack)@.file);
                &&& r is Ok
                &&& r->Ok_0@ == before[list][idx as int]
                &&& after[list].len() == before[list].len() - 1
                &&& forall|i: int| 0 <= i < idx ==> #[trigger] after[list][i] == before[list][i]
                &&& forall|i: int|
                    idx <= i < after[list].len() ==> #[trigger] after[list][i]
                        == before[list][i + 1]
                &&& forall|j: int|
                    0 <= j < before.len() && j != list ==> #[trigger] after[j] == before[j]
                &&& same_but_for_sets(final(pack)@.file, pack@.file)
            },
{
    assert forall|
        pack: &mut RuntimeMarkers,
        category: Option<String>,
        idx: usize,
        r: Result<MarkerSet, MarkerFileError>,
        list: int,
    |
        pack@.in_range(category.deep_view(), idx) && #[trigger] call_ensures(
            RuntimeMarkers::remove,
            (pack, category, idx),
            r,
        ) && #[trigger] leads_to(pack@.file, category.deep_view(), list) implies {
        let before = lists(pack@.file);
        let after = lists(final(pack)@.file);
        &&& r is Ok
        &&& r->Ok_0@ == before[list][idx as int]
        &&& after[list].len() == before[list].len() - 1
        &&& forall|i: int| 0 <= i < idx ==> #[trigger] after[list][i] == before[list][i]
        &&& forall|i: int|
            idx <= i < after[list].len() ==> #[trigger] after[list][i] == before[list][i + 1]
        &&& forall|j: int| 0 <= j < before.len() && j != list ==> #[trigger] after[j] == before[j]
        &&& same_but_for_sets(final(pack)@.file, pack@.file)
    } by {
        law_places_in_range(pack@, category.deep_view(), idx);
        lemma_leads_once(pack@.file, category.deep_view(), list);
        law_one_set_is_taken_out(pack@, category.deep_view(), idx, list);
    }
}

/// A set that is deleted goes from its place alone: no other set of any list does.
pub proof fn law_sets_are_deleted()
    ensures
        forall|
            pack: &mut RuntimeMarkers,
            category: Option<String>,
            idx: usize,
            r: Result<(), MarkerFileError>,
            list: int,
        |
            pack@.in_range(category.deep_view(), idx) && #[trigger] call_ensures(
                RuntimeMarkers::delete,
                (pack, category, idx),
                r,
            ) && #[trigger] leads_to(pack@.file, category.deep_view(), list) ==> {
                let before = lists(pack@.file);
                let after = lists(final(pack)@.file);
                &&& r is Ok
                &&& after[list].len() == before[list].len() - 1
                &&& forall|i: int| 0 <= i < idx ==> #[trigger] after[list][i] == before[list][i]
                &&& forall|i: int|
                    idx <= i < after[list].len() ==> #[trigger] after[list][i]
                        == before[list][i + 1]
                &&& forall|j: int|
                    0 <= j < before.len() && j != list ==> #[trigger] after[j] == before[j]
                &&& same_but_for_sets(final(pack)@.file, pack@.file)
            },
{
    assert forall|
        pack: &mut RuntimeMarkers,
        category: Option<String>,
        idx: usize,
        r: Result<(), MarkerFileError>,
        list: int,
    |
        pack@.in_range(category.deep_view(), idx) && #[trigger] call_ensures(
            RuntimeMarkers::delete,
            (pack, category, idx),
            r,
        ) && #[trigger] leads_to(pack@.file, category.deep_view(), list) implies {
        let before = lists(pack@.file);
        let after = lists(final(pack)@.file);
        &&& r is Ok
        &&& after[list].len() == before[list].len() - 1
        &&& forall|i: int| 0 <= i < idx ==> #[trigger] after[list][i] == before[list][i]
        &&& forall|i: int|
            idx <= i < after[list].len() ==> #[trigger] after[list][i] == before[list][i + 1]
        &&& forall|j: int| 0 <= j < before.len() && j != list ==> #[trigger] after[j] == before[j]
        &&& same_but_for_sets(final(pack)@.file, pack@.file)
    } by {
        law_places_in_range(pack@, category.deep_view(), idx);
        lemma_leads_once(pack@.file, category.deep_view(), list);
        law_one_set_is_taken_out(pack@, category.deep_view(), idx, list);
    }
}

/// A set that is added to a file stands last in the list of its category, and every set that was
/// there stays where it was. A set of no category is filed under `No category`.
pub proof fn law_sets_are_added(now: Timestamp, name: Seq<char>)
    ensures
        forall|pack: &mut RuntimeMarkers, set: MarkerSet, r: Result<(), MarkerFileError>|
            #[trigger]
            call_ensures(RuntimeMarkers::append_raw_at, (pack, set, now), r) && (
            set@.category is Some ==> name == set@.category->0) && (set@.category is None ==> name
                == "No category"@) ==> {
                let before = lists(pack@.file);
                let after = lists(final(pack)@.file);
                &&& r is Ok
                &&& final(pack)@.path == pack@.path
                &&& forall|list: int| #[trigger]
                    leads_to(pack@.file, Some(name), list) ==> {
                        &&& after.len() == before.len()
                        &&& after[list] == before[list].push(set@)
                        &&& forall|j: int|
                            0 <= j < before.len() && j != list ==> #[trigger] after[j] == before[j]
                    }
                &&& (forall|list: int| !#[trigger] leads_to(pack@.file, Some(name), list)) ==> {
                    &&& after == before.push(seq![set@])
                    &&& category_names(final(pack)@.file) == category_names(pack@.file).push(name)
                }
            },
{
    assert forall|pack: &mut RuntimeMarkers, set: MarkerSet, r: Result<(), MarkerFileError>|
        #[trigger]
        call_ensures(RuntimeMarkers::append_raw_at, (pack, set, now), r) && (set@.category is Some
            ==> name == set@.category->0) && (set@.category is None ==> name
            == "No category"@) implies {
        let before = lists(pack@.file);
        let after = lists(final(pack)@.file);
        &&& r is Ok
        &&& final(pack)@.path == pack@.path
        &&& forall|list: int| #[trigger]
            leads_to(pack@.file, Some(name), list) ==> {
                &&& after.len() == before.len()
                &&& after[list] == before[list].push(set@)
                &&& forall|j: int|
                    0 <= j < before.len() && j != list ==> #[trigger] after[j] == before[j]
            }
        &&& (forall|list: int| !#[trigger] leads_to(pack@.file, Some(name), list)) ==> {
            &&& after == before.push(seq![set@])
            &&& category_names(final(pack)@.file) == category_names(pack@.file).push(name)
        }
    } by {
        law_added_at_the_end(pack@.file, set@, now, name);
        law_adding_keeps_the_rest(pack@, set@, now);
        assert(final(pack)@.file == pack@.file.appended(set@, now));
    }
}

/// What a file holds is what its parts hold: every list in its place and every set in its, with the
/// names of the categories and the file's own paths.
pub proof fn law_files_are_seen_in_full(pack: RuntimeMarkers)
    ensures
        pack@.path is Some <==> pack.path is Some,
        pack.path matches Some(p) ==> pack@.path->0 == p@,
        match (pack.file, pack@.file) {
            (
                MarkerFormats::Community(f),
                MarkerFormatsView::Community { last_edit, path, categories },
            ) => {
                &&& last_edit == f.last_edit
                &&& path is Some <==> f.path is Some
                &&& f.path matches Some(p) ==> path->0 == p@
                &&& categories.len() == f.categories@.len()
                &&& forall|i: int|
                    0 <= i < categories.len() ==> (#[trigger] categories[i]).name
                        == f.categories@[i].name@ && categories[i].marker_sets.len()
                        == f.categories@[i].marker_sets@.len()
                &&& forall|i: int, j: int|
                    0 <= i < categories.len() && 0 <= j < categories[i].marker_sets.len()
                        ==> #[trigger] categories[i].marker_sets[j]
                        == f.categories@[i].marker_sets@[j]@
            },
            (
                MarkerFormats::Integrated(f),
                MarkerFormatsView::Integrated { version, path, sets },
            ) => {
                &&& version == f.version@
                &&& path is Some <==> f.path is Some
                &&& f.path matches Some(p) ==> path->0 == p@
                &&& sets.len() == f.squad_marker_preset@.len()
                &&& forall|j: int|
                    0 <= j < sets.len() ==> #[trigger] sets[j] == f.squad_marker_preset@[j]@
            },
            (MarkerFormats::Taimi(held), MarkerFormatsView::Taimi { sets }) => {
                &&& sets.len() == held@.len()
                &&& forall|j: int| 0 <= j < sets.len() ==> #[trigger] sets[j] == held@[j]@
            },
            _ => false,
        },
{
}

} // verus!

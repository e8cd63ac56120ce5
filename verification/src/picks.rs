//! Lists that hold some of the elements of another list, in its order.
use vstd::prelude::*;

verus! {

/// `part` holds the elements at some places of a list, in the order of the list.
pub open spec fn is_at_places<A>(part: Seq<A>, list: Seq<A>, places: Seq<int>) -> bool {
    &&& places.len() == part.len()
    &&& forall|a: int, b: int| 0 <= a < b < places.len() ==> places[a] < places[b]
    &&& forall|a: int|
        0 <= a < places.len() ==> 0 <= #[trigger] places[a] < list.len() && part[a]
            == list[places[a]]
}

/// `part` holds the elements at just those of the first `n` places of a list that a condition
/// names, each once and in the order of the list.
pub open spec fn keeps_just<A>(
    part: Seq<A>,
    list: Seq<A>,
    n: int,
    which: spec_fn(int) -> bool,
) -> bool {
    exists|places: Seq<int>|
        {
            &&& #[trigger] is_at_places(part, list, places)
            &&& forall|i: int| #[trigger] places.contains(i) <==> 0 <= i < n && which(i)
        }
}

/// Nothing is kept of no places.
pub proof fn lemma_keeps_none<A>(list: Seq<A>, which: spec_fn(int) -> bool)
    ensures
        keeps_just(Seq::empty(), list, 0, which),
{
    assert(is_at_places(Seq::empty(), list, Seq::<int>::empty()));
}

/// What is kept of one place more.
pub proof fn lemma_keeps_more<A>(part: Seq<A>, list: Seq<A>, n: int, which: spec_fn(int) -> bool)
    requires
        keeps_just(part, list, n, which),
        0 <= n < list.len(),
    ensures
        which(n) ==> keeps_just(part.push(list[n]), list, n + 1, which),
        !which(n) ==> keeps_just(part, list, n + 1, which),
{
    let places = choose|places: Seq<int>|
        {
            &&& #[trigger] is_at_places(part, list, places)
            &&& forall|i: int| #[trigger] places.contains(i) <==> 0 <= i < n && which(i)
        };
    if which(n) {
        let more = places.push(n);
        assert forall|a: int, b: int| 0 <= a < b < more.len() implies more[a] < more[b] by {
            assert(places.contains(places[a]));
        }
        assert(is_at_places(part.push(list[n]), list, more));
        assert forall|i: int| #[trigger] more.contains(i) <==> 0 <= i < n + 1 && which(i) by {
            if places.contains(i) {
                let a = choose|a: int| 0 <= a < places.len() && places[a] == i;
                assert(more[a] == i);
            }
            if more.contains(i) && i != n {
                let a = choose|a: int| 0 <= a < more.len() && more[a] == i;
                assert(places[a] == i);
            }
            assert(more[places.len() as int] == n);
        }
    } else {
        assert forall|i: int| #[trigger] places.contains(i) <==> 0 <= i < n + 1 && which(i) by {}
    }
}

/// A list that was filtered keeps just the elements that meet the condition.
pub proof fn lemma_filter_keeps<A>(list: Seq<A>, keep: spec_fn(A) -> bool)
    ensures
        keeps_just(list.filter(keep), list, list.len() as int, |i: int| keep(list[i])),
{
    lemma_filter_keeps_first(list, keep, list.len() as int);
    assert(list.take(list.len() as int) =~= list);
}

proof fn lemma_filter_keeps_first<A>(list: Seq<A>, keep: spec_fn(A) -> bool, n: int)
    requires
        0 <= n <= list.len(),
    ensures
        keeps_just(list.take(n).filter(keep), list, n, |i: int| keep(list[i])),
    decreases n,
{
    let which = |i: int| keep(list[i]);
    if n == 0 {
        reveal(Seq::filter);
        assert(list.take(0).filter(keep) =~= Seq::empty());
        lemma_keeps_none(list, which);
    } else {
        lemma_filter_keeps_first(list, keep, n - 1);
        let before = list.take(n - 1);
        assert(list.take(n) =~= before.push(list[n - 1]));
        before.lemma_filter_push(list[n - 1], keep);
        lemma_keeps_more(before.filter(keep), list, n - 1, which);
    }
}

/// A list keeps just the same elements under conditions that name the same places.
pub proof fn lemma_keeps_same<A>(
    part: Seq<A>,
    list: Seq<A>,
    n: int,
    which: spec_fn(int) -> bool,
    other: spec_fn(int) -> bool,
)
    requires
        keeps_just(part, list, n, which),
        forall|i: int| 0 <= i < n ==> #[trigger] which(i) == other(i),
    ensures
        keeps_just(part, list, n, other),
{
    let places = choose|places: Seq<int>|
        {
            &&& #[trigger] is_at_places(part, list, places)
            &&& forall|i: int| #[trigger] places.contains(i) <==> 0 <= i < n && which(i)
        };
    assert forall|i: int| #[trigger] places.contains(i) <==> 0 <= i < n && other(i) by {
        assert(which(i) == which(i));
    }
}

/// A list that was filtered keeps just the elements at the places that a condition names, where the
/// two conditions agree.
pub proof fn lemma_filter_keeps_at<A>(
    list: Seq<A>,
    keep: spec_fn(A) -> bool,
    which: spec_fn(int) -> bool,
)
    requires
        forall|i: int| 0 <= i < list.len() ==> keep(#[trigger] list[i]) == which(i),
    ensures
        keeps_just(list.filter(keep), list, list.len() as int, which),
{
    lemma_filter_keeps(list, keep);
    lemma_keeps_same(
        list.filter(keep),
        list,
        list.len() as int,
        |i: int| keep(list[i]),
        which,
    );
}

} // verus!

//! Laws of the order of attempts.

use crate::sources::{
    attempt_order, attempt_order_from, first_match_from, is_match, same_platform, unclaimed,
};
use vstd::prelude::*;

verus! {

/// Every entry is the index of a candidate, and none occurs twice.
pub open spec fn is_selection(order: Seq<int>, n: nat) -> bool {
    &&& forall|k: int| 0 <= k < order.len() ==> 0 <= #[trigger] order[k] < n
    &&& order.no_duplicates()
}

/// What `first_match_from` finds is free, answers to the name, and is the
/// first such candidate; where it finds nothing, there is none.
pub proof fn lemma_first_match_is_first(
    catalog: Seq<Seq<Seq<char>>>,
    name: Seq<char>,
    candidates: Seq<Seq<char>>,
    taken: Seq<int>,
    from: int,
)
    requires
        0 <= from,
    ensures
        match first_match_from(catalog, name, candidates, taken, from) {
            Some(i) => from <= i < candidates.len() && is_match(catalog, name, candidates, taken, i)
                && forall|j: int|
                from <= j < i ==> !is_match(catalog, name, candidates, taken, j),
            None => forall|j: int|
                from <= j < candidates.len() ==> !is_match(catalog, name, candidates, taken, j),
        },
    decreases candidates.len() - from,
{
    if from < candidates.len() && !is_match(catalog, name, candidates, taken, from) {
        lemma_first_match_is_first(catalog, name, candidates, taken, from + 1);
    }
}

/// The unclaimed candidates are exactly the free ones below `n`, in
/// ascending order.
pub proof fn lemma_unclaimed(taken: Seq<int>, n: nat)
    ensures
        forall|k: int|
            0 <= k < unclaimed(taken, n).len() ==> 0 <= #[trigger] unclaimed(taken, n)[k] < n
                && !taken.contains(unclaimed(taken, n)[k]),
        forall|k: int, l: int|
            0 <= k < l < unclaimed(taken, n).len() ==> #[trigger] unclaimed(taken, n)[k]
                < #[trigger] unclaimed(taken, n)[l],
        forall|i: int| 0 <= i < n && !taken.contains(i) ==> unclaimed(taken, n).contains(i),
    decreases n,
{
    if n > 0 {
        let m = (n - 1) as nat;
        let u = unclaimed(taken, n);
        let v = unclaimed(taken, m);
        lemma_unclaimed(taken, m);
        assert forall|k: int| 0 <= k < u.len() implies 0 <= #[trigger] u[k] < n && !taken.contains(
            u[k],
        ) by {
            if k < v.len() {
                assert(u[k] == v[k]);
            }
        }
        assert forall|k: int, l: int| 0 <= k < l < u.len() implies #[trigger] u[k] < #[trigger] u[l] by {
            assert(u[k] == v[k]);
            if l < v.len() {
                assert(u[l] == v[l]);
            }
        }
        assert forall|i: int| 0 <= i < n && !taken.contains(i) implies u.contains(i) by {
            if i < m {
                let k = choose|k: int| 0 <= k < v.len() && v[k] == i;
                assert(u[k] == i);
            } else {
                assert(u[u.len() - 1] == i);
            }
        }
    }
}

/// Walking the priorities from a selection gives a selection that begins
/// with it.
pub proof fn lemma_order_from_is_selection(
    catalog: Seq<Seq<Seq<char>>>,
    priorities: Seq<Option<Seq<char>>>,
    candidates: Seq<Seq<char>>,
    taken: Seq<int>,
)
    requires
        is_selection(taken, candidates.len()),
    ensures
        is_selection(
            attempt_order_from(catalog, priorities, candidates, taken),
            candidates.len(),
        ),
        taken.len() <= attempt_order_from(catalog, priorities, candidates, taken).len(),
        attempt_order_from(catalog, priorities, candidates, taken).take(taken.len() as int)
            == taken,
    decreases priorities.len(),
{
    let n = candidates.len();
    let result = attempt_order_from(catalog, priorities, candidates, taken);
    if priorities.len() == 0 {
        assert(result.take(taken.len() as int) =~= taken);
    } else {
        match priorities[0] {
            None => {
                let u = unclaimed(taken, n);
                lemma_unclaimed(taken, n);
                assert forall|k: int, l: int|
                    0 <= k < result.len() && 0 <= l < result.len() && k != l implies result[k]
                    != result[l] by {
                    let t = taken.len() as int;
                    if k < t && l < t {
                    } else if k >= t && l >= t {
                        assert(result[k] == u[k - t] && result[l] == u[l - t]);
                        if k < l {
                            assert(u[k - t] < u[l - t]);
                        } else {
                            assert(u[l - t] < u[k - t]);
                        }
                    } else if k < t {
                        assert(result[l] == u[l - t]);
                        assert(taken[k] == result[k]);
                    } else {
                        assert(result[k] == u[k - t]);
                        assert(taken[l] == result[l]);
                    }
                }
                assert forall|k: int| 0 <= k < result.len() implies 0 <= #[trigger] result[k] < n by {
                    if k >= taken.len() {
                        assert(result[k] == u[k - taken.len()]);
                    }
                }
                assert(result.take(taken.len() as int) =~= taken);
            },
            Some(name) => {
                lemma_first_match_is_first(catalog, name, candidates, taken, 0);
                match first_match_from(catalog, name, candidates, taken, 0) {
                    Some(i) => {
                        let next = taken.push(i);
                        assert forall|k: int, l: int|
                            0 <= k < next.len() && 0 <= l < next.len() && k != l implies next[k]
                            != next[l] by {
                            if k == taken.len() {
                                assert(taken[l] == next[l]);
                            } else if l == taken.len() {
                                assert(taken[k] == next[k]);
                            }
                        }
                        lemma_order_from_is_selection(
                            catalog,
                            priorities.drop_first(),
                            candidates,
                            next,
                        );
                        assert(result.take(taken.len() as int) =~= result.take(
                            next.len() as int,
                        ).take(taken.len() as int));
                        assert(next.take(taken.len() as int) =~= taken);
                    },
                    None => {
                        lemma_order_from_is_selection(
                            catalog,
                            priorities.drop_first(),
                            candidates,
                            taken,
                        );
                    },
                }
            },
        }
    }
}

/// No candidate is tried twice, and only candidates are tried.
pub proof fn lemma_attempt_order_is_selection(
    catalog: Seq<Seq<Seq<char>>>,
    priorities: Seq<Option<Seq<char>>>,
    candidates: Seq<Seq<char>>,
)
    ensures
        is_selection(attempt_order(catalog, priorities, candidates), candidates.len()),
{
    lemma_order_from_is_selection(catalog, priorities, candidates, Seq::<int>::empty());
}

/// Where the priorities hold the wildcard, the walk from any selection ends
/// with every candidate taken.
proof fn lemma_order_from_with_wildcard(
    catalog: Seq<Seq<Seq<char>>>,
    priorities: Seq<Option<Seq<char>>>,
    candidates: Seq<Seq<char>>,
    taken: Seq<int>,
    w: int,
)
    requires
        0 <= w < priorities.len(),
        priorities[w] is None,
    ensures
        forall|i: int|
            0 <= i < candidates.len() ==> attempt_order_from(
                catalog,
                priorities,
                candidates,
                taken,
            ).contains(i),
    decreases priorities.len(),
{
    let n = candidates.len();
    let result = attempt_order_from(catalog, priorities, candidates, taken);
    match priorities[0] {
        None => {
            let u = unclaimed(taken, n);
            lemma_unclaimed(taken, n);
            assert forall|i: int| 0 <= i < n implies result.contains(i) by {
                if taken.contains(i) {
                    let k = choose|k: int| 0 <= k < taken.len() && taken[k] == i;
                    assert(result[k] == i);
                } else {
                    let k = choose|k: int| 0 <= k < u.len() && u[k] == i;
                    assert(result[taken.len() + k] == i);
                }
            }
        },
        Some(name) => {
            assert(priorities.drop_first()[w - 1] == priorities[w]);
            let next = match first_match_from(catalog, name, candidates, taken, 0) {
                Some(i) => taken.push(i),
                None => taken,
            };
            lemma_order_from_with_wildcard(catalog, priorities.drop_first(), candidates, next, w - 1);
            assert(result == attempt_order_from(
                catalog,
                priorities.drop_first(),
                candidates,
                next,
            ));
        },
    }
}

/// Where the priorities hold the wildcard, every candidate is tried.
pub proof fn lemma_wildcard_takes_all(
    catalog: Seq<Seq<Seq<char>>>,
    priorities: Seq<Option<Seq<char>>>,
    candidates: Seq<Seq<char>>,
    w: int,
)
    requires
        0 <= w < priorities.len(),
        priorities[w] is None,
    ensures
        forall|i: int|
            0 <= i < candidates.len() ==> attempt_order(catalog, priorities, candidates).contains(
                i,
            ),
{
    lemma_order_from_with_wildcard(catalog, priorities, candidates, Seq::<int>::empty(), w);
}

/// The walk does not look at what follows the wildcard.
proof fn lemma_order_from_ends_at_wildcard(
    catalog: Seq<Seq<Seq<char>>>,
    priorities: Seq<Option<Seq<char>>>,
    candidates: Seq<Seq<char>>,
    taken: Seq<int>,
    w: int,
)
    requires
        0 <= w < priorities.len(),
        priorities[w] is None,
    ensures
        attempt_order_from(catalog, priorities, candidates, taken) == attempt_order_from(
            catalog,
            priorities.take(w + 1),
            candidates,
            taken,
        ),
    decreases priorities.len(),
{
    let head = priorities.take(w + 1);
    assert(head[0] == priorities[0]);
    match priorities[0] {
        None => {},
        Some(name) => {
            assert(priorities.drop_first()[w - 1] == priorities[w]);
            assert(head.drop_first() =~= priorities.drop_first().take(w));
            match first_match_from(catalog, name, candidates, taken, 0) {
                Some(i) => {
                    lemma_order_from_ends_at_wildcard(
                        catalog,
                        priorities.drop_first(),
                        candidates,
                        taken.push(i),
                        w - 1,
                    );
                },
                None => {
                    lemma_order_from_ends_at_wildcard(
                        catalog,
                        priorities.drop_first(),
                        candidates,
                        taken,
                        w - 1,
                    );
                },
            }
        },
    }
}

/// The wildcard is terminal: entries after it do not change the order of
/// attempts.
pub proof fn lemma_wildcard_is_terminal(
    catalog: Seq<Seq<Seq<char>>>,
    priorities: Seq<Option<Seq<char>>>,
    candidates: Seq<Seq<char>>,
    w: int,
)
    requires
        0 <= w < priorities.len(),
        priorities[w] is None,
    ensures
        attempt_order(catalog, priorities, candidates) == attempt_order(
            catalog,
            priorities.take(w + 1),
            candidates,
        ),
{
    lemma_order_from_ends_at_wildcard(catalog, priorities, candidates, Seq::<int>::empty(), w);
}

/// Some named entry of `priorities` names the platform of candidate `i`.
pub open spec fn is_named(
    catalog: Seq<Seq<Seq<char>>>,
    priorities: Seq<Option<Seq<char>>>,
    candidates: Seq<Seq<char>>,
    i: int,
) -> bool {
    exists|p: int|
        0 <= p < priorities.len() && (#[trigger] priorities[p] matches Some(name)
            && same_platform(catalog, name, candidates[i]))
}

/// Without the wildcard, the walk adds only candidates that an entry names.
proof fn lemma_order_from_without_wildcard(
    catalog: Seq<Seq<Seq<char>>>,
    priorities: Seq<Option<Seq<char>>>,
    candidates: Seq<Seq<char>>,
    taken: Seq<int>,
)
    requires
        forall|p: int| 0 <= p < priorities.len() ==> !(#[trigger] priorities[p] is None),
    ensures
        forall|k: int|
            taken.len() <= k < attempt_order_from(catalog, priorities, candidates, taken).len()
                ==> is_named(
                catalog,
                priorities,
                candidates,
                #[trigger] attempt_order_from(catalog, priorities, candidates, taken)[k],
            ),
        taken.len() <= attempt_order_from(catalog, priorities, candidates, taken).len(),
        attempt_order_from(catalog, priorities, candidates, taken).take(taken.len() as int)
            == taken,
    decreases priorities.len(),
{
    let result = attempt_order_from(catalog, priorities, candidates, taken);
    if priorities.len() == 0 {
        assert(result.take(taken.len() as int) =~= taken);
    } else {
        let rest = priorities.drop_first();
        assert forall|p: int| 0 <= p < rest.len() implies !(#[trigger] rest[p] is None) by {
            assert(rest[p] == priorities[p + 1]);
        }
        assert(!(priorities[0] is None));
        let name = priorities[0]->0;
        lemma_first_match_is_first(catalog, name, candidates, taken, 0);
        let next = match first_match_from(catalog, name, candidates, taken, 0) {
            Some(i) => taken.push(i),
            None => taken,
        };
        lemma_order_from_without_wildcard(catalog, rest, candidates, next);
        assert(result.take(taken.len() as int) =~= result.take(next.len() as int).take(
            taken.len() as int,
        ));
        assert(next.take(taken.len() as int) =~= taken);
        assert forall|k: int| taken.len() <= k < result.len() implies is_named(
            catalog,
            priorities,
            candidates,
            #[trigger] result[k],
        ) by {
            if k < next.len() {
                assert(result.take(next.len() as int)[k] == result[k]);
                assert(result[k] == next[k]);
                assert(priorities[0] matches Some(nm) && same_platform(
                    catalog,
                    nm,
                    candidates[result[k]],
                ));
            } else {
                assert(is_named(catalog, rest, candidates, result[k]));
                let p = choose|p: int|
                    0 <= p < rest.len() && (#[trigger] rest[p] matches Some(nm)
                        && same_platform(catalog, nm, candidates[result[k]]));
                assert(priorities[p + 1] == rest[p]);
            }
        }
    }
}

/// Without the wildcard, only candidates that an entry names are tried.
pub proof fn lemma_only_named_without_wildcard(
    catalog: Seq<Seq<Seq<char>>>,
    priorities: Seq<Option<Seq<char>>>,
    candidates: Seq<Seq<char>>,
)
    requires
        forall|p: int| 0 <= p < priorities.len() ==> !(#[trigger] priorities[p] is None),
    ensures
        forall|k: int|
            0 <= k < attempt_order(catalog, priorities, candidates).len() ==> is_named(
                catalog,
                priorities,
                candidates,
                #[trigger] attempt_order(catalog, priorities, candidates)[k],
            ),
{
    lemma_order_from_without_wildcard(catalog, priorities, candidates, Seq::<int>::empty());
}

} // verus!

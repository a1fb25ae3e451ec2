//! Laws of a batch: best effort, and failure in aggregate.

use crate::batch::{lemma_next_wanted, BatchState};
use crate::request::is_wanted;
use vstd::prelude::*;

verus! {

/// How each attempt ends: `ends_well(i)` tells whether the attempt on item
/// `i` succeeds.
pub type Outcomes = spec_fn(int) -> bool;

impl BatchState {
    /// The indices of the items that are attempted from here on, in the
    /// order of the attempts, when attempts end as `ends_well` tells.
    pub open spec fn visits(self, ends_well: Outcomes) -> Seq<int>
        decreases self.items.len() - self.position,
        via Self::visits_decreases
    {
        if self.position >= self.items.len() {
            Seq::<int>::empty()
        } else {
            seq![self.position as int] + self.recorded(ends_well(self.position as int)).visits(
                ends_well,
            )
        }
    }

    #[via_fn]
    proof fn visits_decreases(self, ends_well: Outcomes) {
        if self.position < self.items.len() {
            lemma_next_wanted(self.items, self.selection, self.position + 1);
        }
    }

    #[via_fn]
    proof fn finished_decreases(self, ends_well: Outcomes) {
        if self.position < self.items.len() {
            lemma_next_wanted(self.items, self.selection, self.position + 1);
        }
    }

    /// The batch at its end, when attempts end as `ends_well` tells.
    pub open spec fn finished(self, ends_well: Outcomes) -> BatchState
        decreases self.items.len() - self.position,
        via Self::finished_decreases
    {
        if self.position >= self.items.len() {
            self
        } else {
            self.recorded(ends_well(self.position as int)).finished(ends_well)
        }
    }
}

/// Moving on keeps a batch well formed and takes it forward.
pub proof fn lemma_recorded(s: BatchState, ok: bool)
    requires
        s.wf(),
        s.position < s.items.len(),
    ensures
        s.recorded(ok).wf(),
        s.recorded(ok).position > s.position,
        s.recorded(ok).items == s.items,
        s.recorded(ok).selection == s.selection,
{
    lemma_next_wanted(s.items, s.selection, s.position + 1);
}

/// A failure does not keep the items after it from being attempted: where
/// the batch goes next does not depend on how an attempt ends.
pub proof fn lemma_failure_does_not_abort(s: BatchState)
    ensures
        s.recorded(false).position == s.recorded(true).position,
        s.recorded(false).current() == s.recorded(true).current(),
{
}

/// Best effort: whatever fails, exactly the wanted items that are still
/// ahead are attempted, each once, in the order of the page.
pub proof fn lemma_visits(s: BatchState, ends_well: Outcomes)
    requires
        s.wf(),
    ensures
        forall|k: int, l: int|
            0 <= k < l < s.visits(ends_well).len() ==> s.visits(ends_well)[k] < s.visits(
                ends_well,
            )[l],
        forall|i: int|
            #[trigger] s.visits(ends_well).contains(i) <==> (s.position <= i < s.items.len()
                && is_wanted(s.selection, s.items[i])),
    decreases s.items.len() - s.position,
{
    let v = s.visits(ends_well);
    if s.position < s.items.len() {
        let p = s.position as int;
        let next = s.recorded(ends_well(p));
        lemma_recorded(s, ends_well(p));
        lemma_next_wanted(s.items, s.selection, s.position + 1);
        lemma_visits(next, ends_well);
        let w = next.visits(ends_well);
        assert(v =~= seq![p] + w);
        assert forall|k: int| 0 <= k < w.len() implies #[trigger] w[k] > p by {
            assert(w.contains(w[k]));
        }
        assert forall|k: int, l: int| 0 <= k < l < v.len() implies v[k] < v[l] by {
            if k == 0 {
                assert(v[l] == w[l - 1]);
            } else {
                assert(v[k] == w[k - 1] && v[l] == w[l - 1]);
            }
        }
        assert forall|i: int| #[trigger] v.contains(i) <==> (s.position <= i < s.items.len()
            && is_wanted(s.selection, s.items[i])) by {
            if v.contains(i) {
                let k = choose|k: int| 0 <= k < v.len() && v[k] == i;
                if k > 0 {
                    assert(w[k - 1] == i);
                    assert(w.contains(i));
                }
            }
            if s.position <= i < s.items.len() && is_wanted(s.selection, s.items[i]) {
                if i == p {
                    assert(v[0] == i);
                } else {
                    assert(i >= next.position);
                    assert(w.contains(i));
                    let k = choose|k: int| 0 <= k < w.len() && w[k] == i;
                    assert(v[k + 1] == i);
                }
            }
        }
    }
}

/// Failure in aggregate: at its end a batch has failed exactly when it had
/// failed before or the attempt on one of the wanted items ahead fails.
pub proof fn lemma_finished(s: BatchState, ends_well: Outcomes)
    requires
        s.wf(),
    ensures
        s.finished(ends_well).current() is None,
        s.finished(ends_well).got_error == (s.got_error || exists|i: int|
            s.position <= i < s.items.len() && is_wanted(s.selection, #[trigger] s.items[i])
                && !ends_well(i)),
    decreases s.items.len() - s.position,
{
    if s.position < s.items.len() {
        let p = s.position as int;
        let next = s.recorded(ends_well(p));
        lemma_recorded(s, ends_well(p));
        lemma_next_wanted(s.items, s.selection, s.position + 1);
        lemma_finished(next, ends_well);
        let fails_ahead = exists|i: int|
            s.position <= i < s.items.len() && is_wanted(s.selection, #[trigger] s.items[i])
                && !ends_well(i);
        let fails_later = exists|i: int|
            next.position <= i < next.items.len() && is_wanted(
                next.selection,
                #[trigger] next.items[i],
            ) && !ends_well(i);
        if fails_later {
            let i = choose|i: int|
                next.position <= i < next.items.len() && is_wanted(
                    next.selection,
                    #[trigger] next.items[i],
                ) && !ends_well(i);
            assert(s.position <= i < s.items.len() && is_wanted(s.selection, s.items[i])
                && !ends_well(i));
        }
        if !ends_well(p) {
            assert(s.position <= p < s.items.len() && is_wanted(s.selection, s.items[p])
                && !ends_well(p));
        }
        if fails_ahead {
            let i = choose|i: int|
                s.position <= i < s.items.len() && is_wanted(s.selection, #[trigger] s.items[i])
                    && !ends_well(i);
            if i != p {
                assert(i >= next.position);
                assert(next.position <= i < next.items.len() && is_wanted(
                    next.selection,
                    next.items[i],
                ) && !ends_well(i));
            }
        }
    }
}

/// Best-effort aggregation: a batch that starts on `items` attempts every
/// wanted item, and fails in the end exactly when the attempt on one of them
/// fails.
pub proof fn lemma_batch_is_best_effort(
    items: Seq<u32>,
    selection: Option<Seq<u32>>,
    ends_well: Outcomes,
)
    ensures
        forall|i: int|
            #[trigger] BatchState::initial(items, selection).visits(ends_well).contains(i) <==> (0
                <= i < items.len() && is_wanted(selection, items[i])),
        BatchState::initial(items, selection).finished(ends_well).succeeded() <==> forall|i: int|
            0 <= i < items.len() && is_wanted(selection, #[trigger] items[i]) ==> ends_well(i),
{
    let s = BatchState::initial(items, selection);
    lemma_next_wanted(items, selection, 0);
    lemma_visits(s, ends_well);
    lemma_finished(s, ends_well);
    assert forall|i: int| #[trigger] s.visits(ends_well).contains(i) <==> (0 <= i < items.len()
        && is_wanted(selection, items[i])) by {
        if 0 <= i < s.position && i < items.len() {
            assert(!is_wanted(selection, items[i]));
        }
    }
    if s.finished(ends_well).got_error {
        let i = choose|i: int|
            s.position <= i < s.items.len() && is_wanted(s.selection, #[trigger] s.items[i])
                && !ends_well(i);
        assert(0 <= i < items.len() && is_wanted(selection, items[i]) && !ends_well(i));
    } else {
        assert forall|i: int|
            0 <= i < items.len() && is_wanted(selection, #[trigger] items[i]) implies ends_well(
            i,
        ) by {
            if i < s.position {
                assert(!is_wanted(selection, items[i]));
            }
        }
    }
}

} // verus!

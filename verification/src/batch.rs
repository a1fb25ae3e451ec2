//! Going through the seasons of a series, or the episodes of a season, one
//! after the other: every wanted item is attempted, whatever became of the
//! items before it, and the batch fails in the end if one of them failed.

use crate::request::{is_wanted, AllOrSpecific};
use vstd::prelude::*;

verus! {

/// The state of a batch as mathematical values.
pub struct BatchState {
    /// What there is, in the order of the page.
    pub items: Seq<u32>,
    /// What the caller wants of it; `None` for all.
    pub selection: Option<Seq<u32>>,
    /// Index of the item to attempt next, or the number of items at the end.
    pub position: nat,
    /// Whether an attempt failed.
    pub got_error: bool,
}

/// The first index at or after `from` of an item that is wanted, or the
/// number of items if there is none.
pub open spec fn next_wanted(items: Seq<u32>, selection: Option<Seq<u32>>, from: nat) -> nat
    decreases items.len() - from,
{
    if from >= items.len() {
        items.len()
    } else if is_wanted(selection, items[from as int]) {
        from
    } else {
        next_wanted(items, selection, from + 1)
    }
}

impl BatchState {
    /// The position is that of a wanted item, or the end.
    pub open spec fn wf(self) -> bool {
        &&& self.position <= self.items.len()
        &&& self.position < self.items.len() ==> is_wanted(
            self.selection,
            self.items[self.position as int],
        )
    }

    /// The batch before any attempt.
    pub open spec fn initial(items: Seq<u32>, selection: Option<Seq<u32>>) -> BatchState {
        BatchState {
            items,
            selection,
            position: next_wanted(items, selection, 0),
            got_error: false,
        }
    }

    /// The item to attempt next, or `None` at the end.
    pub open spec fn current(self) -> Option<u32> {
        if self.position < self.items.len() {
            Some(self.items[self.position as int])
        } else {
            None
        }
    }

    /// The batch after the attempt on the current item ended, well or not.
    pub open spec fn recorded(self, ok: bool) -> BatchState {
        BatchState {
            position: next_wanted(self.items, self.selection, self.position + 1),
            got_error: self.got_error || !ok,
            ..self
        }
    }

    /// Whether every attempt so far went well.
    pub open spec fn succeeded(self) -> bool {
        !self.got_error
    }
}

/// `next_wanted` finds a wanted item at or after `from`, passes over none,
/// and stops at the end.
pub proof fn lemma_next_wanted(items: Seq<u32>, selection: Option<Seq<u32>>, from: nat)
    requires
        from <= items.len(),
    ensures
        from <= next_wanted(items, selection, from) <= items.len(),
        next_wanted(items, selection, from) < items.len() ==> is_wanted(
            selection,
            items[next_wanted(items, selection, from) as int],
        ),
        forall|i: int|
            from <= i < next_wanted(items, selection, from) ==> !is_wanted(
                selection,
                #[trigger] items[i],
            ),
    decreases items.len() - from,
{
    if from < items.len() && !is_wanted(selection, items[from as int]) {
        lemma_next_wanted(items, selection, from + 1);
    }
}

/// A batch in progress.
pub struct Batch {
    items: Vec<u32>,
    selection: AllOrSpecific,
    position: usize,
    got_error: bool,
}

impl View for Batch {
    type V = BatchState;

    closed spec fn view(&self) -> BatchState {
        BatchState {
            items: self.items@,
            selection: self.selection@,
            position: self.position as nat,
            got_error: self.got_error,
        }
    }
}

/// The first index at or after `from` of an item that is wanted.
fn find_wanted(items: &Vec<u32>, selection: &AllOrSpecific, from: usize) -> (r: usize)
    requires
        from <= items.len(),
    ensures
        r == next_wanted(items@, selection@, from as nat),
        r <= items.len(),
{
    let mut i: usize = from;
    while i < items.len() && !selection.contains(items[i])
        invariant
            from <= i <= items.len(),
            next_wanted(items@, selection@, i as nat) == next_wanted(
                items@,
                selection@,
                from as nat,
            ),
        decreases items.len() - i,
    {
        i += 1;
    }
    proof {
        lemma_next_wanted(items@, selection@, i as nat);
    }
    i
}

impl Batch {
    #[verifier::type_invariant]
    closed spec fn inv(&self) -> bool {
        self@.wf()
    }

    /// A batch over `items`, of which `selection` is wanted.
    pub fn new(items: Vec<u32>, selection: AllOrSpecific) -> (r: Batch)
        ensures
            r@ == BatchState::initial(items@, selection@),
            r@.wf(),
    {
        let position = find_wanted(&items, &selection, 0);
        proof {
            lemma_next_wanted(items@, selection@, 0);
        }
        Batch { items, selection, position, got_error: false }
    }

    /// The item to attempt next, or `None` when every wanted item was attempted.
    pub fn current(&self) -> (r: Option<u32>)
        ensures
            self@.wf(),
            r == self@.current(),
    {
        proof {
            use_type_invariant(self);
        }
        if self.position < self.items.len() {
            Some(self.items[self.position])
        } else {
            None
        }
    }

    /// Index of the item to attempt next among all items.
    pub fn position(&self) -> (r: usize)
        ensures
            self@.wf(),
            r == self@.position,
    {
        proof {
            use_type_invariant(self);
        }
        self.position
    }

    /// Notes how the attempt on the current item ended and moves on to the
    /// next wanted item. At the end nothing changes.
    pub fn record(&mut self, ok: bool)
        ensures
            old(self)@.wf(),
            final(self)@.wf(),
            final(self)@ == (if old(self)@.current() is Some {
                old(self)@.recorded(ok)
            } else {
                old(self)@
            }),
    {
        proof {
            use_type_invariant(&*self);
        }
        if self.position >= self.items.len() {
            return ;
        }
        let next = find_wanted(&self.items, &self.selection, self.position + 1);
        proof {
            lemma_next_wanted(self.items@, self.selection@, (self.position + 1) as nat);
        }
        self.position = next;
        if !ok {
            self.got_error = true;
        }
    }

    /// Whether every attempt so far went well.
    pub fn succeeded(&self) -> (r: bool)
        ensures
            r == self@.succeeded(),
    {
        !self.got_error
    }
}

} // verus!

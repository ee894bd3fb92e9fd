//! Two small visitors.
use crate::model::{lemma_never_stops_visits_all, rewritten, state_after, visited};
use crate::visitor::{Protocol, Visitor, VisitorMut};
use vstd::prelude::*;

verus! {

/// Copies every element it is shown to the end of a sequence of its own, and
/// never asks to stop.
pub struct Collect<T> {
    items: Vec<T>,
}

impl<T> View for Collect<T> {
    type V = Seq<T>;

    closed spec fn view(&self) -> Seq<T> {
        self.items@
    }
}

impl<T: Copy> Collect<T> {
    /// A collector that holds nothing yet.
    pub fn new() -> (collector: Self)
        ensures
            collector@ == Seq::<T>::empty(),
    {
        Collect { items: Vec::new() }
    }

    /// The elements collected so far, first seen first.
    pub fn into_items(self) -> (items: Vec<T>)
        ensures
            items@ == self@,
    {
        self.items
    }
}

impl<T: Copy> Protocol<T> for Collect<T> {
    type State = Seq<T>;

    open spec fn state(&self) -> Seq<T> {
        self@
    }

    open spec fn accepts(state: Seq<T>, item: T) -> bool {
        true
    }

    open spec fn next(state: Seq<T>, item: T) -> Seq<T> {
        state.push(item)
    }

    open spec fn halts(state: Seq<T>, item: T) -> bool {
        false
    }
}

impl<T: Copy> Visitor<T> for Collect<T> {
    fn visit(&mut self, item: &T) -> (stop: bool) {
        self.items.push(*item);
        false
    }
}

/// A collector is shown the whole buffer, and then holds what it held before
/// followed by the buffer's elements in the buffer's order.
pub proof fn lemma_collect_gathers_all<T: Copy>(start: Seq<T>, items: Seq<T>)
    ensures
        visited::<T, Collect<T>>(start, items) == items.len(),
        state_after::<T, Collect<T>>(start, items, items.len()) == start + items,
{
    lemma_never_stops_visits_all::<T, Collect<T>>(start, items);
    lemma_collect_prefix::<T>(start, items, items.len());
    assert(items.take(items.len() as int) =~= items);
}

proof fn lemma_collect_prefix<T: Copy>(start: Seq<T>, items: Seq<T>, n: nat)
    requires
        n <= items.len(),
    ensures
        state_after::<T, Collect<T>>(start, items, n) == start + items.take(n as int),
    decreases n,
{
    if n == 0 {
        assert(start + items.take(0) =~= start);
    } else {
        lemma_collect_prefix::<T>(start, items, (n - 1) as nat);
        assert(start + items.take(n as int) =~= (start + items.take(n - 1)).push(items[n - 1]));
    }
}

/// Overwrites every element it is shown with one value, and never asks to
/// stop.
pub struct Fill<T> {
    value: T,
}

impl<T: Copy> Fill<T> {
    /// A visitor that writes `value`.
    pub fn new(value: T) -> (filler: Self)
        ensures
            filler.state() == value,
    {
        Fill { value }
    }
}

impl<T: Copy> Protocol<T> for Fill<T> {
    type State = T;

    closed spec fn state(&self) -> T {
        self.value
    }

    open spec fn accepts(state: T, item: T) -> bool {
        true
    }

    open spec fn next(state: T, item: T) -> T {
        state
    }

    open spec fn halts(state: T, item: T) -> bool {
        false
    }
}

impl<T: Copy> VisitorMut<T> for Fill<T> {
    open spec fn writes(state: T, item: T) -> T {
        state
    }

    fn visit_mut(&mut self, item: &mut T) -> (stop: bool) {
        *item = self.value;
        false
    }
}

/// A filler is shown the whole buffer, keeps its value, and leaves a buffer
/// of the same length that holds that value everywhere.
pub proof fn lemma_fill_overwrites_all<T: Copy>(value: T, items: Seq<T>)
    ensures
        visited::<T, Fill<T>>(value, items) == items.len(),
        state_after::<T, Fill<T>>(value, items, items.len()) == value,
        rewritten::<T, Fill<T>>(value, items) == Seq::new(items.len(), |i: int| value),
{
    lemma_never_stops_visits_all::<T, Fill<T>>(value, items);
    lemma_fill_keeps_value::<T>(value, items, items.len());
    assert forall|i: int| 0 <= i < items.len() implies #[trigger] state_after::<T, Fill<T>>(
        value,
        items,
        i as nat,
    ) == value by {
        lemma_fill_keeps_value::<T>(value, items, i as nat);
    }
    assert(rewritten::<T, Fill<T>>(value, items) =~= Seq::new(items.len(), |i: int| value));
}

proof fn lemma_fill_keeps_value<T: Copy>(value: T, items: Seq<T>, n: nat)
    ensures
        state_after::<T, Fill<T>>(value, items, n) == value,
    decreases n,
{
    if n > 0 {
        lemma_fill_keeps_value::<T>(value, items, (n - 1) as nat);
    }
}

} // verus!

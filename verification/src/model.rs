//! What a traversal does, as mathematics over a visitor's steps.
use crate::visitor::{Protocol, VisitorMut};
use vstd::prelude::*;

verus! {

/// The state of a visitor that started in `start` and has been shown the
/// first `n` elements of `items`, each once, from the front.
pub open spec fn state_after<T, V: Protocol<T>>(start: V::State, items: Seq<T>, n: nat) -> V::State
    recommends
        n <= items.len(),
    decreases n,
{
    if n == 0 {
        start
    } else {
        V::next(state_after::<T, V>(start, items, (n - 1) as nat), items[n - 1])
    }
}

/// Whether the visitor asks to stop when it is shown the element at position
/// `i`, having been shown every element before it.
pub open spec fn stops_at<T, V: Protocol<T>>(start: V::State, items: Seq<T>, i: int) -> bool
    recommends
        0 <= i < items.len(),
{
    V::halts(state_after::<T, V>(start, items, i as nat), items[i])
}

/// The first position at or after `from` at which the visitor asks to stop,
/// or the length of `items` where there is none.
pub open spec fn first_stop<T, V: Protocol<T>>(start: V::State, items: Seq<T>, from: nat) -> nat
    decreases items.len() - from,
{
    if from >= items.len() {
        items.len()
    } else if stops_at::<T, V>(start, items, from as int) {
        from
    } else {
        first_stop::<T, V>(start, items, from + 1)
    }
}

/// The number of elements that a traversal of `items` shows to a visitor that
/// starts in `start`: all of them, or those up to and including the first one
/// on which the visitor asks to stop.
pub open spec fn visited<T, V: Protocol<T>>(start: V::State, items: Seq<T>) -> nat {
    let stop = first_stop::<T, V>(start, items, 0);
    if stop < items.len() {
        stop + 1
    } else {
        items.len()
    }
}

/// Whether the visitor may be shown every element that a traversal of `items`
/// will show it.
pub open spec fn admits<T, V: Protocol<T>>(start: V::State, items: Seq<T>) -> bool {
    forall|i: int|
        0 <= i < visited::<T, V>(start, items) ==> V::accepts(
            #[trigger] state_after::<T, V>(start, items, i as nat),
            items[i],
        )
}

/// The buffer that an in-place traversal leaves: each visited element
/// replaced by what the visitor wrote there, the others untouched.
pub open spec fn rewritten<T, V: VisitorMut<T>>(start: V::State, items: Seq<T>) -> Seq<T> {
    Seq::new(
        items.len(),
        |i: int|
            if i < visited::<T, V>(start, items) {
                V::writes(state_after::<T, V>(start, items, i as nat), items[i])
            } else {
                items[i]
            },
    )
}

/// From `from` on, the scan for the first stop finds a position no earlier
/// than `from` and no later than the end; the visitor asks to stop there if it
/// is a position of the buffer, and nowhere in between.
pub proof fn lemma_first_stop<T, V: Protocol<T>>(start: V::State, items: Seq<T>, from: nat)
    requires
        from <= items.len(),
    ensures
        from <= first_stop::<T, V>(start, items, from) <= items.len(),
        first_stop::<T, V>(start, items, from) < items.len() ==> stops_at::<T, V>(
            start,
            items,
            first_stop::<T, V>(start, items, from) as int,
        ),
        forall|i: int|
            from <= i < first_stop::<T, V>(start, items, from) ==> !#[trigger] stops_at::<T, V>(
                start,
                items,
                i,
            ),
    decreases items.len() - from,
{
    if from < items.len() && !stops_at::<T, V>(start, items, from as int) {
        lemma_first_stop::<T, V>(start, items, from + 1);
    }
}

/// A traversal never visits more elements than the buffer holds, visits at
/// least one where there is one, and where it ends early the last element it
/// visited is the first on which the visitor asked to stop.
pub proof fn lemma_visited<T, V: Protocol<T>>(start: V::State, items: Seq<T>)
    ensures
        visited::<T, V>(start, items) <= items.len(),
        items.len() > 0 ==> visited::<T, V>(start, items) >= 1,
        visited::<T, V>(start, items) < items.len() ==> stops_at::<T, V>(
            start,
            items,
            visited::<T, V>(start, items) - 1,
        ),
        forall|i: int|
            0 <= i < visited::<T, V>(start, items) - 1 ==> !#[trigger] stops_at::<T, V>(
                start,
                items,
                i,
            ),
{
    lemma_first_stop::<T, V>(start, items, 0);
}

/// A visitor that never asks to stop is shown every element of the buffer:
/// the traversal visits as many elements as there are, and leaves the visitor
/// in the state of having been shown all of them in order, each once.
pub proof fn lemma_never_stops_visits_all<T, V: Protocol<T>>(start: V::State, items: Seq<T>)
    requires
        forall|i: int| 0 <= i < items.len() ==> !#[trigger] stops_at::<T, V>(start, items, i),
    ensures
        visited::<T, V>(start, items) == items.len(),
        state_after::<T, V>(start, items, visited::<T, V>(start, items)) == state_after::<T, V>(
            start,
            items,
            items.len(),
        ),
{
    lemma_first_stop::<T, V>(start, items, 0);
}

/// A visitor that asks to stop on its `k`-th call, and on none before, is
/// shown exactly the first `k` elements: the traversal leaves it in the state
/// that those `k` calls put it in, and no call is made for a later element.
pub proof fn lemma_stop_on_kth_call<T, V: Protocol<T>>(start: V::State, items: Seq<T>, k: nat)
    requires
        1 <= k <= items.len(),
        stops_at::<T, V>(start, items, k - 1),
        forall|i: int| 0 <= i < k - 1 ==> !#[trigger] stops_at::<T, V>(start, items, i),
    ensures
        visited::<T, V>(start, items) == k,
        state_after::<T, V>(start, items, visited::<T, V>(start, items)) == state_after::<T, V>(
            start,
            items,
            k,
        ),
{
    lemma_first_stop::<T, V>(start, items, 0);
    let stop = first_stop::<T, V>(start, items, 0);
    if stop < k - 1 {
        assert(stops_at::<T, V>(start, items, stop as int));
    } else if stop > k - 1 {
        assert(!stops_at::<T, V>(start, items, k - 1));
    }
}

/// On an empty buffer the visitor is never called: nothing is visited and the
/// visitor stays in the state it started in, whatever the element type.
pub proof fn lemma_empty_visits_none<T, V: Protocol<T>>(start: V::State, items: Seq<T>)
    requires
        items.len() == 0,
    ensures
        visited::<T, V>(start, items) == 0,
        state_after::<T, V>(start, items, visited::<T, V>(start, items)) == start,
{
}

/// The state a visitor reaches depends only on the elements it has been
/// shown: on two buffers that agree on their first `n` elements it is in the
/// same state after `n` calls.
pub proof fn lemma_state_after_prefix<T, V: Protocol<T>>(
    start: V::State,
    a: Seq<T>,
    b: Seq<T>,
    n: nat,
)
    requires
        n <= a.len(),
        n <= b.len(),
        forall|i: int| 0 <= i < n ==> a[i] == b[i],
    ensures
        state_after::<T, V>(start, a, n) == state_after::<T, V>(start, b, n),
    decreases n,
{
    if n > 0 {
        lemma_state_after_prefix::<T, V>(start, a, b, (n - 1) as nat);
    }
}

/// Once the visitor has asked to stop, what follows in the buffer is never
/// looked at: a traversal of `a` that ended on a stop, and a traversal of any
/// buffer `b` that begins with the elements visited in `a`, visit the same
/// number of elements and leave the visitor in the same state.
pub proof fn lemma_stop_hides_the_rest<T, V: Protocol<T>>(start: V::State, a: Seq<T>, b: Seq<T>)
    requires
        visited::<T, V>(start, a) >= 1,
        stops_at::<T, V>(start, a, visited::<T, V>(start, a) - 1),
        visited::<T, V>(start, a) <= b.len(),
        forall|i: int| 0 <= i < visited::<T, V>(start, a) ==> a[i] == b[i],
    ensures
        visited::<T, V>(start, b) == visited::<T, V>(start, a),
        state_after::<T, V>(start, b, visited::<T, V>(start, b)) == state_after::<T, V>(
            start,
            a,
            visited::<T, V>(start, a),
        ),
{
    let k = visited::<T, V>(start, a);
    lemma_visited::<T, V>(start, a);
    assert forall|i: int| 0 <= i < k implies stops_at::<T, V>(start, b, i) == stops_at::<T, V>(
        start,
        a,
        i,
    ) by {
        lemma_state_after_prefix::<T, V>(start, a, b, i as nat);
    }
    lemma_stop_on_kth_call::<T, V>(start, b, k);
    lemma_state_after_prefix::<T, V>(start, a, b, k);
}

} // verus!

//! Traversals of slices.
use crate::model::{admits, first_stop, lemma_first_stop, rewritten, state_after, visited};
use crate::visitor::{Visitor, VisitorMut};
use vstd::prelude::*;

verus! {

/// Shows the elements of `buffer` to `visitor`, one after another from the
/// front, until the buffer ends or the visitor asks to stop.
///
/// The visitor is called once for each of the first
/// `visited(state, buffer)` elements and for no other, and is left in the
/// state that those calls, in that order, put it in. On an empty buffer it is
/// not called.
pub fn foreach<T, V: Visitor<T>>(buffer: &[T], visitor: &mut V)
    requires
        admits::<T, V>(old(visitor).state(), buffer@),
    ensures
        final(visitor).state() == state_after::<T, V>(
            old(visitor).state(),
            buffer@,
            visited::<T, V>(old(visitor).state(), buffer@),
        ),
        buffer@.len() == 0 ==> final(visitor).state() == old(visitor).state(),
{
    let ghost start = visitor.state();
    let count: usize = buffer.len();
    let mut position: usize = 0;
    while position < count
        invariant
            start == old(visitor).state(),
            count == buffer@.len(),
            position <= count,
            admits::<T, V>(start, buffer@),
            visitor.state() == state_after::<T, V>(start, buffer@, position as nat),
            first_stop::<T, V>(start, buffer@, position as nat) == first_stop::<T, V>(
                start,
                buffer@,
                0,
            ),
        decreases count - position,
    {
        proof {
            lemma_first_stop::<T, V>(start, buffer@, position as nat);
        }
        let stop: bool = visitor.visit(&buffer[position]);
        position += 1;
        if stop {
            return ;
        }
    }
}

/// Shows the elements of `buffer` to `visitor` in place, one after another
/// from the front, until the buffer ends or the visitor asks to stop.
///
/// The visitor is called once for each of the first
/// `visited(state, buffer)` elements and for no other; it sees each element
/// as it was before the traversal. Afterwards each visited element holds what
/// the visitor wrote there and every other element is as it was.
pub fn foreach_mut<T, V: VisitorMut<T>>(buffer: &mut [T], visitor: &mut V)
    requires
        admits::<T, V>(old(visitor).state(), old(buffer)@),
    ensures
        final(visitor).state() == state_after::<T, V>(
            old(visitor).state(),
            old(buffer)@,
            visited::<T, V>(old(visitor).state(), old(buffer)@),
        ),
        final(buffer)@ == rewritten::<T, V>(old(visitor).state(), old(buffer)@),
        old(buffer)@.len() == 0 ==> final(visitor).state() == old(visitor).state(),
{
    let ghost start = visitor.state();
    let ghost items = buffer@;
    let count: usize = buffer.len();
    let mut position: usize = 0;
    while position < count
        invariant
            start == old(visitor).state(),
            items == old(buffer)@,
            count == items.len(),
            buffer@.len() == items.len(),
            position <= count,
            admits::<T, V>(start, items),
            visitor.state() == state_after::<T, V>(start, items, position as nat),
            first_stop::<T, V>(start, items, position as nat) == first_stop::<T, V>(start, items, 0),
            forall|i: int|
                0 <= i < position ==> buffer@[i] == V::writes(
                    #[trigger] state_after::<T, V>(start, items, i as nat),
                    items[i],
                ),
            forall|i: int| position <= i < count ==> buffer@[i] == items[i],
        decreases count - position,
    {
        proof {
            lemma_first_stop::<T, V>(start, items, position as nat);
        }
        let stop: bool = visitor.visit_mut(&mut buffer[position]);
        position += 1;
        if stop {
            assert(buffer@ =~= rewritten::<T, V>(start, items));
            return ;
        }
    }
    assert(buffer@ =~= rewritten::<T, V>(start, items));
}

} // verus!

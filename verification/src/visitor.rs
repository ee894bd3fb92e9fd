//! Visitors: the callables that a traversal drives.
use vstd::prelude::*;

verus! {

/// The rules a visitor follows, stated over an abstract state.
///
/// One step of a visitor is a function of the state it is in and of the
/// element it is shown: `next` is the state it moves to, `halts` is the signal
/// it returns (`true` to stop the traversal, `false` to go on), and `accepts`
/// says on which elements it may be called at all.
pub trait Protocol<T> {
    /// What the visitor has gathered so far, as a mathematical value.
    type State;

    /// The state this visitor is in.
    spec fn state(&self) -> Self::State;

    /// Whether a visitor in `state` may be shown `item`.
    spec fn accepts(state: Self::State, item: T) -> bool;

    /// The state of a visitor that was in `state` and has been shown `item`.
    spec fn next(state: Self::State, item: T) -> Self::State;

    /// Whether a visitor in `state` that is shown `item` asks to stop.
    spec fn halts(state: Self::State, item: T) -> bool;
}

/// A visitor of shared element references.
pub trait Visitor<T>: Protocol<T> {
    /// Shows the visitor one element. Returns `true` to stop the traversal.
    fn visit(&mut self, item: &T) -> (stop: bool)
        requires
            Self::accepts(old(self).state(), *item),
        ensures
            final(self).state() == Self::next(old(self).state(), *item),
            stop == Self::halts(old(self).state(), *item),
    ;
}

/// A visitor of exclusive element references, which may rewrite the element
/// it is shown.
pub trait VisitorMut<T>: Protocol<T> {
    /// The value that a visitor in `state` leaves in place of `item`.
    spec fn writes(state: Self::State, item: T) -> T;

    /// Shows the visitor one element, in place. Returns `true` to stop the
    /// traversal. `accepts`, `next` and `halts` speak of the element as it was
    /// before the call.
    fn visit_mut(&mut self, item: &mut T) -> (stop: bool)
        requires
            Self::accepts(old(self).state(), *old(item)),
        ensures
            final(self).state() == Self::next(old(self).state(), *old(item)),
            *final(item) == Self::writes(old(self).state(), *old(item)),
            stop == Self::halts(old(self).state(), *old(item)),
    ;
}

} // verus!

//! Internal iteration over contiguous buffers.
//!
//! A traversal hands the elements of a slice to a visitor, one after another
//! from the front, until the buffer ends or the visitor asks to stop. The
//! buffer drives the loop; the visitor only answers "go on" or "stop".
//!
//! * [`visitor`] declares what a visitor is: a value with an abstract state
//!   and a step that is a function of that state and of the element shown.
//! * [`model`] says, over those steps, how many elements a traversal visits
//!   and in which state it leaves the visitor, and proves the laws of
//!   traversals from that.
//! * [`slice`] holds the two traversals: over a shared and over an exclusive
//!   borrow of a slice.
//! * [`visitors`] holds two small visitors.
pub mod model;
pub mod slice;
pub mod visitor;
pub mod visitors;

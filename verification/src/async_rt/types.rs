//! The result of polling a suspendable computation.

use vstd::prelude::*;

verus! {

/// Either the value of a computation that has finished, or the news that
/// it has not: the waker it was given will be woken when polling again
/// is worthwhile.
#[derive(Debug, PartialEq, Eq, Structural)]
pub enum Poll<T> {
    Ready(T),
    Pending,
}

} // verus!

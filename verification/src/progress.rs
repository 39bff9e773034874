//! What one reply makes of a piece of work.
use vstd::prelude::*;

verus! {

/// The state of a piece of work after a reply: either it goes on from `Pending` and has another
/// question to ask, or it is over and `Done` holds what came of it.
#[derive(Debug, PartialEq, Eq)]
pub enum Progress<S, R> {
    Pending(S),
    Done(R),
}

} // verus!

//! Actions of a reinforcement-learning environment, numbered so that a
//! value table can index them.

use vstd::prelude::*;

verus! {

/// An action with a number in its action space.
pub trait Action: Sized {
    /// The number of the action.
    spec fn action_number(&self) -> nat;

    /// The number of the action.
    fn to_index(&self) -> (i: usize)
        ensures
            i == self.action_number(),
    ;

    /// The action with number `index`, if there is one.
    fn from_index(index: usize) -> (a: Option<Self>)
        ensures
            a matches Some(x) ==> x.action_number() == index,
    ;
}

} // verus!

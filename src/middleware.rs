//! The list of middlewares that a store runs for each action.

use vstd::prelude::*;

verus! {

/// Middlewares in the order in which they were added.
pub struct AsyncMiddlewareVec<M> {
    pub vec: Vec<M>,
}

impl<M> AsyncMiddlewareVec<M> {
    pub fn new() -> (r: AsyncMiddlewareVec<M>)
        ensures
            r.vec@ == Seq::<M>::empty(),
    {
        AsyncMiddlewareVec { vec: Vec::new() }
    }

    /// Adds a middleware after those already there.
    pub fn push(&mut self, middleware: M)
        ensures
            final(self).vec@ == old(self).vec@.push(middleware),
    {
        self.vec.push(middleware);
    }

    /// Removes every middleware.
    pub fn clear(&mut self)
        ensures
            final(self).vec@ == Seq::<M>::empty(),
    {
        self.vec.clear();
    }
}

} // verus!

use vstd::prelude::*;

verus! {

/// A reusable recipe for a sequence of notifications. It holds no state of
/// past subscriptions: each subscription starts from the emitter afresh.
#[derive(Clone, Copy)]
pub struct Observable<E> {
    pub emitter: E,
}

impl<E: Copy> Observable<E> {
    pub fn new(emitter: E) -> (r: Self)
        ensures
            r.emitter == emitter,
    {
        Observable { emitter }
    }

    /// An independent handle to the same recipe.
    pub fn fork(&self) -> (r: Self)
        ensures
            r == *self,
    {
        Observable { emitter: self.emitter }
    }

    /// Crosses into the thread-transferable form; the recipe is unchanged.
    pub fn to_shared(self) -> (r: Self)
        ensures
            r == self,
    {
        self
    }
}

} // verus!

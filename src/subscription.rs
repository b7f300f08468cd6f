use vstd::prelude::*;

verus! {

/// A cancellable handle over live work.
pub trait SubscriptionLike: Sized {
    /// The handle's own well-formedness.
    spec fn valid(&self) -> bool;

    /// Whether the handle has reached its terminal `Closed` state.
    spec fn closed(&self) -> bool;

    /// Cancels the work; a second call changes nothing.
    fn unsubscribe(&mut self)
        requires
            old(self).valid(),
        ensures
            final(self).valid(),
            final(self).closed(),
            old(self).closed() ==> *final(self) == *old(self),
    ;

    fn is_closed(&self) -> (r: bool)
        ensures
            r == self.closed(),
    ;
}

/// What `unsubscribe` does to a handle: it ends closed, and a handle that was
/// already closed is left as it was.
pub open spec fn unsubscribed<L: SubscriptionLike>(before: L, after: L) -> bool {
    &&& after.closed()
    &&& before.closed() ==> after == before
}

/// Calling `unsubscribe` twice has the same effect as calling it once, and
/// the handle is closed after either.
pub proof fn lemma_unsubscribe_idempotent<L: SubscriptionLike>(s0: L, s1: L, s2: L)
    requires
        unsubscribed(s0, s1),
        unsubscribed(s1, s2),
    ensures
        s2 == s1,
        s1.closed(),
        s2.closed(),
{
}

/// A subscription that owns child subscriptions: closing it closes every
/// child, and a child added after it closed is closed at once.
/// Each attached child is known by the key that `add` handed out.
pub struct CompositeSubscription<L> {
    closed: bool,
    children: Vec<L>,
    keys: Vec<u64>,
    next_key: u64,
}

impl<L: SubscriptionLike> CompositeSubscription<L> {
    pub closed spec fn is_closed_spec(&self) -> bool {
        self.closed
    }

    /// The attached children, oldest first.
    pub closed spec fn children(&self) -> Seq<L> {
        self.children@
    }

    /// The key of each attached child, in the order of `children`.
    pub closed spec fn keys(&self) -> Seq<u64> {
        self.keys@
    }

    /// The key that the next `add` hands out.
    pub closed spec fn next_key(&self) -> u64 {
        self.next_key
    }

    pub closed spec fn wf(&self) -> bool {
        &&& self.children@.len() == self.keys@.len()
        &&& forall|i: int, j: int|
            0 <= i < j < self.keys@.len() ==> self.keys@[i] < self.keys@[j]
        &&& forall|i: int| 0 <= i < self.keys@.len() ==> self.keys@[i] < self.next_key
        &&& forall|i: int| 0 <= i < self.children@.len() ==> (#[trigger] self.children@[i]).valid()
        &&& self.closed ==> forall|i: int|
            0 <= i < self.children@.len() ==> (#[trigger] self.children@[i]).closed()
    }

    pub fn new() -> (r: Self)
        ensures
            r.wf(),
            !r.is_closed_spec(),
            r.children() == Seq::<L>::empty(),
            r.next_key() == 0,
    {
        CompositeSubscription { closed: false, children: Vec::new(), keys: Vec::new(), next_key: 0 }
    }

    /// Whether another child can still be given a key of its own.
    pub fn has_room(&self) -> (r: bool)
        ensures
            r == (self.next_key() < u64::MAX),
    {
        self.next_key < u64::MAX
    }

    /// Attaches `child`. On an open subscription the child is kept and its key
    /// returned; on a closed one the child is unsubscribed and released, and
    /// `None` comes back.
    pub fn add(&mut self, child: L) -> (r: Option<u64>)
        requires
            old(self).wf(),
            old(self).next_key() < u64::MAX,
            child.valid(),
        ensures
            final(self).wf(),
            final(self).is_closed_spec() == old(self).is_closed_spec(),
            old(self).is_closed_spec() ==> r.is_none() && *final(self) == *old(self),
            !old(self).is_closed_spec() ==> {
                &&& r == Some(old(self).next_key())
                &&& final(self).children() == old(self).children().push(child)
                &&& final(self).keys() == old(self).keys().push(old(self).next_key())
                &&& final(self).next_key() == old(self).next_key() + 1
            },
    {
        if self.closed {
            let mut c = child;
            c.unsubscribe();
            None
        } else {
            let key = self.next_key;
            self.children.push(child);
            self.keys.push(key);
            self.next_key = key + 1;
            proof {
                assert(forall|i: int| 0 <= i < self.keys@.len() ==> self.keys@[i] < self.next_key);
                assert(forall|i: int|
                    0 <= i < self.children@.len() ==> (#[trigger] self.children@[i]).valid()) by {
                    assert(forall|i: int| 0 <= i < old(self).children@.len() ==>
                        self.children@[i] == old(self).children@[i]);
                }
            }
            Some(key)
        }
    }

    /// Detaches and returns the child with key `key`, if it is attached.
    /// The child is not unsubscribed.
    pub fn remove(&mut self, key: u64) -> (r: Option<L>)
        requires
            old(self).wf(),
        ensures
            final(self).wf(),
            final(self).is_closed_spec() == old(self).is_closed_spec(),
            final(self).next_key() == old(self).next_key(),
            r.is_none() <==> !old(self).keys().contains(key),
            r.is_none() ==> *final(self) == *old(self),
            r.is_some() ==> exists|i: int| {
                &&& 0 <= i < old(self).keys().len()
                &&& old(self).keys()[i] == key
                &&& r == Some(old(self).children()[i])
                &&& final(self).children() == old(self).children().remove(i)
                &&& final(self).keys() == old(self).keys().remove(i)
            },
    {
        let mut i: usize = 0;
        while i < self.keys.len()
            invariant
                self.wf(),
                *self == *old(self),
                0 <= i <= self.keys@.len(),
                forall|j: int| 0 <= j < i ==> self.keys@[j] != key,
            decreases self.keys@.len() - i,
        {
            if self.keys[i] == key {
                let ghost before = *self;
                let child = self.children.remove(i);
                self.keys.remove(i);
                proof {
                    assert forall|a: int, b: int|
                        0 <= a < b < self.keys@.len() implies self.keys@[a] < self.keys@[b] by {
                        if a < i && b >= i {
                            assert(self.keys@[b] == before.keys@[b + 1]);
                        }
                    }
                    assert forall|a: int| 0 <= a < self.children@.len() implies
                        (#[trigger] self.children@[a]).valid() && (self.closed ==> self.children@[a].closed()) by {
                        if a >= i {
                            assert(self.children@[a] == before.children@[a + 1]);
                        }
                    }
                }
                assert(self.children@ == before.children@.remove(i as int));
                assert(self.keys@ == before.keys@.remove(i as int));
                assert(before.keys@[i as int] == key);
                assert(child == old(self).children()[i as int]);
                assert(self.children() == old(self).children().remove(i as int));
                assert(self.keys() == old(self).keys().remove(i as int));
                return Some(child);
            }
            i = i + 1;
        }
        None
    }
}

impl<L: SubscriptionLike> SubscriptionLike for CompositeSubscription<L> {
    open spec fn valid(&self) -> bool {
        self.wf()
    }

    open spec fn closed(&self) -> bool {
        self.is_closed_spec()
    }

    /// Marks the subscription closed, then unsubscribes each child once.
    fn unsubscribe(&mut self)
        ensures
            old(self).closed() ==> *final(self) == *old(self),
            !old(self).closed() ==> {
                &&& final(self).keys() == old(self).keys()
                &&& final(self).next_key() == old(self).next_key()
                &&& final(self).children().len() == old(self).children().len()
                &&& forall|i: int| 0 <= i < old(self).children().len() ==>
                    unsubscribed(#[trigger] old(self).children()[i], final(self).children()[i])
            },
    {
        if self.closed {
            return;
        }
        self.closed = true;
        let n = self.children.len();
        let mut i: usize = 0;
        while i < n
            invariant
                n == self.children@.len(),
                self.closed,
                0 <= i <= n,
                self.keys == old(self).keys,
                self.next_key == old(self).next_key,
                self.children@.len() == old(self).children@.len(),
                old(self).wf(),
                forall|j: int| 0 <= j < i ==>
                    unsubscribed(#[trigger] old(self).children@[j], self.children@[j]),
                forall|j: int| 0 <= j < n ==> (#[trigger] self.children@[j]).valid(),
                forall|j: int| i <= j < n ==> self.children@[j] == old(self).children@[j],
            decreases n - i,
        {
            self.children[i].unsubscribe();
            i = i + 1;
        }
        assert forall|j: int| 0 <= j < self.children@.len() implies
            (#[trigger] self.children@[j]).closed() by {
            assert(unsubscribed(old(self).children@[j], self.children@[j]));
        }
    }

    fn is_closed(&self) -> (r: bool) {
        self.closed
    }
}

} // verus!

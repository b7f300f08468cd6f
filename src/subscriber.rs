use vstd::prelude::*;
use crate::Observer;
use crate::subscription::{CompositeSubscription, SubscriptionLike, unsubscribed};

verus! {

/// One notification as an observer received it.
pub enum Notification<I, E> {
    Next(I),
    Error(E),
    Complete,
}

/// The notifications an observer has received, in order.
pub type NotificationLog<I, E> = Seq<Notification<I, E>>;

/// A delivery log in which only the last entry may be `Error` or `Complete`.
pub open spec fn well_terminated<I, E>(log: Seq<Notification<I, E>>) -> bool {
    forall|i: int| 0 <= i < log.len() - 1 ==> (#[trigger] log[i]) is Next
}

/// Whether the log ends with `Error` or `Complete`.
pub open spec fn ended<I, E>(log: Seq<Notification<I, E>>) -> bool {
    log.len() > 0 && !(log.last() is Next)
}

/// Once an observer has received `Error` or `Complete`, it receives nothing
/// more: a terminal notification can only stand last in a well-terminated log.
pub proof fn lemma_nothing_after_termination<I, E>(
    log: Seq<Notification<I, E>>,
    i: int,
)
    requires
        well_terminated(log),
        0 <= i < log.len(),
        !(log[i] is Next),
    ensures
        i == log.len() - 1,
{
}

/// Couples an observer with a subscription and enforces the termination
/// discipline: values pass only while open, at most one `Error` or
/// `Complete` passes, and after it the subscription is unsubscribed.
pub struct Subscriber<I, E, O, L> {
    observer: O,
    subscription: CompositeSubscription<L>,
    stopped: bool,
    log: Ghost<Seq<Notification<I, E>>>,
}

impl<I, E, O: Observer<I, E>, L: SubscriptionLike> Subscriber<I, E, O, L> {
    /// Every notification passed to the observer so far, in order.
    pub closed spec fn delivered(&self) -> Seq<Notification<I, E>> {
        self.log@
    }

    pub closed spec fn observer_spec(&self) -> O {
        self.observer
    }

    pub fn observer(&self) -> (r: &O)
        ensures
            *r == self.observer_spec(),
    {
        &self.observer
    }

    pub closed spec fn stopped(&self) -> bool {
        self.stopped
    }

    pub closed spec fn subscription(&self) -> CompositeSubscription<L> {
        self.subscription
    }

    /// Whether nothing more will be passed to the observer.
    pub open spec fn done(&self) -> bool {
        self.stopped() || self.subscription().is_closed_spec()
    }

    pub closed spec fn wf(&self) -> bool {
        &&& self.subscription.wf()
        &&& well_terminated(self.log@)
        &&& self.stopped == ended(self.log@)
        &&& self.stopped ==> self.subscription.is_closed_spec()
    }

    pub fn new(observer: O, subscription: CompositeSubscription<L>) -> (r: Self)
        requires
            subscription.wf(),
        ensures
            r.wf(),
            r.observer_spec() == observer,
            r.subscription() == subscription,
            !r.stopped(),
            r.delivered() == Seq::<Notification<I, E>>::empty(),
    {
        Subscriber { observer, subscription, stopped: false, log: Ghost(Seq::empty()) }
    }

    pub fn is_stopped(&self) -> (r: bool)
        ensures
            r == self.stopped(),
    {
        self.stopped
    }

    pub fn is_closed(&self) -> (r: bool)
        ensures
            r == self.subscription().is_closed_spec(),
    {
        self.subscription.is_closed()
    }

    /// Passes `v` to the observer unless the subscriber is done.
    pub fn next(&mut self, v: &I)
        requires
            old(self).wf(),
        ensures
            final(self).wf(),
            final(self).stopped() == old(self).stopped(),
            final(self).subscription() == old(self).subscription(),
            old(self).done() ==> final(self).delivered() == old(self).delivered(),
            old(self).done() ==> final(self).observer_spec() == old(self).observer_spec(),
            !old(self).done() ==> final(self).delivered() == old(self).delivered().push(
                Notification::Next(*v),
            ),
            !old(self).done() ==> final(self).observer_spec().received()
                == old(self).observer_spec().received().push(Notification::Next(*v)),
    {
        if !self.stopped && !self.subscription.is_closed() {
            self.observer.next(v);
            proof {
                self.log@ = self.log@.push(Notification::Next(*v));
            }
        }
    }

    /// Passes `err` to the observer unless the subscriber is done, then
    /// stops and unsubscribes.
    pub fn error(&mut self, err: &E)
        requires
            old(self).wf(),
        ensures
            final(self).wf(),
            old(self).done() ==> *final(self) == *old(self),
            !old(self).done() ==> {
                &&& final(self).stopped()
                &&& final(self).delivered() == old(self).delivered().push(
                    Notification::Error(*err),
                )
                &&& final(self).observer_spec().received()
                    == old(self).observer_spec().received().push(Notification::Error(*err))
                &&& unsubscribed(old(self).subscription(), final(self).subscription())
            },
    {
        if !self.stopped && !self.subscription.is_closed() {
            self.stopped = true;
            self.observer.error(err);
            proof {
                self.log@ = self.log@.push(Notification::Error(*err));
            }
            self.subscription.unsubscribe();
        }
    }

    /// Passes `Complete` to the observer unless the subscriber is done, then
    /// stops and unsubscribes.
    pub fn complete(&mut self)
        requires
            old(self).wf(),
        ensures
            final(self).wf(),
            old(self).done() ==> *final(self) == *old(self),
            !old(self).done() ==> {
                &&& final(self).stopped()
                &&& final(self).delivered() == old(self).delivered().push(
                    Notification::Complete,
                )
                &&& final(self).observer_spec().received()
                    == old(self).observer_spec().received().push(Notification::Complete)
                &&& unsubscribed(old(self).subscription(), final(self).subscription())
            },
    {
        if !self.stopped && !self.subscription.is_closed() {
            self.stopped = true;
            self.observer.complete();
            proof {
                self.log@ = self.log@.push(Notification::Complete);
            }
            self.subscription.unsubscribe();
        }
    }

    /// Cancels from the consumer's side: nothing more is passed on.
    pub fn unsubscribe(&mut self)
        requires
            old(self).wf(),
        ensures
            final(self).wf(),
            final(self).done(),
            final(self).stopped() == old(self).stopped(),
            final(self).delivered() == old(self).delivered(),
            unsubscribed(old(self).subscription(), final(self).subscription()),
    {
        self.subscription.unsubscribe();
    }
}

} // verus!

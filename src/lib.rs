use vstd::prelude::*;
use crate::subscriber::{Notification, NotificationLog};

pub mod interval;
pub mod observable;
pub mod subscriber;
pub mod subscription;

verus! {

/// A sink for notifications: any number of values, then at most one error
/// or completion.
pub trait Observer<I, E> {
    /// Every notification this observer has received, in order.
    spec fn received(&self) -> NotificationLog<I, E>;

    fn next(&mut self, v: &I)
        ensures
            final(self).received() == old(self).received().push(Notification::Next(*v)),
    ;

    fn complete(&mut self)
        ensures
            final(self).received() == old(self).received().push(Notification::Complete),
    ;

    fn error(&mut self, err: &E)
        ensures
            final(self).received() == old(self).received().push(Notification::Error(*err)),
    ;
}

} // verus!

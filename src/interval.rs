use vstd::prelude::*;
use crate::observable::Observable;
use crate::subscription::SubscriptionLike;
use futures::future::RemoteHandle;

verus! {

#[verifier::external_type_specification]
#[verifier::external_body]
#[verifier::reject_recursive_types(T)]
pub struct ExRemoteHandle<T>(RemoteHandle<T>);

/// Relies on `futures::future::RemoteHandle::forget`: it releases the handle
/// without cancelling the task behind it. Dropping the handle instead cancels
/// that task.
pub assume_specification<T>[ RemoteHandle::<T>::forget ](h: RemoteHandle<T>)
;

/// The subscription of a task that runs on an executor.
///
/// `unsubscribe` cancels the task, and so does dropping the handle. To let
/// the task run on by itself, release the handle with `detach`.
#[verifier::reject_recursive_types(T)]
pub struct SpawnHandle<T> {
    handle: Option<RemoteHandle<T>>,
}

impl<T> SpawnHandle<T> {
    /// Whether the handle still holds the task (it was neither cancelled nor
    /// detached).
    pub closed spec fn holds_task(&self) -> bool {
        self.handle.is_some()
    }

    pub fn new(handle: RemoteHandle<T>) -> (r: Self)
        ensures
            r.holds_task(),
    {
        SpawnHandle { handle: Some(handle) }
    }

    /// Releases the handle without cancelling the task, which then runs on
    /// by itself.
    pub fn detach(self) {
        match self.handle {
            Some(h) => h.forget(),
            None => {},
        }
    }

    pub fn to_shared(self) -> (r: Self)
        ensures
            r == self,
    {
        self
    }
}

impl<T> SubscriptionLike for SpawnHandle<T> {
    open spec fn valid(&self) -> bool {
        true
    }

    open spec fn closed(&self) -> bool {
        !self.holds_task()
    }

    /// Cancels the task by dropping the handle.
    fn unsubscribe(&mut self) {
        self.handle = None;
    }

    fn is_closed(&self) -> (r: bool) {
        self.handle.is_none()
    }
}


/// A periodic timer: it fires first at `at` and then every `dur` after.
/// Both are nanoseconds, `at` on the caller's monotonic clock.
#[derive(Clone, Copy)]
pub struct IntervalEmitter {
    pub dur: u64,
    pub at: u64,
}

/// `a + b`, or `u64::MAX` where the sum does not fit: an instant that far off
/// is never reached.
pub open spec fn sat_add(a: int, b: int) -> u64 {
    if a + b > u64::MAX {
        u64::MAX
    } else {
        (a + b) as u64
    }
}

/// The instant at which tick `k` (counted from 0) is due.
pub open spec fn tick_deadline(e: IntervalEmitter, k: nat) -> u64 {
    sat_add(e.at as int, k * e.dur)
}

/// An observable that fires one period after `now`, and every period after.
pub fn interval(dur: u64, now: u64) -> (r: Observable<IntervalEmitter>)
    ensures
        r.emitter == (IntervalEmitter { dur, at: sat_add(now as int, dur as int) }),
{
    let at = now.saturating_add(dur);
    Observable::new(IntervalEmitter { dur, at })
}

/// An observable that fires at `at`, and every `dur` after.
pub fn interval_at(at: u64, dur: u64) -> (r: Observable<IntervalEmitter>)
    ensures
        r.emitter == (IntervalEmitter { dur, at }),
{
    Observable::new(IntervalEmitter { dur, at })
}

impl IntervalEmitter {
    pub fn to_shared(self) -> (r: Self)
        ensures
            r == self,
    {
        self
    }

    /// The state of a new subscription: nothing emitted yet.
    pub fn start(&self) -> (r: IntervalTask)
        ensures
            r == start_spec(*self),
    {
        IntervalTask { emitter: *self, next: 0 }
    }

    /// The instant at which tick `k` is due.
    pub fn deadline(&self, k: usize) -> (r: u64)
        ensures
            r == tick_deadline(*self, k as nat),
    {
        proof {
            assert((k as int) * (self.dur as int) <= (usize::MAX as int) * (u64::MAX as int))
                by (nonlinear_arith)
                requires
                    k <= usize::MAX,
                    self.dur <= u64::MAX,
            ;
            assert(usize::MAX as int * u64::MAX as int + u64::MAX as int <= u128::MAX)
                by (nonlinear_arith);
        }
        let t: u128 = (k as u128) * (self.dur as u128);
        let sum: u128 = t + self.at as u128;
        if sum > u64::MAX as u128 {
            u64::MAX
        } else {
            sum as u64
        }
    }
}

pub open spec fn start_spec(e: IntervalEmitter) -> IntervalTask {
    IntervalTask { emitter: e, next: 0 }
}

/// What a running timer does next.
pub enum TickAction {
    /// Deliver this index to the observer.
    Emit(usize),
    /// Nothing is due before this instant.
    WaitUntil(u64),
    /// Every index that a `usize` can hold has been emitted.
    Exhausted,
}

/// One subscription's timer: the emitter and the index of the next tick.
pub struct IntervalTask {
    pub emitter: IntervalEmitter,
    pub next: usize,
}

/// The state and action after one step at instant `now`.
pub open spec fn step_spec(t: IntervalTask, now: u64) -> (IntervalTask, TickAction) {
    if t.next == usize::MAX {
        (t, TickAction::Exhausted)
    } else if now >= tick_deadline(t.emitter, t.next as nat) {
        (IntervalTask { emitter: t.emitter, next: (t.next + 1) as usize }, TickAction::Emit(t.next))
    } else {
        (t, TickAction::WaitUntil(tick_deadline(t.emitter, t.next as nat)))
    }
}

/// The actions of a timer stepped once at each instant of `nows`.
pub open spec fn run(t: IntervalTask, nows: Seq<u64>) -> Seq<TickAction>
    decreases nows.len(),
{
    if nows.len() == 0 {
        Seq::empty()
    } else {
        let (t2, a) = step_spec(t, nows[0]);
        seq![a] + run(t2, nows.drop_first())
    }
}

/// The indices delivered by a sequence of actions.
pub open spec fn emitted(acts: Seq<TickAction>) -> Seq<usize>
    decreases acts.len(),
{
    if acts.len() == 0 {
        Seq::empty()
    } else {
        let head = match acts[0] {
            TickAction::Emit(k) => seq![k],
            _ => Seq::empty(),
        };
        head + emitted(acts.drop_first())
    }
}

impl IntervalTask {
    /// Advances the timer to instant `now`: emits the next index if it is
    /// due, else says how long to wait.
    pub fn step(&mut self, now: u64) -> (r: TickAction)
        ensures
            (*final(self), r) == step_spec(*old(self), now),
    {
        if self.next == usize::MAX {
            return TickAction::Exhausted;
        }
        let d = self.emitter.deadline(self.next);
        if now >= d {
            let k = self.next;
            self.next = k + 1;
            TickAction::Emit(k)
        } else {
            TickAction::WaitUntil(d)
        }
    }
}

/// A timer emits consecutive indices, counting up from its next index.
pub proof fn lemma_run_counts_up(t: IntervalTask, nows: Seq<u64>)
    ensures
        forall|j: int|
            0 <= j < emitted(run(t, nows)).len() ==> emitted(run(t, nows))[j] == t.next + j,
    decreases nows.len(),
{
    if nows.len() > 0 {
        let (t2, a) = step_spec(t, nows[0]);
        let rest = run(t2, nows.drop_first());
        lemma_run_counts_up(t2, nows.drop_first());
        let acts = seq![a] + rest;
        assert(acts.drop_first() =~= rest);
        assert(run(t, nows) == acts);
        assert(acts[0] == a);
        match a {
            TickAction::Emit(k) => {
                assert(k == t.next && t2.next == t.next + 1);
                assert(emitted(acts) == seq![k] + emitted(rest));
            },
            _ => {
                assert(t2 == t);
                assert(emitted(acts) =~= emitted(rest));
            },
        }
    }
}

/// Subscribing to an observable and to a fork of it gives two timers that
/// each start from index 0 and, stepped at the same instants, emit the same
/// indices; each is a value of its own, so stepping or dropping one leaves
/// the other as it was.
pub proof fn lemma_fork_independent(o: Observable<IntervalEmitter>, f: Observable<IntervalEmitter>, nows: Seq<u64>)
    requires
        f == o,
    ensures
        start_spec(f.emitter).next == 0,
        start_spec(o.emitter).next == 0,
        run(start_spec(f.emitter), nows) == run(start_spec(o.emitter), nows),
        forall|j: int| 0 <= j < emitted(run(start_spec(f.emitter), nows)).len() ==>
            emitted(run(start_spec(f.emitter), nows))[j] == j,
{
    lemma_run_counts_up(start_spec(f.emitter), nows);
}

/// A timer made by `interval` with a period of 20 ms at instant `t0` has
/// nothing due at `t0`; by `t0 + 110 ms` exactly the ticks 0 to 4 are due
/// (at 20, 40, 60, 80 and 100 ms), and the next one is due at `t0 + 120 ms`.
pub proof fn lemma_twenty_ms_ticks(t0: u64)
    requires
        t0 <= u64::MAX - 200_000_000,
    ensures
        ({
            let e = IntervalEmitter { dur: 20_000_000, at: sat_add(t0 as int, 20_000_000) };
            &&& tick_deadline(e, 0) > t0
            &&& forall|k: nat| k < 5 ==> tick_deadline(e, k) == t0 + 20_000_000 * (k + 1)
            &&& forall|k: nat| #[trigger] tick_deadline(e, k) <= t0 + 110_000_000 <==> k < 5
            &&& tick_deadline(e, 5) == t0 + 120_000_000
        }),
{
    let e = IntervalEmitter { dur: 20_000_000, at: sat_add(t0 as int, 20_000_000) };
    assert(e.at == t0 + 20_000_000);
    assert forall|k: nat| k < 5 implies tick_deadline(e, k) == t0 + 20_000_000 * (k + 1) by {
        assert(k * 20_000_000 <= 80_000_000) by (nonlinear_arith)
            requires
                k < 5,
        ;
    }
    assert forall|k: nat| #[trigger] tick_deadline(e, k) <= t0 + 110_000_000 <==> k < 5 by {
        if k >= 5 {
            assert(k * 20_000_000 >= 100_000_000) by (nonlinear_arith)
                requires
                    k >= 5,
            ;
        } else {
            assert(k * 20_000_000 <= 80_000_000) by (nonlinear_arith)
                requires
                    k < 5,
            ;
        }
    }
    assert(5 * 20_000_000 == 100_000_000);
}

} // verus!

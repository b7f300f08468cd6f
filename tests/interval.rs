use rxrust::interval::{interval, interval_at, IntervalTask, SpawnHandle, TickAction};
use rxrust::subscription::{CompositeSubscription, SubscriptionLike};
use futures::future::FutureExt;
use std::sync::atomic::{AtomicUsize, Ordering};
use std::sync::Arc;

const MS: u64 = 1_000_000;

/// Steps the timer once per millisecond up to `until_ms`, collecting what it emits.
fn drive(task: &mut IntervalTask, from_ms: u64, until_ms: u64) -> Vec<usize> {
    let mut out = Vec::new();
    let mut now = from_ms;
    while now <= until_ms {
        loop {
            match task.step(now * MS) {
                TickAction::Emit(i) => out.push(i),
                _ => break,
            }
        }
        now += 1;
    }
    out
}

#[test]
fn smoke() {
    let obs = interval(20 * MS, 0);
    let mut task = obs.emitter.start();
    let seconds = drive(&mut task, 0, 110).len();
    assert_eq!(seconds, 5);
}

#[test]
fn smoke_fork() {
    let obs = interval(10 * MS, 0).clone().fork().to_shared().fork();
    let mut task = obs.emitter.start();
    assert_eq!(drive(&mut task, 0, 35), vec![0, 1, 2]);
}

#[test]
fn first_tick_one_period_after_now() {
    let obs = interval(20 * MS, 5 * MS);
    assert_eq!(obs.emitter.at, 25 * MS);
    let mut task = obs.emitter.start();
    assert!(matches!(task.step(24 * MS), TickAction::WaitUntil(t) if t == 25 * MS));
    assert!(matches!(task.step(25 * MS), TickAction::Emit(0)));
    assert!(matches!(task.step(25 * MS), TickAction::WaitUntil(t) if t == 45 * MS));
}

#[test]
fn interval_at_fires_at_start_then_every_period() {
    let obs = interval_at(100, 30);
    let mut task = obs.emitter.start();
    assert!(matches!(task.step(99), TickAction::WaitUntil(100)));
    assert!(matches!(task.step(100), TickAction::Emit(0)));
    assert!(matches!(task.step(129), TickAction::WaitUntil(130)));
    assert!(matches!(task.step(200), TickAction::Emit(1)));
    assert!(matches!(task.step(200), TickAction::Emit(2)));
    assert!(matches!(task.step(200), TickAction::Emit(3)));
    assert!(matches!(task.step(200), TickAction::WaitUntil(220)));
}

#[test]
fn deadline_saturates_far_in_the_future() {
    let obs = interval_at(u64::MAX - 10, 7);
    assert_eq!(obs.emitter.deadline(1), u64::MAX - 3);
    assert_eq!(obs.emitter.deadline(2), u64::MAX);
    assert_eq!(obs.emitter.deadline(usize::MAX), u64::MAX);
}

#[test]
fn exhausted_after_last_index() {
    let obs = interval_at(0, 0);
    let mut task = IntervalTask { emitter: obs.emitter, next: usize::MAX - 1 };
    assert!(matches!(task.step(0), TickAction::Emit(i) if i == usize::MAX - 1));
    assert!(matches!(task.step(0), TickAction::Exhausted));
}

#[test]
fn forks_run_independently() {
    let obs = interval(10 * MS, 0);
    let forked = obs.fork();
    let mut a = obs.emitter.start();
    let mut b = forked.emitter.start();
    assert_eq!(drive(&mut a, 0, 50), vec![0, 1, 2, 3, 4]);
    assert_eq!(drive(&mut b, 0, 20), vec![0, 1]);
    assert_eq!(drive(&mut b, 21, 30), vec![2]);
    assert_eq!(a.next, 5);
}

fn counting_task(counter: &Arc<AtomicUsize>) -> (impl std::future::Future<Output = ()>, SpawnHandle<usize>) {
    let c = counter.clone();
    let (remote, handle) =
        futures::future::ready(()).map(move |_| c.fetch_add(1, Ordering::SeqCst) + 1).remote_handle();
    (remote, SpawnHandle::new(handle))
}

#[test]
fn detach_keeps_task_running() {
    let counter = Arc::new(AtomicUsize::new(0));
    let (remote, handle) = counting_task(&counter);
    assert!(!handle.is_closed());
    handle.detach();
    futures::executor::block_on(remote);
    assert_eq!(counter.load(Ordering::SeqCst), 1);
}

#[test]
fn unsubscribe_cancels_task() {
    let counter = Arc::new(AtomicUsize::new(0));
    let (remote, mut handle) = counting_task(&counter);
    handle.unsubscribe();
    assert!(handle.is_closed());
    handle.unsubscribe();
    assert!(handle.is_closed());
    futures::executor::block_on(remote);
    assert_eq!(counter.load(Ordering::SeqCst), 0);
}

#[test]
fn composite_cancels_its_task_children() {
    let counter = Arc::new(AtomicUsize::new(0));
    let (r1, h1) = counting_task(&counter);
    let (r2, h2) = counting_task(&counter);
    let mut parent = CompositeSubscription::new();
    assert_eq!(parent.add(h1), Some(0));
    assert_eq!(parent.add(h2), Some(1));
    parent.unsubscribe();
    assert!(parent.is_closed());
    futures::executor::block_on(r1);
    futures::executor::block_on(r2);
    assert_eq!(counter.load(Ordering::SeqCst), 0);
}

#[test]
fn removed_task_is_not_cancelled_with_parent() {
    let counter = Arc::new(AtomicUsize::new(0));
    let (r1, h1) = counting_task(&counter);
    let mut parent = CompositeSubscription::new();
    let key = parent.add(h1).unwrap();
    let child = parent.remove(key).unwrap();
    assert!(parent.remove(key).is_none());
    parent.unsubscribe();
    child.detach();
    futures::executor::block_on(r1);
    assert_eq!(counter.load(Ordering::SeqCst), 1);
}

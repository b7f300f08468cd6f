use rxrust::interval::SpawnHandle;
use rxrust::subscriber::{NotificationLog, Subscriber};
use rxrust::subscription::{CompositeSubscription, SubscriptionLike};
use rxrust::Observer;

#[derive(Default)]
struct Recorder {
    seen: Vec<String>,
}

impl Observer<i32, String> for Recorder {
    // A specification item: only the verifier reads it, nothing calls it.
    fn received(&self) -> NotificationLog<i32, String> {
        unreachable!()
    }
    fn next(&mut self, v: &i32) {
        self.seen.push(format!("next {}", v));
    }
    fn complete(&mut self) {
        self.seen.push("complete".to_string());
    }
    fn error(&mut self, err: &String) {
        self.seen.push(format!("error {}", err));
    }
}

type TestSubscriber = Subscriber<i32, String, Recorder, SpawnHandle<()>>;

fn open_subscriber() -> TestSubscriber {
    Subscriber::new(Recorder::default(), CompositeSubscription::new())
}

#[test]
fn values_pass_while_open() {
    let mut s = open_subscriber();
    s.next(&1);
    s.next(&2);
    assert_eq!(s.observer().seen, vec!["next 1", "next 2"]);
    assert!(!s.is_stopped());
    assert!(!s.is_closed());
}

#[test]
fn complete_passes_once_and_closes() {
    let mut s = open_subscriber();
    s.next(&1);
    s.complete();
    s.complete();
    s.next(&2);
    s.error(&"late".to_string());
    assert_eq!(s.observer().seen, vec!["next 1", "complete"]);
    assert!(s.is_stopped());
    assert!(s.is_closed());
}

#[test]
fn error_passes_once_and_closes() {
    let mut s = open_subscriber();
    s.error(&"boom".to_string());
    s.error(&"again".to_string());
    s.complete();
    s.next(&3);
    assert_eq!(s.observer().seen, vec!["error boom"]);
    assert!(s.is_stopped());
    assert!(s.is_closed());
}

#[test]
fn nothing_passes_after_unsubscribe() {
    let mut s = open_subscriber();
    s.unsubscribe();
    s.next(&1);
    s.complete();
    s.error(&"x".to_string());
    assert!(s.observer().seen.is_empty());
    assert!(s.is_closed());
    assert!(!s.is_stopped());
}

#[test]
fn unsubscribe_twice_is_same_as_once() {
    let mut parent: CompositeSubscription<SpawnHandle<()>> = CompositeSubscription::new();
    parent.unsubscribe();
    assert!(parent.is_closed());
    parent.unsubscribe();
    assert!(parent.is_closed());
    assert!(parent.has_room());
}

#[test]
fn child_added_to_closed_parent_is_closed_at_once() {
    let (remote, handle) = futures::future::FutureExt::remote_handle(futures::future::ready(7));
    let mut parent = CompositeSubscription::new();
    parent.unsubscribe();
    assert_eq!(parent.add(SpawnHandle::new(handle)), None);
    futures::executor::block_on(remote);
}

#[test]
fn remove_unknown_key_is_none() {
    let mut parent: CompositeSubscription<SpawnHandle<()>> = CompositeSubscription::new();
    assert!(parent.remove(0).is_none());
    assert!(!parent.is_closed());
}

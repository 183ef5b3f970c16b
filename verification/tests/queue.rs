//! The bounded hand-off.

use ecapplog::queue::{Pop, Queue};
use ecapplog::{Priority, Record};

fn record(message: &str) -> Record {
    Record::new(Priority::Debug, "app", message)
}

fn drain(queue: &mut Queue) -> Vec<String> {
    let mut out = Vec::new();
    while let Pop::Item(r) = queue.pop() {
        out.push(r.message.clone());
        queue.finish();
    }
    out
}

#[test]
fn keeps_the_newest_when_full() {
    let mut queue = Queue::new(3);
    for i in 0..5 {
        let _ = queue.push(record(&i.to_string()));
    }
    // 0 and 1 were pushed out by 3 and 4.
    assert_eq!(drain(&mut queue), ["2", "3", "4"]);
    assert_eq!(queue.dropped_count(), 2);
}

#[test]
fn reports_a_drop_exactly_once_per_discarded_entry() {
    let mut queue = Queue::new(1);
    assert_eq!(queue.push(record("a")), None);
    assert_eq!(queue.push(record("b")), Some(1));
    assert_eq!(queue.push(record("c")), Some(2));
    assert_eq!(queue.dropped_count(), 2);
}

#[test]
fn push_front_puts_a_failed_write_back_at_the_head() {
    let mut queue = Queue::new(4);
    let _ = queue.push(record("b"));
    let _ = queue.push(record("c"));
    assert_eq!(queue.push_front(record("a")), None);
    assert_eq!(drain(&mut queue), ["a", "b", "c"]);
}

#[test]
fn push_front_does_not_exceed_capacity() {
    let mut queue = Queue::new(2);
    let _ = queue.push(record("a"));
    let _ = queue.push(record("b"));
    assert_eq!(queue.push_front(record("requeued")), Some(1));
    assert_eq!(drain(&mut queue), ["a", "b"]);
}

#[test]
fn pop_drains_before_reporting_shutdown() {
    let mut queue = Queue::new(4);
    let _ = queue.push(record("a"));
    queue.shutdown();
    assert!(matches!(queue.pop(), Pop::Item(_)));
    queue.finish();
    assert!(matches!(queue.pop(), Pop::Shutdown));
}

#[test]
fn pop_reports_idle_when_nothing_arrives() {
    let mut queue = Queue::new(4);
    assert!(queue.pop_waits());
    assert!(matches!(queue.pop(), Pop::Idle));
}

#[test]
fn a_push_after_shutdown_is_counted_not_queued() {
    let mut queue = Queue::new(4);
    queue.shutdown();
    assert_eq!(queue.push(record("a")), Some(1));
    assert!(matches!(queue.pop(), Pop::Shutdown));
}

#[test]
fn finishing_with_entries_left_wakes_no_flush() {
    let mut queue = Queue::new(4);
    let _ = queue.push(record("a"));
    let _ = queue.push(record("b"));
    assert!(matches!(queue.pop(), Pop::Item(_)));
    assert!(!queue.finish());
    assert!(!queue.flush());
}

#[test]
fn a_capacity_of_zero_is_taken_for_one() {
    let mut queue = Queue::new(0);
    assert_eq!(queue.capacity(), 1);
    assert_eq!(queue.push(record("a")), None);
    assert_eq!(queue.push(record("b")), Some(1));
    assert_eq!(drain(&mut queue), ["b"]);
    assert_eq!(Queue::new(7).capacity(), 7);
}

#[test]
fn flush_waits_for_an_entry_the_worker_is_still_holding() {
    let mut queue = Queue::new(4);
    let _ = queue.push(record("a"));
    assert!(matches!(queue.pop(), Pop::Item(_)));
    // Nothing is queued any more, and yet the entry is not out.
    assert!(queue.is_empty());
    assert!(queue.flush_waits());
    assert!(!queue.flush(), "the entry is still in the worker's hand");
    assert!(queue.finish());
    assert!(!queue.flush_waits());
    assert!(queue.flush());
}

#[test]
fn shutdown_interrupts_a_pending_sleep() {
    let mut queue = Queue::new(4);
    assert!(queue.sleep_waits());
    assert!(!queue.sleep_or_shutdown());
    assert!(queue.pop_waits());
    queue.shutdown();
    assert!(queue.is_shutdown());
    assert!(!queue.sleep_waits());
    assert!(queue.sleep_or_shutdown());
    assert!(!queue.pop_waits());
}

#[test]
fn a_waiting_pop_wakes_on_a_push() {
    let mut queue = Queue::new(4);
    assert!(queue.pop_waits());
    let _ = queue.push(record("wake up"));
    assert!(!queue.pop_waits());
    assert!(matches!(queue.pop(), Pop::Item(r) if r.message == "wake up"));
}

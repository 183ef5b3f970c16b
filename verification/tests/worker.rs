//! The worker's decisions, step by step.

use std::io::{Error as IoError, ErrorKind};
use std::time::Duration;

use ecapplog::worker::{Action, Worker};
use ecapplog::{Client, Error};

fn refused() -> Result<usize, IoError> {
    Err(IoError::from(ErrorKind::ConnectionRefused))
}

/// A worker that has just been handed a fresh connection and has sent its banner.
fn connected(client: &mut Client) -> Worker {
    let mut worker = Worker::new(client);
    let now = Duration::from_secs(1);
    assert!(matches!(worker.step(client, Ok(0), now), Action::Resolve(_)));
    assert!(matches!(worker.step(client, Ok(1), now), Action::Connect { .. }));
    assert!(matches!(worker.step(client, Ok(0), now), Action::Write { .. }));
    worker
}

#[test]
fn resolves_the_configured_address() {
    let mut client = Client::builder().address("example.org:1234").build();
    let mut worker = Worker::new(&client);
    match worker.step(&mut client, Ok(0), Duration::ZERO) {
        Action::Resolve(address) => assert_eq!(address, "example.org:1234"),
        _ => panic!("not a resolution"),
    }
}

#[test]
fn a_failed_resolution_is_reported_and_waited_out() {
    let mut client = Client::builder()
        .address("nowhere")
        .reconnect_delay(Duration::from_millis(70))
        .build();
    let mut worker = Worker::new(&client);
    worker.step(&mut client, Ok(0), Duration::ZERO);
    let failure = Err(IoError::new(ErrorKind::InvalidInput, "invalid socket address"));
    match worker.step(&mut client, failure, Duration::ZERO) {
        Action::Report(Error::Resolve { address, source }) => {
            assert_eq!(address, "nowhere");
            assert_eq!(source.to_string(), "invalid socket address");
        }
        _ => panic!("not a report"),
    }
    match worker.step(&mut client, Ok(0), Duration::ZERO) {
        Action::Sleep(delay) => assert_eq!(delay, Duration::from_millis(70)),
        _ => panic!("not a delay"),
    }
    assert!(matches!(
        worker.step(&mut client, Ok(0), Duration::ZERO),
        Action::Resolve(_)
    ));
}

#[test]
fn an_address_without_socket_addresses_is_a_connect_error() {
    let mut client = Client::builder().address("empty:1").build();
    let mut worker = Worker::new(&client);
    worker.step(&mut client, Ok(0), Duration::ZERO);
    match worker.step(&mut client, Ok(0), Duration::ZERO) {
        Action::Report(Error::Connect { address, source }) => {
            assert_eq!(address, "empty:1");
            assert_eq!(source.kind(), ErrorKind::AddrNotAvailable);
            assert_eq!(
                source.to_string(),
                "the address resolved to no socket addresses"
            );
        }
        _ => panic!("not a report"),
    }
}

#[test]
fn tries_every_address_and_reports_the_last_failure() {
    let mut client = Client::builder()
        .address("host:1")
        .connect_timeout(Duration::from_millis(1500))
        .build();
    let mut worker = Worker::new(&client);
    let now = Duration::from_secs(9);
    worker.step(&mut client, Ok(0), now);
    let mut outcome = Ok(3);
    for expected in 0..3 {
        match worker.step(&mut client, outcome, now) {
            Action::Connect { index, timeout } => {
                assert_eq!(index, expected);
                assert_eq!(timeout, Duration::from_millis(1500));
            }
            _ => panic!("not an attempt"),
        }
        outcome = Err(IoError::new(ErrorKind::Other, format!("attempt {expected}")));
    }
    match worker.step(&mut client, outcome, now) {
        Action::Report(Error::Connect { address, source }) => {
            assert_eq!(address, "host:1");
            assert_eq!(source.to_string(), "attempt 2");
        }
        _ => panic!("not a report"),
    }
}

#[test]
fn the_banner_is_the_first_frame() {
    let mut client = Client::builder().app_name("AB").build();
    let mut worker = Worker::new(&client);
    worker.step(&mut client, Ok(0), Duration::ZERO);
    worker.step(&mut client, Ok(2), Duration::ZERO);
    match worker.step(&mut client, Ok(0), Duration::ZERO) {
        Action::Write { frame, .. } => assert_eq!(frame, b"\x63\x00\x00\x00\x0bECAPPLOG AB"),
        _ => panic!("not a write"),
    }
}

#[test]
fn a_banner_that_cannot_be_written_means_reconnecting() {
    let mut client = Client::new();
    let mut worker = connected(&mut client);
    assert!(matches!(
        worker.step(&mut client, refused(), Duration::ZERO),
        Action::Report(Error::Write { .. })
    ));
    match worker.step(&mut client, Ok(0), Duration::ZERO) {
        Action::Sleep(delay) => assert_eq!(delay, Duration::from_secs(5)),
        _ => panic!("not a delay"),
    }
}

#[test]
fn an_idle_worker_polls_again() {
    let mut client = Client::new();
    let mut worker = connected(&mut client);
    for _ in 0..3 {
        match worker.step(&mut client, Ok(0), Duration::from_secs(2)) {
            Action::Poll(interval) => assert_eq!(interval, Duration::from_millis(200)),
            _ => panic!("not a poll"),
        }
    }
}

#[test]
fn a_failed_write_hands_the_entry_back() {
    let mut client = Client::builder().buffer_size(2).build();
    let mut worker = connected(&mut client);
    let now = Duration::from_secs(2);
    client.info("app", "kept");
    assert!(matches!(worker.step(&mut client, Ok(0), now), Action::Poll(_)));
    assert!(matches!(worker.step(&mut client, Ok(0), now), Action::Write { .. }));
    // In the worker's hand: not queued, and not flushed either.
    assert!(client.pop_waits());
    assert!(!client.flush());
    assert!(matches!(
        worker.step(&mut client, refused(), now),
        Action::Report(Error::Write { .. })
    ));
    assert!(matches!(worker.step(&mut client, Ok(0), now), Action::Sleep(_)));
    assert!(!client.pop_waits());
    assert_eq!(client.dropped_count(), 0);
}

#[test]
fn an_entry_that_no_longer_fits_is_reported_as_dropped() {
    let mut client = Client::builder().buffer_size(1).build();
    let mut worker = connected(&mut client);
    let now = Duration::from_secs(2);
    client.info("app", "first");
    worker.step(&mut client, Ok(0), now);
    assert!(matches!(worker.step(&mut client, Ok(0), now), Action::Write { .. }));
    // The queue fills up while the write is failing.
    client.info("app", "second");
    assert!(matches!(
        worker.step(&mut client, refused(), now),
        Action::Report(Error::Write { .. })
    ));
    assert!(matches!(
        worker.step(&mut client, Ok(0), now),
        Action::Report(Error::QueueFull { capacity: 1, total: 1 })
    ));
    assert!(matches!(worker.step(&mut client, Ok(0), now), Action::Sleep(_)));
    assert_eq!(client.dropped_count(), 1);
}

#[test]
fn a_closed_client_with_nothing_queued_stops_at_once() {
    let mut client = Client::new();
    let mut worker = Worker::new(&client);
    client.close(Duration::ZERO);
    assert!(matches!(
        worker.step(&mut client, Ok(0), Duration::ZERO),
        Action::Stop
    ));
    // And stays that way.
    assert!(matches!(
        worker.step(&mut client, Ok(0), Duration::ZERO),
        Action::Stop
    ));
}

#[test]
fn without_flush_on_close_nothing_is_drained() {
    let mut client = Client::builder().flush_on_close(false).build();
    let mut worker = connected(&mut client);
    client.info("app", "left behind");
    client.close(Duration::from_secs(2));
    assert!(matches!(
        worker.step(&mut client, Ok(0), Duration::from_secs(2)),
        Action::Stop
    ));
    assert!(!client.flush());
}

#[test]
fn draining_ends_at_the_flush_timeout() {
    let mut client = Client::builder().flush_timeout(Duration::from_secs(3)).build();
    let mut worker = connected(&mut client);
    client.info("app", "one");
    client.info("app", "two");
    // The time to drain starts here.
    let start = Duration::from_secs(10);
    client.close(start);
    assert!(matches!(worker.step(&mut client, Ok(0), start), Action::Poll(_)));
    assert!(matches!(worker.step(&mut client, Ok(0), start), Action::Write { .. }));
    assert!(matches!(
        worker.step(&mut client, Ok(0), start + Duration::from_nanos(2_999_999_999)),
        Action::Poll(_)
    ));
    assert!(matches!(
        worker.step(&mut client, Ok(0), start + Duration::from_secs(3)),
        Action::Write { .. }
    ));
    assert!(matches!(
        worker.step(&mut client, Ok(0), start + Duration::from_secs(3)),
        Action::Stop
    ));
}

#[test]
fn a_flush_bounds_the_connection_attempts() {
    let mut client = Client::builder()
        .flush_timeout(Duration::from_secs(3))
        .connect_timeout(Duration::from_secs(10))
        .build();
    client.info("app", "pending");
    let mut worker = Worker::new(&client);
    let start = Duration::from_secs(10);
    client.close(start);
    assert!(matches!(worker.step(&mut client, Ok(0), start), Action::Resolve(_)));
    // What is left of the budget shrinks from attempt to attempt.
    let mut outcome = Ok(4);
    for (elapsed, left) in [
        (Duration::from_millis(500), Duration::from_millis(2500)),
        (Duration::from_nanos(1_999_999_999), Duration::from_nanos(1_000_000_001)),
        (Duration::from_nanos(2_999_999_999), Duration::from_millis(1)),
    ] {
        match worker.step(&mut client, outcome, start + elapsed) {
            Action::Connect { timeout, .. } => assert_eq!(timeout, left),
            _ => panic!("not an attempt"),
        }
        outcome = refused();
    }
    // Out of budget: the fourth address is not tried any more.
    let late = Err(IoError::new(ErrorKind::TimedOut, "the third attempt"));
    match worker.step(&mut client, late, start + Duration::from_secs(3)) {
        Action::Report(Error::Connect { source, .. }) => {
            assert_eq!(source.to_string(), "the third attempt");
        }
        _ => panic!("not a report"),
    }
    // Unreachable: no waiting.
    assert!(matches!(
        worker.step(&mut client, Ok(0), start + Duration::from_secs(3)),
        Action::Sleep(_)
    ));
    assert!(matches!(
        worker.step(&mut client, Ok(0), start + Duration::from_secs(3)),
        Action::Stop
    ));
}

#[test]
fn a_close_while_connecting_bounds_the_attempts_that_follow() {
    let mut client = Client::builder()
        .flush_timeout(Duration::from_secs(3))
        .connect_timeout(Duration::from_secs(10))
        .build();
    client.info("app", "pending");
    let mut worker = Worker::new(&client);
    worker.step(&mut client, Ok(0), Duration::ZERO);
    match worker.step(&mut client, Ok(2), Duration::ZERO) {
        Action::Connect { timeout, .. } => assert_eq!(timeout, Duration::from_secs(10)),
        _ => panic!("not an attempt"),
    }
    client.close(Duration::from_secs(4));
    match worker.step(&mut client, refused(), Duration::from_secs(5)) {
        Action::Connect { index, timeout } => {
            assert_eq!(index, 1);
            assert_eq!(timeout, Duration::from_secs(2));
        }
        _ => panic!("not an attempt"),
    }
}

/// How long each call of the next write may take, and how long the whole of it.
fn next_write(
    client: &mut Client,
    worker: &mut Worker,
    now: Duration,
) -> (Duration, Option<Duration>) {
    assert!(matches!(worker.step(client, Ok(0), now), Action::Poll(_)));
    match worker.step(client, Ok(0), now) {
        Action::Write { timeout, limit, .. } => (timeout, limit),
        _ => panic!("not a write"),
    }
}

#[test]
fn a_write_call_gets_the_connect_timeout() {
    for flush_timeout in [Duration::ZERO, Duration::from_secs(5), Duration::MAX] {
        let mut client = Client::builder().flush_timeout(flush_timeout).build();
        let mut worker = connected(&mut client);
        client.info("app", "one");
        // Ten seconds by default, and as long as it takes for all of the frame.
        assert_eq!(
            next_write(&mut client, &mut worker, Duration::from_secs(2)),
            (Duration::from_secs(10), None)
        );
    }
}

#[test]
fn a_write_gets_what_is_left_while_draining() {
    let mut client = Client::new();
    let mut worker = connected(&mut client);
    for i in 0..3 {
        client.info("app", format!("{i}"));
    }
    let start = Duration::from_secs(20);
    client.close(start);
    for (elapsed, left) in [
        (Duration::ZERO, Duration::from_secs(5)),
        (Duration::from_secs(2), Duration::from_secs(3)),
        (Duration::from_nanos(4_999_999_999), Duration::from_millis(1)),
    ] {
        assert_eq!(
            next_write(&mut client, &mut worker, start + elapsed),
            (left, Some(left))
        );
    }
    assert!(matches!(
        worker.step(&mut client, Ok(0), start + Duration::from_secs(5)),
        Action::Stop
    ));
}

#[test]
fn a_short_connect_timeout_bounds_writes_while_draining_too() {
    let short = Duration::from_millis(250);
    let mut client = Client::builder().connect_timeout(short).build();
    let mut worker = connected(&mut client);
    client.info("app", "one");
    client.info("app", "two");
    let now = Duration::from_secs(2);
    assert_eq!(next_write(&mut client, &mut worker, now), (short, None));
    client.close(now);
    assert_eq!(next_write(&mut client, &mut worker, now), (short, Some(short)));
}

#[test]
fn the_banner_is_bounded_like_any_write() {
    let mut client = Client::builder().flush_timeout(Duration::from_secs(3)).build();
    let mut worker = Worker::new(&client);
    client.info("app", "pending");
    client.close(Duration::ZERO);
    worker.step(&mut client, Ok(0), Duration::ZERO);
    worker.step(&mut client, Ok(1), Duration::ZERO);
    match worker.step(&mut client, Ok(0), Duration::from_secs(1)) {
        Action::Write { timeout, limit, .. } => {
            assert_eq!(timeout, Duration::from_secs(2));
            assert_eq!(limit, Some(Duration::from_secs(2)));
        }
        _ => panic!("not a write"),
    }
}

#[test]
fn a_write_that_blocks_does_not_hold_a_close_up() {
    let mut client = Client::new();
    let mut worker = connected(&mut client);
    client.info("app", "stuck");
    client.info("app", "behind it");
    let begun = Duration::from_secs(30);
    let (timeout, _) = next_write(&mut client, &mut worker, begun);
    let closed = begun + Duration::from_secs(1);
    client.close(closed);
    // The peer has stopped reading. The close does not wait for the write to end.
    assert_eq!(client.close_wait(closed), Duration::from_secs(5));
    assert_eq!(client.close_wait(closed + Duration::from_secs(5)), Duration::ZERO);
    // And once it has ended, the worker stops without waiting for anything else.
    let now = begun + timeout;
    let blocked = Err(IoError::from(ErrorKind::TimedOut));
    assert!(matches!(
        worker.step(&mut client, blocked, now),
        Action::Report(Error::Write { .. })
    ));
    assert!(matches!(worker.step(&mut client, Ok(0), now), Action::Sleep(_)));
    assert!(!client.sleep_waits());
    assert!(matches!(worker.step(&mut client, Ok(0), now), Action::Stop));
}

#[test]
fn a_short_connect_timeout_still_bounds_a_flush() {
    let mut client = Client::builder().connect_timeout(Duration::from_millis(250)).build();
    client.info("app", "pending");
    let mut worker = Worker::new(&client);
    client.close(Duration::ZERO);
    worker.step(&mut client, Ok(0), Duration::ZERO);
    match worker.step(&mut client, Ok(1), Duration::ZERO) {
        Action::Connect { timeout, .. } => assert_eq!(timeout, Duration::from_millis(250)),
        _ => panic!("not an attempt"),
    }
}

#[test]
fn the_longest_flush_timeout_does_not_overflow() {
    let mut client = Client::builder().flush_timeout(Duration::MAX).build();
    client.info("app", "pending");
    let mut worker = Worker::new(&client);
    client.close(Duration::MAX);
    assert!(matches!(
        worker.step(&mut client, Ok(0), Duration::MAX),
        Action::Resolve(_)
    ));
}

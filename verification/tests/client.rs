//! The client's configuration and logging methods.

use std::time::Duration;

use ecapplog::{Client, ClientBuilder, Error, Priority, Record};
use ecapplog::{DEFAULT_ADDRESS, DEFAULT_APP_NAME, DEFAULT_BUFFER_SIZE};

#[test]
fn the_defaults_are_the_documented_ones() {
    assert_eq!(DEFAULT_ADDRESS, "127.0.0.1:13991");
    assert_eq!(DEFAULT_APP_NAME, "ECAPPLOG-RUST");
    assert_eq!(DEFAULT_BUFFER_SIZE, 1000);
    for client in [
        Client::new(),
        Client::default(),
        Client::builder().build(),
        ClientBuilder::default().build(),
    ] {
        let config = client.config();
        assert_eq!(config.app_name(), "ECAPPLOG-RUST");
        assert_eq!(config.address(), "127.0.0.1:13991");
        assert!(config.flush_on_close());
        assert_eq!(config.flush_timeout(), Duration::from_secs(5));
        assert_eq!(config.connect_timeout(), Duration::from_secs(10));
        assert_eq!(config.reconnect_delay(), Duration::from_secs(5));
    }
}

#[test]
fn the_builder_sets_every_option() {
    let client = Client::builder()
        .app_name("app")
        .address("host:1".to_owned())
        .flush_on_close(false)
        .flush_timeout(Duration::from_millis(1))
        .connect_timeout(Duration::from_millis(2))
        .reconnect_delay(Duration::from_nanos(3))
        .build();
    let config = client.config();
    assert_eq!(config.app_name(), "app");
    assert_eq!(config.address(), "host:1");
    assert!(!config.flush_on_close());
    assert_eq!(config.flush_timeout(), Duration::from_millis(1));
    assert_eq!(config.connect_timeout(), Duration::from_millis(2));
    assert_eq!(config.reconnect_delay(), Duration::from_nanos(3));
}

#[test]
fn the_default_queue_holds_a_thousand_entries() {
    let mut client = Client::new();
    for i in 0..1000 {
        assert!(client.info("app", format!("{i}")).is_none());
    }
    assert!(matches!(
        client.info("app", "one too many"),
        Some(Error::QueueFull { capacity: 1000, total: 1 })
    ));
}

#[test]
fn an_empty_buffer_is_one_entry() {
    let mut client = Client::builder().buffer_size(0).build();
    assert!(client.info("app", "fits").is_none());
    assert!(matches!(
        client.info("app", "does not"),
        Some(Error::QueueFull { capacity: 1, total: 1 })
    ));
}

#[test]
fn every_level_has_its_method() {
    let mut client = Client::new();
    client.trace("c", "trace");
    client.debug("c", "debug");
    client.info("c", "info");
    client.notice("c", "notice");
    client.warning("c", "warning");
    client.error("c", "error");
    client.critical("c", "critical");
    client.fatal("c", "fatal");
    client.log_now(Priority::Custom("AUDIT".into()), "c", "custom");
    client.log(Record::new(Priority::Notice, "c", "whole"));
    assert!(!client.flush());
    assert!(client.flush_waits());
    assert!(!client.pop_waits());
    assert_eq!(client.dropped_count(), 0);

    let mut worker = ecapplog::worker::Worker::new(&client);
    let mut seen = Vec::new();
    let mut outcome = Ok(0);
    loop {
        match worker.step(&mut client, outcome, Duration::ZERO) {
            ecapplog::worker::Action::Resolve(_) => outcome = Ok(1),
            ecapplog::worker::Action::Write { frame, .. } => {
                if frame[0] == 0 {
                    let entry: serde_json::Value =
                        serde_json::from_slice(&frame[5..]).expect("JSON");
                    seen.push((
                        entry["priority"].as_str().expect("text").to_owned(),
                        entry["message"].as_str().expect("text").to_owned(),
                    ));
                }
                outcome = Ok(0);
            }
            ecapplog::worker::Action::Connect { .. } => outcome = Ok(0),
            ecapplog::worker::Action::Poll(_) if client.pop_waits() => break,
            ecapplog::worker::Action::Poll(_) => outcome = Ok(0),
            _ => panic!("unexpected action"),
        }
    }
    let expected = [
        ("TRACE", "trace"),
        ("DEBUG", "debug"),
        ("INFORMATION", "info"),
        ("NOTICE", "notice"),
        ("WARNING", "warning"),
        ("ERROR", "error"),
        ("CRITICAL", "critical"),
        ("FATAL", "fatal"),
        ("AUDIT", "custom"),
        ("NOTICE", "whole"),
    ];
    assert_eq!(seen.len(), expected.len());
    for ((priority, message), (p, m)) in seen.iter().zip(expected) {
        assert_eq!(priority, p);
        assert_eq!(message, m);
    }
}

#[test]
fn closing_is_idempotent_and_final() {
    let mut client = Client::new();
    client.info("app", "before");
    assert!(client.sleep_waits());
    client.close(Duration::from_secs(1));
    client.close(Duration::from_secs(2));
    assert!(!client.sleep_waits());
    assert!(matches!(
        client.info("app", "after"),
        Some(Error::QueueFull { capacity: 1000, total: 1 })
    ));
    assert_eq!(client.dropped_count(), 1);
}

#[test]
fn a_close_waits_out_what_is_left_of_the_flush_timeout() {
    let mut client = Client::builder().flush_timeout(Duration::from_secs(3)).build();
    assert_eq!(client.close_wait(Duration::from_secs(7)), Duration::from_secs(3));
    client.close(Duration::from_secs(10));
    for (now, left) in [(9, 3), (10, 3), (11, 2), (13, 0), (20, 0)] {
        assert_eq!(
            client.close_wait(Duration::from_secs(now)),
            Duration::from_secs(left)
        );
    }
    // Closing again does not start over.
    client.close(Duration::from_secs(12));
    assert_eq!(client.close_wait(Duration::from_secs(12)), Duration::from_secs(1));
}

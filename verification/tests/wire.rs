//! The worker's byte stream, against a stand-in server that decodes frames the way the real one
//! does.

use std::io::{Error as IoError, ErrorKind};
use std::time::Duration;

use ecapplog::worker::{Action, Worker};
use ecapplog::{Client, Error, Priority, Record};

/// One decoded frame: the command byte and its payload.
struct Frame {
    command: u8,
    payload: Vec<u8>,
}

impl Frame {
    fn json(&self) -> serde_json::Value {
        serde_json::from_slice(&self.payload).expect("valid JSON")
    }
}

/// Reads frames the way the server does: `u8` command, `u32` big-endian length, then the payload.
fn decode(bytes: &[u8]) -> Vec<Frame> {
    let mut frames = Vec::new();
    let mut offset = 0;
    while bytes.len() >= offset + 5 {
        let length = u32::from_be_bytes([
            bytes[offset + 1],
            bytes[offset + 2],
            bytes[offset + 3],
            bytes[offset + 4],
        ]) as usize;
        assert!(bytes.len() >= offset + 5 + length, "an incomplete frame");
        frames.push(Frame {
            command: bytes[offset],
            payload: bytes[offset + 5..offset + 5 + length].to_vec(),
        });
        offset += 5 + length;
    }
    assert_eq!(offset, bytes.len());
    frames
}

/// A server that can be up or down, with the bytes of each connection it accepted.
struct Server {
    up: bool,
    connections: Vec<Vec<u8>>,
}

/// The worker's thread, with a clock that moves only while it waits.
struct Thread {
    client: Client,
    worker: Worker,
    server: Server,
    now: Duration,
    reports: Vec<Error>,
    outcome: Option<Result<usize, IoError>>,
    stopped: bool,
}

impl Thread {
    fn new(client: Client) -> Self {
        let worker = Worker::new(&client);
        Thread {
            client,
            worker,
            server: Server { up: true, connections: Vec::new() },
            now: Duration::from_secs(100),
            reports: Vec::new(),
            outcome: Some(Ok(0)),
            stopped: false,
        }
    }

    /// Runs until the worker stops, or waits with nothing to wake it before its timeout: a poll is
    /// left pending, and so is a delay, after the clock has moved past it.
    fn run(&mut self) {
        for _ in 0..1000 {
            let outcome = self.outcome.take().expect("an outcome");
            let action = self.worker.step(&mut self.client, outcome, self.now);
            self.outcome = Some(match action {
                Action::Resolve(_) => Ok(1),
                Action::Connect { index, .. } => {
                    assert_eq!(index, 0);
                    if self.server.up {
                        self.server.connections.push(Vec::new());
                        Ok(0)
                    } else {
                        Err(IoError::from(ErrorKind::ConnectionRefused))
                    }
                }
                Action::Write { frame, .. } => {
                    if self.server.up {
                        let stream = self.server.connections.last_mut().expect("a connection");
                        stream.extend_from_slice(&frame);
                        Ok(0)
                    } else {
                        Err(IoError::from(ErrorKind::BrokenPipe))
                    }
                }
                Action::Report(error) => {
                    self.reports.push(error);
                    Ok(0)
                }
                Action::Poll(interval) => {
                    if self.client.pop_waits() {
                        self.now += interval;
                        self.outcome = Some(Ok(0));
                        return;
                    }
                    Ok(0)
                }
                Action::Sleep(delay) => {
                    if self.client.sleep_waits() {
                        self.now += delay;
                        self.outcome = Some(Ok(0));
                        return;
                    }
                    Ok(0)
                }
                Action::Stop => {
                    self.stopped = true;
                    self.outcome = Some(Ok(0));
                    return;
                }
            });
        }
        panic!("the worker neither waits nor stops");
    }

    fn frames(&self, connection: usize) -> Vec<Frame> {
        decode(&self.server.connections[connection])
    }
}

#[test]
fn sends_a_banner_then_log_frames() {
    let mut client = Client::builder().app_name("TEST-APP").build();
    client.info("app", "first");
    client.log(
        Record::new(Priority::Error, "app", "second")
            .original_category("app.inner")
            .extra_category("other"),
    );
    let mut thread = Thread::new(client);
    thread.run();

    let frames = thread.frames(0);
    assert_eq!(frames.len(), 3, "expected a banner and two log frames");

    // The banner: command 99, the 9-byte prefix including its trailing space, then the app name.
    assert_eq!(frames[0].command, 99);
    assert_eq!(frames[0].payload, b"ECAPPLOG TEST-APP");

    assert_eq!(frames[1].command, 0);
    let first = frames[1].json();
    assert_eq!(first["priority"], "INFORMATION");
    assert_eq!(first["category"], "app");
    assert_eq!(first["message"], "first");
    assert!(first.get("source").is_none(), "empty fields are omitted");

    assert_eq!(frames[2].command, 0);
    let second = frames[2].json();
    assert_eq!(second["priority"], "ERROR");
    assert_eq!(second["original_category"], "app.inner");
    assert_eq!(
        second["extra_categories"],
        serde_json::Value::Array(vec![serde_json::Value::from("other")])
    );
    assert!(thread.client.flush());
}

#[test]
fn timestamps_are_in_the_format_the_server_parses() {
    let mut client = Client::new();
    client.info("app", "x");
    let mut thread = Thread::new(client);
    thread.run();
    let frames = thread.frames(0);
    assert_eq!(frames.len(), 2);

    let entry = frames[1].json();
    let time = entry["time"].as_str().expect("a string timestamp");

    // "yyyy-MM-ddThh:mm:ss.zzz" -- no zone designator, exactly three fractional digits.
    assert_eq!(time.len(), 23, "{time}");
    assert!(!time.ends_with('Z'), "{time} must not be RFC 3339");
    assert!(!time.contains('+'), "{time} must not carry an offset");
    let (date, rest) = time.split_once('T').expect("a T separator");
    assert_eq!(date.len(), 10, "{time}");
    assert_eq!(rest.split('.').nth(1).map(str::len), Some(3), "{time}");
    assert!(
        rest.chars()
            .all(|c| c.is_ascii_digit() || c == ':' || c == '.'),
        "{time}"
    );
}

/// Entries logged while the GUI is not running are held and delivered once it appears.
#[test]
fn queues_while_unreachable_and_delivers_on_connect() {
    let mut thread = Thread::new(Client::builder().app_name("BACKLOG").build());
    thread.server.up = false;
    for i in 0..10 {
        thread.client.info("app", format!("queued {i}"));
        thread.run();
    }
    assert_eq!(
        thread.client.dropped_count(),
        0,
        "nothing should be dropped below capacity, connected or not"
    );
    assert!(thread.server.connections.is_empty());
    assert!(!thread.client.flush());

    thread.server.up = true;
    thread.run();
    let frames = thread.frames(0);
    assert_eq!(frames.len(), 11, "expected the banner plus all 10 entries");
    assert_eq!(frames[0].payload, b"ECAPPLOG BACKLOG");

    // In order, and complete.
    for (i, frame) in frames[1..].iter().enumerate() {
        assert_eq!(frame.json()["message"], format!("queued {i}"));
    }
    assert!(thread.client.flush());
}

/// Past capacity the *oldest* entries go, not the newest.
#[test]
fn drops_the_oldest_when_the_queue_overruns() {
    let mut thread = Thread::new(Client::builder().app_name("OVERRUN").buffer_size(4).build());
    thread.server.up = false;
    thread.run();
    for i in 0..10 {
        thread.client.info("app", format!("entry {i}"));
    }
    assert_eq!(thread.client.dropped_count(), 6, "10 logged into a queue of 4");

    thread.server.up = true;
    thread.run();
    let frames = thread.frames(0);
    assert_eq!(frames.len(), 5, "the banner plus the surviving 4");
    let messages: Vec<String> = frames[1..]
        .iter()
        .map(|f| f.json()["message"].as_str().expect("a string message").to_owned())
        .collect();
    assert_eq!(messages, ["entry 6", "entry 7", "entry 8", "entry 9"]);
}

/// A dropped entry must be reported, not swallowed.
#[test]
fn reports_dropped_entries_through_the_error_callback() {
    let mut client = Client::builder().buffer_size(2).build();
    let mut drops = 0;
    for i in 0..5 {
        if matches!(
            client.info("app", format!("entry {i}")),
            Some(Error::QueueFull { .. })
        ) {
            drops += 1;
        }
    }
    assert_eq!(drops, 3);
    assert_eq!(client.dropped_count(), 3);
}

/// Closing must not wait out the reconnect delay.
#[test]
fn close_returns_promptly_when_the_server_is_unreachable() {
    let client = Client::builder()
        .reconnect_delay(Duration::from_secs(30))
        .connect_timeout(Duration::from_millis(500))
        .build();
    let mut thread = Thread::new(client);
    thread.server.up = false;
    thread.client.info("app", "never delivered");
    thread.run();
    assert!(!thread.stopped);

    let start = thread.now;
    thread.client.close(thread.now);
    thread.run();
    assert!(thread.stopped);
    assert_eq!(thread.now, start, "close waited out a delay");
}

/// Closing drains what is queued, also when the worker has not connected yet.
#[test]
fn dropping_the_client_flushes_what_is_queued() {
    let mut thread = Thread::new(Client::new());
    thread.client.info("app", "one");
    thread.client.info("app", "two");
    thread.client.info("app", "three");
    thread.client.close(thread.now);
    thread.run();
    assert!(thread.stopped);
    assert_eq!(thread.frames(0).iter().filter(|f| f.command == 0).count(), 3);
    assert!(thread.client.flush());
}

/// A GUI restart mid-run must be picked up, with a fresh banner on the new connection.
#[test]
fn reconnects_and_re_sends_the_banner() {
    let mut thread = Thread::new(Client::builder().app_name("RECONNECT").build());
    thread.client.info("app", "before");
    thread.run();
    let frames = thread.frames(0);
    assert_eq!(frames.len(), 2);
    assert_eq!(frames[0].command, 99);
    assert_eq!(frames[0].payload, b"ECAPPLOG RECONNECT");

    // Hang up on the client, the way closing the GUI would.
    thread.server.up = false;
    thread.client.info("app", "after");
    thread.run();
    assert!(matches!(thread.reports.last(), Some(Error::Write { .. })));

    thread.server.up = true;
    thread.run();
    let frames = thread.frames(1);
    assert_eq!(frames[0].command, 99, "the banner must be re-sent on reconnect");
    assert_eq!(frames[0].payload, b"ECAPPLOG RECONNECT");
    // The entry whose write failed comes first, and entries keep flowing.
    assert_eq!(frames[1].json()["message"], "after");
    thread.client.info("app", "later");
    thread.run();
    let frames = thread.frames(1);
    assert_eq!(frames.len(), 3);
    assert!(frames[1..].iter().all(|f| f.command == 0));
    assert_eq!(frames[2].json()["message"], "later");
}

/// What is logged comes out in order and exactly once, whenever the connection fails.
#[test]
fn nothing_is_lost_or_repeated_over_failing_connections() {
    let mut thread = Thread::new(Client::new());
    for i in 0..12 {
        thread.server.up = i % 3 == 0;
        thread.client.info("app", format!("{i}"));
        thread.run();
    }
    thread.server.up = true;
    thread.run();
    let mut messages = Vec::new();
    for connection in 0..thread.server.connections.len() {
        let frames = thread.frames(connection);
        assert_eq!(frames.iter().filter(|f| f.command == 99).count(), 1);
        assert_eq!(frames[0].command, 99);
        for frame in &frames[1..] {
            messages.push(frame.json()["message"].as_str().expect("text").to_owned());
        }
    }
    let expected: Vec<String> = (0..12).map(|i| format!("{i}")).collect();
    assert_eq!(messages, expected);
    assert!(thread.client.flush());
}

/// An entry over the limit is discarded, and the ones behind it still go out.
#[test]
fn an_oversized_entry_is_reported_and_passed_over() {
    let mut thread = Thread::new(Client::new());
    thread.client.info("app", "x".repeat(16 * 1024 * 1024));
    thread.client.info("app", "small");
    thread.run();
    assert_eq!(thread.reports.len(), 1);
    assert!(matches!(
        thread.reports[0],
        Error::PayloadTooLarge { size, limit } if size > limit && limit == 16 * 1024 * 1024
    ));
    let frames = thread.frames(0);
    assert_eq!(frames.len(), 2);
    assert_eq!(frames[1].json()["message"], "small");
    assert!(thread.client.flush());
}

//! The client: its configuration, and the state that its handles share.
//!
//! A [`Client`] holds the configuration and the queue. Handles share one behind a lock; the
//! background thread drives it with a [`Worker`](crate::worker::Worker).

use std::time::Duration;

use vstd::prelude::*;

use crate::clock::{duration_from_nanos, duration_nanos};
use crate::error::Error;
use crate::priority::Priority;
use crate::queue::{
    lemma_discards_are_counted, lemma_keeps_the_newest, one_more, push_all, report, Pop, Queue,
    QueueView,
};
use crate::record::{plain_entry, Record};
use crate::text::IntoText;

verus! {

/// The address the ECAppLog GUI listens on. The port is not configurable server-side.
pub const DEFAULT_ADDRESS: &'static str = "127.0.0.1:13991";

/// The default application name, shown as the GUI's connection tab.
pub const DEFAULT_APP_NAME: &'static str = "ECAPPLOG-RUST";

/// The default queue capacity.
pub const DEFAULT_BUFFER_SIZE: usize = 1000;

/// How a client behaves, with durations in nanoseconds.
#[verifier::ext_equal]
pub struct Settings {
    /// The name the GUI labels the connection with.
    pub app_name: Seq<char>,
    /// Where to connect, as `host:port`.
    pub address: Seq<char>,
    /// Whether closing drains the queue first.
    pub flush_on_close: bool,
    /// How long a close may spend draining.
    pub flush_timeout: nat,
    /// How long to wait for a connection, and for a write.
    pub connect_timeout: nat,
    /// How long to wait between connection attempts.
    pub reconnect_delay: nat,
}

/// The configuration that a client was built with.
pub struct Config {
    app_name: String,
    address: String,
    flush_on_close: bool,
    flush_timeout: Duration,
    connect_timeout: Duration,
    reconnect_delay: Duration,
}

impl View for Config {
    type V = Settings;

    closed spec fn view(&self) -> Settings {
        Settings {
            app_name: self.app_name@,
            address: self.address@,
            flush_on_close: self.flush_on_close,
            flush_timeout: duration_nanos(self.flush_timeout),
            connect_timeout: duration_nanos(self.connect_timeout),
            reconnect_delay: duration_nanos(self.reconnect_delay),
        }
    }
}

impl Config {
    /// The name the GUI labels the connection with.
    pub fn app_name(&self) -> (app_name: &str)
        ensures
            app_name@ == self@.app_name,
    {
        self.app_name.as_str()
    }

    /// Where to connect.
    pub fn address(&self) -> (address: &str)
        ensures
            address@ == self@.address,
    {
        self.address.as_str()
    }

    /// Whether closing drains the queue first.
    pub fn flush_on_close(&self) -> (flush_on_close: bool)
        ensures
            flush_on_close == self@.flush_on_close,
    {
        self.flush_on_close
    }

    /// How long a close may spend draining.
    pub fn flush_timeout(&self) -> (flush_timeout: Duration)
        ensures
            duration_nanos(flush_timeout) == self@.flush_timeout,
    {
        self.flush_timeout
    }

    /// How long to wait for a connection, and for a write.
    pub fn connect_timeout(&self) -> (connect_timeout: Duration)
        ensures
            duration_nanos(connect_timeout) == self@.connect_timeout,
    {
        self.connect_timeout
    }

    /// How long to wait between connection attempts.
    pub fn reconnect_delay(&self) -> (reconnect_delay: Duration)
        ensures
            duration_nanos(reconnect_delay) == self@.reconnect_delay,
    {
        self.reconnect_delay
    }
}

/// Builds a [`Client`].
pub struct ClientBuilder {
    config: Config,
    buffer_size: usize,
}

/// What a [`ClientBuilder`] was told.
#[verifier::ext_equal]
pub struct BuilderView {
    /// The configuration so far.
    pub settings: Settings,
    /// The queue capacity so far.
    pub buffer_size: usize,
}

/// Every default.
pub open spec fn default_settings() -> Settings {
    Settings {
        app_name: DEFAULT_APP_NAME@,
        address: DEFAULT_ADDRESS@,
        flush_on_close: true,
        flush_timeout: 5_000_000_000,
        connect_timeout: 10_000_000_000,
        reconnect_delay: 5_000_000_000,
    }
}

impl View for ClientBuilder {
    type V = BuilderView;

    closed spec fn view(&self) -> BuilderView {
        BuilderView { settings: self.config@, buffer_size: self.buffer_size }
    }
}

impl Default for ClientBuilder {
    fn default() -> (builder: Self)
        ensures
            builder@ == (BuilderView {
                settings: default_settings(),
                buffer_size: DEFAULT_BUFFER_SIZE,
            }),
    {
        ClientBuilder {
            config: Config {
                app_name: DEFAULT_APP_NAME.to_owned(),
                address: DEFAULT_ADDRESS.to_owned(),
                // On by default: a program that logs and exits loses nothing then.
                flush_on_close: true,
                flush_timeout: Duration::from_secs(5),
                connect_timeout: Duration::from_secs(10),
                reconnect_delay: Duration::from_secs(5),
            },
            buffer_size: DEFAULT_BUFFER_SIZE,
        }
    }
}

impl ClientBuilder {
    /// The name the GUI labels this connection with. Default `ECAPPLOG-RUST`.
    ///
    /// The server appends a sequence number, so the tab reads `my-service:1`. Reconnecting gets a
    /// new number, and therefore a new tab.
    pub fn app_name<T: IntoText>(self, app_name: T) -> (builder: Self)
        ensures
            builder@ == (BuilderView {
                settings: Settings { app_name: app_name.text(), ..self@.settings },
                ..self@
            }),
    {
        let mut builder = self;
        builder.config.app_name = app_name.into_text();
        builder
    }

    /// Where to connect, as `host:port`. Default `127.0.0.1:13991`.
    ///
    /// The GUI binds loopback unless its `listen_all_interfaces` setting is turned on, so a
    /// non-local address only works if it has been.
    pub fn address<T: IntoText>(self, address: T) -> (builder: Self)
        ensures
            builder@ == (BuilderView {
                settings: Settings { address: address.text(), ..self@.settings },
                ..self@
            }),
    {
        let mut builder = self;
        builder.config.address = address.into_text();
        builder
    }

    /// How many entries may queue up while the GUI is unreachable. Default 1000.
    ///
    /// Once full, the **oldest** queued entry is discarded to make room. Discards are reported and
    /// counted by [`Client::dropped_count`].
    pub fn buffer_size(self, buffer_size: usize) -> (builder: Self)
        ensures
            builder@ == (BuilderView { buffer_size, ..self@ }),
    {
        let mut builder = self;
        builder.buffer_size = buffer_size;
        builder
    }

    /// Whether [`Client::close`] lets the worker drain the queue first. Default `true`.
    ///
    /// Draining needs a live connection: if the GUI is unreachable when the client shuts down,
    /// whatever is queued is lost either way, and the worker stops without waiting.
    pub fn flush_on_close(self, flush_on_close: bool) -> (builder: Self)
        ensures
            builder@ == (BuilderView {
                settings: Settings { flush_on_close, ..self@.settings },
                ..self@
            }),
    {
        let mut builder = self;
        builder.config.flush_on_close = flush_on_close;
        builder
    }

    /// How long a close may spend draining. Default 5 seconds.
    ///
    /// The ceiling on how long closing may take: it counts from the close on, bounds what the
    /// worker begins after it, and how long a close waits for what was begun before it.
    pub fn flush_timeout(self, flush_timeout: Duration) -> (builder: Self)
        ensures
            builder@ == (BuilderView {
                settings: Settings {
                    flush_timeout: duration_nanos(flush_timeout),
                    ..self@.settings
                },
                ..self@
            }),
    {
        let mut builder = self;
        builder.config.flush_timeout = flush_timeout;
        builder
    }

    /// How long to wait for a connection to be established. Default 10 seconds.
    ///
    /// Also used as the socket write timeout, so a half-open connection cannot wedge the worker
    /// indefinitely.
    pub fn connect_timeout(self, connect_timeout: Duration) -> (builder: Self)
        ensures
            builder@ == (BuilderView {
                settings: Settings {
                    connect_timeout: duration_nanos(connect_timeout),
                    ..self@.settings
                },
                ..self@
            }),
    {
        let mut builder = self;
        builder.config.connect_timeout = connect_timeout;
        builder
    }

    /// How long to wait between connection attempts. Default 5 seconds.
    ///
    /// Deliberately a fixed delay rather than exponential backoff: the usual case is an application
    /// already running when the GUI is opened, and backoff would make attaching take progressively
    /// longer for no benefit on a loopback connection.
    pub fn reconnect_delay(self, reconnect_delay: Duration) -> (builder: Self)
        ensures
            builder@ == (BuilderView {
                settings: Settings {
                    reconnect_delay: duration_nanos(reconnect_delay),
                    ..self@.settings
                },
                ..self@
            }),
    {
        let mut builder = self;
        builder.config.reconnect_delay = reconnect_delay;
        builder
    }

    /// Builds the client, with an empty queue.
    pub fn build(self) -> (client: Client)
        ensures
            client@.inv(),
            client@ == new_client(self@),
    {
        let client = Client {
            config: self.config,
            queue: Queue::new(self.buffer_size),
            closed_at: None,
        };
        assert(client@ =~= new_client(self@));
        client
    }
}

/// A client as it comes out of its builder.
pub open spec fn new_client(builder: BuilderView) -> ClientView {
    ClientView {
        settings: builder.settings,
        queue: QueueView {
            items: seq![],
            busy: false,
            shutdown: false,
            capacity: if builder.buffer_size == 0 { 1 } else { builder.buffer_size },
            dropped: 0,
        },
        closed_at: None,
    }
}

/// A connection to the ECAppLog GUI, as far as it is not the connection itself: the configuration
/// and the entries on their way.
///
/// Logging never touches the network. Entries go into a bounded queue that the worker drains;
/// while the GUI is unreachable they accumulate there and are sent once it appears.
///
/// Nothing here calls back into the application. Where an entry had to be discarded, the method
/// returns the [`Error`] to report, for the caller to report once it has let go of its lock.
pub struct Client {
    config: Config,
    queue: Queue,
    closed_at: Option<Duration>,
}

/// The state of a [`Client`], with times in nanoseconds on the clock of whoever drives it.
#[verifier::ext_equal]
pub struct ClientView {
    /// Its configuration.
    pub settings: Settings,
    /// Its queue.
    pub queue: QueueView,
    /// When it was closed, if it was.
    pub closed_at: Option<int>,
}

impl ClientView {
    /// What holds of every client.
    pub open spec fn inv(self) -> bool {
        &&& self.queue.inv()
        &&& self.queue.shutdown == (self.closed_at is Some)
    }

    /// The client after it was closed. Closing it again changes nothing.
    pub open spec fn closed(self, now: int) -> ClientView {
        ClientView {
            queue: self.queue.stopped(),
            closed_at: match self.closed_at {
                Some(closed_at) => Some(closed_at),
                None => Some(now),
            },
            ..self
        }
    }

    /// When the time to drain is over: the flush timeout after the client was closed.
    pub open spec fn flush_deadline(self) -> Option<int> {
        match self.closed_at {
            Some(closed_at) => Some(closed_at + self.settings.flush_timeout),
            None => None,
        }
    }

    /// How long a close waits for the worker: until the time to drain is over, and never longer
    /// than that time as a whole.
    pub open spec fn close_wait_nanos(self, now: int) -> int {
        let whole = self.settings.flush_timeout as int;
        let left = match self.flush_deadline() {
            Some(deadline) => deadline - now,
            None => whole,
        };
        if left < 0 {
            0
        } else if left > whole {
            whole
        } else {
            left
        }
    }

    /// Whether the client was closed and the time to drain is over.
    pub open spec fn out_of_time(self, now: int) -> bool {
        self.flush_deadline() matches Some(deadline) && now >= deadline
    }

    /// The client with another queue.
    pub open spec fn with_queue(self, queue: QueueView) -> ClientView {
        ClientView { queue, ..self }
    }

    /// The client after an entry was logged.
    pub open spec fn logged(self, record: Record) -> ClientView {
        self.with_queue(self.queue.pushed(record))
    }

    /// What logging an entry gives to report: that the queue is full, with the running total, if
    /// an entry had to be discarded.
    pub open spec fn log_report(self, record: Record) -> Option<Error> {
        if self.queue.push_drops() {
            Some(
                Error::QueueFull {
                    capacity: self.queue.capacity,
                    total: self.queue.pushed(record).dropped,
                },
            )
        } else {
            None
        }
    }

    /// Whether `after` is this client after logging an entry stamped with some time, and `error`
    /// what that gives to report.
    pub open spec fn logged_now(
        self,
        priority: Priority,
        category: Seq<char>,
        message: Seq<char>,
        after: ClientView,
        error: Option<Error>,
    ) -> bool {
        exists|record: Record|
            {
                &&& record@ == plain_entry(record.time, priority, category, message)
                &&& after == #[trigger] self.logged(record)
                &&& error == self.log_report(record)
            }
    }
}

impl View for Client {
    type V = ClientView;

    closed spec fn view(&self) -> ClientView {
        ClientView {
            settings: self.config@,
            queue: self.queue@,
            closed_at: match self.closed_at {
                Some(closed_at) => Some(duration_nanos(closed_at) as int),
                None => None,
            },
        }
    }
}

impl Default for Client {
    fn default() -> (client: Self)
        ensures
            client@.inv(),
            client@ == new_client(
                BuilderView { settings: default_settings(), buffer_size: DEFAULT_BUFFER_SIZE },
            ),
    {
        Self::new()
    }
}

impl Client {
    /// A client with every default.
    pub fn new() -> (client: Self)
        ensures
            client@.inv(),
            client@ == new_client(
                BuilderView { settings: default_settings(), buffer_size: DEFAULT_BUFFER_SIZE },
            ),
    {
        let builder: ClientBuilder = Default::default();
        builder.build()
    }

    /// Starts configuring a client.
    pub fn builder() -> (builder: ClientBuilder)
        ensures
            builder@ == (BuilderView {
                settings: default_settings(),
                buffer_size: DEFAULT_BUFFER_SIZE,
            }),
    {
        Default::default()
    }

    /// The configuration.
    pub fn config(&self) -> (config: &Config)
        ensures
            config@ == self@.settings,
    {
        &self.config
    }

    /// Queues an entry.
    ///
    /// Never blocks on the network and never fails. If the queue is full the oldest entry is
    /// discarded, and that is returned as the error to report.
    pub fn log(&mut self, record: Record) -> (error: Option<Error>)
        requires
            old(self)@.inv(),
        ensures
            final(self)@.inv(),
            final(self)@ == old(self)@.logged(record),
            error == old(self)@.log_report(record),
    {
        let capacity = self.queue.capacity();
        match self.queue.push(record) {
            Some(total) => Some(Error::QueueFull { capacity, total }),
            None => None,
        }
    }

    /// Queues an entry stamped with the current time.
    pub fn log_now<C: IntoText, M: IntoText>(
        &mut self,
        priority: Priority,
        category: C,
        message: M,
    ) -> (error: Option<Error>)
        requires
            old(self)@.inv(),
        ensures
            final(self)@.inv(),
            old(self)@.logged_now(
                priority,
                category.text(),
                message.text(),
                final(self)@,
                error,
            ),
    {
        self.log(Record::new(priority, category, message))
    }

    /// Logs at [`Priority::Trace`].
    pub fn trace<C: IntoText, M: IntoText>(&mut self, category: C, message: M) -> (error: Option<
        Error,
    >)
        requires
            old(self)@.inv(),
        ensures
            final(self)@.inv(),
            old(self)@.logged_now(
                Priority::Trace,
                category.text(),
                message.text(),
                final(self)@,
                error,
            ),
    {
        self.log_now(Priority::Trace, category, message)
    }

    /// Logs at [`Priority::Debug`].
    pub fn debug<C: IntoText, M: IntoText>(&mut self, category: C, message: M) -> (error: Option<
        Error,
    >)
        requires
            old(self)@.inv(),
        ensures
            final(self)@.inv(),
            old(self)@.logged_now(
                Priority::Debug,
                category.text(),
                message.text(),
                final(self)@,
                error,
            ),
    {
        self.log_now(Priority::Debug, category, message)
    }

    /// Logs at [`Priority::Information`].
    pub fn info<C: IntoText, M: IntoText>(&mut self, category: C, message: M) -> (error: Option<
        Error,
    >)
        requires
            old(self)@.inv(),
        ensures
            final(self)@.inv(),
            old(self)@.logged_now(
                Priority::Information,
                category.text(),
                message.text(),
                final(self)@,
                error,
            ),
    {
        self.log_now(Priority::Information, category, message)
    }

    /// Logs at [`Priority::Notice`].
    pub fn notice<C: IntoText, M: IntoText>(&mut self, category: C, message: M) -> (error: Option<
        Error,
    >)
        requires
            old(self)@.inv(),
        ensures
            final(self)@.inv(),
            old(self)@.logged_now(
                Priority::Notice,
                category.text(),
                message.text(),
                final(self)@,
                error,
            ),
    {
        self.log_now(Priority::Notice, category, message)
    }

    /// Logs at [`Priority::Warning`].
    pub fn warning<C: IntoText, M: IntoText>(&mut self, category: C, message: M) -> (error: Option<
        Error,
    >)
        requires
            old(self)@.inv(),
        ensures
            final(self)@.inv(),
            old(self)@.logged_now(
                Priority::Warning,
                category.text(),
                message.text(),
                final(self)@,
                error,
            ),
    {
        self.log_now(Priority::Warning, category, message)
    }

    /// Logs at [`Priority::Error`].
    pub fn error<C: IntoText, M: IntoText>(&mut self, category: C, message: M) -> (error: Option<
        Error,
    >)
        requires
            old(self)@.inv(),
        ensures
            final(self)@.inv(),
            old(self)@.logged_now(
                Priority::Error,
                category.text(),
                message.text(),
                final(self)@,
                error,
            ),
    {
        self.log_now(Priority::Error, category, message)
    }

    /// Logs at [`Priority::Critical`].
    pub fn critical<C: IntoText, M: IntoText>(&mut self, category: C, message: M) -> (error: Option<
        Error,
    >)
        requires
            old(self)@.inv(),
        ensures
            final(self)@.inv(),
            old(self)@.logged_now(
                Priority::Critical,
                category.text(),
                message.text(),
                final(self)@,
                error,
            ),
    {
        self.log_now(Priority::Critical, category, message)
    }

    /// Logs at [`Priority::Fatal`].
    pub fn fatal<C: IntoText, M: IntoText>(&mut self, category: C, message: M) -> (error: Option<
        Error,
    >)
        requires
            old(self)@.inv(),
        ensures
            final(self)@.inv(),
            old(self)@.logged_now(
                Priority::Fatal,
                category.text(),
                message.text(),
                final(self)@,
                error,
            ),
    {
        self.log_now(Priority::Fatal, category, message)
    }

    /// Whether every queued entry has been written, once waiting is over or has timed out. A
    /// handle waits for as long as [`Client::flush_waits`] says so.
    ///
    /// "Written" means handed to the operating system. The ECAppLog server never acknowledges
    /// anything -- it never writes a byte back to the client -- so no stronger guarantee is
    /// available to any client of this protocol.
    pub fn flush(&self) -> (drained: bool)
        ensures
            drained == self@.queue.drained(),
    {
        self.queue.flush()
    }

    /// Whether a flush has to go on waiting.
    pub fn flush_waits(&self) -> (waits: bool)
        ensures
            waits == !self@.queue.drained(),
    {
        self.queue.flush_waits()
    }

    /// Whether the worker has to go on waiting for an entry.
    pub fn pop_waits(&self) -> (waits: bool)
        ensures
            waits == (self@.queue.items.len() == 0 && !self@.queue.shutdown),
    {
        self.queue.pop_waits()
    }

    /// Whether the worker has to go on waiting for a delay to pass.
    pub fn sleep_waits(&self) -> (waits: bool)
        ensures
            waits == !self@.queue.shutdown,
    {
        self.queue.sleep_waits()
    }

    /// How many entries this client has discarded because the queue was full.
    ///
    /// A non-zero count almost always means the GUI is not running.
    pub fn dropped_count(&self) -> (dropped: u64)
        ensures
            dropped == self@.queue.dropped,
    {
        self.queue.dropped_count()
    }

    /// Asks the worker to shut down, draining the queue first if
    /// [`flush_on_close`](ClientBuilder::flush_on_close) is set. `now` is the time on the clock
    /// that [`Worker::step`](crate::worker::Worker::step) is given: the time to drain starts here.
    ///
    /// Idempotent. Entries logged after this are counted as dropped.
    pub fn close(&mut self, now: Duration)
        requires
            old(self)@.inv(),
        ensures
            final(self)@.inv(),
            final(self)@ == old(self)@.closed(duration_nanos(now) as int),
    {
        self.queue.shutdown();
        if self.closed_at.is_none() {
            self.closed_at = Some(now);
        }
    }

    /// How long a close may wait for the worker to stop: what is left of the time to drain, nothing
    /// once that is over. What the worker is still in the middle of then is not waited for.
    pub fn close_wait(&self, now: Duration) -> (left: Duration)
        ensures
            duration_nanos(left) == self@.close_wait_nanos(duration_nanos(now) as int),
    {
        let whole: u128 = self.config.flush_timeout.as_nanos();
        match self.flush_deadline() {
            Some(deadline) => {
                let now: u128 = now.as_nanos();
                let left: u128 = if deadline > now {
                    deadline - now
                } else {
                    0
                };
                duration_from_nanos(
                    if left < whole {
                        left
                    } else {
                        whole
                    },
                )
            },
            None => self.config.flush_timeout,
        }
    }

    /// When the time to drain is over, in nanoseconds, once the client was closed.
    pub(crate) fn flush_deadline(&self) -> (deadline: Option<u128>)
        ensures
            match deadline {
                Some(deadline) => self@.flush_deadline() == Some(deadline as int),
                None => self@.flush_deadline() is None,
            },
    {
        match self.closed_at {
            Some(closed_at) => Some(closed_at.as_nanos() + self.config.flush_timeout.as_nanos()),
            None => None,
        }
    }

    /// Whether the client was closed and the time to drain is over.
    pub(crate) fn out_of_time(&self, now: Duration) -> (over: bool)
        ensures
            over == self@.out_of_time(duration_nanos(now) as int),
    {
        match self.flush_deadline() {
            Some(deadline) => now.as_nanos() >= deadline,
            None => false,
        }
    }

    /// The queue, for the worker.
    pub(crate) fn queue(&self) -> (queue: &Queue)
        ensures
            queue@ == self@.queue,
    {
        &self.queue
    }

    /// Takes the next entry for the worker, as [`Queue::pop`] does.
    pub(crate) fn pop(&mut self) -> (pop: Pop)
        requires
            old(self)@.inv(),
        ensures
            final(self)@.inv(),
            final(self)@ == old(self)@.with_queue(old(self)@.queue.popped()),
            pop == (if old(self)@.queue.items.len() > 0 {
                Pop::Item(old(self)@.queue.items[0])
            } else if old(self)@.queue.shutdown {
                Pop::Shutdown
            } else {
                Pop::Idle
            }),
    {
        self.queue.pop()
    }

    /// Lets go of the worker's entry, as [`Queue::finish`] does.
    pub(crate) fn finish(&mut self)
        requires
            old(self)@.inv(),
        ensures
            final(self)@.inv(),
            final(self)@ == old(self)@.with_queue(old(self)@.queue.finished()),
    {
        self.queue.finish();
    }

    /// Hands the worker's entry back and lets go of it.
    pub(crate) fn requeue(&mut self, record: Record) -> (dropped: Option<u64>)
        requires
            old(self)@.inv(),
        ensures
            final(self)@.inv(),
            final(self)@ == old(self)@.with_queue(
                old(self)@.queue.pushed_front(record).finished(),
            ),
            dropped == report(old(self)@.queue.full(), final(self)@.queue),
    {
        let dropped = self.queue.push_front(record);
        self.queue.finish();
        dropped
    }
}

/// Closing is idempotent, and final: closing again changes nothing, the time to drain included, and
/// whatever is logged afterwards is reported and counted as dropped, without touching what is
/// queued.
pub proof fn lemma_close_is_final(client: ClientView, now: int, later: int, record: Record)
    requires
        client.inv(),
    ensures
        ({
            let closed = client.closed(now);
            &&& closed.inv()
            &&& closed.closed(later) == closed
            &&& client.closed_at is None ==> closed.flush_deadline() == Some(
                now + client.settings.flush_timeout,
            )
            &&& closed.logged(record).flush_deadline() == closed.flush_deadline()
            &&& closed.logged(record).queue.items == client.queue.items
            &&& closed.logged(record).queue.dropped == one_more(client.queue.dropped)
            &&& closed.log_report(record) == Some(
                Error::QueueFull {
                    capacity: client.queue.capacity,
                    total: one_more(client.queue.dropped),
                },
            )
        }),
{
}

/// A built client is as it was told: it holds as many entries as the buffer size, or one if that is
/// zero, and has every setting; nothing is queued, lost or closed yet.
pub proof fn lemma_built_client_is_as_told(builder: ClientBuilder, client: Client)
    requires
        call_ensures(ClientBuilder::build, (builder,), client),
    ensures
        builder@.buffer_size > 0 ==> client@.queue.capacity == builder@.buffer_size,
        builder@.buffer_size == 0 ==> client@.queue.capacity == 1,
        client@.settings == builder@.settings,
        client@.queue.items == Seq::<Record>::empty(),
        client@.queue.dropped == 0,
        !client@.queue.busy,
        !client@.queue.shutdown,
        client@.closed_at is None,
{
}

/// A fresh client holds every entry up to its buffer size, in order, and drops none; with more, it
/// holds the newest ones, as many as its buffer size, and has dropped the rest.
pub proof fn lemma_fresh_client_holds_its_buffer(
    builder: ClientBuilder,
    client: Client,
    records: Seq<Record>,
)
    requires
        call_ensures(ClientBuilder::build, (builder,), client),
        builder@.buffer_size > 0,
    ensures
        records.len() <= builder@.buffer_size ==> {
            &&& push_all(client@.queue, records).items == records
            &&& push_all(client@.queue, records).dropped == 0
        },
        records.len() > builder@.buffer_size ==> {
            let excess = records.len() - builder@.buffer_size;
            &&& push_all(client@.queue, records).items == records.skip(excess)
            &&& push_all(client@.queue, records).dropped == excess % 0x1_0000_0000_0000_0000
        },
{
    lemma_keeps_the_newest(client@.queue, records);
    let logged = client@.queue.items + records;
    assert(logged =~= records);
    assert(records.skip(0) =~= records);
    if records.len() > builder@.buffer_size {
        lemma_discards_are_counted(0, (records.len() - builder@.buffer_size) as nat);
    }
}

/// Each option sets its own setting and leaves the others alone.
pub proof fn lemma_options_set_one_thing(
    builder: ClientBuilder,
    text: String,
    size: usize,
    flag: bool,
    time: Duration,
    result: ClientBuilder,
)
    ensures
        call_ensures(ClientBuilder::app_name::<String>, (builder, text), result) ==> result@ == (
        BuilderView { settings: Settings { app_name: text@, ..builder@.settings }, ..builder@ }),
        call_ensures(ClientBuilder::address::<String>, (builder, text), result) ==> result@ == (
        BuilderView { settings: Settings { address: text@, ..builder@.settings }, ..builder@ }),
        call_ensures(ClientBuilder::buffer_size, (builder, size), result) ==> result@ == (
        BuilderView { buffer_size: size, ..builder@ }),
        call_ensures(ClientBuilder::flush_on_close, (builder, flag), result) ==> result@ == (
        BuilderView { settings: Settings { flush_on_close: flag, ..builder@.settings }, ..builder@ }
        ),
        call_ensures(ClientBuilder::flush_timeout, (builder, time), result) ==> result@ == (
        BuilderView {
            settings: Settings { flush_timeout: duration_nanos(time), ..builder@.settings },
            ..builder@
        }),
        call_ensures(ClientBuilder::connect_timeout, (builder, time), result) ==> result@ == (
        BuilderView {
            settings: Settings { connect_timeout: duration_nanos(time), ..builder@.settings },
            ..builder@
        }),
        call_ensures(ClientBuilder::reconnect_delay, (builder, time), result) ==> result@ == (
        BuilderView {
            settings: Settings { reconnect_delay: duration_nanos(time), ..builder@.settings },
            ..builder@
        }),
{
}

/// What is not set is as documented: the GUI's address on this machine, a thousand entries, and a
/// close that drains for up to five seconds; ten seconds to connect, and five between attempts.
pub proof fn lemma_defaults_are_the_documented_ones(builder: ClientBuilder)
    requires
        call_ensures(Client::builder, (), builder),
    ensures
        builder@.settings.app_name == "ECAPPLOG-RUST"@,
        builder@.settings.address == "127.0.0.1:13991"@,
        builder@.buffer_size == 1000,
        builder@.settings.flush_on_close,
        builder@.settings.flush_timeout == 5 * 1_000_000_000,
        builder@.settings.connect_timeout == 10 * 1_000_000_000,
        builder@.settings.reconnect_delay == 5 * 1_000_000_000,
{
}

/// Logging an entry puts it behind those that wait already, and gives nothing to report. If the
/// buffer is full the oldest one goes, and if the client is closed the new one does; each drop is
/// counted, and given to report with the buffer's size and the running total.
pub proof fn lemma_logging_keeps_or_reports(
    client: &mut Client,
    record: Record,
    error: Option<Error>,
)
    requires
        call_ensures(Client::log, (client, record), error),
        old(client)@.inv(),
    ensures
        final(client)@.settings == old(client)@.settings,
        final(client)@.closed_at == old(client)@.closed_at,
        final(client)@.queue.capacity == old(client)@.queue.capacity,
        final(client)@.queue.busy == old(client)@.queue.busy,
        ({
            let before = old(client)@.queue;
            let after = final(client)@.queue;
            let kept = after.dropped == before.dropped && error is None;
            let dropped = {
                &&& after.dropped == (before.dropped + 1) % 0x1_0000_0000_0000_0000
                &&& error == Some(
                    Error::QueueFull { capacity: before.capacity, total: after.dropped },
                )
            };
            if old(client)@.closed_at is Some {
                after.items == before.items && dropped
            } else if before.items.len() < before.capacity {
                after.items == before.items.push(record) && kept
            } else {
                after.items == before.items.skip(1).push(record) && dropped
            }
        }),
{
    lemma_discards_are_counted(old(client)@.queue.dropped, 1);
    assert(old(client)@.queue.items.len() > 0 ==> old(client)@.queue.items.skip(1)
        =~= old(client)@.queue.items.drop_first());
}

/// Whether a client with room for it got one more entry, with this priority, category and message
/// and nothing else.
pub open spec fn got_entry(
    before: ClientView,
    after: ClientView,
    priority: Priority,
    category: Seq<char>,
    message: Seq<char>,
) -> bool {
    &&& after.queue.items.len() == before.queue.items.len() + 1
    &&& after.queue.items.take(before.queue.items.len() as int) == before.queue.items
    &&& after.queue.items.last()@.priority == priority
    &&& after.queue.items.last()@.category == category
    &&& after.queue.items.last()@.message == message
    &&& after.queue.items.last()@.source.len() == 0
    &&& after.queue.items.last()@.original_category.len() == 0
    &&& after.queue.items.last()@.extra_categories.len() == 0
    &&& after.queue.items.last()@.color.len() == 0
    &&& after.queue.items.last()@.bg_color.len() == 0
}

proof fn lemma_logged_now_is_kept(
    before: ClientView,
    after: ClientView,
    priority: Priority,
    category: Seq<char>,
    message: Seq<char>,
    error: Option<Error>,
)
    requires
        before.inv(),
        before.closed_at is None,
        before.queue.items.len() < before.queue.capacity,
        before.logged_now(priority, category, message, after, error),
    ensures
        got_entry(before, after, priority, category, message),
        error is None,
{
    let record = choose|record: Record|
        {
            &&& record@ == plain_entry(record.time, priority, category, message)
            &&& after == #[trigger] before.logged(record)
            &&& error == before.log_report(record)
        };
    assert(after.queue.items.take(before.queue.items.len() as int) =~= before.queue.items);
}

/// Each of the level methods logs an entry of its own priority, with the category and the message
/// it was given.
pub proof fn lemma_level_methods_log_their_level<C: IntoText, M: IntoText>(
    client: &mut Client,
    priority: Priority,
    category: C,
    message: M,
    error: Option<Error>,
)
    requires
        old(client)@.inv(),
        old(client)@.closed_at is None,
        old(client)@.queue.items.len() < old(client)@.queue.capacity,
        ({
            ||| priority is Trace && call_ensures(
                Client::trace::<C, M>,
                (client, category, message),
                error,
            )
            ||| priority is Debug && call_ensures(
                Client::debug::<C, M>,
                (client, category, message),
                error,
            )
            ||| priority is Information && call_ensures(
                Client::info::<C, M>,
                (client, category, message),
                error,
            )
            ||| priority is Notice && call_ensures(
                Client::notice::<C, M>,
                (client, category, message),
                error,
            )
            ||| priority is Warning && call_ensures(
                Client::warning::<C, M>,
                (client, category, message),
                error,
            )
            ||| priority is Error && call_ensures(
                Client::error::<C, M>,
                (client, category, message),
                error,
            )
            ||| priority is Critical && call_ensures(
                Client::critical::<C, M>,
                (client, category, message),
                error,
            )
            ||| priority is Fatal && call_ensures(
                Client::fatal::<C, M>,
                (client, category, message),
                error,
            )
            ||| call_ensures(
                Client::log_now::<C, M>,
                (client, priority, category, message),
                error,
            )
        }),
    ensures
        got_entry(old(client)@, final(client)@, priority, category.text(), message.text()),
        error is None,
{
    lemma_logged_now_is_kept(
        old(client)@,
        final(client)@,
        priority,
        category.text(),
        message.text(),
        error,
    );
}

/// Closing marks the client as closed at that time, unless it was closed before, and leaves what is
/// queued alone.
pub proof fn lemma_closing_leaves_the_queue_alone(client: &mut Client, now: Duration)
    requires
        call_ensures(Client::close, (client, now), ()),
        old(client)@.inv(),
    ensures
        final(client)@.closed_at == (match old(client)@.closed_at {
            Some(closed_at) => Some(closed_at),
            None => Some(duration_nanos(now) as int),
        }),
        final(client)@.settings == old(client)@.settings,
        final(client)@.queue.shutdown,
        final(client)@.queue.items == old(client)@.queue.items,
        final(client)@.queue.busy == old(client)@.queue.busy,
        final(client)@.queue.capacity == old(client)@.queue.capacity,
        final(client)@.queue.dropped == old(client)@.queue.dropped,
{
}

/// A client says of itself what is so: whether everything is written, how many entries were
/// dropped, what is to be waited for, and for how long a close may wait.
pub proof fn lemma_client_says_what_is_so(
    client: &Client,
    now: Duration,
    drained: bool,
    flush_waits: bool,
    pop_waits: bool,
    sleep_waits: bool,
    dropped: u64,
    wait: Duration,
)
    requires
        client@.inv(),
        call_ensures(Client::flush, (client,), drained),
        call_ensures(Client::flush_waits, (client,), flush_waits),
        call_ensures(Client::pop_waits, (client,), pop_waits),
        call_ensures(Client::sleep_waits, (client,), sleep_waits),
        call_ensures(Client::dropped_count, (client,), dropped),
        call_ensures(Client::close_wait, (client, now), wait),
    ensures
        drained == (client@.queue.items.len() == 0 && !client@.queue.busy),
        flush_waits == !drained,
        pop_waits == (client@.queue.items.len() == 0 && client@.closed_at is None),
        sleep_waits == (client@.closed_at is None),
        dropped == client@.queue.dropped,
        duration_nanos(wait) <= client@.settings.flush_timeout,
        client@.closed_at is None ==> duration_nanos(wait) == client@.settings.flush_timeout,
        client@.closed_at matches Some(closed_at) ==> {
            let deadline = closed_at + client@.settings.flush_timeout;
            &&& duration_nanos(now) <= closed_at ==> duration_nanos(wait)
                == client@.settings.flush_timeout
            &&& duration_nanos(now) >= deadline ==> duration_nanos(wait) == 0
            &&& closed_at <= duration_nanos(now) <= deadline ==> duration_nanos(now)
                + duration_nanos(wait) == deadline
        },
{
}

/// A client that nothing was said about has the documented defaults, and so has what a client is
/// built from.
pub proof fn lemma_plain_clients_have_the_defaults(
    client: Client,
    default: Client,
    builder: ClientBuilder,
)
    requires
        call_ensures(Client::new, (), client),
        call_ensures(<Client as Default>::default, (), default),
        call_ensures(<ClientBuilder as Default>::default, (), builder),
    ensures
        client@.settings.app_name == "ECAPPLOG-RUST"@,
        client@.settings.address == "127.0.0.1:13991"@,
        client@.queue.capacity == 1000,
        client@.settings.flush_on_close,
        client@.settings.flush_timeout == 5 * 1_000_000_000,
        client@.settings.connect_timeout == 10 * 1_000_000_000,
        client@.settings.reconnect_delay == 5 * 1_000_000_000,
        client@.queue.items.len() == 0,
        client@.queue.dropped == 0,
        client@.closed_at is None,
        default@ == client@,
        builder@.settings == client@.settings,
        builder@.buffer_size == client@.queue.capacity,
{
}

/// A client tells its configuration as it is.
pub proof fn lemma_configuration_is_told_as_it_is(
    client: &Client,
    config: &Config,
    app_name: &str,
    address: &str,
    flush_on_close: bool,
    flush_timeout: Duration,
    connect_timeout: Duration,
    reconnect_delay: Duration,
)
    requires
        call_ensures(Client::config, (client,), config),
        call_ensures(Config::app_name, (config,), app_name),
        call_ensures(Config::address, (config,), address),
        call_ensures(Config::flush_on_close, (config,), flush_on_close),
        call_ensures(Config::flush_timeout, (config,), flush_timeout),
        call_ensures(Config::connect_timeout, (config,), connect_timeout),
        call_ensures(Config::reconnect_delay, (config,), reconnect_delay),
    ensures
        client@.settings.app_name == app_name@,
        client@.settings.address == address@,
        client@.settings.flush_on_close == flush_on_close,
        client@.settings.flush_timeout == duration_nanos(flush_timeout),
        client@.settings.connect_timeout == duration_nanos(connect_timeout),
        client@.settings.reconnect_delay == duration_nanos(reconnect_delay),
{
}

}

//! The background worker, as a state machine.
//!
//! The worker owns the connection. Its thread runs the loop: it performs the [`Action`] that
//! [`Worker::step`] returned, and hands the outcome back to the next step. Which action follows
//! which outcome is decided here, from the state of the [`Client`] and a clock reading; resolving,
//! connecting, writing, reporting and waiting are left to the thread.

use std::io::ErrorKind;
use std::time::Duration;

use vstd::prelude::*;
use vstd::utf8::encode_utf8;

use crate::client::{Client, ClientView, Settings};
use crate::clock::{duration_from_nanos, duration_nanos};
use crate::error::{io_error, io_error_kind, io_error_message, Error};
use crate::proto::{
    banner_bytes, banner_payload, encode_frame, encode_record, frame_bytes, payload_bytes,
    BANNER_PREFIX, CMD_BANNER, CMD_LOG, MAX_PAYLOAD_SIZE,
};
use crate::queue::{lemma_discards_are_counted, Pop};
use crate::record::Record;
use crate::wire::{is_frame_of, lemma_entry_frame, lemma_frame_reads_back, read_big_endian};

verus! {

/// How long the worker waits for an entry before re-checking its own deadlines, in milliseconds.
/// Only a safety net: a push or a shutdown wakes it immediately.
pub const POLL_INTERVAL_MILLIS: u64 = 200;

/// The shortest time a connection attempt is given, in nanoseconds. A zero timeout is not accepted
/// by the system, and a flush that has just run out of budget is about to give up anyway.
pub const SHORTEST_ATTEMPT_NANOS: u128 = 1_000_000;

/// The message of the error for an address that stands for no socket address at all.
pub const NO_ADDRESSES: &'static str = "the address resolved to no socket addresses";

/// What the worker is in the middle of.
pub enum Phase {
    /// Not connected, and free to connect.
    Disconnected,
    /// Resolving the configured address.
    Resolving,
    /// Connecting to one of the socket addresses that the configured address stands for.
    Connecting {
        /// Which of them.
        index: usize,
        /// How many there are.
        count: usize,
    },
    /// Writing the banner of a fresh connection.
    Greeting,
    /// Connected, and waiting for an entry.
    Polling,
    /// Writing the frame of an entry.
    Sending(Record),
    /// Reporting an entry that cannot be sent, and is gone.
    Discarding,
    /// Reporting that the connection broke under an entry, which is to be handed back.
    Failing(Record),
    /// Reporting something, before waiting to reconnect.
    Retrying,
    /// Waiting to reconnect.
    Sleeping,
    /// Done, for good.
    Stopped,
}

/// What the worker's thread does next.
pub enum Action {
    /// Resolve the address. The outcome is the number of socket addresses.
    Resolve(String),
    /// Connect to the socket address at `index`, within `timeout`. Any earlier connection is closed
    /// by then.
    Connect {
        /// Which of the resolved addresses.
        index: usize,
        /// How long the attempt may take.
        timeout: Duration,
    },
    /// Write all of these bytes to the connection, in as many calls as it takes.
    Write {
        /// The bytes.
        frame: Vec<u8>,
        /// How long each call may take.
        timeout: Duration,
        /// How long writing all of them may take, once the client is closed.
        limit: Option<Duration>,
    },
    /// Report an error to the application.
    Report(Error),
    /// Wait for an entry, for as long as [`Client::pop_waits`] says and no longer than this.
    Poll(Duration),
    /// Wait for as long as [`Client::sleep_waits`] says and no longer than this.
    Sleep(Duration),
    /// Close the connection and end.
    Stop,
}

/// The state of the worker.
pub struct Worker {
    phase: Phase,
    banner: Vec<u8>,
}

/// The state of a [`Worker`].
#[verifier::ext_equal]
pub struct WorkerView {
    /// What it is in the middle of.
    pub phase: Phase,
    /// The payload of the banner.
    pub banner: Seq<u8>,
}

impl View for Worker {
    type V = WorkerView;

    closed spec fn view(&self) -> WorkerView {
        WorkerView { phase: self.phase, banner: self.banner@ }
    }
}

/// How long a connection attempt or a write call may take: the configured timeout, and no longer
/// than what is left of the time to drain once that is running.
pub open spec fn attempt_nanos(deadline: Option<int>, now: int, connect_timeout: nat) -> int {
    match deadline {
        Some(deadline) => {
            let left = if deadline > now {
                deadline - now
            } else {
                0
            };
            let bounded = if left < connect_timeout {
                left
            } else {
                connect_timeout as int
            };
            if bounded < SHORTEST_ATTEMPT_NANOS {
                SHORTEST_ATTEMPT_NANOS as int
            } else {
                bounded
            }
        },
        None => connect_timeout as int,
    }
}

impl WorkerView {
    /// The same worker in another phase.
    pub open spec fn at(self, phase: Phase) -> WorkerView {
        WorkerView { phase, ..self }
    }

    /// What follows while not connected. Once shutdown was requested, a worker that has nothing
    /// to drain, is not to drain, or is out of time stops. Otherwise it connects, shutdown or not:
    /// a short program that logs and exits immediately would never get its worker connected
    /// otherwise, and flushing on close would deliver nothing at all.
    pub open spec fn connects_or_stops(
        self,
        client: ClientView,
        now: int,
        after: WorkerView,
        action: Action,
    ) -> bool {
        if client.queue.shutdown && (!client.settings.flush_on_close
            || client.queue.items.len() == 0) {
            &&& after == self.at(Phase::Stopped)
            &&& action is Stop
        } else if client.out_of_time(now) {
            &&& after == self.at(Phase::Stopped)
            &&& action is Stop
        } else {
            &&& after == self.at(Phase::Resolving)
            &&& action matches Action::Resolve(address)
            &&& address@ == client.settings.address
        }
    }

    /// What follows while connected: waiting for an entry, unless shutdown was requested and the
    /// worker is not to drain or is out of time.
    pub open spec fn polls_or_stops(
        self,
        client: ClientView,
        now: int,
        after: WorkerView,
        action: Action,
    ) -> bool {
        if client.queue.shutdown && !client.settings.flush_on_close {
            &&& after == self.at(Phase::Stopped)
            &&& action is Stop
        } else if client.out_of_time(now) {
            &&& after == self.at(Phase::Stopped)
            &&& action is Stop
        } else {
            &&& after == self.at(Phase::Polling)
            &&& action matches Action::Poll(interval)
            &&& duration_nanos(interval) == POLL_INTERVAL_MILLIS * 1_000_000
        }
    }

    /// The attempt to connect to one of the resolved addresses.
    pub open spec fn attempts(
        self,
        client: ClientView,
        now: int,
        index: usize,
        count: usize,
        after: WorkerView,
        action: Action,
    ) -> bool {
        &&& after == self.at(Phase::Connecting { index, count })
        &&& action matches Action::Connect { index: next, timeout }
        &&& next == index
        &&& duration_nanos(timeout) == attempt_nanos(
            client.flush_deadline(),
            now,
            client.settings.connect_timeout,
        )
    }

    /// Writing these bytes. Each call gets the configured timeout; from the close on, all of them
    /// together get no longer than what is left of the time to drain.
    pub open spec fn writes(
        self,
        client: ClientView,
        now: int,
        phase: Phase,
        bytes: Seq<u8>,
        after: WorkerView,
        action: Action,
    ) -> bool {
        &&& after == self.at(phase)
        &&& action matches Action::Write { frame, timeout, limit }
        &&& frame@ == bytes
        &&& duration_nanos(timeout) == attempt_nanos(
            client.flush_deadline(),
            now,
            client.settings.connect_timeout,
        )
        &&& limit == (if client.closed_at is Some {
            Some(timeout)
        } else {
            None
        })
    }

    /// Waiting out the reconnect delay.
    pub open spec fn sleeps(self, settings: Settings, after: WorkerView, action: Action) -> bool {
        &&& after == self.at(Phase::Sleeping)
        &&& action matches Action::Sleep(delay)
        &&& duration_nanos(delay) == settings.reconnect_delay
    }

    /// The client after a step of the worker.
    pub open spec fn client_after(
        self,
        client: ClientView,
        outcome: Result<usize, std::io::Error>,
    ) -> ClientView {
        client.with_queue(
            match self.phase {
                Phase::Polling => client.queue.popped(),
                Phase::Sending(_) => if outcome is Ok {
                    client.queue.finished()
                } else {
                    client.queue
                },
                Phase::Discarding => client.queue.finished(),
                Phase::Failing(record) => client.queue.pushed_front(record).finished(),
                _ => client.queue,
            },
        )
    }

    /// One step of the worker: from this state and the outcome of the last action to the state
    /// `after` and the next action. `client` is the client before the step.
    pub open spec fn steps(
        self,
        client: ClientView,
        outcome: Result<usize, std::io::Error>,
        now: int,
        after: WorkerView,
        action: Action,
    ) -> bool {
        let left = self.client_after(client, outcome);
        match self.phase {
            Phase::Disconnected => self.connects_or_stops(client, now, after, action),
            Phase::Resolving => match outcome {
                Ok(count) => if count > 0 {
                    self.attempts(client, now, 0, count, after, action)
                } else {
                    &&& after == self.at(Phase::Retrying)
                    &&& action matches Action::Report(Error::Connect { address, source })
                    &&& address@ == client.settings.address
                    &&& io_error_kind(source) == ErrorKind::AddrNotAvailable
                    &&& io_error_message(source) == NO_ADDRESSES@
                },
                Err(error) => {
                    &&& after == self.at(Phase::Retrying)
                    &&& action matches Action::Report(Error::Resolve { address, source })
                    &&& address@ == client.settings.address
                    &&& source == error
                },
            },
            Phase::Connecting { index, count } => match outcome {
                Ok(_) => self.writes(
                    client,
                    now,
                    Phase::Greeting,
                    frame_bytes(CMD_BANNER, self.banner),
                    after,
                    action,
                ),
                Err(error) => if index + 1 < count && !client.out_of_time(now) {
                    self.attempts(
                        client,
                        now,
                        (index + 1) as usize,
                        count,
                        after,
                        action,
                    )
                } else {
                    &&& after == self.at(Phase::Retrying)
                    &&& action matches Action::Report(Error::Connect { address, source })
                    &&& address@ == client.settings.address
                    &&& source == error
                },
            },
            Phase::Greeting => match outcome {
                Ok(_) => self.polls_or_stops(client, now, after, action),
                Err(error) => {
                    &&& after == self.at(Phase::Retrying)
                    &&& action == Action::Report(Error::Write { source: error })
                },
            },
            Phase::Polling => if client.queue.items.len() > 0 {
                let record = client.queue.items[0];
                let payload = payload_bytes(record@);
                if payload.len() <= MAX_PAYLOAD_SIZE {
                    self.writes(
                        client,
                        now,
                        Phase::Sending(record),
                        frame_bytes(CMD_LOG, payload),
                        after,
                        action,
                    )
                } else {
                    &&& after == self.at(Phase::Discarding)
                    &&& action matches Action::Report(Error::PayloadTooLarge { size, limit })
                    &&& size == payload.len()
                    &&& limit == MAX_PAYLOAD_SIZE
                }
            } else if client.queue.shutdown {
                &&& after == self.at(Phase::Stopped)
                &&& action is Stop
            } else {
                self.polls_or_stops(client, now, after, action)
            },
            Phase::Sending(record) => match outcome {
                Ok(_) => self.polls_or_stops(left, now, after, action),
                Err(error) => {
                    &&& after == self.at(Phase::Failing(record))
                    &&& action == Action::Report(Error::Write { source: error })
                },
            },
            Phase::Discarding => self.polls_or_stops(left, now, after, action),
            Phase::Failing(_) => if client.queue.full() {
                &&& after == self.at(Phase::Retrying)
                &&& action == Action::Report(
                    Error::QueueFull {
                        capacity: client.queue.capacity,
                        total: left.queue.dropped,
                    },
                )
            } else {
                self.sleeps(client.settings, after, action)
            },
            Phase::Retrying => self.sleeps(client.settings, after, action),
            Phase::Sleeping => if client.queue.shutdown {
                &&& after == self.at(Phase::Stopped)
                &&& action is Stop
            } else {
                self.connects_or_stops(client, now, after, action)
            },
            Phase::Stopped => {
                &&& after == self
                &&& action is Stop
            },
        }
    }
}

/// How long a connection attempt or a write call may take.
///
/// During a flush the connect timeout cannot be allowed to outlast the flush budget, or a close
/// would block for the full connect timeout on an address that is merely black-holed.
fn attempt_timeout(client: &Client, now: Duration) -> (timeout: Duration)
    ensures
        duration_nanos(timeout) == attempt_nanos(
            client@.flush_deadline(),
            duration_nanos(now) as int,
            client@.settings.connect_timeout,
        ),
{
    let connect_timeout = client.config().connect_timeout();
    match client.flush_deadline() {
        Some(deadline) => {
            let now: u128 = now.as_nanos();
            let longest: u128 = connect_timeout.as_nanos();
            let left: u128 = if deadline > now {
                deadline - now
            } else {
                0
            };
            let bounded: u128 = if left < longest {
                left
            } else {
                longest
            };
            duration_from_nanos(
                if bounded < SHORTEST_ATTEMPT_NANOS {
                    SHORTEST_ATTEMPT_NANOS
                } else {
                    bounded
                },
            )
        },
        None => connect_timeout,
    }
}

/// The action that writes a frame.
fn write(client: &Client, now: Duration, frame: Vec<u8>) -> (action: Action)
    ensures
        forall|worker: WorkerView, phase: Phase|
            #![trigger worker.at(phase)]
            worker.writes(
                client@,
                duration_nanos(now) as int,
                phase,
                frame@,
                worker.at(phase),
                action,
            ),
{
    let timeout = attempt_timeout(client, now);
    let limit = match client.flush_deadline() {
        Some(_) => Some(timeout),
        None => None,
    };
    Action::Write { frame, timeout, limit }
}

impl Worker {
    /// A worker for a client, before its first step.
    pub fn new(client: &Client) -> (worker: Self)
        ensures
            worker@ == (WorkerView {
                phase: Phase::Disconnected,
                banner: banner_bytes(client@.settings.app_name),
            }),
    {
        Worker {
            phase: Phase::Disconnected,
            banner: banner_payload(client.config().app_name()),
        }
    }

    fn stop(&mut self) -> (action: Action)
        ensures
            final(self)@ == old(self)@.at(Phase::Stopped),
            action is Stop,
    {
        self.phase = Phase::Stopped;
        Action::Stop
    }

    fn connect_or_stop(&mut self, client: &Client, now: Duration) -> (action: Action)
        ensures
            old(self)@.connects_or_stops(
                client@,
                duration_nanos(now) as int,
                final(self)@,
                action,
            ),
    {
        if client.queue().is_shutdown() {
            if !client.config().flush_on_close() || client.queue().is_empty() {
                return self.stop();
            }
        }
        if client.out_of_time(now) {
            return self.stop();
        }
        self.phase = Phase::Resolving;
        Action::Resolve(client.config().address().to_owned())
    }

    fn poll_or_stop(&mut self, client: &Client, now: Duration) -> (action: Action)
        ensures
            old(self)@.polls_or_stops(client@, duration_nanos(now) as int, final(self)@, action),
    {
        if client.queue().is_shutdown() && !client.config().flush_on_close() {
            return self.stop();
        }
        if client.out_of_time(now) {
            return self.stop();
        }
        self.phase = Phase::Polling;
        Action::Poll(Duration::from_millis(POLL_INTERVAL_MILLIS))
    }

    fn attempt(
        &mut self,
        client: &Client,
        now: Duration,
        index: usize,
        count: usize,
    ) -> (action: Action)
        ensures
            old(self)@.attempts(
                client@,
                duration_nanos(now) as int,
                index,
                count,
                final(self)@,
                action,
            ),
    {
        let timeout = attempt_timeout(client, now);
        self.phase = Phase::Connecting { index, count };
        Action::Connect { index, timeout }
    }

    fn sleep(&mut self, client: &Client) -> (action: Action)
        ensures
            old(self)@.sleeps(client@.settings, final(self)@, action),
    {
        self.phase = Phase::Sleeping;
        Action::Sleep(client.config().reconnect_delay())
    }

    fn retry(&mut self, error: Error) -> (action: Action)
        ensures
            final(self)@ == old(self)@.at(Phase::Retrying),
            action == Action::Report(error),
    {
        self.phase = Phase::Retrying;
        Action::Report(error)
    }

    /// Takes the outcome of the last action and decides on the next one.
    ///
    /// `outcome` is what came of resolving, connecting or writing: the number of socket addresses
    /// for a resolution, any number for the others. It is ignored at the start and after an action
    /// that cannot fail. `now` is the time since some fixed point in the past.
    pub fn step(
        &mut self,
        client: &mut Client,
        outcome: Result<usize, std::io::Error>,
        now: Duration,
    ) -> (action: Action)
        requires
            old(client)@.inv(),
        ensures
            final(client)@.inv(),
            final(client)@ == old(self)@.client_after(old(client)@, outcome),
            old(self)@.steps(
                old(client)@,
                outcome,
                duration_nanos(now) as int,
                final(self)@,
                action,
            ),
    {
        let mut phase = Phase::Stopped;
        std::mem::swap(&mut phase, &mut self.phase);
        match phase {
            Phase::Disconnected => self.connect_or_stop(client, now),
            Phase::Resolving => match outcome {
                Ok(count) => {
                    if count > 0 {
                        self.attempt(client, now, 0, count)
                    } else {
                        self.retry(
                            Error::Connect {
                                address: client.config().address().to_owned(),
                                source: io_error(ErrorKind::AddrNotAvailable, NO_ADDRESSES),
                            },
                        )
                    }
                },
                Err(source) => self.retry(
                    Error::Resolve { address: client.config().address().to_owned(), source },
                ),
            },
            Phase::Connecting { index, count } => match outcome {
                Ok(_) => {
                    // The banner must be the first thing on a fresh connection, and must be sent
                    // exactly once per connection: the server closes the socket on a second one.
                    let mut frame: Vec<u8> = Vec::new();
                    encode_frame(CMD_BANNER, self.banner.as_slice(), &mut frame);
                    self.phase = Phase::Greeting;
                    write(client, now, frame)
                },
                Err(source) => {
                    if index < count && index + 1 < count && !client.out_of_time(now) {
                        self.attempt(client, now, index + 1, count)
                    } else {
                        self.retry(
                            Error::Connect {
                                address: client.config().address().to_owned(),
                                source,
                            },
                        )
                    }
                },
            },
            Phase::Greeting => match outcome {
                Ok(_) => self.poll_or_stop(client, now),
                Err(source) => self.retry(Error::Write { source }),
            },
            Phase::Polling => match client.pop() {
                Pop::Item(record) => match encode_record(&record) {
                    Ok(frame) => {
                        self.phase = Phase::Sending(record);
                        write(client, now, frame)
                    },
                    Err(error) => {
                        self.phase = Phase::Discarding;
                        Action::Report(error)
                    },
                },
                // Drained, and shutdown was requested.
                Pop::Shutdown => self.stop(),
                // Timed out with nothing to do; re-check the flush deadline.
                Pop::Idle => self.poll_or_stop(client, now),
            },
            Phase::Sending(record) => match outcome {
                Ok(_) => {
                    client.finish();
                    self.poll_or_stop(client, now)
                },
                Err(source) => {
                    self.phase = Phase::Failing(record);
                    Action::Report(Error::Write { source })
                },
            },
            Phase::Discarding => {
                client.finish();
                self.poll_or_stop(client, now)
            },
            Phase::Failing(record) => {
                // Put it back at the head so a failed write costs no entries.
                let capacity = client.queue().capacity();
                match client.requeue(record) {
                    Some(total) => self.retry(Error::QueueFull { capacity, total }),
                    None => self.sleep(client),
                }
            },
            Phase::Retrying => self.sleep(client),
            Phase::Sleeping => {
                if client.queue().sleep_or_shutdown() {
                    self.stop()
                } else {
                    self.connect_or_stop(client, now)
                }
            },
            Phase::Stopped => self.stop(),
        }
    }
}

/// Whether a worker in this phase has a connection on which the banner was handed out.
pub open spec fn in_session(phase: Phase) -> bool {
    phase is Greeting || phase is Polling || phase is Sending || phase is Discarding
}

/// One step of a worker, with everything that went into it and came out of it.
pub struct Step {
    /// The worker before the step.
    pub worker: WorkerView,
    /// The client before the step.
    pub client: ClientView,
    /// What came of the action before.
    pub outcome: Result<usize, std::io::Error>,
    /// When the step was taken.
    pub now: int,
    /// The worker after the step.
    pub after: WorkerView,
    /// The action that the step decided on.
    pub action: Action,
}

impl Step {
    /// Whether the worker takes this step.
    pub open spec fn valid(self) -> bool {
        &&& self.client.inv()
        &&& self.worker.steps(self.client, self.outcome, self.now, self.after, self.action)
    }

    /// Whether this is the step that finds a connection established.
    pub open spec fn opens(self) -> bool {
        self.worker.phase is Connecting && self.outcome is Ok
    }

    /// Whether the step writes the banner for an application name.
    pub open spec fn writes_banner(self, app_name: Seq<char>) -> bool {
        &&& self.action matches Action::Write { frame, .. }
        &&& frame@ == frame_bytes(CMD_BANNER, banner_bytes(app_name))
    }

    /// Whether the step writes the oldest queued entry.
    pub open spec fn writes_entry(self) -> bool {
        &&& self.client.queue.items.len() > 0
        &&& self.action matches Action::Write { frame, .. }
        &&& frame@ == frame_bytes(CMD_LOG, payload_bytes(self.client.queue.items[0]@))
    }
}

/// Whether these are consecutive steps of a worker for a client of that name, from the first one
/// on. What else happens to the client between the steps is left open.
pub open spec fn is_run(app_name: Seq<char>, run: Seq<Step>) -> bool {
    &&& forall|i: int| 0 <= i < run.len() ==> (#[trigger] run[i]).valid()
    &&& run.len() > 0 ==> {
        &&& run[0].worker.phase is Disconnected
        &&& run[0].worker.banner == banner_bytes(app_name)
    }
    &&& forall|i: int, j: int|
        #![trigger run[i], run[j]]
        0 <= i && j == i + 1 && j < run.len() ==> run[j].worker == run[i].after
}

/// A worker with a connection got it in an earlier step, and has had it ever since.
proof fn lemma_session(app_name: Seq<char>, run: Seq<Step>, j: int) -> (i: int)
    requires
        is_run(app_name, run),
        0 <= j < run.len(),
        in_session(run[j].worker.phase),
    ensures
        0 <= i < j,
        run[i].opens(),
        forall|k: int| i < k <= j ==> in_session((#[trigger] run[k]).worker.phase),
    decreases j,
{
    let before = run[j - 1];
    assert(j > 0);
    assert(before.valid());
    assert(run[j].worker == before.after);
    if before.opens() {
        j - 1
    } else {
        assert(in_session(before.worker.phase));
        lemma_session(app_name, run, j - 1)
    }
}

/// The banner of the client stays the same.
proof fn lemma_banner_is_kept(app_name: Seq<char>, run: Seq<Step>, j: int)
    requires
        is_run(app_name, run),
        0 <= j < run.len(),
    ensures
        run[j].worker.banner == banner_bytes(app_name),
    decreases j,
{
    if j > 0 {
        lemma_banner_is_kept(app_name, run, j - 1);
        assert(run[j - 1].valid());
        assert(run[j].worker == run[j - 1].after);
    }
}

/// The banner is the first thing on a fresh connection, and is sent exactly once per connection:
/// whatever the worker writes, it writes on a connection that it opened with the banner, and since
/// then it has written nothing but entries, each the oldest one queued.
pub proof fn lemma_banner_opens_every_connection(
    app_name: Seq<char>,
    run: Seq<Step>,
    j: int,
) -> (i: int)
    requires
        is_run(app_name, run),
        0 <= j < run.len(),
        run[j].action is Write,
    ensures
        0 <= i <= j,
        run[i].opens(),
        run[i].writes_banner(app_name),
        forall|k: int|
            i < k <= j ==> {
                &&& !(#[trigger] run[k]).opens()
                &&& !run[k].writes_banner(app_name)
                &&& run[k].action is Write ==> run[k].writes_entry()
            },
{
    assert(run[j].valid());
    let i = if run[j].opens() {
        j
    } else {
        assert(run[j].worker.phase is Polling);
        lemma_session(app_name, run, j)
    };
    assert(run[i].valid());
    lemma_banner_is_kept(app_name, run, i);
    assert forall|k: int| i < k <= j implies {
        &&& !(#[trigger] run[k]).opens()
        &&& !run[k].writes_banner(app_name)
        &&& run[k].action is Write ==> run[k].writes_entry()
    } by {
        assert(run[k].valid());
        assert(in_session(run[k].worker.phase));
        if run[k].action is Write {
            let frame = run[k].action->frame;
            let payload = payload_bytes(run[k].client.queue.items[0]@);
            assert(frame@ == frame_bytes(CMD_LOG, payload));
            assert(frame_bytes(CMD_LOG, payload)[0] == CMD_LOG);
            assert(frame_bytes(CMD_BANNER, banner_bytes(app_name))[0] == CMD_BANNER);
        }
    }
    i
}

/// A worker stops only once shutdown was requested. If it is to drain and still has time, it
/// leaves entries behind only if there is no connection to be had.
pub proof fn lemma_stops_for_a_reason(step: Step)
    requires
        step.valid(),
        step.action is Stop,
        !(step.worker.phase is Stopped),
    ensures
        step.client.queue.shutdown,
        step.client.settings.flush_on_close && !step.client.out_of_time(step.now)
            ==> step.client.queue.items.len() == 0 || step.worker.phase is Sleeping,
{
}

/// If the GUI is unreachable when the client shuts down, the worker does not wait for it: a delay
/// between attempts ends in a stop.
pub proof fn lemma_shutdown_ends_reconnecting(step: Step)
    requires
        step.valid(),
        step.worker.phase is Sleeping,
        step.client.queue.shutdown,
    ensures
        step.action is Stop,
        step.after.phase is Stopped,
{
}

/// Without a shutdown the worker never gives up.
pub proof fn lemma_open_client_keeps_its_worker(step: Step)
    requires
        step.valid(),
        !step.client.queue.shutdown,
        !(step.worker.phase is Stopped),
    ensures
        !(step.action is Stop),
        !(step.after.phase is Stopped),
{
}

/// Once the client is closed, a connection attempt never gets more time than is left to drain, but
/// for the shortest attempt there is; and once that time is over, no further address is tried.
pub proof fn lemma_flush_budget_bounds_connecting(step: Step, deadline: int)
    requires
        step.valid(),
        step.client.flush_deadline() == Some(deadline),
    ensures
        step.action matches Action::Connect { timeout, .. } ==> {
            ||| duration_nanos(timeout) <= deadline - step.now
            ||| duration_nanos(timeout) == SHORTEST_ATTEMPT_NANOS
        },
        step.worker.phase is Connecting && step.action is Connect ==> step.now < deadline,
{
}

/// Each call of a write gets the configured timeout, however long the whole frame takes. Once the
/// client is closed, the whole frame gets no longer than is left to drain, but for the shortest
/// attempt there is.
pub proof fn lemma_flush_budget_bounds_writing(step: Step)
    requires
        step.valid(),
    ensures
        step.action matches Action::Write { timeout, limit, .. } ==> match
            step.client.flush_deadline() {
            Some(deadline) => {
                &&& limit == Some(timeout)
                &&& {
                    ||| duration_nanos(timeout) <= deadline - step.now && duration_nanos(timeout)
                        <= step.client.settings.connect_timeout
                    ||| duration_nanos(timeout) == SHORTEST_ATTEMPT_NANOS
                }
            },
            None => {
                &&& limit is None
                &&& duration_nanos(timeout) == step.client.settings.connect_timeout
            },
        },
{
}

/// How far a worker is from stopping once it takes up no new work: first by the phases it may
/// still pass through, then by the addresses left to try.
pub open spec fn distance(phase: Phase) -> (int, int) {
    match phase {
        Phase::Disconnected => (10, 0),
        Phase::Resolving => (9, 0),
        Phase::Connecting { index, count } => (
            8,
            if index < count {
                count - index
            } else {
                0
            },
        ),
        Phase::Greeting => (7, 0),
        Phase::Polling => (6, 0),
        Phase::Sending(_) => (5, 0),
        Phase::Discarding => (4, 0),
        Phase::Failing(_) => (3, 0),
        Phase::Retrying => (2, 0),
        Phase::Sleeping => (1, 0),
        Phase::Stopped => (0, 0),
    }
}

/// A closed client's worker runs out of steps: once the time to drain is over, or if there is to
/// be no draining, every step brings it closer to stopping.
pub proof fn lemma_close_ends(step: Step)
    requires
        step.valid(),
        step.client.queue.shutdown,
        !(step.worker.phase is Stopped),
        ({
            ||| !step.client.settings.flush_on_close
            ||| step.client.out_of_time(step.now)
        }),
    ensures
        ({
            let before = distance(step.worker.phase);
            let after = distance(step.after.phase);
            0 <= after.0 && 0 <= after.1 && (after.0 < before.0 || (after.0 == before.0 && after.1
                < before.1))
        }),
{
}

/// What [`Worker::step`] does is a step of the worker, with the client before it and the clock
/// reading it was given; and of the client it changes nothing but the queue.
pub proof fn lemma_worker_takes_steps(
    worker: &mut Worker,
    client: &mut Client,
    outcome: Result<usize, std::io::Error>,
    now: Duration,
    action: Action,
)
    requires
        call_ensures(Worker::step, (worker, client, outcome, now), action),
        old(client)@.inv(),
    ensures
        (Step {
            worker: old(worker)@,
            client: old(client)@,
            outcome,
            now: duration_nanos(now) as int,
            after: final(worker)@,
            action,
        }).valid(),
        final(client)@.inv(),
        final(client)@.settings == old(client)@.settings,
        final(client)@.closed_at == old(client)@.closed_at,
        final(client)@.queue == old(worker)@.client_after(old(client)@, outcome).queue,
{
}

/// A new worker is not connected yet, and its banner is `ECAPPLOG`, a space and the application's
/// name.
pub proof fn lemma_new_worker_knows_its_banner(client: &Client, worker: Worker)
    requires
        call_ensures(Worker::new, (client,), worker),
    ensures
        worker@.phase is Disconnected,
        worker@.banner == seq![69u8, 67, 65, 80, 80, 76, 79, 71, 32] + encode_utf8(
            client@.settings.app_name,
        ),
{
    assert(BANNER_PREFIX@ =~= seq![69u8, 67, 65, 80, 80, 76, 79, 71, 32]);
}

/// A connection that was established opens with the banner: command 99, the length of the banner
/// in four bytes, and the banner.
pub proof fn lemma_connections_open_with_the_banner(step: Step)
    requires
        step.valid(),
        step.worker.phase is Connecting,
        step.outcome is Ok,
        step.worker.banner.len() <= u32::MAX,
    ensures
        step.action matches Action::Write { frame, .. } && {
            &&& frame@.len() == step.worker.banner.len() + 5
            &&& frame@[0] == 99
            &&& read_big_endian(frame@.subrange(1, 5)) == step.worker.banner.len()
            &&& frame@.skip(5) == step.worker.banner
        },
        step.after.phase is Greeting,
        step.after.banner == step.worker.banner,
{
    lemma_frame_reads_back(CMD_BANNER, step.worker.banner, seq![]);
    let frame = frame_bytes(CMD_BANNER, step.worker.banner);
    assert(frame + Seq::<u8>::empty() =~= frame);
    assert(frame.skip(5) =~= step.worker.banner);
}

/// An attempt that fails is followed by one at the next address, as long as there is one and the
/// client is open or still has time to drain; and a resolution is followed by an attempt at the
/// first.
pub proof fn lemma_next_address_is_tried(step: Step)
    requires
        step.valid(),
    ensures
        step.worker.phase is Resolving ==> match step.outcome {
            Ok(count) => count > 0 ==> {
                &&& step.action matches Action::Connect { index: 0, .. }
                &&& step.after.phase == (Phase::Connecting { index: 0, count })
            },
            Err(_) => true,
        },
        match step.worker.phase {
            Phase::Connecting { index, count } => step.outcome is Err ==> {
                let over = step.client.closed_at matches Some(closed_at) && step.now >= closed_at
                    + step.client.settings.flush_timeout;
                if index + 1 < count && !over {
                    &&& step.action matches Action::Connect { index: next, .. }
                    &&& next == index + 1
                    &&& step.after.phase == (Phase::Connecting { index: next, count })
                } else {
                    step.action is Report
                }
            },
            _ => true,
        },
{
}

/// How a worker came to be connecting: it resolved the address, and then tried one address after
/// the other, from the first on.
proof fn lemma_attempts_so_far(app_name: Seq<char>, run: Seq<Step>, j: int)
    requires
        is_run(app_name, run),
        0 <= j < run.len(),
        run[j].worker.phase is Connecting,
    ensures
        match run[j].worker.phase {
            Phase::Connecting { index, count } => {
                let start = j - index - 1;
                &&& index < count
                &&& 0 <= start
                &&& run[start].worker.phase is Resolving
                &&& run[start].outcome == Ok::<usize, std::io::Error>(count)
                &&& forall|a: int|
                    start <= a < j ==> ((#[trigger] run[a]).action matches Action::Connect {
                        index: tried,
                        ..
                    } && tried == a - start)
                &&& forall|a: int| start < a < j ==> (#[trigger] run[a]).outcome is Err
            },
            _ => true,
        },
    decreases j,
{
    assert(j > 0);
    let before = run[j - 1];
    assert(before.valid());
    assert(run[j].worker == before.after);
    if before.worker.phase is Connecting {
        lemma_attempts_so_far(app_name, run, j - 1);
    } else {
        assert(before.worker.phase is Resolving);
    }
}

/// Every resolved address is tried before the worker of an open client gives up: when it reports
/// that it could not connect, the address had resolved to some number of socket addresses, each of
/// them was tried since, in order, and every attempt failed.
pub proof fn lemma_every_address_is_tried(app_name: Seq<char>, run: Seq<Step>, j: int) -> (start:
    int)
    requires
        is_run(app_name, run),
        0 <= j < run.len(),
        run[j].worker.phase is Connecting,
        run[j].client.closed_at is None,
        run[j].action is Report,
    ensures
        0 <= start < j,
        run[start].worker.phase is Resolving,
        run[start].outcome == Ok::<usize, std::io::Error>((j - start) as usize),
        forall|a: int|
            start <= a < j ==> ((#[trigger] run[a]).action matches Action::Connect {
                index: tried,
                ..
            } && tried == a - start),
        forall|a: int| start < a <= j ==> (#[trigger] run[a]).outcome is Err,
{
    lemma_attempts_so_far(app_name, run, j);
    assert(run[j].valid());
    match run[j].worker.phase {
        Phase::Connecting { index, count } => {
            assert(index + 1 >= count);
            j - index - 1
        },
        _ => 0,
    }
}

/// What takes time gets the time that was configured. On an open client a connection attempt and
/// each call of a write get the connect timeout. Once the client is closed they get the shorter of
/// that and what is left to drain, but a millisecond at least. The delay before reconnecting is the
/// configured one, always, and an entry is waited for in rounds of 200 milliseconds.
pub proof fn lemma_actions_get_their_time(step: Step)
    requires
        step.valid(),
    ensures
        ({
            let connect = step.client.settings.connect_timeout as int;
            let fits = |time: int|
                match step.client.closed_at {
                    None => time == connect,
                    Some(closed_at) => {
                        let left = closed_at + step.client.settings.flush_timeout - step.now;
                        &&& time >= 1_000_000
                        &&& time >= left || time >= connect
                        &&& time == 1_000_000 || (time <= left && time <= connect)
                    },
                };
            &&& step.action matches Action::Connect { timeout, .. } ==> fits(
                duration_nanos(timeout) as int,
            )
            &&& step.action matches Action::Write { timeout, .. } ==> fits(
                duration_nanos(timeout) as int,
            )
            &&& step.action matches Action::Write { timeout, limit, .. } ==> limit == (if
                step.client.closed_at is None {
                None
            } else {
                Some(timeout)
            })
            &&& step.action matches Action::Sleep(delay) ==> duration_nanos(delay)
                == step.client.settings.reconnect_delay
            &&& step.action matches Action::Poll(interval) ==> duration_nanos(interval)
                == 200_000_000
        }),
{
}

/// What failed is reported, and what is reported failed: a resolution with its own error; a
/// connection with that of the last attempt, or for want of any address; a write with its own; an
/// entry that is too large with its size; and an entry that no longer fits in the queue with the
/// queue's size and the running total.
pub proof fn lemma_reports_say_what_failed(step: Step)
    requires
        step.valid(),
    ensures
        step.action matches Action::Report(error) ==> match error {
            Error::Resolve { address, source } => {
                &&& step.worker.phase is Resolving
                &&& step.outcome == Err::<usize, std::io::Error>(source)
                &&& address@ == step.client.settings.address
            },
            Error::Connect { address, source } => {
                &&& address@ == step.client.settings.address
                &&& if step.worker.phase is Resolving {
                    &&& step.outcome == Ok::<usize, std::io::Error>(0)
                    &&& io_error_kind(source) is AddrNotAvailable
                    &&& io_error_message(source)
                        == "the address resolved to no socket addresses"@
                } else {
                    &&& step.worker.phase is Connecting
                    &&& step.outcome == Err::<usize, std::io::Error>(source)
                }
            },
            Error::Write { source } => {
                &&& step.worker.phase is Greeting || step.worker.phase is Sending
                &&& step.outcome == Err::<usize, std::io::Error>(source)
            },
            Error::PayloadTooLarge { size, limit } => {
                &&& step.worker.phase is Polling
                &&& step.client.queue.items.len() > 0
                &&& size > limit
                &&& size == payload_bytes(step.client.queue.items[0]@).len()
                &&& limit == 16_777_216
            },
            Error::QueueFull { capacity, total } => {
                &&& step.worker.phase is Failing
                &&& capacity == step.client.queue.capacity
                &&& step.client.queue.items.len() == capacity
                &&& total == (step.client.queue.dropped + 1) % 0x1_0000_0000_0000_0000
            },
            _ => false,
        },
        step.outcome is Err && (step.worker.phase is Resolving || step.worker.phase is Greeting
            || step.worker.phase is Sending) ==> step.action is Report,
        step.worker.phase is Resolving && step.outcome == Ok::<usize, std::io::Error>(0)
            ==> step.action matches Action::Report(Error::Connect { .. }),
        step.worker.phase is Connecting && step.outcome is Err ==> step.action is Connect
            || step.action matches Action::Report(Error::Connect { .. }),
{
    lemma_discards_are_counted(step.client.queue.dropped, 1);
}

/// A failure is waited out before the next attempt: once it is reported, the reconnect delay
/// follows, with no more than the report of an entry that no longer fits in between; and an entry
/// whose write failed stays in the worker's hand until it is handed back.
pub proof fn lemma_failures_are_waited_out(step: Step)
    requires
        step.valid(),
    ensures
        step.worker.phase is Retrying ==> step.action is Sleep && step.after.phase is Sleeping,
        step.worker.phase is Failing && step.client.queue.items.len() < step.client.queue.capacity
            ==> step.action is Sleep && step.after.phase is Sleeping,
        step.worker.phase is Failing && step.client.queue.items.len() == step.client.queue.capacity
            ==> step.action is Report && step.after.phase is Retrying,
        step.worker.phase is Greeting && step.outcome is Err ==> step.after.phase is Retrying,
        step.worker.phase is Resolving && step.action is Report ==> step.after.phase is Retrying,
        step.worker.phase is Connecting && step.action is Report ==> step.after.phase is Retrying,
        step.outcome is Err ==> match step.worker.phase {
            Phase::Sending(record) => step.after.phase == Phase::Failing(record),
            _ => true,
        },
        step.worker.phase is Sleeping && step.client.closed_at is None ==> step.action is Resolve,
        step.action is Resolve ==> step.worker.phase is Disconnected || step.worker.phase
            is Sleeping,
        step.action is Sleep ==> step.after.phase is Sleeping,
{
}

/// A connected worker sends the oldest entry as its own frame, or reports and drops it if its
/// payload is too large; with nothing queued it waits, or stops if the client is closed.
pub proof fn lemma_oldest_entry_is_sent(step: Step)
    requires
        step.valid(),
        step.worker.phase is Polling,
    ensures
        step.client.queue.items.len() > 0 ==> {
            let record = step.client.queue.items[0];
            &&& step.action is Write || step.action is Report
            &&& step.action matches Action::Write { frame, .. } ==> {
                &&& is_frame_of(frame@, record@)
                &&& frame@.len() <= 16_777_216 + 5
                &&& step.after.phase == Phase::Sending(record)
            }
            &&& step.action is Report ==> {
                &&& payload_bytes(record@).len() > 16_777_216
                &&& step.after.phase is Discarding
            }
        },
        step.client.queue.items.len() == 0 ==> {
            &&& step.client.closed_at is None ==> step.action is Poll && step.after.phase is Polling
            &&& step.client.closed_at is Some ==> step.action is Stop && step.after.phase is Stopped
        },
{
    if step.client.queue.items.len() > 0 {
        let record = step.client.queue.items[0];
        lemma_entry_frame(record@);
    }
}

/// A closed client still connects if there is anything to drain and time for it: a short program
/// that logs and exits at once gets its entries delivered. With nothing to drain, or if it is not
/// to drain, its worker stops right away.
pub proof fn lemma_closed_client_still_connects(step: Step, closed_at: int)
    requires
        step.valid(),
        step.worker.phase is Disconnected,
        step.client.closed_at == Some(closed_at),
    ensures
        step.client.settings.flush_on_close && step.client.queue.items.len() > 0 && step.now
            < closed_at + step.client.settings.flush_timeout ==> (step.action matches
            Action::Resolve(address) && address@ == step.client.settings.address),
        !step.client.settings.flush_on_close || step.client.queue.items.len() == 0 || step.now
            >= closed_at + step.client.settings.flush_timeout ==> step.action is Stop,
{
}

/// Between two entries a closed client's worker goes on exactly if it is to drain and has time.
pub proof fn lemma_closed_client_drains_in_time(step: Step, closed_at: int)
    requires
        step.valid(),
        step.client.closed_at == Some(closed_at),
        step.outcome is Ok,
        step.worker.phase is Greeting || step.worker.phase is Sending || step.worker.phase
            is Discarding,
    ensures
        if step.client.settings.flush_on_close && step.now < closed_at
            + step.client.settings.flush_timeout {
            step.action is Poll && step.after.phase is Polling
        } else {
            step.action is Stop && step.after.phase is Stopped
        },
{
}

/// What a step does to the queue: a poll takes the oldest entry out and holds it; a write that
/// succeeded and an entry that was too large are let go of; an entry whose write failed goes back
/// to the front, if there is room; and nothing else touches it.
pub proof fn lemma_steps_move_one_entry(step: Step)
    requires
        step.valid(),
    ensures
        ({
            let before = step.client.queue;
            let after = step.worker.client_after(step.client, step.outcome).queue;
            &&& after.shutdown == before.shutdown
            &&& after.capacity == before.capacity
            &&& match step.worker.phase {
                Phase::Polling => {
                    &&& after.dropped == before.dropped
                    &&& before.items.len() > 0 ==> after.busy && before.items == seq![
                        before.items[0],
                    ] + after.items
                    &&& before.items.len() == 0 ==> after == before
                },
                Phase::Failing(record) => {
                    &&& !after.busy
                    &&& before.items.len() < before.capacity ==> after.items == seq![record]
                        + before.items && after.dropped == before.dropped
                    &&& before.items.len() == before.capacity ==> after.items == before.items
                        && (before.dropped < u64::MAX ==> after.dropped == before.dropped + 1)
                },
                Phase::Sending(_) => {
                    &&& after.items == before.items
                    &&& after.dropped == before.dropped
                    &&& after.busy == (before.busy && step.outcome is Err)
                },
                Phase::Discarding => {
                    &&& after.items == before.items
                    &&& after.dropped == before.dropped
                    &&& !after.busy
                },
                _ => after == before,
            }
        }),
{
    let before = step.client.queue;
    if step.worker.phase is Polling && before.items.len() > 0 {
        assert(before.items =~= seq![before.items[0]] + before.items.drop_first());
    }
}

/// While the client is open its worker always goes on: not connected it resolves the configured
/// address, and connected it waits for the next entry once a write has succeeded or an entry was
/// refused. Whatever happens its banner stays the same, and a worker that has stopped stays so.
pub proof fn lemma_open_client_goes_on(step: Step)
    requires
        step.valid(),
    ensures
        step.after.banner == step.worker.banner,
        step.worker.phase is Stopped ==> step.action is Stop && step.after.phase is Stopped,
        step.action is Stop ==> step.after.phase is Stopped,
        step.action matches Action::Resolve(address) ==> {
            &&& address@ == step.client.settings.address
            &&& step.after.phase is Resolving
        },
        step.action is Poll ==> step.after.phase is Polling,
        step.client.closed_at is None ==> match step.worker.phase {
            Phase::Disconnected => step.action is Resolve,
            Phase::Sleeping => step.action is Resolve,
            Phase::Greeting => step.outcome is Ok ==> step.action is Poll,
            Phase::Sending(_) => step.outcome is Ok ==> step.action is Poll,
            Phase::Discarding => step.action is Poll,
            _ => true,
        },
{
}

}

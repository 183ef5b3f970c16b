//! The bounded, drop-oldest hand-off between logging threads and the worker.
//!
//! A [`Queue`] is the state of the hand-off: what is queued, whether the worker holds an entry, and
//! whether shutdown was requested. Threads share it under a lock and wait on it for as long as
//! [`pop_waits`](Queue::pop_waits), [`flush_waits`](Queue::flush_waits) or
//! [`sleep_waits`](Queue::sleep_waits) says so; every operation says what it does to the state in
//! one step, under that lock.
//!
//! Nothing here reports to the application. An operation that discards an entry returns the
//! running total instead, so that the report can be made after the lock is released: the callback
//! is arbitrary user code that may itself log.

use std::collections::VecDeque;

use vstd::prelude::*;

use crate::record::Record;

verus! {

/// What a [`Queue::pop`] found.
pub enum Pop {
    /// An entry to send.
    Item(Record),
    /// Shutdown was requested and the queue is drained.
    Shutdown,
    /// Nothing arrived before the timeout. The worker uses these to re-check its deadlines.
    Idle,
}

/// The bounded queue of entries on their way to the worker.
pub struct Queue {
    items: VecDeque<Record>,
    // Set while the worker holds an entry it has popped but not yet written. A flush has to
    // account for it, or it would report success with the last entry still in the worker's hand.
    busy: bool,
    shutdown: bool,
    capacity: usize,
    dropped: u64,
}

/// The contents of a [`Queue`], oldest entry first.
#[verifier::ext_equal]
pub struct QueueView {
    /// The queued entries, oldest first.
    pub items: Seq<Record>,
    /// Whether the worker holds an entry that it has popped and not finished.
    pub busy: bool,
    /// Whether shutdown was requested.
    pub shutdown: bool,
    /// How many entries fit.
    pub capacity: usize,
    /// How many entries were discarded. The counter wraps.
    pub dropped: u64,
}

/// The discard counter after one more.
pub open spec fn one_more(total: u64) -> u64 {
    if total == u64::MAX {
        0
    } else {
        (total + 1) as u64
    }
}

impl QueueView {
    /// What holds of every queue: it has room for an entry and never holds more than fit.
    pub open spec fn inv(self) -> bool {
        &&& self.capacity >= 1
        &&& self.items.len() <= self.capacity
    }

    /// Whether the next entry would push one out.
    pub open spec fn full(self) -> bool {
        self.items.len() >= self.capacity
    }

    /// Whether nothing is queued and nothing is in the worker's hand.
    pub open spec fn drained(self) -> bool {
        self.items.len() == 0 && !self.busy
    }

    /// The queue with one more entry counted as discarded.
    pub open spec fn with_drop(self) -> QueueView {
        QueueView { dropped: one_more(self.dropped), ..self }
    }

    /// The queue after an entry was logged: appended, in place of the oldest one if the queue is
    /// full, and only counted once shutdown was requested.
    pub open spec fn pushed(self, record: Record) -> QueueView {
        if self.shutdown {
            self.with_drop()
        } else if self.full() {
            QueueView { items: self.items.drop_first().push(record), ..self.with_drop() }
        } else {
            QueueView { items: self.items.push(record), ..self }
        }
    }

    /// Whether logging an entry discards one.
    pub open spec fn push_drops(self) -> bool {
        self.shutdown || self.full()
    }

    /// The queue after an entry was handed back: at the head again, or only counted if the queue
    /// has filled up meanwhile.
    pub open spec fn pushed_front(self, record: Record) -> QueueView {
        if self.full() {
            self.with_drop()
        } else {
            QueueView { items: seq![record] + self.items, ..self }
        }
    }

    /// The queue after the worker took the oldest entry, if there was one.
    pub open spec fn popped(self) -> QueueView {
        if self.items.len() > 0 {
            QueueView { items: self.items.drop_first(), busy: true, ..self }
        } else {
            self
        }
    }

    /// The queue after the worker let go of its entry.
    pub open spec fn finished(self) -> QueueView {
        QueueView { busy: false, ..self }
    }

    /// The queue after shutdown was requested.
    pub open spec fn stopped(self) -> QueueView {
        QueueView { shutdown: true, ..self }
    }
}

/// The running total to report, if an operation discarded an entry.
pub open spec fn report(drops: bool, after: QueueView) -> Option<u64> {
    if drops {
        Some(after.dropped)
    } else {
        None
    }
}

impl View for Queue {
    type V = QueueView;

    closed spec fn view(&self) -> QueueView {
        QueueView {
            items: self.items@,
            busy: self.busy,
            shutdown: self.shutdown,
            capacity: self.capacity,
            dropped: self.dropped,
        }
    }
}

impl Queue {
    /// An empty queue.
    ///
    /// A zero-capacity queue would drop everything and is far more likely a mistake than an
    /// intent, so it is treated as one entry.
    pub fn new(capacity: usize) -> (queue: Self)
        ensures
            queue@.inv(),
            queue@ == (QueueView {
                items: seq![],
                busy: false,
                shutdown: false,
                capacity: if capacity == 0 { 1 } else { capacity },
                dropped: 0,
            }),
    {
        Queue {
            items: VecDeque::with_capacity(if capacity < 64 { capacity } else { 64 }),
            busy: false,
            shutdown: false,
            capacity: if capacity == 0 { 1 } else { capacity },
            dropped: 0,
        }
    }

    /// How many entries fit.
    pub fn capacity(&self) -> (capacity: usize)
        ensures
            capacity == self@.capacity,
    {
        self.capacity
    }

    /// How many entries were discarded so far.
    pub fn dropped_count(&self) -> (dropped: u64)
        ensures
            dropped == self@.dropped,
    {
        self.dropped
    }

    fn count_drop(&mut self) -> (total: u64)
        ensures
            final(self)@ == old(self)@.with_drop(),
            total == final(self)@.dropped,
    {
        self.dropped = self.dropped.wrapping_add(1);
        self.dropped
    }

    /// Enqueues an entry, discarding the oldest if the queue is full.
    ///
    /// Returns the running dropped total when something had to be discarded, so the caller can
    /// report it *after* releasing the lock. Past shutdown the worker is on its way out and would
    /// never send the entry, so it is only counted.
    #[must_use]
    pub fn push(&mut self, record: Record) -> (dropped: Option<u64>)
        requires
            old(self)@.inv(),
        ensures
            final(self)@.inv(),
            final(self)@ == old(self)@.pushed(record),
            dropped == report(old(self)@.push_drops(), final(self)@),
    {
        if self.shutdown {
            return Some(self.count_drop());
        }
        let dropped = if self.items.len() >= self.capacity {
            self.items.pop_front();
            assert(self.items@ =~= old(self)@.items.drop_first());
            Some(self.count_drop())
        } else {
            None
        };
        self.items.push_back(record);
        dropped
    }

    /// Puts an entry back at the head, after a failed write.
    ///
    /// If the queue has filled up behind it in the meantime the entry is dropped rather than
    /// pushing the queue over capacity.
    pub fn push_front(&mut self, record: Record) -> (dropped: Option<u64>)
        requires
            old(self)@.inv(),
        ensures
            final(self)@.inv(),
            final(self)@ == old(self)@.pushed_front(record),
            dropped == report(old(self)@.full(), final(self)@),
    {
        if self.items.len() >= self.capacity {
            return Some(self.count_drop());
        }
        self.items.push_front(record);
        None
    }

    /// Whether a thread that wants the next entry has to wait.
    pub fn pop_waits(&self) -> (waits: bool)
        ensures
            waits == (self@.items.len() == 0 && !self@.shutdown),
    {
        self.items.len() == 0 && !self.shutdown
    }

    /// Takes the next entry, once waiting is over or has timed out.
    ///
    /// Drains before honouring shutdown, so a flush-on-close still gets to send what is queued.
    /// Marks the queue busy when it hands an entry out; the caller must follow up with
    /// [`Queue::finish`] once the entry has been written or re-queued.
    pub fn pop(&mut self) -> (pop: Pop)
        requires
            old(self)@.inv(),
        ensures
            final(self)@.inv(),
            final(self)@ == old(self)@.popped(),
            pop == (if old(self)@.items.len() > 0 {
                Pop::Item(old(self)@.items[0])
            } else if old(self)@.shutdown {
                Pop::Shutdown
            } else {
                Pop::Idle
            }),
    {
        if let Some(record) = self.items.pop_front() {
            self.busy = true;
            assert(self.items@ =~= old(self)@.items.drop_first());
            return Pop::Item(record);
        }
        if self.shutdown {
            Pop::Shutdown
        } else {
            Pop::Idle
        }
    }

    /// Clears the busy flag set by [`Queue::pop`]. Returns whether that leaves the queue drained,
    /// and a waiting flush is to be woken.
    pub fn finish(&mut self) -> (idle: bool)
        requires
            old(self)@.inv(),
        ensures
            final(self)@.inv(),
            final(self)@ == old(self)@.finished(),
            idle == final(self)@.drained(),
    {
        self.busy = false;
        self.items.len() == 0
    }

    /// Whether a flush has to wait: something is queued, or in the worker's hand.
    pub fn flush_waits(&self) -> (waits: bool)
        ensures
            waits == !self@.drained(),
    {
        self.items.len() != 0 || self.busy
    }

    /// Whether the queue is empty and the worker idle, once waiting is over or has timed out.
    ///
    /// "Drained" means every entry reached the operating system, not that the GUI displayed it --
    /// the server never acknowledges anything, so that is the strongest claim any client of this
    /// protocol can make.
    pub fn flush(&self) -> (drained: bool)
        ensures
            drained == self@.drained(),
    {
        self.items.len() == 0 && !self.busy
    }

    /// Requests shutdown.
    pub fn shutdown(&mut self)
        requires
            old(self)@.inv(),
        ensures
            final(self)@.inv(),
            final(self)@ == old(self)@.stopped(),
    {
        self.shutdown = true;
    }

    /// Whether nothing is queued. Does not account for an entry the worker is already holding.
    pub fn is_empty(&self) -> (empty: bool)
        ensures
            empty == (self@.items.len() == 0),
    {
        self.items.len() == 0
    }

    /// Whether shutdown was requested.
    pub fn is_shutdown(&self) -> (shutdown: bool)
        ensures
            shutdown == self@.shutdown,
    {
        self.shutdown
    }

    /// Whether a thread that waits out a delay has to go on waiting.
    pub fn sleep_waits(&self) -> (waits: bool)
        ensures
            waits == !self@.shutdown,
    {
        !self.shutdown
    }

    /// Whether a delay ended because shutdown was requested, once waiting is over or has timed
    /// out.
    pub fn sleep_or_shutdown(&self) -> (shutdown: bool)
        ensures
            shutdown == self@.shutdown,
    {
        self.shutdown
    }
}

/// The queue after logging each of `records` in turn.
pub open spec fn push_all(queue: QueueView, records: Seq<Record>) -> QueueView
    decreases records.len(),
{
    if records.len() == 0 {
        queue
    } else {
        push_all(queue, records.drop_last()).pushed(records.last())
    }
}

/// The discard counter after `count` more.
pub open spec fn many_more(total: u64, count: nat) -> u64
    decreases count,
{
    if count == 0 {
        total
    } else {
        one_more(many_more(total, (count - 1) as nat))
    }
}

/// Past capacity it is the oldest entries that go: however many entries are logged into an open
/// queue, it keeps the newest ones that fit, in order, and counts the rest.
pub proof fn lemma_keeps_the_newest(queue: QueueView, records: Seq<Record>)
    requires
        queue.inv(),
        !queue.shutdown,
    ensures
        ({
            let logged = queue.items + records;
            let excess: int = if logged.len() > queue.capacity {
                logged.len() - queue.capacity
            } else {
                0
            };
            push_all(queue, records) == (QueueView {
                items: logged.skip(excess),
                dropped: many_more(queue.dropped, excess as nat),
                ..queue
            })
        }),
    decreases records.len(),
{
    if records.len() == 0 {
        assert((queue.items + records).skip(0) =~= queue.items);
        assert(push_all(queue, records) =~= queue);
    } else {
        let rest = records.drop_last();
        lemma_keeps_the_newest(queue, rest);
        let before = push_all(queue, rest);
        let shorter = queue.items + rest;
        let logged = queue.items + records;
        assert(logged =~= shorter.push(records.last()));
        let excess: int = if logged.len() > queue.capacity {
            logged.len() - queue.capacity
        } else {
            0
        };
        assert(push_all(queue, records).items =~= logged.skip(excess));
    }
}

/// An entry handed back after a failed write is the next one out again, unless the queue filled
/// up behind it meanwhile; nothing else about the queue changes either way.
pub proof fn lemma_requeued_entry_comes_out_first(queue: QueueView, record: Record)
    requires
        queue.inv(),
    ensures
        !queue.full() ==> {
            &&& queue.pushed_front(record).items[0] == record
            &&& queue.pushed_front(record).popped().items == queue.items
            &&& queue.pushed_front(record).dropped == queue.dropped
        },
        queue.full() ==> {
            &&& queue.pushed_front(record).items == queue.items
            &&& queue.pushed_front(record).dropped == one_more(queue.dropped)
        },
{
    assert((seq![record] + queue.items).drop_first() =~= queue.items);
}

/// Logging an entry and requesting shutdown both end the wait of a worker for work, and shutdown
/// ends the wait for a delay to pass: no thread waits on past either.
pub proof fn lemma_waits_end(queue: QueueView, record: Record)
    requires
        queue.inv(),
    ensures
        queue.pushed(record).items.len() > 0 || queue.pushed(record).shutdown,
        queue.stopped().shutdown,
        queue.stopped().pushed(record).shutdown,
        queue.stopped().popped().shutdown,
{
}

/// Once shutdown was requested nothing joins the queue any more: what is logged is counted, and
/// the entries that were queued before are still handed out.
pub proof fn lemma_shutdown_is_final(queue: QueueView, record: Record)
    requires
        queue.inv(),
    ensures
        queue.stopped().items == queue.items,
        queue.stopped().pushed(record) == queue.stopped().with_drop(),
        queue.stopped().pushed(record).items == queue.items,
        queue.stopped().pushed(record).dropped == one_more(queue.dropped),
{
}

/// The discard counter counts: it goes up by one for each entry, and wraps around where 64 bits
/// end.
pub proof fn lemma_discards_are_counted(total: u64, count: nat)
    ensures
        many_more(total, count) == (total + count) % 0x1_0000_0000_0000_0000,
        one_more(total) == (total + 1) % 0x1_0000_0000_0000_0000,
    decreases count,
{
    if count > 0 {
        lemma_discards_are_counted(total, (count - 1) as nat);
    }
}

/// A new queue is empty and open, and holds as many entries as it was told; told none, it holds
/// one.
pub proof fn lemma_new_queue_has_the_capacity_asked_for(capacity: usize, queue: Queue)
    requires
        call_ensures(Queue::new, (capacity,), queue),
    ensures
        capacity > 0 ==> queue@.capacity == capacity,
        capacity == 0 ==> queue@.capacity == 1,
        queue@.items == Seq::<Record>::empty(),
        !queue@.busy,
        !queue@.shutdown,
        queue@.dropped == 0,
{
}

/// An entry that is pushed goes to the end. A full queue makes room for it by dropping its oldest
/// entry, a queue that was shut down drops the new one; a drop is counted and the count returned,
/// and without one nothing is returned.
pub proof fn lemma_pushes_go_to_the_end(queue: &mut Queue, record: Record, dropped: Option<u64>)
    requires
        call_ensures(Queue::push, (queue, record), dropped),
        old(queue)@.inv(),
    ensures
        final(queue)@.capacity == old(queue)@.capacity,
        final(queue)@.busy == old(queue)@.busy,
        final(queue)@.shutdown == old(queue)@.shutdown,
        !old(queue)@.shutdown && old(queue)@.items.len() < old(queue)@.capacity ==> {
            &&& final(queue)@.items == old(queue)@.items.push(record)
            &&& final(queue)@.dropped == old(queue)@.dropped
            &&& dropped is None
        },
        !old(queue)@.shutdown && old(queue)@.items.len() == old(queue)@.capacity ==> {
            &&& final(queue)@.items == old(queue)@.items.skip(1).push(record)
            &&& final(queue)@.dropped == (old(queue)@.dropped + 1) % 0x1_0000_0000_0000_0000
            &&& dropped == Some(final(queue)@.dropped)
        },
        old(queue)@.shutdown ==> {
            &&& final(queue)@.items == old(queue)@.items
            &&& final(queue)@.dropped == (old(queue)@.dropped + 1) % 0x1_0000_0000_0000_0000
            &&& dropped == Some(final(queue)@.dropped)
        },
{
    lemma_discards_are_counted(old(queue)@.dropped, 1);
    assert(old(queue)@.items.skip(1) =~= old(queue)@.items.drop_first());
}

/// An entry that is handed back goes to the front, shut down or not. A full queue drops it instead,
/// counted like any other drop.
pub proof fn lemma_entries_go_back_to_the_front(
    queue: &mut Queue,
    record: Record,
    dropped: Option<u64>,
)
    requires
        call_ensures(Queue::push_front, (queue, record), dropped),
        old(queue)@.inv(),
    ensures
        final(queue)@.capacity == old(queue)@.capacity,
        final(queue)@.busy == old(queue)@.busy,
        final(queue)@.shutdown == old(queue)@.shutdown,
        old(queue)@.items.len() < old(queue)@.capacity ==> {
            &&& final(queue)@.items.len() == old(queue)@.items.len() + 1
            &&& final(queue)@.items[0] == record
            &&& final(queue)@.items.skip(1) == old(queue)@.items
            &&& final(queue)@.dropped == old(queue)@.dropped
            &&& dropped is None
        },
        old(queue)@.items.len() == old(queue)@.capacity ==> {
            &&& final(queue)@.items == old(queue)@.items
            &&& final(queue)@.dropped == (old(queue)@.dropped + 1) % 0x1_0000_0000_0000_0000
            &&& dropped == Some(final(queue)@.dropped)
        },
{
    lemma_discards_are_counted(old(queue)@.dropped, 1);
    assert((seq![record] + old(queue)@.items).skip(1) =~= old(queue)@.items);
}

/// Entries come out oldest first, one at a time, and the worker has each in hand until it is done
/// with it. An empty queue says whether it was shut down.
pub proof fn lemma_pops_take_the_oldest(queue: &mut Queue, pop: Pop)
    requires
        call_ensures(Queue::pop, (queue,), pop),
        old(queue)@.inv(),
    ensures
        final(queue)@.capacity == old(queue)@.capacity,
        final(queue)@.shutdown == old(queue)@.shutdown,
        final(queue)@.dropped == old(queue)@.dropped,
        old(queue)@.items.len() > 0 ==> {
            &&& pop == Pop::Item(old(queue)@.items[0])
            &&& final(queue)@.items == old(queue)@.items.skip(1)
            &&& final(queue)@.busy
        },
        old(queue)@.items.len() == 0 ==> {
            &&& final(queue)@ == old(queue)@
            &&& pop is Shutdown == old(queue)@.shutdown
            &&& pop is Idle == !old(queue)@.shutdown
        },
{
    assert(old(queue)@.items.len() > 0 ==> old(queue)@.items.skip(1)
        =~= old(queue)@.items.drop_first());
}

/// Letting go of an entry and shutting down each change one thing and nothing else.
pub proof fn lemma_finishing_and_shutting_down(
    worked: &mut Queue,
    idle: bool,
    closed: &mut Queue,
)
    requires
        call_ensures(Queue::finish, (worked,), idle),
        call_ensures(Queue::shutdown, (closed,), ()),
        old(worked)@.inv(),
        old(closed)@.inv(),
    ensures
        !final(worked)@.busy,
        final(worked)@.items == old(worked)@.items,
        final(worked)@.shutdown == old(worked)@.shutdown,
        final(worked)@.capacity == old(worked)@.capacity,
        final(worked)@.dropped == old(worked)@.dropped,
        idle == (old(worked)@.items.len() == 0),
        final(closed)@.shutdown,
        final(closed)@.items == old(closed)@.items,
        final(closed)@.busy == old(closed)@.busy,
        final(closed)@.capacity == old(closed)@.capacity,
        final(closed)@.dropped == old(closed)@.dropped,
{
}

/// A flush is over exactly when nothing is queued and nothing is in the worker's hand; the worker
/// waits for entries exactly as long as there is none and it was not shut down, and for a delay as
/// long as it was not shut down.
pub proof fn lemma_waiting_is_over_when_it_should_be(
    queue: &Queue,
    drained: bool,
    flush_waits: bool,
    pop_waits: bool,
    sleep_waits: bool,
    interrupted: bool,
)
    requires
        call_ensures(Queue::flush, (queue,), drained),
        call_ensures(Queue::flush_waits, (queue,), flush_waits),
        call_ensures(Queue::pop_waits, (queue,), pop_waits),
        call_ensures(Queue::sleep_waits, (queue,), sleep_waits),
        call_ensures(Queue::sleep_or_shutdown, (queue,), interrupted),
    ensures
        drained == (queue@.items.len() == 0 && !queue@.busy),
        flush_waits == !drained,
        pop_waits == (queue@.items.len() == 0 && !queue@.shutdown),
        sleep_waits == !queue@.shutdown,
        interrupted == queue@.shutdown,
{
}

/// A queue says of itself what is so.
pub proof fn lemma_queue_says_what_is_so(
    queue: &Queue,
    capacity: usize,
    dropped: u64,
    empty: bool,
    shutdown: bool,
)
    requires
        call_ensures(Queue::capacity, (queue,), capacity),
        call_ensures(Queue::dropped_count, (queue,), dropped),
        call_ensures(Queue::is_empty, (queue,), empty),
        call_ensures(Queue::is_shutdown, (queue,), shutdown),
    ensures
        capacity == queue@.capacity,
        dropped == queue@.dropped,
        empty == (queue@.items.len() == 0),
        shutdown == queue@.shutdown,
{
}

}

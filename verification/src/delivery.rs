//! What becomes of the entries that are logged.
//!
//! Logging threads and the worker take turns on a client. Whatever the interleaving, and however
//! the connection behaves, an entry that was logged is delivered, waiting or counted as lost, and
//! what is delivered keeps the order in which it was logged.

use vstd::prelude::*;

use crate::client::{new_client, BuilderView, ClientView};
use crate::error::Error;
use crate::proto::{banner_bytes, payload_bytes, MAX_PAYLOAD_SIZE};
use crate::queue::{lemma_discards_are_counted, many_more, one_more};
use crate::record::Record;
use crate::worker::{in_session, Action, Phase, WorkerView};

verus! {

/// A client and its worker, with what has happened so far.
#[verifier::ext_equal]
pub struct History {
    /// The worker.
    pub worker: WorkerView,
    /// The client.
    pub client: ClientView,
    /// Every entry logged so far, in order.
    pub logged: Seq<Record>,
    /// Every entry whose frame was handed to the operating system, in order.
    pub delivered: Seq<Record>,
    /// How many entries were lost because the queue was full or closed.
    pub dropped: nat,
    /// How many entries were lost because their payload is over the limit.
    pub oversized: nat,
}

/// The entry in the worker's hand, if there is one that may still be delivered.
pub open spec fn held(phase: Phase) -> Seq<Record> {
    match phase {
        Phase::Sending(record) => seq![record],
        Phase::Failing(record) => seq![record],
        _ => seq![],
    }
}

/// Whether the worker has an entry out of the queue.
pub open spec fn holds(phase: Phase) -> bool {
    phase is Sending || phase is Failing || phase is Discarding
}

impl History {
    /// The entries that may still be delivered: the one in the worker's hand, then the queue.
    pub open spec fn waiting(self) -> Seq<Record> {
        held(self.worker.phase) + self.client.queue.items
    }

    /// A client fresh from its builder.
    pub open spec fn starts(self, builder: BuilderView) -> bool {
        &&& self.worker.phase is Disconnected
        &&& self.worker.banner == banner_bytes(builder.settings.app_name)
        &&& self.client == new_client(builder)
        &&& self.logged == Seq::<Record>::empty()
        &&& self.delivered == Seq::<Record>::empty()
        &&& self.dropped == 0
        &&& self.oversized == 0
    }

    /// An entry is logged.
    pub open spec fn logs(self, record: Record) -> History {
        History {
            client: self.client.logged(record),
            logged: self.logged.push(record),
            dropped: self.dropped + if self.client.queue.push_drops() {
                1nat
            } else {
                0nat
            },
            ..self
        }
    }

    /// The client is closed.
    pub open spec fn closes(self, now: int) -> History {
        History { client: self.client.closed(now), ..self }
    }

    /// The worker takes a step that leaves it as `after`.
    pub open spec fn works(
        self,
        outcome: Result<usize, std::io::Error>,
        after: WorkerView,
    ) -> History {
        History {
            worker: after,
            client: self.worker.client_after(self.client, outcome),
            delivered: match self.worker.phase {
                Phase::Sending(record) => if outcome is Ok {
                    self.delivered.push(record)
                } else {
                    self.delivered
                },
                _ => self.delivered,
            },
            dropped: self.dropped + if self.worker.phase is Failing && self.client.queue.full() {
                1nat
            } else {
                0nat
            },
            oversized: self.oversized + if after.phase is Discarding {
                1nat
            } else {
                0nat
            },
            ..self
        }
    }

    /// What can happen next.
    pub open spec fn next(self, then: History) -> bool {
        ||| exists|record: Record| then == #[trigger] self.logs(record)
        ||| exists|now: int| then == #[trigger] self.closes(now)
        ||| exists|outcome: Result<usize, std::io::Error>, now: int, action: Action|
            {
                &&& #[trigger] self.worker.steps(self.client, outcome, now, then.worker, action)
                &&& then == self.works(outcome, then.worker)
            }
    }
}

/// Whether `part` is what is left of `whole` after leaving some entries out: `places` says where
/// each of its entries stands in `whole`.
pub open spec fn picks(part: Seq<Record>, whole: Seq<Record>, places: Seq<int>) -> bool {
    &&& places.len() == part.len()
    &&& forall|i: int|
        #![trigger places[i]]
        0 <= i < part.len() ==> 0 <= places[i] < whole.len() && part[i] == whole[places[i]]
    &&& forall|i: int, j: int| 0 <= i < j < part.len() ==> places[i] < places[j]
}

/// Whether `part` is what is left of `whole` after leaving some entries out.
pub open spec fn in_order(part: Seq<Record>, whole: Seq<Record>) -> bool {
    exists|places: Seq<int>| picks(part, whole, places)
}

/// What holds at every point of a history.
pub open spec fn accounted_for(history: History) -> bool {
    let kept = history.delivered + history.waiting();
    &&& history.client.inv()
    &&& history.client.queue.busy == holds(history.worker.phase)
    &&& in_order(kept, history.logged)
    &&& history.logged.len() == kept.len() + history.dropped + history.oversized
    &&& history.client.queue.dropped == many_more(0, history.dropped)
}

/// Leaving out one more entry keeps the order.
proof fn lemma_leave_out(part: Seq<Record>, whole: Seq<Record>, at: int)
    requires
        in_order(part, whole),
        0 <= at < part.len(),
    ensures
        in_order(part.remove(at), whole),
{
    let places = choose|places: Seq<int>| picks(part, whole, places);
    let fewer = places.remove(at);
    assert forall|i: int| 0 <= i < part.remove(at).len() implies 0 <= #[trigger] fewer[i]
        < whole.len() && part.remove(at)[i] == whole[fewer[i]] by {
        if i < at {
            assert(fewer[i] == places[i]);
        } else {
            assert(fewer[i] == places[i + 1]);
        }
    }
    assert(picks(part.remove(at), whole, fewer));
}

/// An entry at the end of both keeps the order.
proof fn lemma_append(part: Seq<Record>, whole: Seq<Record>, record: Record)
    requires
        in_order(part, whole),
    ensures
        in_order(part.push(record), whole.push(record)),
{
    let places = choose|places: Seq<int>| picks(part, whole, places);
    let more = places.push(whole.len() as int);
    assert(picks(part.push(record), whole.push(record), more));
}

/// An entry at the end of the whole alone keeps the order.
proof fn lemma_skip(part: Seq<Record>, whole: Seq<Record>, record: Record)
    requires
        in_order(part, whole),
    ensures
        in_order(part, whole.push(record)),
{
    let places = choose|places: Seq<int>| picks(part, whole, places);
    assert(picks(part, whole.push(record), places));
}

/// A part that leaves nothing out is the whole.
proof fn lemma_nothing_left_out(part: Seq<Record>, whole: Seq<Record>)
    requires
        in_order(part, whole),
        part.len() == whole.len(),
    ensures
        part == whole,
{
    let places = choose|places: Seq<int>| picks(part, whole, places);
    lemma_places_are_dense(places, whole.len() as int);
    assert forall|i: int| 0 <= i < part.len() implies part[i] == whole[i] by {
        assert(places[i] == i);
    }
    assert(part =~= whole);
}

/// As many increasing places as there are leave no gap.
proof fn lemma_places_are_dense(places: Seq<int>, len: int)
    requires
        places.len() == len,
        forall|i: int| 0 <= i < len ==> 0 <= #[trigger] places[i] < len,
        forall|i: int, j: int| 0 <= i < j < len ==> places[i] < places[j],
    ensures
        forall|i: int| 0 <= i < len ==> #[trigger] places[i] == i,
{
    assert forall|i: int| 0 <= i < len implies #[trigger] places[i] == i by {
        lemma_place_at_least(places, len, i);
        lemma_place_at_most(places, len, i);
    }
}

proof fn lemma_place_at_least(places: Seq<int>, len: int, i: int)
    requires
        places.len() == len,
        forall|i: int| 0 <= i < len ==> 0 <= #[trigger] places[i] < len,
        forall|i: int, j: int| 0 <= i < j < len ==> places[i] < places[j],
        0 <= i < len,
    ensures
        places[i] >= i,
    decreases i,
{
    if i > 0 {
        lemma_place_at_least(places, len, i - 1);
        assert(places[i - 1] < places[i]);
    }
}

proof fn lemma_place_at_most(places: Seq<int>, len: int, i: int)
    requires
        places.len() == len,
        forall|i: int| 0 <= i < len ==> 0 <= #[trigger] places[i] < len,
        forall|i: int, j: int| 0 <= i < j < len ==> places[i] < places[j],
        0 <= i < len,
    ensures
        places[i] <= i,
    decreases len - i,
{
    if i + 1 < len {
        lemma_place_at_most(places, len, i + 1);
        assert(places[i] < places[i + 1]);
    }
}

/// Logging keeps every entry accounted for.
proof fn lemma_logging_accounts(history: History, record: Record)
    requires
        accounted_for(history),
    ensures
        accounted_for(history.logs(record)),
{
    let then = history.logs(record);
    let kept = history.delivered + history.waiting();
    let queue = history.client.queue;
    if queue.shutdown {
        lemma_skip(kept, history.logged, record);
        assert(then.delivered + then.waiting() =~= kept);
    } else if queue.full() {
        let at = history.delivered.len() + held(history.worker.phase).len();
        assert(kept[at as int] == queue.items[0]);
        lemma_leave_out(kept, history.logged, at as int);
        lemma_append(kept.remove(at as int), history.logged, record);
        assert(then.delivered + then.waiting() =~= kept.remove(at as int).push(record));
    } else {
        lemma_append(kept, history.logged, record);
        assert(then.delivered + then.waiting() =~= kept.push(record));
    }
}

/// A step of the worker keeps every entry accounted for.
proof fn lemma_working_accounts(
    history: History,
    outcome: Result<usize, std::io::Error>,
    now: int,
    action: Action,
    after: WorkerView,
)
    requires
        accounted_for(history),
        history.worker.steps(history.client, outcome, now, after, action),
    ensures
        accounted_for(history.works(outcome, after)),
{
    let then = history.works(outcome, after);
    let kept = history.delivered + history.waiting();
    let queue = history.client.queue;
    let at = history.delivered.len() as int;
    match history.worker.phase {
        Phase::Polling => {
            if queue.items.len() > 0 && payload_bytes(queue.items[0]@).len() > MAX_PAYLOAD_SIZE {
                lemma_leave_out(kept, history.logged, at);
                assert(then.delivered + then.waiting() =~= kept.remove(at));
            } else {
                assert(then.delivered + then.waiting() =~= kept);
            }
        },
        Phase::Failing(record) => {
            if queue.full() {
                lemma_leave_out(kept, history.logged, at);
                assert(then.delivered + then.waiting() =~= kept.remove(at));
            } else {
                assert(then.delivered + then.waiting() =~= kept);
            }
        },
        _ => {
            assert(then.delivered + then.waiting() =~= kept);
        },
    }
}

/// Whatever happens next, every entry stays accounted for.
pub proof fn lemma_entries_stay_accounted_for(history: History, then: History)
    requires
        accounted_for(history),
        history.next(then),
    ensures
        accounted_for(then),
{
    if exists|record: Record| then == #[trigger] history.logs(record) {
        let record = choose|record: Record| then == #[trigger] history.logs(record);
        lemma_logging_accounts(history, record);
    } else if exists|now: int| then == #[trigger] history.closes(now) {
        assert(then.delivered + then.waiting() =~= history.delivered + history.waiting());
    } else {
        let (outcome, now, action) = choose|
            outcome: Result<usize, std::io::Error>,
            now: int,
            action: Action,
        |
            {
                &&& #[trigger] history.worker.steps(
                    history.client,
                    outcome,
                    now,
                    then.worker,
                    action,
                )
                &&& then == history.works(outcome, then.worker)
            };
        lemma_working_accounts(history, outcome, now, action, then.worker);
    }
}

/// Whether these are the states that a client and its worker pass through, from the start on.
pub open spec fn is_history(builder: BuilderView, states: Seq<History>) -> bool {
    &&& states.len() > 0
    &&& states[0].starts(builder)
    &&& forall|i: int, j: int|
        #![trigger states[i], states[j]]
        0 <= i && j == i + 1 && j < states.len() ==> states[i].next(states[j])
}

/// At every point, each entry that was logged is delivered, waiting, or counted as dropped or
/// oversized; and what is delivered, followed by what is waiting, keeps the order in which it was
/// logged and repeats nothing.
pub proof fn lemma_entries_are_accounted_for(
    builder: BuilderView,
    states: Seq<History>,
    at: int,
)
    requires
        is_history(builder, states),
        0 <= at < states.len(),
    ensures
        accounted_for(states[at]),
    decreases at,
{
    if at == 0 {
        let kept = states[0].delivered + states[0].waiting();
        assert(picks(kept, states[0].logged, Seq::empty()));
    } else {
        lemma_entries_are_accounted_for(builder, states, at - 1);
        lemma_entries_stay_accounted_for(states[at - 1], states[at]);
    }
}

/// As long as the queue has not overflowed and no entry was over the limit, a failing connection
/// costs nothing: what is delivered, followed by what is waiting, is exactly what was logged.
pub proof fn lemma_nothing_is_lost(builder: BuilderView, states: Seq<History>, at: int)
    requires
        is_history(builder, states),
        0 <= at < states.len(),
        states[at].dropped == 0,
        states[at].oversized == 0,
    ensures
        states[at].delivered + states[at].waiting() == states[at].logged,
{
    lemma_entries_are_accounted_for(builder, states, at);
    lemma_nothing_left_out(states[at].delivered + states[at].waiting(), states[at].logged);
}

/// A flush that succeeds means that every entry was handed to the operating system, or lost and
/// counted: nothing is left in the queue or in the worker's hand.
pub proof fn lemma_flush_means_delivered(builder: BuilderView, states: Seq<History>, at: int)
    requires
        is_history(builder, states),
        0 <= at < states.len(),
        states[at].client.queue.drained(),
    ensures
        states[at].waiting() == Seq::<Record>::empty(),
        in_order(states[at].delivered, states[at].logged),
        states[at].logged.len() == states[at].delivered.len() + states[at].dropped
            + states[at].oversized,
        states[at].dropped == 0 && states[at].oversized == 0 ==> states[at].delivered
            == states[at].logged,
{
    lemma_entries_are_accounted_for(builder, states, at);
    let history = states[at];
    assert(history.waiting() =~= Seq::<Record>::empty());
    assert(history.delivered + history.waiting() =~= history.delivered);
    if history.dropped == 0 && history.oversized == 0 {
        lemma_nothing_left_out(history.delivered, history.logged);
    }
}

/// An entry is lost only with a report, at the step that loses it: an oversized one as such, and
/// one that cannot be handed back as an overflow with the running total.
pub proof fn lemma_losses_are_reported(
    history: History,
    outcome: Result<usize, std::io::Error>,
    now: int,
    action: Action,
    after: WorkerView,
)
    requires
        accounted_for(history),
        history.worker.steps(history.client, outcome, now, after, action),
    ensures
        ({
            let then = history.works(outcome, after);
            &&& then.oversized != history.oversized ==> {
                &&& action matches Action::Report(Error::PayloadTooLarge { size, limit })
                &&& size > limit
            }
            &&& then.dropped != history.dropped ==> action == Action::Report(
                Error::QueueFull {
                    capacity: history.client.queue.capacity,
                    total: one_more(history.client.queue.dropped),
                },
            )
        }),
{
}

/// How much a worker with a connection still has to do, in steps.
pub open spec fn left_to_do(worker: WorkerView, client: ClientView) -> int {
    3 * client.queue.items.len() + (if worker.phase is Greeting || holds(worker.phase) {
        2int
    } else {
        1
    })
}

/// Closing drains the queue: as long as the connection holds and there is time left, a worker that
/// is to drain comes closer to the end with every step, and has delivered everything it could when
/// it stops.
pub proof fn lemma_closing_drains(
    history: History,
    outcome: Result<usize, std::io::Error>,
    now: int,
    action: Action,
    after: WorkerView,
)
    requires
        accounted_for(history),
        history.worker.steps(history.client, outcome, now, after, action),
        in_session(history.worker.phase),
        outcome is Ok,
        history.client.queue.shutdown,
        history.client.settings.flush_on_close,
        !history.client.out_of_time(now),
    ensures
        ({
            let then = history.works(outcome, after);
            if action is Stop {
                then.waiting() == Seq::<Record>::empty()
            } else {
                &&& in_session(after.phase)
                &&& 0 <= left_to_do(after, then.client) < left_to_do(history.worker, history.client)
            }
        }),
{
    let then = history.works(outcome, after);
    if action is Stop {
        assert(then.waiting() =~= Seq::<Record>::empty());
    }
}

/// As long as the client is open its worker does not give up connecting: at the start, and whenever
/// it has waited out the delay after a failure, it goes on to resolve the address.
pub proof fn lemma_open_client_keeps_connecting(
    history: History,
    outcome: Result<usize, std::io::Error>,
    now: int,
    action: Action,
    after: WorkerView,
)
    requires
        accounted_for(history),
        history.worker.steps(history.client, outcome, now, after, action),
        !history.client.queue.shutdown,
        history.worker.phase is Disconnected || history.worker.phase is Sleeping,
    ensures
        after.phase is Resolving,
        action matches Action::Resolve(address) && address@ == history.client.settings.address,
{
}

/// Entries are delivered as soon as the GUI is there: as long as the connection holds, the worker
/// of an open client stays connected, and comes closer to having delivered everything with every
/// step for which there is anything to do. A write that succeeds delivers its entry.
pub proof fn lemma_open_client_delivers(
    history: History,
    outcome: Result<usize, std::io::Error>,
    now: int,
    action: Action,
    after: WorkerView,
)
    requires
        accounted_for(history),
        history.worker.steps(history.client, outcome, now, after, action),
        !history.client.queue.shutdown,
        in_session(history.worker.phase),
        outcome is Ok,
    ensures
        ({
            let then = history.works(outcome, after);
            &&& in_session(after.phase)
            &&& history.client.queue.items.len() > 0 || holds(history.worker.phase) ==> 0
                <= left_to_do(after, then.client) < left_to_do(history.worker, history.client)
            &&& history.worker.phase matches Phase::Sending(record) ==> then.delivered
                == history.delivered.push(record)
        }),
{
}

/// At every point of a history, a flush is over exactly when nothing waits and the worker has
/// nothing in hand, and the count of drops is the number of entries dropped so far.
pub proof fn lemma_flush_ends_when_nothing_waits(
    builder: BuilderView,
    states: Seq<History>,
    at: int,
)
    requires
        is_history(builder, states),
        0 <= at < states.len(),
    ensures
        states[at].client.queue.drained() == (states[at].waiting().len() == 0 && !(
        states[at].worker.phase is Discarding)),
        states[at].client.queue.dropped == states[at].dropped % 0x1_0000_0000_0000_0000,
{
    lemma_entries_are_accounted_for(builder, states, at);
    lemma_discards_are_counted(0, states[at].dropped);
}

}

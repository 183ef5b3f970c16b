//! How long closing takes.
//!
//! A close may come while the worker is in the middle of something. The close itself waits no
//! longer than the flush timeout. The worker ends what it is in the middle of, and from then on
//! decides every step with the flush deadline in sight.

use vstd::prelude::*;

use crate::client::ClientView;
use crate::clock::duration_nanos;
use crate::worker::{is_run, Action, Phase, Step, SHORTEST_ATTEMPT_NANOS};

verus! {

/// Whether the action between two steps keeps to its time: connecting and writing to the time they
/// were given, and everything else to the moment of the close. Waiting for an entry or for a delay
/// ends there by itself; the time that resolving an address and the application's own error
/// callback take is not counted.
pub open spec fn on_time(before: Step, then: Step, closed_at: int) -> bool {
    match before.action {
        Action::Connect { timeout, .. } => then.now <= before.now + duration_nanos(timeout),
        Action::Write { limit, .. } => limit matches Some(limit) ==> then.now <= before.now
            + duration_nanos(limit),
        _ => then.now <= before.now || then.now <= closed_at,
    }
}

/// Whether the client of a run is closed at `closed_at`, after step `last` and while the action that
/// it decided on is under way.
pub open spec fn closed_during(run: Seq<Step>, last: int, closed_at: int) -> bool {
    &&& 0 <= last < run.len()
    &&& run[last].client.closed_at is None
    &&& run[last].now <= closed_at
    &&& forall|j: int|
        last <= j < run.len() ==> (#[trigger] run[j]).client.settings == run[last].client.settings
    &&& forall|j: int|
        last < j < run.len() ==> (#[trigger] run[j]).client.closed_at == Some(closed_at)
    &&& forall|j: int, k: int|
        #![trigger run[j], run[k]]
        last <= j && k == j + 1 && k < run.len() ==> on_time(run[j], run[k], closed_at)
}

/// When the worker is to be done: the flush timeout after the close. Only a connection attempt or a
/// write that was under way already may take longer; it is done when that has ended.
pub open spec fn closing_limit(run: Seq<Step>, last: int, closed_at: int) -> int {
    let deadline = closed_at + run[last].client.settings.flush_timeout;
    if (run[last].action is Connect || run[last].action is Write) && last + 1 < run.len()
        && run[last + 1].now > deadline {
        run[last + 1].now
    } else {
        deadline
    }
}

/// How much later a phase may still be left, in shortest attempts.
spec fn allowance(phase: Phase) -> int {
    match phase {
        Phase::Polling | Phase::Discarding | Phase::Resolving | Phase::Disconnected => 0,
        Phase::Connecting { .. } | Phase::Sending(_) | Phase::Failing(_) => 1,
        _ => 2,
    }
}

/// The first step after the close.
proof fn lemma_first_step_is_in_time(
    app_name: Seq<char>,
    run: Seq<Step>,
    last: int,
    closed_at: int,
)
    requires
        is_run(app_name, run),
        closed_during(run, last, closed_at),
        last + 1 < run.len(),
    ensures
        !(run[last + 1].worker.phase is Disconnected),
        run[last + 1].now <= closing_limit(run, last, closed_at) + allowance(
            run[last + 1].worker.phase,
        ) * SHORTEST_ATTEMPT_NANOS,
{
    let before = run[last];
    let then = run[last + 1];
    assert(before.valid());
    assert(then.worker == before.after);
    assert(on_time(before, then, closed_at));
}

/// Every later step follows from the one before it.
proof fn lemma_next_step_is_in_time(
    app_name: Seq<char>,
    run: Seq<Step>,
    last: int,
    closed_at: int,
    k: int,
)
    requires
        is_run(app_name, run),
        closed_during(run, last, closed_at),
        last + 1 < k < run.len(),
        !(run[k - 1].worker.phase is Disconnected),
        !(run[k].worker.phase is Stopped),
        run[k - 1].now <= closing_limit(run, last, closed_at) + allowance(
            run[k - 1].worker.phase,
        ) * SHORTEST_ATTEMPT_NANOS,
    ensures
        !(run[k].worker.phase is Disconnected),
        run[k].now <= closing_limit(run, last, closed_at) + allowance(run[k].worker.phase)
            * SHORTEST_ATTEMPT_NANOS,
{
    let before = run[k - 1];
    let then = run[k];
    assert(before.valid());
    assert(then.worker == before.after);
    assert(on_time(before, then, closed_at));
    assert(before.client.closed_at == Some(closed_at));
    assert(before.client.settings == run[last].client.settings);
}

/// A close never waits longer than the flush timeout: as a client is closed there is exactly that
/// left to wait, whatever is waited for is waited for no later than the flush deadline, and past it
/// there is nothing left to wait.
pub proof fn lemma_close_waits_up_to_the_flush_timeout(
    client: ClientView,
    closed_at: int,
    now: int,
)
    requires
        client.inv(),
        client.closed_at is None,
        closed_at <= now,
    ensures
        ({
            let closed = client.closed(closed_at);
            let wait = closed.close_wait_nanos(now);
            &&& closed.close_wait_nanos(closed_at) == client.settings.flush_timeout
            &&& 0 <= wait <= client.settings.flush_timeout
            &&& closed.out_of_time(now) <==> wait == 0
            &&& wait > 0 ==> now + wait == closed_at + client.settings.flush_timeout
        }),
{
}

/// The worker keeps to the flush timeout: as long as it has not stopped, it is no later than the
/// flush timeout after the close, to within two of the shortest attempts there are. A connection
/// attempt or a write that was under way when the close came is the one thing that it ends first.
pub proof fn lemma_closing_keeps_to_the_flush_timeout(
    app_name: Seq<char>,
    run: Seq<Step>,
    last: int,
    closed_at: int,
    k: int,
)
    requires
        is_run(app_name, run),
        closed_during(run, last, closed_at),
        last < k < run.len(),
        !(run[k].worker.phase is Stopped),
    ensures
        run[k].now <= closing_limit(run, last, closed_at) + 2 * SHORTEST_ATTEMPT_NANOS,
{
    lemma_steps_are_in_time(app_name, run, last, closed_at, k);
}

proof fn lemma_steps_are_in_time(
    app_name: Seq<char>,
    run: Seq<Step>,
    last: int,
    closed_at: int,
    k: int,
)
    requires
        is_run(app_name, run),
        closed_during(run, last, closed_at),
        last < k < run.len(),
        !(run[k].worker.phase is Stopped),
    ensures
        !(run[k].worker.phase is Disconnected),
        run[k].now <= closing_limit(run, last, closed_at) + allowance(run[k].worker.phase)
            * SHORTEST_ATTEMPT_NANOS,
    decreases k,
{
    if k == last + 1 {
        lemma_first_step_is_in_time(app_name, run, last, closed_at);
    } else {
        assert(run[k - 1].valid());
        assert(run[k].worker == run[k - 1].after);
        lemma_steps_are_in_time(app_name, run, last, closed_at, k - 1);
        lemma_next_step_is_in_time(app_name, run, last, closed_at, k);
    }
}

}

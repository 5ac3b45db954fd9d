//! What holds of every subscription, whatever happens on the outside: the transactions
//! that the subscriber takes are the versions from the starting version on, one by one;
//! every response sent holds a transaction and fits into a message; and a subscription
//! that is done has delivered exactly the count that was asked for.

use vstd::prelude::*;
use crate::config::RESPONSE_CHANNEL_SEND_TIMEOUT_SECS;
use crate::delivery::{kept_of, prepared, trim_below, PreparedModel};
use crate::response::{
    carried, is_valid_response, lemma_responses_within_limit, MESSAGE_SIZE_LIMIT,
};
use crate::sequencer::sequence;
use crate::sequencer_proofs::lemma_sequenced_is_one_run;
use crate::transaction::{is_dense, is_run_from, Transaction};
use crate::wire::response_len;
use crate::worker::{
    send_next, started, step_spec, ActionModel, Event, Outcome, Phase, WorkerModel,
};

verus! {

/// The transactions of the response that an action sends, none where it sends none.
pub open spec fn sent_by(action: ActionModel) -> Seq<Transaction> {
    match action {
        ActionModel::Send { response, .. } => response.1,
        _ => Seq::empty(),
    }
}

/// The transactions that the subscriber takes with an event: those of the response on
/// its way, when the event says that it was taken.
pub open spec fn taken_with(w: WorkerModel, on_its_way: Seq<Transaction>, event: Event) -> Seq<
    Transaction,
> {
    if w.phase is Sending && event is Sent {
        on_its_way
    } else {
        Seq::empty()
    }
}

/// The transactions that the subscriber takes in the course of the events, in the
/// order in which it takes them. `on_its_way` are those of the response that was sent
/// last.
pub open spec fn delivered(w: WorkerModel, on_its_way: Seq<Transaction>, events: Seq<Event>)
    -> Seq<Transaction>
    decreases events.len(),
{
    if events.len() == 0 {
        Seq::empty()
    } else {
        let (next, action) = step_spec(w, events[0]);
        taken_with(w, on_its_way, events[0]) + delivered(
            next,
            sent_by(action),
            events.drop_first(),
        )
    }
}

/// The state after the events.
pub open spec fn state_after(w: WorkerModel, events: Seq<Event>) -> WorkerModel
    decreases events.len(),
{
    if events.len() == 0 {
        w
    } else {
        state_after(step_spec(w, events[0]).0, events.drop_first())
    }
}

/// The action that answers the last of the events.
pub open spec fn last_action(w: WorkerModel, events: Seq<Event>) -> ActionModel
    recommends
        events.len() > 0,
{
    step_spec(state_after(w, events.drop_last()), events.last()).1
}

/// What holds of the worker between two events. The responses not yet sent are valid
/// and carry the versions that follow the response on its way, which itself starts at
/// the current version; and only while a response is on its way is there anything to
/// send.
pub open spec fn consistent(w: WorkerModel, on_its_way: Seq<Transaction>) -> bool {
    &&& forall|i: int|
        0 <= i < w.outbox.len() ==> is_valid_response(#[trigger] w.outbox[i], w.chain_id)
    &&& is_run_from(carried(w.outbox), w.current_version + w.in_flight)
    &&& if w.phase is Sending {
        on_its_way.len() == w.in_flight && is_run_from(on_its_way, w.current_version as int)
    } else {
        w.in_flight == 0 && w.outbox.len() == 0 && on_its_way.len() == 0
    }
}

/// The number of transactions that are still to be delivered: those on their way, those
/// waiting to be sent, and those that are asked for beyond them.
pub open spec fn owed(w: WorkerModel, on_its_way: Seq<Transaction>) -> int {
    on_its_way.len() + carried(w.outbox).len() + w.remaining_count->Some_0
}

/// Whatever the sequencer merges is dense.
pub proof fn lemma_sequenced_is_dense(batches: Seq<Seq<Transaction>>)
    requires
        sequence(batches) is Ok,
    ensures
        is_dense(sequence(batches)->Ok_0.transactions),
{
    if batches.len() > 0 {
        lemma_sequenced_is_one_run(batches);
    } else {
        assert(crate::sequencer::sort_by_start(batches) =~= batches);
    }
}

/// What is left of a dense run behind a version is dense.
pub proof fn lemma_trim_keeps_dense(run: Seq<Transaction>, version: u64)
    requires
        is_dense(run),
    ensures
        is_dense(trim_below(run, version)),
{
    let fresh = trim_below(run, version);
    if fresh.len() > 0 && fresh != run {
        let cut = version - run[0].version;
        assert forall|i: int| 0 <= i < fresh.len() implies (#[trigger] fresh[i]).version
            == fresh[0].version + i by {
            assert(fresh[i] == run[cut + i]);
            assert(fresh[0] == run[cut + 0]);
        }
    }
}

/// The responses that a cycle prepares are valid, carry a run that starts at the
/// current version, and use up the count by as much as they carry.
pub proof fn lemma_prepared_delivery(
    batches: Seq<Seq<Transaction>>,
    current_version: u64,
    remaining_count: Option<u64>,
    chain_id: u64,
)
    requires
        prepared(batches, current_version, remaining_count, chain_id) is Deliver,
    ensures
        ({
            let p = prepared(batches, current_version, remaining_count, chain_id);
            let responses = p->Deliver_responses;
            let left = p->Deliver_remaining_count;
            &&& responses.len() > 0
            &&& forall|i: int|
                0 <= i < responses.len() ==> is_valid_response(#[trigger] responses[i], chain_id)
            &&& is_run_from(carried(responses), current_version as int)
            &&& left is Some <==> remaining_count is Some
            &&& remaining_count matches Some(count) ==> carried(responses).len() + left->Some_0
                == count
        }),
{
    let merged = sequence(batches)->Ok_0;
    lemma_sequenced_is_dense(batches);
    lemma_trim_keeps_dense(merged.transactions, current_version);
    let fresh = trim_below(merged.transactions, current_version);
    let kept = kept_of(fresh, remaining_count);
    assert(fresh.len() > 0);
    assert(kept.len() > 0);
    lemma_responses_within_limit(kept, chain_id);
    assert forall|i: int| 0 <= i < kept.len() implies (#[trigger] kept[i]).version
        == current_version + i by {
        assert(kept[i] == fresh[i]);
        assert(fresh[i].version == fresh[0].version + i);
    }
}

/// Sending the next response keeps the worker consistent and neither adds to nor takes
/// from what is owed.
pub proof fn lemma_send_next(w: WorkerModel)
    requires
        forall|i: int|
            0 <= i < w.outbox.len() ==> is_valid_response(#[trigger] w.outbox[i], w.chain_id),
        is_run_from(carried(w.outbox), w.current_version as int),
        w.in_flight == 0,
    ensures
        ({
            let (next, action) = send_next(w);
            &&& consistent(next, sent_by(action))
            &&& !(next.phase is Finished)
            &&& next.current_version == w.current_version
            &&& next.chain_id == w.chain_id
            &&& next.remaining_count == w.remaining_count
            &&& sent_by(action).len() + carried(next.outbox).len() == carried(w.outbox).len()
            &&& action matches ActionModel::Send { response, timeout_secs } ==> is_valid_response(
                response,
                w.chain_id,
            ) && timeout_secs == RESPONSE_CHANNEL_SEND_TIMEOUT_SECS
        }),
{
    let (next, action) = send_next(w);
    if w.outbox.len() == 0 {
    } else {
        let first = w.outbox[0].1;
        let rest = carried(w.outbox.drop_first());
        assert(carried(w.outbox) == first + rest);
        assert(is_valid_response(w.outbox[0], w.chain_id));
        assert forall|i: int| 0 <= i < next.outbox.len() implies is_valid_response(
            #[trigger] next.outbox[i],
            next.chain_id,
        ) by {
            assert(next.outbox[i] == w.outbox[i + 1]);
        }
        assert forall|i: int| 0 <= i < first.len() implies (#[trigger] first[i]).version
            == w.current_version + i by {
            assert((first + rest)[i] == first[i]);
        }
        assert forall|i: int| 0 <= i < rest.len() implies (#[trigger] rest[i]).version
            == w.current_version + first.len() + i by {
            assert((first + rest)[first.len() + i] == rest[i]);
        }
    }
}

/// One step of a consistent worker: the worker stays consistent; unless the
/// subscription ends, the current version moves on by what the subscriber took and what
/// is owed goes down by it; a response that is sent is valid; and a subscription that
/// is done with this step owed no more than the subscriber took.
pub proof fn lemma_step(w: WorkerModel, on_its_way: Seq<Transaction>, event: Event)
    requires
        consistent(w, on_its_way),
    ensures
        ({
            let (next, action) = step_spec(w, event);
            let taken = taken_with(w, on_its_way, event);
            &&& consistent(next, sent_by(action))
            &&& action matches ActionModel::Send { response, timeout_secs } ==> is_valid_response(
                response,
                next.chain_id,
            ) && timeout_secs == RESPONSE_CHANNEL_SEND_TIMEOUT_SECS
            &&& !(next.phase is Finished) ==> {
                &&& next.current_version == w.current_version + taken.len()
                &&& next.remaining_count is Some <==> w.remaining_count is Some
                &&& w.remaining_count is Some ==> owed(next, sent_by(action)) + taken.len()
                    == owed(w, on_its_way)
            }
            &&& w.phase is Finished ==> next == w
            &&& !(w.phase is Finished) && next.phase == Phase::Finished(Outcome::Done)
                && w.remaining_count is Some ==> owed(w, on_its_way) == taken.len()
        }),
{
    let (next, action) = step_spec(w, event);
    assert(carried(Seq::<(Option<u64>, Seq<Transaction>)>::empty()) =~= Seq::<
        Transaction,
    >::empty());
    if w.outbox.len() == 0 {
        assert(carried(w.outbox) =~= Seq::<Transaction>::empty());
    }
    if !(w.phase is Sending) {
        assert(on_its_way =~= Seq::<Transaction>::empty());
    }
    match w.phase {
        Phase::Sending => {
            if event is Sent {
                if w.current_version + w.in_flight <= u64::MAX {
                    let moved = WorkerModel {
                        current_version: (w.current_version + w.in_flight) as u64,
                        in_flight: 0,
                        ..w
                    };
                    lemma_send_next(moved);
                }
            }
        },
        Phase::AwaitingCacheRead => {
            if let Event::CacheRead(read) = event {
                if let Some(result) = crate::planner::cache_read_result(read) {
                    lemma_after_fetch(w, result);
                }
            }
        },
        Phase::AwaitingBlocks => {
            if let Event::Blocks(reads) = event {
                lemma_after_fetch(w, crate::planner::blocks_result(reads@));
            }
        },
        _ => {},
    }
}

/// What follows a fetch keeps a worker that has nothing on its way consistent.
proof fn lemma_after_fetch(w: WorkerModel, result: crate::planner::FetchResultModel)
    requires
        consistent(w, Seq::empty()),
        !(w.phase is Sending),
    ensures
        ({
            let (next, action) = crate::worker::after_fetch(w, result);
            &&& consistent(next, sent_by(action))
            &&& action matches ActionModel::Send { response, timeout_secs } ==> is_valid_response(
                response,
                next.chain_id,
            ) && timeout_secs == RESPONSE_CHANNEL_SEND_TIMEOUT_SECS
            &&& !(next.phase is Finished) ==> {
                &&& next.current_version == w.current_version
                &&& next.remaining_count is Some <==> w.remaining_count is Some
                &&& w.remaining_count is Some ==> owed(next, sent_by(action)) == owed(
                    w,
                    Seq::empty(),
                )
            }
            &&& next.phase == Phase::Finished(Outcome::Done) && w.remaining_count is Some
                ==> owed(w, Seq::empty()) == 0
        }),
{
    assert(carried(Seq::<(Option<u64>, Seq<Transaction>)>::empty()) =~= Seq::<
        Transaction,
    >::empty());
    if let crate::planner::FetchResultModel::BatchSuccess(batches) = result {
        let p = prepared(batches, w.current_version, w.remaining_count, w.chain_id);
        if let PreparedModel::Deliver { responses, remaining_count } = p {
            lemma_prepared_delivery(batches, w.current_version, w.remaining_count, w.chain_id);
            let loaded = WorkerModel { remaining_count, outbox: responses, ..w };
            lemma_send_next(loaded);
        }
    }
}

/// A subscription that has ended stays as it is and delivers nothing more.
pub proof fn lemma_finished_is_final(
    w: WorkerModel,
    on_its_way: Seq<Transaction>,
    events: Seq<Event>,
)
    requires
        w.phase is Finished,
    ensures
        state_after(w, events) == w,
        delivered(w, on_its_way, events) == Seq::<Transaction>::empty(),
    decreases events.len(),
{
    if events.len() > 0 {
        lemma_finished_is_final(w, Seq::empty(), events.drop_first());
    }
}

/// The transactions that the subscriber of a consistent worker takes are the versions
/// from the current version on, one by one.
pub proof fn lemma_delivered_is_a_run(
    w: WorkerModel,
    on_its_way: Seq<Transaction>,
    events: Seq<Event>,
)
    requires
        consistent(w, on_its_way),
    ensures
        is_run_from(delivered(w, on_its_way, events), w.current_version as int),
    decreases events.len(),
{
    if events.len() > 0 {
        let (next, action) = step_spec(w, events[0]);
        let taken = taken_with(w, on_its_way, events[0]);
        let rest = delivered(next, sent_by(action), events.drop_first());
        lemma_step(w, on_its_way, events[0]);
        if next.phase is Finished {
            lemma_finished_is_final(next, sent_by(action), events.drop_first());
            assert(taken + rest =~= taken);
        } else {
            lemma_delivered_is_a_run(next, sent_by(action), events.drop_first());
            assert forall|i: int| 0 <= i < (taken + rest).len() implies (#[trigger] (taken
                + rest)[i]).version == w.current_version + i by {
                if i >= taken.len() {
                    assert((taken + rest)[i] == rest[i - taken.len()]);
                }
            }
        }
    }
}

/// A consistent worker that is asked for a count and is done after the events has
/// delivered all that it owed.
pub proof fn lemma_done_has_delivered_what_was_owed(
    w: WorkerModel,
    on_its_way: Seq<Transaction>,
    events: Seq<Event>,
)
    requires
        consistent(w, on_its_way),
        w.remaining_count is Some,
        !(w.phase is Finished),
        state_after(w, events).phase == Phase::Finished(Outcome::Done),
    ensures
        delivered(w, on_its_way, events).len() == owed(w, on_its_way),
    decreases events.len(),
{
    if events.len() > 0 {
        let (next, action) = step_spec(w, events[0]);
        lemma_step(w, on_its_way, events[0]);
        if next.phase is Finished {
            lemma_finished_is_final(next, sent_by(action), events.drop_first());
        } else {
            lemma_done_has_delivered_what_was_owed(next, sent_by(action), events.drop_first());
        }
    }
}

/// A consistent worker that is asked for a count delivers no more than it owes.
pub proof fn lemma_delivers_no_more_than_owed(
    w: WorkerModel,
    on_its_way: Seq<Transaction>,
    events: Seq<Event>,
)
    requires
        consistent(w, on_its_way),
        w.remaining_count is Some,
    ensures
        delivered(w, on_its_way, events).len() <= owed(w, on_its_way),
    decreases events.len(),
{
    if events.len() > 0 {
        let (next, action) = step_spec(w, events[0]);
        lemma_step(w, on_its_way, events[0]);
        if next.phase is Finished {
            lemma_finished_is_final(next, sent_by(action), events.drop_first());
        } else {
            lemma_delivers_no_more_than_owed(next, sent_by(action), events.drop_first());
        }
    }
}

/// Every response that a consistent worker sends in the course of the events is valid:
/// it holds a transaction and is no longer than a message may be.
pub proof fn lemma_sent_is_valid(
    w: WorkerModel,
    on_its_way: Seq<Transaction>,
    events: Seq<Event>,
)
    requires
        consistent(w, on_its_way),
        events.len() > 0,
    ensures
        last_action(w, events) matches ActionModel::Send { response, timeout_secs } ==> {
            &&& response.1.len() >= 1
            &&& response_len(response.0, response.1) <= MESSAGE_SIZE_LIMIT
            &&& timeout_secs == RESPONSE_CHANNEL_SEND_TIMEOUT_SECS
        },
        consistent(
            state_after(w, events),
            sent_by(last_action(w, events)),
        ),
    decreases events.len(),
{
    let (next, action) = step_spec(w, events[0]);
    lemma_step(w, on_its_way, events[0]);
    if events.len() == 1 {
        assert(events.drop_last() =~= Seq::<Event>::empty());
        assert(events.drop_first() =~= Seq::<Event>::empty());
        assert(events.last() == events[0]);
        assert(state_after(w, events.drop_last()) == w);
        assert(state_after(next, events.drop_first()) == next);
        assert(last_action(w, events) == action);
        assert(state_after(w, events) == next);
    } else {
        let tail = events.drop_first();
        lemma_sent_is_valid(next, sent_by(action), tail);
        assert(tail.last() == events.last());
        assert(events.drop_last().drop_first() =~= tail.drop_last());
        assert(events.drop_last()[0] == events[0]);
        lemma_state_after_first(w, events.drop_last());
        lemma_state_after_first(w, events);
        assert(state_after(w, events.drop_last()) == state_after(next, tail.drop_last()));
        assert(last_action(w, events) == last_action(next, tail));
        assert(state_after(w, events) == state_after(next, tail));
    }
}

/// The state after the events is the state after the rest of them, taken from the
/// state after the first.
proof fn lemma_state_after_first(w: WorkerModel, events: Seq<Event>)
    requires
        events.len() > 0,
    ensures
        state_after(w, events) == state_after(step_spec(w, events[0]).0, events.drop_first()),
{
}

/// A subscription delivers the versions from its starting version on, each once and
/// none left out, whatever happens on the outside.
pub proof fn lemma_subscription_delivers_in_sequence(
    starting_version: u64,
    transactions_count: Option<u64>,
    events: Seq<Event>,
)
    ensures
        is_run_from(
            delivered(started(starting_version, transactions_count), Seq::empty(), events),
            starting_version as int,
        ),
{
    let w = started(starting_version, transactions_count);
    assert(carried(w.outbox) =~= Seq::<Transaction>::empty());
    lemma_delivered_is_a_run(w, Seq::empty(), events);
}

/// Every response that a subscription sends holds at least one transaction, is no
/// longer than [`MESSAGE_SIZE_LIMIT`] and is given the send timeout to be taken, whatever
/// happens on the outside.
pub proof fn lemma_subscription_sends_valid_responses(
    starting_version: u64,
    transactions_count: Option<u64>,
    events: Seq<Event>,
)
    requires
        events.len() > 0,
    ensures
        last_action(
            started(starting_version, transactions_count),
            events,
        ) matches ActionModel::Send { response, timeout_secs } ==> {
            &&& response.1.len() >= 1
            &&& response_len(response.0, response.1) <= MESSAGE_SIZE_LIMIT
            &&& timeout_secs == RESPONSE_CHANNEL_SEND_TIMEOUT_SECS
        },
{
    let w = started(starting_version, transactions_count);
    assert(carried(w.outbox) =~= Seq::<Transaction>::empty());
    lemma_sent_is_valid(w, Seq::empty(), events);
}

/// A subscription that was asked for `count` transactions and is done has delivered
/// exactly `count` transactions.
pub proof fn lemma_done_subscription_delivered_the_count(
    starting_version: u64,
    count: u64,
    events: Seq<Event>,
)
    requires
        state_after(started(starting_version, Some(count)), events).phase == Phase::Finished(
            Outcome::Done,
        ),
    ensures
        delivered(started(starting_version, Some(count)), Seq::empty(), events).len() == count,
{
    let w = started(starting_version, Some(count));
    assert(carried(w.outbox) =~= Seq::<Transaction>::empty());
    lemma_done_has_delivered_what_was_owed(w, Seq::empty(), events);
}

/// A subscription that was asked for `count` transactions never delivers more than
/// `count`, whatever happens on the outside.
pub proof fn lemma_subscription_delivers_no_more_than_the_count(
    starting_version: u64,
    count: u64,
    events: Seq<Event>,
)
    ensures
        delivered(started(starting_version, Some(count)), Seq::empty(), events).len() <= count,
{
    let w = started(starting_version, Some(count));
    assert(carried(w.outbox) =~= Seq::<Transaction>::empty());
    lemma_delivers_no_more_than_owed(w, Seq::empty(), events);
}

} // verus!

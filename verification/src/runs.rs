//! What holds of every run of the engine, from its start through any number
//! of events: no request is lost, none is replied to twice, batches and
//! replies keep the order of arrival, and no batch is larger than allowed.

use vstd::prelude::*;

use crate::batch_engine::BatchEngine;
use crate::laws::{law_inv_kept, law_next_defined};
use crate::model::{fan_out, flat_inputs, ActionView, DeliveryView, EventView, ItemView, StateView};

verus! {

/// What a run has come to: the state the engine is in, and all it has asked
/// for on the way.
pub struct Progress<R, V> {
    /// Where the engine is suspended.
    pub state: StateView<R>,
    /// The batches that went to the embedder, in order.
    pub batches: Seq<Seq<ItemView<R>>>,
    /// The texts of each call of the embedder, in order.
    pub calls: Seq<Seq<Seq<char>>>,
    /// The replies that were handed out for sending, in order.
    pub replies: Seq<DeliveryView<R, V>>,
}

/// What has come of a run after one more step.
pub open spec fn advance<R, V>(
    before: Progress<R, V>,
    step: (StateView<R>, ActionView<R, V>),
) -> Progress<R, V> {
    Progress {
        state: step.0,
        batches: match (step.0, step.1) {
            (StateView::Embedding { batch, .. }, ActionView::Embed { .. }) => before.batches.push(
                batch,
            ),
            _ => before.batches,
        },
        calls: match step.1 {
            ActionView::Embed { texts, .. } => before.calls.push(texts),
            _ => before.calls,
        },
        replies: match step.1 {
            ActionView::Deliver(deliveries) => before.replies + deliveries,
            _ => before.replies,
        },
    }
}

/// What a run comes to. The engine starts idle, with nothing asked for, and
/// takes the events of `trace` one after the other, each with the time at
/// which it came. `None` if some event came that the engine did not wait
/// for.
pub open spec fn progress<R, V>(engine: BatchEngine, trace: Seq<(EventView<R, V>, int)>) -> Option<
    Progress<R, V>,
>
    decreases trace.len(),
{
    if trace.len() == 0 {
        Some(
            Progress {
                state: StateView::Idle,
                batches: Seq::empty(),
                calls: Seq::empty(),
                replies: Seq::empty(),
            },
        )
    } else {
        match progress(engine, trace.drop_last()) {
            Some(before) => match engine.next(before.state, trace.last().0, trace.last().1) {
                Some(step) => Some(advance(before, step)),
                None => None,
            },
            None => None,
        }
    }
}

/// The requests that arrived in a run, in the order of their arrival.
pub open spec fn arrivals<R, V>(trace: Seq<(EventView<R, V>, int)>) -> Seq<ItemView<R>>
    decreases trace.len(),
{
    if trace.len() == 0 {
        Seq::empty()
    } else {
        match trace.last().0 {
            EventView::Arrived(item) => arrivals(trace.drop_last()).push(item),
            _ => arrivals(trace.drop_last()),
        }
    }
}

/// The requests of the batch that is open, if one is.
pub open spec fn waiting<R>(state: StateView<R>) -> Seq<ItemView<R>> {
    match state {
        StateView::Collecting { batch, .. } => batch,
        _ => Seq::empty(),
    }
}

/// The requests of the batch that is with the embedder, if one is.
pub open spec fn in_flight<R>(state: StateView<R>) -> Seq<ItemView<R>> {
    match state {
        StateView::Embedding { batch, .. } => batch,
        _ => Seq::empty(),
    }
}

/// The handles of a list of requests, in order.
pub open spec fn handles<R>(requests: Seq<ItemView<R>>) -> Seq<R> {
    Seq::new(requests.len(), |i: int| requests[i].tx)
}

/// The handles of a list of replies, in order.
pub open spec fn reply_handles<R, V>(replies: Seq<DeliveryView<R, V>>) -> Seq<R> {
    Seq::new(replies.len(), |i: int| replies[i].tx)
}

/// The invariant of the engine holds after every run.
pub proof fn law_inv_reached<R, V>(engine: BatchEngine, trace: Seq<(EventView<R, V>, int)>)
    requires
        progress(engine, trace) is Some,
    ensures
        engine.inv(progress(engine, trace)->Some_0.state),
    decreases trace.len(),
{
    if trace.len() > 0 {
        law_inv_reached(engine, trace.drop_last());
        let before = progress(engine, trace.drop_last())->Some_0;
        law_next_defined(engine, before.state, trace.last().0, trace.last().1);
        law_inv_kept(engine, before.state, trace.last().0, trace.last().1);
    }
}

/// No call of the embedder holds more requests than the engine allows. In
/// every run, every batch that goes to the embedder has at least one request
/// and at most `max_batch_size`.
///
/// This asks for an engine that allows at least one request in a batch. One
/// that allows none still sends each request alone.
pub proof fn law_batch_size_bound<R, V>(
    engine: BatchEngine,
    trace: Seq<(EventView<R, V>, int)>,
    k: int,
)
    requires
        engine.max_batch_size >= 1,
        progress(engine, trace) is Some,
        0 <= k < progress(engine, trace)->Some_0.batches.len(),
    ensures
        1 <= progress(engine, trace)->Some_0.batches[k].len() <= engine.max_batch_size,
    decreases trace.len(),
{
    if trace.len() > 0 {
        let before = progress(engine, trace.drop_last())->Some_0;
        if k < before.batches.len() {
            law_batch_size_bound(engine, trace.drop_last(), k);
        } else {
            law_inv_reached(engine, trace.drop_last());
            law_inv_reached(engine, trace);
        }
    }
}

/// There is one call of the embedder for each batch.
proof fn lemma_one_call_per_batch<R, V>(engine: BatchEngine, trace: Seq<(EventView<R, V>, int)>)
    requires
        progress(engine, trace) is Some,
    ensures
        progress(engine, trace)->Some_0.calls.len() == progress(engine, trace)->Some_0.batches.len(),
    decreases trace.len(),
{
    if trace.len() > 0 {
        lemma_one_call_per_batch(engine, trace.drop_last());
    }
}

/// Each call of the embedder gets the texts of its batch: one call for each
/// batch, in order, with the texts of the batch's requests one request after
/// the other.
pub proof fn law_calls_are_batches<R, V>(
    engine: BatchEngine,
    trace: Seq<(EventView<R, V>, int)>,
    k: int,
)
    requires
        progress(engine, trace) is Some,
        0 <= k < progress(engine, trace)->Some_0.batches.len(),
    ensures
        progress(engine, trace)->Some_0.calls.len() == progress(engine, trace)->Some_0.batches.len(),
        progress(engine, trace)->Some_0.calls[k] == flat_inputs(
            progress(engine, trace)->Some_0.batches[k],
        ),
    decreases trace.len(),
{
    lemma_one_call_per_batch(engine, trace);
    if trace.len() > 0 {
        let before = progress(engine, trace.drop_last())->Some_0;
        lemma_one_call_per_batch(engine, trace.drop_last());
        if k < before.batches.len() {
            law_calls_are_batches(engine, trace.drop_last(), k);
        }
    }
}

/// No request is lost on its way to the embedder, and none goes twice. In
/// every run, the requests that arrived are those of the batches that went
/// to the embedder, followed by those of the batch that is still open, all
/// in the order of their arrival.
pub proof fn law_requests_conserved<R, V>(engine: BatchEngine, trace: Seq<(EventView<R, V>, int)>)
    requires
        progress(engine, trace) is Some,
    ensures
        arrivals(trace) == progress(engine, trace)->Some_0.batches.flatten() + waiting(
            progress(engine, trace)->Some_0.state,
        ),
    decreases trace.len(),
{
    let now = progress(engine, trace)->Some_0;
    if trace.len() == 0 {
        assert(now.batches.flatten() =~= Seq::empty());
        assert(arrivals(trace) =~= now.batches.flatten() + waiting(now.state));
    } else {
        law_requests_conserved(engine, trace.drop_last());
        let before = progress(engine, trace.drop_last())->Some_0;
        if now.batches != before.batches {
            let batch = now.batches.last();
            assert(now.batches == before.batches.push(batch));
            before.batches.lemma_flatten_push(batch);
        }
        assert(arrivals(trace) =~= now.batches.flatten() + waiting(now.state));
    }
}

/// Every request that went to the embedder is replied to exactly once, on
/// its own handle, and the replies keep the order of the requests. In every
/// run, the handles of the replies handed out, followed by those of the
/// batch that is still with the embedder, are the handles of the requests
/// that went to the embedder.
pub proof fn law_replies_conserved<R, V>(engine: BatchEngine, trace: Seq<(EventView<R, V>, int)>)
    requires
        progress(engine, trace) is Some,
    ensures
        reply_handles(progress(engine, trace)->Some_0.replies) + handles(
            in_flight(progress(engine, trace)->Some_0.state),
        ) == handles(progress(engine, trace)->Some_0.batches.flatten()),
    decreases trace.len(),
{
    let now = progress(engine, trace)->Some_0;
    if trace.len() == 0 {
        assert(now.batches.flatten() =~= Seq::empty());
        assert(reply_handles(now.replies) + handles(in_flight(now.state)) =~= handles(
            now.batches.flatten(),
        ));
    } else {
        law_replies_conserved(engine, trace.drop_last());
        let before = progress(engine, trace.drop_last())->Some_0;
        if now.batches != before.batches {
            let batch = now.batches.last();
            assert(now.batches == before.batches.push(batch));
            before.batches.lemma_flatten_push(batch);
            assert(handles(before.batches.flatten() + batch) =~= handles(before.batches.flatten())
                + handles(batch));
        }
        if now.replies != before.replies {
            let batch = in_flight(before.state);
            let sent = now.replies.subrange(before.replies.len() as int, now.replies.len() as int);
            assert(now.replies =~= before.replies + sent);
            assert(reply_handles(sent) =~= handles(batch));
            assert(reply_handles(before.replies + sent) =~= reply_handles(before.replies)
                + reply_handles(sent));
        }
        assert(reply_handles(now.replies) + handles(in_flight(now.state)) =~= handles(
            now.batches.flatten(),
        ));
    }
}

/// When the engine is between batches, every request that arrived has been
/// replied to: once, on its own handle, and in the order of arrival.
pub proof fn law_every_request_replied<R, V>(
    engine: BatchEngine,
    trace: Seq<(EventView<R, V>, int)>,
)
    requires
        progress(engine, trace) is Some,
        ({
            let state = progress(engine, trace)->Some_0.state;
            state is Idle || state is Delivering || state is Stopped
        }),
    ensures
        reply_handles(progress(engine, trace)->Some_0.replies) == handles(arrivals(trace)),
{
    law_requests_conserved(engine, trace);
    law_replies_conserved(engine, trace);
    let now = progress(engine, trace)->Some_0;
    assert(arrivals(trace) =~= now.batches.flatten());
    assert(reply_handles(now.replies) =~= handles(now.batches.flatten()));
}

} // verus!

//! What holds of every step of the engine and of every sharing out of an
//! answer: theorems about the model that the executable code is proved to
//! follow. What holds of whole runs is in [`crate::runs`].

use vstd::prelude::*;

use crate::batch_engine::BatchEngine;
use crate::model::{
    awaits, counts, fan_out, flat_inputs, lemma_flat_len, lemma_flat_slice, lemma_offset_bounds,
    lemma_offset_next, offset, total, ActionView, DeliveryView, ErrorView, EventView, ItemView,
    StateView,
};

verus! {

/// The transition is defined exactly where the state waits for the event.
pub proof fn law_next_defined<R, V>(
    engine: BatchEngine,
    state: StateView<R>,
    event: EventView<R, V>,
    now: int,
)
    ensures
        engine.next(state, event, now) is Some <==> awaits(state, event),
{
}

/// Replies keep the order of the texts. If the embedder answers with one
/// vector per text, in the order of the texts, then every request is told as
/// many vectors as it has texts, and its vector `j` is the one that belongs
/// to its text `j`, whatever "belongs to" means for the embedder.
pub proof fn law_order_preserved<R, V>(
    batch: Seq<ItemView<R>>,
    vectors: Seq<V>,
    belongs: spec_fn(Seq<char>, V) -> bool,
    i: int,
)
    requires
        0 <= i < batch.len(),
        vectors.len() == flat_inputs(batch).len(),
        forall|k: int| 0 <= k < vectors.len() ==> belongs(flat_inputs(batch)[k], #[trigger] vectors[k]),
    ensures
        fan_out(batch, Ok::<_, Seq<char>>(vectors))[i].tx == batch[i].tx,
        fan_out(batch, Ok::<_, Seq<char>>(vectors))[i].reply is Ok,
        ({
            let outputs = fan_out(batch, Ok::<_, Seq<char>>(vectors))[i].reply->Ok_0;
            &&& outputs.len() == counts(batch)[i]
            &&& outputs.len() == batch[i].input.len()
            &&& forall|j: int|
                0 <= j < outputs.len() ==> belongs(#[trigger] batch[i].input[j], outputs[j])
        }),
{
    lemma_flat_len(batch);
    lemma_flat_slice(batch, i);
    lemma_offset_next(batch, i);
    let outputs = fan_out(batch, Ok::<_, Seq<char>>(vectors))[i].reply->Ok_0;
    let slice = flat_inputs(batch).subrange(offset(batch, i) as int, offset(batch, i + 1) as int);
    assert forall|j: int| 0 <= j < outputs.len() implies belongs(
        #[trigger] batch[i].input[j],
        outputs[j],
    ) by {
        assert(slice[j] == flat_inputs(batch)[offset(batch, i) + j]);
        assert(outputs[j] == vectors[offset(batch, i) + j]);
    }
}

/// The invariant holds at the start and is kept by every transition.
pub proof fn law_inv_kept<R, V>(
    engine: BatchEngine,
    state: StateView<R>,
    event: EventView<R, V>,
    now: int,
)
    requires
        engine.inv(state),
        awaits(state, event),
    ensures
        engine.inv(StateView::<R>::Idle),
        engine.inv(engine.next(state, event, now)->Some_0.0),
{
}

/// A first request sets the deadline of its batch: the time of its arrival
/// plus `max_wait_time`. Either the batch goes to the embedder at once, or
/// the engine waits for more, and then no longer than until that deadline.
pub proof fn law_deadline_set<R, V>(engine: BatchEngine, first: ItemView<R>, now: int)
    ensures
        ({
            let step = engine.next(StateView::Idle, EventView::<R, V>::Arrived(first), now)->Some_0;
            let deadline = now + engine.max_wait_time;
            ||| step.1 is Embed && step.0->Embedding_batch == seq![first]
            ||| step == (
                StateView::Collecting { batch: seq![first], deadline },
                ActionView::<R, V>::AwaitNext { deadline },
            )
        }),
{
}

/// An open batch is never held beyond its deadline, and its deadline never
/// moves. Whatever wakes the engine while a batch is open, the batch either
/// goes to the embedder, whole and in order, or stays open with the same
/// deadline; and it stays open only if a request arrived before the
/// deadline. So a batch that no further request joins goes to the embedder
/// when its deadline passes.
pub proof fn law_deadline_kept<R, V>(
    engine: BatchEngine,
    batch: Seq<ItemView<R>>,
    deadline: int,
    event: EventView<R, V>,
    now: int,
)
    requires
        awaits(StateView::Collecting { batch, deadline }, event),
    ensures
        ({
            let step = engine.next(StateView::Collecting { batch, deadline }, event, now)->Some_0;
            if event is Arrived && now < deadline && batch.len() + 1 < engine.max_batch_size {
                step == (
                    StateView::Collecting { batch: batch.push(event->Arrived_0), deadline },
                    ActionView::<R, V>::AwaitNext { deadline },
                )
            } else {
                &&& step.1 is Embed
                &&& step.0 is Embedding
                &&& step.0->Embedding_batch == if event is Arrived {
                    batch.push(event->Arrived_0)
                } else {
                    batch
                }
            }
        }),
{
}

/// The embedder gets exactly the texts of the batch: as many as the counts
/// add up to, request after request in the order of arrival, and within a
/// request in the client's order. The hint is their number.
pub proof fn law_embed_texts<R, V>(
    engine: BatchEngine,
    state: StateView<R>,
    event: EventView<R, V>,
    now: int,
    i: int,
)
    requires
        awaits(state, event),
        engine.next(state, event, now)->Some_0.1 is Embed,
        0 <= i < engine.next(state, event, now)->Some_0.0->Embedding_batch.len(),
    ensures
        ({
            let step = engine.next(state, event, now)->Some_0;
            let batch = step.0->Embedding_batch;
            let texts = step.1->texts;
            &&& step.0 is Embedding
            &&& texts == flat_inputs(batch)
            &&& texts.len() == total(batch)
            &&& step.1->hint == total(batch)
            &&& offset(batch, i + 1) == offset(batch, i) + counts(batch)[i]
            &&& offset(batch, i + 1) <= texts.len()
            &&& texts.subrange(offset(batch, i) as int, offset(batch, i + 1) as int)
                == batch[i].input
        }),
{
    let batch = engine.next(state, event, now)->Some_0.0->Embedding_batch;
    lemma_flat_len(batch);
    lemma_flat_slice(batch, i);
    lemma_offset_next(batch, i);
}

/// Requests join a batch in the order of their arrival: each goes to the
/// end of the open batch.
pub proof fn law_arrival_order<R, V>(
    engine: BatchEngine,
    batch: Seq<ItemView<R>>,
    deadline: int,
    item: ItemView<R>,
    now: int,
)
    ensures
        ({
            let step = engine.next(
                StateView::Collecting { batch, deadline },
                EventView::<R, V>::Arrived(item),
                now,
            )->Some_0;
            let joined = match step.0 {
                StateView::Collecting { batch, .. } => batch,
                StateView::Embedding { batch, .. } => batch,
                _ => Seq::empty(),
            };
            joined == batch.push(item)
        }),
{
}

/// On an answer of the right length every request gets its own slice: as
/// many vectors as it has texts, cut from the answer where the slice of the
/// request before it ends. The slices leave nothing out: the first begins
/// at the start of the answer and the last ends at its end.
pub proof fn law_fan_out_slices<R, V>(batch: Seq<ItemView<R>>, vectors: Seq<V>, i: int)
    requires
        vectors.len() == total(batch),
        0 <= i < batch.len(),
    ensures
        fan_out(batch, Ok::<_, Seq<char>>(vectors)).len() == batch.len(),
        fan_out(batch, Ok::<_, Seq<char>>(vectors))[i] == (DeliveryView {
            tx: batch[i].tx,
            reply: Ok(vectors.subrange(offset(batch, i) as int, offset(batch, i + 1) as int)),
        }),
        offset(batch, 0) == 0,
        offset(batch, i + 1) == offset(batch, i) + counts(batch)[i],
        offset(batch, batch.len() as int) == vectors.len(),
        fan_out(batch, Ok::<_, Seq<char>>(vectors))[i].reply->Ok_0.len() == counts(batch)[i],
{
    lemma_offset_next(batch, i);
    lemma_offset_bounds(batch, i + 1);
}

/// A failed batch fails for all. If the embedder fails, or answers with
/// another number of vectors than the batch has texts, every request of the
/// batch is told the same error and none is told a vector.
pub proof fn law_uniform_failure<R, V>(
    batch: Seq<ItemView<R>>,
    outcome: Result<Seq<V>, Seq<char>>,
    i: int,
)
    requires
        0 <= i < batch.len(),
        outcome is Err || outcome->Ok_0.len() != total(batch),
    ensures
        fan_out(batch, outcome)[i].tx == batch[i].tx,
        fan_out(batch, outcome)[i].reply == Err::<Seq<V>, _>(
            match outcome {
                Ok(vectors) => ErrorView::MismatchedUpstreamCount {
                    got: vectors.len(),
                    expected: total(batch),
                },
                Err(detail) => ErrorView::UpstreamError { detail },
            },
        ),
{
}

/// What a request is told does not depend on any handle, its own or
/// another's. Two batches of the same texts get the same replies, each on
/// the handle of its own request: a client that is gone changes nothing for
/// the others.
pub proof fn law_handles_do_not_matter<R, V>(
    batch: Seq<ItemView<R>>,
    other: Seq<ItemView<R>>,
    outcome: Result<Seq<V>, Seq<char>>,
    i: int,
)
    requires
        batch.len() == other.len(),
        forall|k: int| 0 <= k < batch.len() ==> (#[trigger] batch[k]).input == other[k].input,
        0 <= i < batch.len(),
    ensures
        fan_out(batch, outcome)[i].reply == fan_out(other, outcome)[i].reply,
        fan_out(batch, outcome)[i].tx == batch[i].tx,
        fan_out(other, outcome)[i].tx == other[i].tx,
{
    lemma_same_inputs_same_total(batch, other, batch.len() as int);
    lemma_same_inputs_same_total(batch, other, i);
    lemma_same_inputs_same_total(batch, other, i + 1);
    assert(batch.take(batch.len() as int) =~= batch);
    assert(other.take(other.len() as int) =~= other);
}

/// Batches of the same texts have the same offsets.
proof fn lemma_same_inputs_same_total<R>(batch: Seq<ItemView<R>>, other: Seq<ItemView<R>>, n: int)
    requires
        batch.len() == other.len(),
        forall|k: int| 0 <= k < batch.len() ==> (#[trigger] batch[k]).input == other[k].input,
        0 <= n <= batch.len(),
    ensures
        offset(batch, n) == offset(other, n),
    decreases n,
{
    if n > 0 {
        lemma_same_inputs_same_total(batch, other, n - 1);
        lemma_offset_next(batch, n - 1);
        lemma_offset_next(other, n - 1);
        assert(batch[n - 1].input == other[n - 1].input);
    } else {
        assert(batch.take(0).len() == 0);
        assert(other.take(0).len() == 0);
    }
}

/// Once the replies are on their way the engine goes on, whether or not
/// they reached their clients: to the next batch, or to its end if the
/// intake was found closed.
pub proof fn law_delivery_goes_on<R, V>(engine: BatchEngine, closed: bool, now: int)
    ensures
        engine.next(StateView::<R>::Delivering { closed }, EventView::<R, V>::Delivered, now)
            == Some(
            if closed {
                (StateView::<R>::Stopped, ActionView::<R, V>::Exit)
            } else {
                (StateView::<R>::Idle, ActionView::<R, V>::AwaitFirst)
            },
        ),
{
}

/// When the intake closes the engine ends, after the batch that is open.
/// With no batch open it ends at once. With a batch open, the batch goes to
/// the embedder as it is; whatever the embedder answers, every request of
/// the batch gets its reply; and when the replies are sent the engine ends,
/// to wait for nothing more.
pub proof fn law_shutdown<R, V>(
    engine: BatchEngine,
    batch: Seq<ItemView<R>>,
    deadline: int,
    answer: EventView<R, V>,
    now: int,
    later: int,
    last: int,
)
    requires
        answer is Embedded || answer is Failed,
    ensures
        engine.next(StateView::<R>::Idle, EventView::<R, V>::Closed, now) == Some(
            (StateView::<R>::Stopped, ActionView::<R, V>::Exit),
        ),
        ({
            let open = StateView::Collecting { batch, deadline };
            let sent = engine.next(open, EventView::<R, V>::Closed, now)->Some_0;
            let answered = engine.next(sent.0, answer, later)->Some_0;
            let done = engine.next(answered.0, EventView::<R, V>::Delivered, last)->Some_0;
            &&& sent.0 == StateView::Embedding { batch, closed: true }
            &&& sent.1 == ActionView::<R, V>::Embed {
                texts: flat_inputs(batch),
                hint: total(batch),
            }
            &&& answered.1 is Deliver
            &&& answered.1->Deliver_0.len() == batch.len()
            &&& forall|i: int|
                0 <= i < batch.len() ==> (#[trigger] answered.1->Deliver_0[i]).tx == batch[i].tx
            &&& done == (StateView::<R>::Stopped, ActionView::<R, V>::Exit)
        }),
        forall|event: EventView<R, V>| !awaits(StateView::<R>::Stopped, event),
{
}

} // verus!

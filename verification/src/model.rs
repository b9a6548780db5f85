//! The mathematical model of the engine: what a batch is, how its texts are
//! laid out for the embedder, how the embedder's answer is shared out among
//! the requests, and how the engine moves from one suspension point to the
//! next.
//!
//! Everything here is ghost code. The executable types of the crate have
//! views into these types, and the executable functions are proved to compute
//! what these functions say.

use vstd::prelude::*;

use crate::batch_engine::BatchEngine;

verus! {

/// A queued request: its texts, in the order the client gave them, and the
/// handle on which its reply is owed.
pub struct ItemView<R> {
    pub input: Seq<Seq<char>>,
    pub tx: R,
}

/// Why a batch failed.
pub enum ErrorView {
    /// The embedder answered with `got` vectors where `expected` texts were
    /// sent.
    MismatchedUpstreamCount { got: nat, expected: nat },
    /// The embedder failed; `detail` is its account of the failure.
    UpstreamError { detail: Seq<char> },
}

/// One reply on its way to a client.
pub struct DeliveryView<R, V> {
    pub tx: R,
    pub reply: Result<Seq<V>, ErrorView>,
}

/// The number of texts in each request of a batch.
pub open spec fn counts<R>(batch: Seq<ItemView<R>>) -> Seq<nat> {
    Seq::new(batch.len(), |i: int| batch[i].input.len())
}

/// The number of texts in a batch: the sum of its counts.
pub open spec fn total<R>(batch: Seq<ItemView<R>>) -> nat
    decreases batch.len(),
{
    if batch.len() == 0 {
        0
    } else {
        total(batch.drop_last()) + batch.last().input.len()
    }
}

/// Where the texts of request `i` begin among the texts of the batch: the
/// number of texts in the requests before it.
pub open spec fn offset<R>(batch: Seq<ItemView<R>>, i: int) -> nat
    recommends
        0 <= i <= batch.len(),
{
    total(batch.take(i))
}

/// The texts of a batch as the embedder gets them: those of the first
/// request, then those of the second, and so on, each request's texts in
/// their own order.
pub open spec fn flat_inputs<R>(batch: Seq<ItemView<R>>) -> Seq<Seq<char>> {
    Seq::new(batch.len(), |i: int| batch[i].input).flatten()
}

/// What request `i` of a batch is told, given what the embedder answered.
///
/// An answer of the right length is cut into consecutive slices, one per
/// request and as long as the request has texts. An answer of any other
/// length, or a failure, is an error, the same for every request.
pub open spec fn reply_for<R, V>(
    batch: Seq<ItemView<R>>,
    i: int,
    outcome: Result<Seq<V>, Seq<char>>,
) -> Result<Seq<V>, ErrorView>
    recommends
        0 <= i < batch.len(),
{
    match outcome {
        Ok(vectors) => if vectors.len() == total(batch) {
            Ok(vectors.subrange(offset(batch, i) as int, offset(batch, i + 1) as int))
        } else {
            Err(ErrorView::MismatchedUpstreamCount { got: vectors.len(), expected: total(batch) })
        },
        Err(detail) => Err(ErrorView::UpstreamError { detail }),
    }
}

/// The replies of a batch: one for each request, in the order of the
/// requests, each on the request's own handle.
pub open spec fn fan_out<R, V>(
    batch: Seq<ItemView<R>>,
    outcome: Result<Seq<V>, Seq<char>>,
) -> Seq<DeliveryView<R, V>> {
    Seq::new(
        batch.len(),
        |i: int| DeliveryView { tx: batch[i].tx, reply: reply_for(batch, i, outcome) },
    )
}

/// Where the engine is suspended.
pub enum StateView<R> {
    /// No batch is open; the engine waits for a first request.
    Idle,
    /// A batch is open and may still grow until `deadline`.
    Collecting { batch: Seq<ItemView<R>>, deadline: int },
    /// The batch is with the embedder. `closed` records that the intake was
    /// found closed while the batch was open.
    Embedding { batch: Seq<ItemView<R>>, closed: bool },
    /// The replies of the batch are being sent.
    Delivering { closed: bool },
    /// The intake is closed and drained; the engine has ended.
    Stopped,
}

/// What woke the engine.
pub enum EventView<R, V> {
    /// A request came out of the intake.
    Arrived(ItemView<R>),
    /// The deadline of the open batch passed with no request arriving.
    TimedOut,
    /// The intake is closed and empty.
    Closed,
    /// The embedder answered.
    Embedded(Seq<V>),
    /// The embedder failed.
    Failed(Seq<char>),
    /// Every reply of the batch was sent, or found its client gone.
    Delivered,
}

/// What the engine asks of its driver before it can go on.
pub enum ActionView<R, V> {
    /// Wait for a request, however long it takes.
    AwaitFirst,
    /// Wait for a request, but no longer than until `deadline`.
    AwaitNext { deadline: int },
    /// Have `texts` embedded in one call, with `hint` as the chunk size.
    Embed { texts: Seq<Seq<char>>, hint: nat },
    /// Send each reply on its handle; a handle whose client is gone is
    /// passed over.
    Deliver(Seq<DeliveryView<R, V>>),
    /// Nothing more: the engine has ended.
    Exit,
}

/// Whether the engine, suspended in `state`, waits for `event`.
///
/// With no batch open it waits for a request or the end of the intake; with
/// a batch open, for a request, the deadline or the end of the intake; with
/// a batch at the embedder, for its answer or its failure; with replies on
/// their way, for their being sent. Once stopped it waits for nothing.
pub open spec fn awaits<R, V>(state: StateView<R>, event: EventView<R, V>) -> bool {
    match state {
        StateView::Idle => event is Arrived || event is Closed,
        StateView::Collecting { .. } => event is Arrived || event is TimedOut || event is Closed,
        StateView::Embedding { .. } => event is Embedded || event is Failed,
        StateView::Delivering { .. } => event is Delivered,
        StateView::Stopped => false,
    }
}

/// Closes a batch: it goes to the embedder as it is.
pub open spec fn dispatch<R, V>(batch: Seq<ItemView<R>>, closed: bool) -> (
    StateView<R>,
    ActionView<R, V>,
) {
    (
        StateView::Embedding { batch, closed },
        ActionView::Embed { texts: flat_inputs(batch), hint: total(batch) },
    )
}

impl BatchEngine {
    /// Decides, with a request just added to the open batch, whether the
    /// batch stays open: it does while it has room and its deadline lies
    /// ahead.
    pub open spec fn hold_or_dispatch<R, V>(self, batch: Seq<ItemView<R>>, deadline: int, now: int) -> (
        StateView<R>,
        ActionView<R, V>,
    ) {
        if batch.len() < self.max_batch_size && now < deadline {
            (StateView::Collecting { batch, deadline }, ActionView::AwaitNext { deadline })
        } else {
            dispatch(batch, false)
        }
    }

    /// The engine's transition: from the state it was suspended in and the
    /// event that woke it at time `now`, the state it suspends in next and
    /// what it asks for. `None` where the state does not wait for the event.
    pub open spec fn next<R, V>(self, state: StateView<R>, event: EventView<R, V>, now: int)
        -> Option<(StateView<R>, ActionView<R, V>)> {
        match (state, event) {
            (StateView::Idle, EventView::Arrived(first)) => Some(
                self.hold_or_dispatch(seq![first], now + self.max_wait_time, now),
            ),
            (StateView::Idle, EventView::Closed) => Some((StateView::Stopped, ActionView::Exit)),
            (StateView::Collecting { batch, deadline }, EventView::Arrived(item)) => Some(
                self.hold_or_dispatch(batch.push(item), deadline, now),
            ),
            (StateView::Collecting { batch, .. }, EventView::TimedOut) => Some(
                dispatch(batch, false),
            ),
            (StateView::Collecting { batch, .. }, EventView::Closed) => Some(
                dispatch(batch, true),
            ),
            (StateView::Embedding { batch, closed }, EventView::Embedded(vectors)) => Some(
                (
                    StateView::Delivering { closed },
                    ActionView::Deliver(fan_out(batch, Ok(vectors))),
                ),
            ),
            (StateView::Embedding { batch, closed }, EventView::Failed(detail)) => Some(
                (
                    StateView::Delivering { closed },
                    ActionView::Deliver(fan_out(batch, Err(detail))),
                ),
            ),
            (StateView::Delivering { closed }, EventView::Delivered) => Some(
                if closed {
                    (StateView::Stopped, ActionView::Exit)
                } else {
                    (StateView::Idle, ActionView::AwaitFirst)
                },
            ),
            _ => None,
        }
    }

    /// What holds of every state the engine reaches: an open batch has at
    /// least one request and room for another, and a batch with the embedder
    /// has at least one request and no more than the engine allows (one, if
    /// it allows none).
    pub open spec fn inv<R>(self, state: StateView<R>) -> bool {
        match state {
            StateView::Collecting { batch, .. } => 0 < batch.len() < self.max_batch_size,
            StateView::Embedding { batch, .. } => 0 < batch.len() && (batch.len() == 1
                || batch.len() <= self.max_batch_size),
            _ => true,
        }
    }
}

/// Each request begins where the one before it ends.
pub proof fn lemma_offset_next<R>(batch: Seq<ItemView<R>>, i: int)
    requires
        0 <= i < batch.len(),
    ensures
        offset(batch, i + 1) == offset(batch, i) + batch[i].input.len(),
        offset(batch, 0) == 0,
{
    assert(batch.take(i + 1).drop_last() =~= batch.take(i));
    assert(batch.take(0).len() == 0);
}

/// No request begins beyond the end of the batch, and the last one ends
/// there.
pub proof fn lemma_offset_bounds<R>(batch: Seq<ItemView<R>>, i: int)
    requires
        0 <= i <= batch.len(),
    ensures
        offset(batch, i) <= total(batch),
        offset(batch, batch.len() as int) == total(batch),
    decreases batch.len(),
{
    assert(batch.take(batch.len() as int) =~= batch);
    if i < batch.len() {
        lemma_offset_bounds(batch.drop_last(), i);
        assert(batch.drop_last().take(i) =~= batch.take(i));
    }
}

/// Adding a request to a batch appends its texts to the flattened texts.
pub proof fn lemma_flat_push<R>(batch: Seq<ItemView<R>>, item: ItemView<R>)
    ensures
        flat_inputs(batch.push(item)) == flat_inputs(batch) + item.input,
{
    let parts = Seq::new(batch.len(), |i: int| batch[i].input);
    let more = Seq::new(batch.push(item).len(), |i: int| batch.push(item)[i].input);
    assert(more =~= parts.push(item.input));
    parts.lemma_flatten_push(item.input);
}

/// The flattened texts of a batch are as many as its total.
pub proof fn lemma_flat_len<R>(batch: Seq<ItemView<R>>)
    ensures
        flat_inputs(batch).len() == total(batch),
    decreases batch.len(),
{
    if batch.len() == 0 {
        assert(Seq::new(batch.len(), |i: int| batch[i].input) =~= Seq::<Seq<Seq<char>>>::empty());
    } else {
        lemma_flat_len(batch.drop_last());
        lemma_flat_push(batch.drop_last(), batch.last());
        assert(batch.drop_last().push(batch.last()) =~= batch);
    }
}

/// The texts of request `i` stand in the flattened texts from its offset on,
/// in their own order.
pub proof fn lemma_flat_slice<R>(batch: Seq<ItemView<R>>, i: int)
    requires
        0 <= i < batch.len(),
    ensures
        offset(batch, i + 1) <= flat_inputs(batch).len(),
        flat_inputs(batch).subrange(offset(batch, i) as int, offset(batch, i + 1) as int)
            == batch[i].input,
    decreases batch.len(),
{
    let front = batch.drop_last();
    lemma_flat_push(front, batch.last());
    assert(front.push(batch.last()) =~= batch);
    lemma_flat_len(front);
    lemma_flat_len(batch);
    lemma_offset_next(batch, i);
    lemma_offset_bounds(batch, i + 1);
    if i == batch.len() - 1 {
        assert(batch.take(i) =~= front);
        assert(flat_inputs(batch).subrange(offset(batch, i) as int, offset(batch, i + 1) as int)
            =~= batch[i].input);
    } else {
        lemma_flat_slice(front, i);
        assert(front.take(i) =~= batch.take(i));
        assert(front.take(i + 1) =~= batch.take(i + 1));
        assert(flat_inputs(batch).subrange(offset(batch, i) as int, offset(batch, i + 1) as int)
            =~= flat_inputs(front).subrange(offset(front, i) as int, offset(front, i + 1) as int));
    }
}

} // verus!

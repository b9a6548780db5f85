//! A closed batch: the requests that went to the embedder together, and the
//! sharing out of its answer among them.

use vstd::prelude::*;

use crate::batch_engine::BatchItem;
use crate::model::{
    fan_out, flat_inputs, lemma_flat_len, lemma_flat_push, lemma_offset_bounds,
    lemma_offset_next, offset, total, DeliveryView, ErrorView, ItemView,
};

verus! {

/// Why a batch failed. Every request of the batch is told the same.
#[derive(Debug, PartialEq, Eq)]
pub enum EngineError {
    /// The embedder answered with `got` vectors where `expected` texts were
    /// sent.
    MismatchedUpstreamCount { got: usize, expected: usize },
    /// The embedder failed; `detail` is its account of the failure.
    UpstreamError { detail: String },
}

impl DeepView for EngineError {
    type V = ErrorView;

    open spec fn deep_view(&self) -> ErrorView {
        match *self {
            EngineError::MismatchedUpstreamCount { got, expected } => {
                ErrorView::MismatchedUpstreamCount { got: got as nat, expected: expected as nat }
            },
            EngineError::UpstreamError { detail } => ErrorView::UpstreamError { detail: detail@ },
        }
    }
}

impl Clone for EngineError {
    fn clone(&self) -> (copy: Self)
        ensures
            copy.deep_view() == self.deep_view(),
    {
        match self {
            EngineError::MismatchedUpstreamCount { got, expected } => {
                EngineError::MismatchedUpstreamCount { got: *got, expected: *expected }
            },
            EngineError::UpstreamError { detail } => EngineError::UpstreamError {
                detail: detail.clone(),
            },
        }
    }
}

/// One reply on its way to a client: the handle the client waits on, and
/// what it is told.
#[derive(Debug)]
pub struct Delivery<R, V> {
    pub tx: R,
    pub reply: Result<Vec<V>, EngineError>,
}

impl<R, V> DeepView for Delivery<R, V> {
    type V = DeliveryView<R, V>;

    open spec fn deep_view(&self) -> DeliveryView<R, V> {
        DeliveryView {
            tx: self.tx,
            reply: match self.reply {
                Ok(vectors) => Ok(vectors@),
                Err(error) => Err(error.deep_view()),
            },
        }
    }
}

/// What the embedder answered, as the model reads it.
pub open spec fn outcome_view<V>(outcome: Result<Vec<V>, String>) -> Result<Seq<V>, Seq<char>> {
    match outcome {
        Ok(vectors) => Ok(vectors@),
        Err(detail) => Err(detail@),
    }
}

/// The texts of a closed batch, flattened for the embedder.
pub fn flatten<R>(items: &Vec<BatchItem<R>>) -> (texts: Vec<String>)
    ensures
        texts.deep_view() == flat_inputs(items.deep_view()),
{
    let ghost batch = items.deep_view();
    let mut texts: Vec<String> = Vec::new();
    let mut i: usize = 0;
    proof {
        lemma_flat_len(batch.take(0));
        assert(texts.deep_view() =~= flat_inputs(batch.take(0)));
    }
    while i < items.len()
        invariant
            0 <= i <= items.len(),
            batch == items.deep_view(),
            texts.deep_view() == flat_inputs(batch.take(i as int)),
        decreases items.len() - i,
    {
        let input = &items[i].input;
        let ghost before = texts.deep_view();
        let mut j: usize = 0;
        while j < input.len()
            invariant
                0 <= j <= input.len(),
                texts.deep_view() == before + input.deep_view().take(j as int),
            decreases input.len() - j,
        {
            let ghost so_far = texts.deep_view();
            texts.push(input[j].clone());
            assert(texts.deep_view() =~= so_far.push(input[j as int]@));
            assert(input.deep_view().take(j + 1) =~= input.deep_view().take(j as int).push(
                input[j as int]@,
            ));
            j = j + 1;
        }
        proof {
            assert(input.deep_view().take(j as int) =~= input.deep_view());
            assert(batch[i as int].input == input.deep_view());
            lemma_flat_push(batch.take(i as int), batch[i as int]);
            assert(batch.take(i as int).push(batch[i as int]) =~= batch.take(i + 1));
        }
        i = i + 1;
    }
    assert(batch.take(i as int) =~= batch);
    texts
}

/// A closed batch: requests that are embedded in one call, in the order in
/// which they arrived.
///
/// A batch is closed once and never changed. It knows how many texts it
/// holds, which is how many vectors it expects.
#[derive(Debug)]
pub struct Batch<R> {
    items: Vec<BatchItem<R>>,
    total: usize,
}

impl<R> View for Batch<R> {
    type V = Seq<ItemView<R>>;

    closed spec fn view(&self) -> Seq<ItemView<R>> {
        self.items.deep_view()
    }
}

impl<R> Batch<R> {
    #[verifier::type_invariant]
    spec fn counted(self) -> bool {
        self.total == total(self.items.deep_view())
    }

    /// Closes a batch over `items` and flattens its texts for the embedder.
    pub fn close(items: Vec<BatchItem<R>>) -> (out: (Batch<R>, Vec<String>))
        ensures
            out.0@ == items.deep_view(),
            out.1.deep_view() == flat_inputs(items.deep_view()),
    {
        let texts = flatten(&items);
        proof {
            lemma_flat_len(items.deep_view());
        }
        let total = texts.len();
        (Batch { items, total }, texts)
    }

    /// The number of requests in the batch.
    pub fn len(&self) -> (n: usize)
        ensures
            n == self@.len(),
    {
        self.items.len()
    }

    /// The number of texts in the batch.
    pub fn total(&self) -> (n: usize)
        ensures
            n == total(self@),
    {
        proof {
            use_type_invariant(self);
        }
        self.total
    }

    /// Shares out what the embedder answered: one reply for each request, in
    /// the order of the requests.
    ///
    /// Where the embedder answered with as many vectors as the batch has
    /// texts, each request gets its own consecutive slice of them. Where it
    /// answered with another number, or failed, every request gets the same
    /// error and none gets a vector.
    pub fn route<V>(self, outcome: Result<Vec<V>, String>) -> (deliveries: Vec<Delivery<R, V>>)
        ensures
            deliveries.deep_view() == fan_out(self@, outcome_view(outcome)),
    {
        proof {
            use_type_invariant(&self);
        }
        let Batch { items, total } = self;
        let deliveries = match outcome {
            Ok(vectors) => {
                if vectors.len() == total {
                    slice_out(items, vectors)
                } else {
                    let got = vectors.len();
                    fail_all(items, EngineError::MismatchedUpstreamCount { got, expected: total })
                }
            },
            Err(detail) => fail_all(items, EngineError::UpstreamError { detail }),
        };
        assert(deliveries.deep_view() =~= fan_out(self@, outcome_view(outcome)));
        deliveries
    }
}

/// Gives every request of a batch the same error.
fn fail_all<R, V>(items: Vec<BatchItem<R>>, error: EngineError) -> (deliveries: Vec<Delivery<R, V>>)
    ensures
        deliveries.deep_view() == Seq::new(
            items.len() as nat,
            |i: int|
                DeliveryView {
                    tx: items[i].tx,
                    reply: Err::<Seq<V>, ErrorView>(error.deep_view()),
                },
        ),
{
    let mut deliveries: Vec<Delivery<R, V>> = Vec::new();
    for item in it: items
        invariant
            it.seq() == items@,
            deliveries.len() == it.index(),
            forall|k: int|
                0 <= k < deliveries.len() ==> (#[trigger] deliveries[k]).deep_view()
                    == (DeliveryView {
                    tx: items[k].tx,
                    reply: Err::<Seq<V>, ErrorView>(error.deep_view()),
                }),
    {
        deliveries.push(Delivery { tx: item.tx, reply: Err(error.clone()) });
    }
    assert(deliveries.deep_view() =~= Seq::new(
        items.len() as nat,
        |i: int|
            DeliveryView { tx: items[i].tx, reply: Err::<Seq<V>, ErrorView>(error.deep_view()) },
    ));
    deliveries
}

/// Cuts an answer of the right length into the requests' slices.
fn slice_out<R, V>(items: Vec<BatchItem<R>>, vectors: Vec<V>) -> (deliveries: Vec<Delivery<R, V>>)
    requires
        vectors.len() == total(items.deep_view()),
    ensures
        deliveries.deep_view() == fan_out(items.deep_view(), Ok::<_, Seq<char>>(vectors@)),
{
    let ghost batch = items.deep_view();
    let ghost answer = vectors@;
    let mut deliveries: Vec<Delivery<R, V>> = Vec::new();
    let mut rest = vectors;
    proof {
        lemma_offset_bounds(batch, 0);
        assert(batch.take(0).len() == 0);
        assert(rest@ =~= answer.subrange(0, answer.len() as int));
    }
    for item in it: items
        invariant
            it.seq() == items@,
            batch == items.deep_view(),
            answer.len() == total(batch),
            deliveries.len() == it.index(),
            rest@ == answer.subrange(offset(batch, it.index() as int) as int, answer.len() as int),
            forall|k: int|
                0 <= k < deliveries.len() ==> (#[trigger] deliveries[k]).deep_view() == fan_out(
                    batch,
                    Ok::<_, Seq<char>>(answer),
                )[k],
    {
        let ghost i = it.index() as int;
        proof {
            lemma_offset_next(batch, i);
            lemma_offset_bounds(batch, i + 1);
            assert(batch[i].input.len() == item.input.len());
        }
        let after = rest.split_off(item.input.len());
        proof {
            assert(rest@ =~= answer.subrange(offset(batch, i) as int, offset(batch, i + 1) as int));
            assert(after@ =~= answer.subrange(offset(batch, i + 1) as int, answer.len() as int));
        }
        deliveries.push(Delivery { tx: item.tx, reply: Ok(rest) });
        rest = after;
    }
    assert(deliveries.deep_view() =~= fan_out(batch, Ok::<_, Seq<char>>(answer)));
    deliveries
}

} // verus!

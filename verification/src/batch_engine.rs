//! The batching engine: its settings, the requests it queues, and the
//! transition it makes each time its driver wakes it.

use vstd::pervasive::unreached;
use vstd::prelude::*;

use crate::batch::{Batch, Delivery};
use crate::decimal::{parse_usize, parsed_usize};
use crate::model::{awaits, ActionView, EventView, ItemView, StateView};

verus! {

/// The setting that holds `BatchEngine::max_wait_time`.
pub const MAX_WAIT_TIME: &'static str = "MAX_WAIT_TIME";

/// The setting that holds `BatchEngine::max_batch_size`.
pub const MAX_BATCH_SIZE: &'static str = "MAX_BATCH_SIZE";

/// Why the engine's settings could not be read.
#[derive(Debug, Clone, Copy, PartialEq, Eq, Structural)]
pub enum ConfigError {
    /// `MAX_WAIT_TIME` is not set.
    MissingWaitTime,
    /// `MAX_WAIT_TIME` is not an unsigned decimal number that fits `usize`.
    InvalidWaitTime,
    /// `MAX_BATCH_SIZE` is not set.
    MissingBatchSize,
    /// `MAX_BATCH_SIZE` is not an unsigned decimal number that fits `usize`.
    InvalidBatchSize,
}

/// The engine's settings.
#[derive(Debug, Clone, Copy, PartialEq, Eq, Structural)]
pub struct BatchEngine {
    /// How long a batch may stay open after its first request arrived, in
    /// milliseconds.
    pub max_wait_time: usize,
    /// How many requests a batch may hold.
    pub max_batch_size: usize,
}

/// One queued request.
#[derive(Debug)]
pub struct BatchItem<R> {
    /// The texts to embed, in the client's order. There may be none.
    pub input: Vec<String>,
    /// The handle on which the reply is owed: exactly one, whatever becomes
    /// of the batch.
    pub tx: R,
}

impl<R> DeepView for BatchItem<R> {
    type V = ItemView<R>;

    open spec fn deep_view(&self) -> ItemView<R> {
        ItemView { input: self.input.deep_view(), tx: self.tx }
    }
}

/// Where the engine is suspended.
#[derive(Debug)]
pub enum State<R> {
    /// No batch is open; the engine waits for a first request.
    Idle,
    /// A batch is open and may still grow until `deadline`, a time in
    /// milliseconds on the driver's clock.
    Collecting { items: Vec<BatchItem<R>>, deadline: u64 },
    /// The batch is with the embedder. `closed` records that the intake was
    /// found closed while the batch was open.
    Embedding { batch: Batch<R>, closed: bool },
    /// The replies of the batch are being sent.
    Delivering { closed: bool },
    /// The intake is closed and drained; the engine has ended.
    Stopped,
}

impl<R> View for State<R> {
    type V = StateView<R>;

    open spec fn view(&self) -> StateView<R> {
        match *self {
            State::Idle => StateView::Idle,
            State::Collecting { items, deadline } => StateView::Collecting {
                batch: items.deep_view(),
                deadline: deadline as int,
            },
            State::Embedding { batch, closed } => StateView::Embedding { batch: batch@, closed },
            State::Delivering { closed } => StateView::Delivering { closed },
            State::Stopped => StateView::Stopped,
        }
    }
}

/// What woke the engine: the outcome of what it last asked for.
#[derive(Debug)]
pub enum Event<R, V> {
    /// A request came out of the intake.
    Arrived(BatchItem<R>),
    /// The deadline of the open batch passed with no request arriving.
    TimedOut,
    /// The intake is closed and empty.
    Closed,
    /// The embedder answered with these vectors.
    Embedded(Vec<V>),
    /// The embedder failed, with this account of the failure.
    Failed(String),
    /// Every reply of the batch was sent, or found its client gone.
    Delivered,
}

impl<R, V> View for Event<R, V> {
    type V = EventView<R, V>;

    open spec fn view(&self) -> EventView<R, V> {
        match *self {
            Event::Arrived(item) => EventView::Arrived(item.deep_view()),
            Event::TimedOut => EventView::TimedOut,
            Event::Closed => EventView::Closed,
            Event::Embedded(vectors) => EventView::Embedded(vectors@),
            Event::Failed(detail) => EventView::Failed(detail@),
            Event::Delivered => EventView::Delivered,
        }
    }
}

/// What the engine asks of its driver before it can go on.
#[derive(Debug)]
pub enum Action<R, V> {
    /// Wait for a request, however long it takes.
    AwaitFirst,
    /// Wait for a request, but no longer than until `deadline`.
    AwaitNext { deadline: u64 },
    /// Have `texts` embedded in one call, with `hint` as the chunk size.
    Embed { texts: Vec<String>, hint: usize },
    /// Send each reply on its handle. A handle whose client is gone is
    /// passed over: the others still get theirs.
    Deliver(Vec<Delivery<R, V>>),
    /// Nothing more: the engine has ended.
    Exit,
}

impl<R, V> View for Action<R, V> {
    type V = ActionView<R, V>;

    open spec fn view(&self) -> ActionView<R, V> {
        match *self {
            Action::AwaitFirst => ActionView::AwaitFirst,
            Action::AwaitNext { deadline } => ActionView::AwaitNext { deadline: deadline as int },
            Action::Embed { texts, hint } => ActionView::Embed {
                texts: texts.deep_view(),
                hint: hint as nat,
            },
            Action::Deliver(deliveries) => ActionView::Deliver(deliveries.deep_view()),
            Action::Exit => ActionView::Exit,
        }
    }
}

impl<R> State<R> {
    /// Whether the engine, suspended in this state, waits for `event`.
    pub fn awaits<V>(&self, event: &Event<R, V>) -> (yes: bool)
        ensures
            yes == awaits(self@, event@),
    {
        match self {
            State::Idle => match event {
                Event::Arrived(_) | Event::Closed => true,
                _ => false,
            },
            State::Collecting { .. } => match event {
                Event::Arrived(_) | Event::TimedOut | Event::Closed => true,
                _ => false,
            },
            State::Embedding { .. } => match event {
                Event::Embedded(_) | Event::Failed(_) => true,
                _ => false,
            },
            State::Delivering { .. } => match event {
                Event::Delivered => true,
                _ => false,
            },
            State::Stopped => false,
        }
    }
}

/// A setting as the model reads it: its characters, if it is set.
pub open spec fn setting_view(setting: Option<&str>) -> Option<Seq<char>> {
    match setting {
        Some(text) => Some(text@),
        None => None,
    }
}

impl BatchEngine {
    /// The engine that two settings describe, or what is wrong with them.
    ///
    /// Both must be set, and both must be unsigned decimal numbers that fit
    /// `usize`. The waiting time is looked at first: while it is missing or
    /// wrong, nothing is said of the batch size.
    pub open spec fn configured(
        max_wait_time: Option<Seq<char>>,
        max_batch_size: Option<Seq<char>>,
    ) -> Result<BatchEngine, ConfigError> {
        match max_wait_time {
            None => Err(ConfigError::MissingWaitTime),
            Some(wait) => match parsed_usize(wait) {
                None => Err(ConfigError::InvalidWaitTime),
                Some(max_wait_time) => match max_batch_size {
                    None => Err(ConfigError::MissingBatchSize),
                    Some(size) => match parsed_usize(size) {
                        None => Err(ConfigError::InvalidBatchSize),
                        Some(max_batch_size) => Ok(BatchEngine { max_wait_time, max_batch_size }),
                    },
                },
            },
        }
    }

    /// Reads the engine's settings from the values of `MAX_WAIT_TIME` and
    /// `MAX_BATCH_SIZE`, each `None` where it is not set.
    #[must_use]
    pub fn new(max_wait_time: Option<&str>, max_batch_size: Option<&str>) -> (engine: Result<
        BatchEngine,
        ConfigError,
    >)
        ensures
            engine == Self::configured(setting_view(max_wait_time), setting_view(max_batch_size)),
    {
        let wait = match max_wait_time {
            None => { return Err(ConfigError::MissingWaitTime); },
            Some(text) => match parse_usize(text) {
                None => { return Err(ConfigError::InvalidWaitTime); },
                Some(wait) => wait,
            },
        };
        let size = match max_batch_size {
            None => { return Err(ConfigError::MissingBatchSize); },
            Some(text) => match parse_usize(text) {
                None => { return Err(ConfigError::InvalidBatchSize); },
                Some(size) => size,
            },
        };
        Ok(BatchEngine { max_wait_time: wait, max_batch_size: size })
    }

    /// Closes a batch and sends it to the embedder.
    fn send_off<R, V>(items: Vec<BatchItem<R>>, closed: bool) -> (out: (State<R>, Action<R, V>))
        ensures
            (out.0@, out.1@) == crate::model::dispatch::<R, V>(items.deep_view(), closed),
    {
        let (batch, texts) = Batch::close(items);
        let hint = batch.total();
        (State::Embedding { batch, closed }, Action::Embed { texts, hint })
    }

    /// Keeps the batch open while it has room and its deadline lies ahead;
    /// closes it otherwise.
    fn settle<R, V>(&self, items: Vec<BatchItem<R>>, deadline: u64, now: u64) -> (out: (
        State<R>,
        Action<R, V>,
    ))
        ensures
            (out.0@, out.1@) == self.hold_or_dispatch::<R, V>(
                items.deep_view(),
                deadline as int,
                now as int,
            ),
    {
        if items.len() < self.max_batch_size && now < deadline {
            (State::Collecting { items, deadline }, Action::AwaitNext { deadline })
        } else {
            Self::send_off(items, false)
        }
    }

    /// Where every run begins: no batch is open, and the engine waits for a
    /// first request.
    pub fn start<R, V>() -> (out: (State<R>, Action<R, V>))
        ensures
            out.0@ == StateView::<R>::Idle,
            out.1@ == ActionView::<R, V>::AwaitFirst,
    {
        (State::Idle, Action::AwaitFirst)
    }

    /// Runs the engine from one suspension point to the next.
    ///
    /// Each time the driver has performed what the engine asked for, it
    /// hands back the state together with what came of it and the time on
    /// its clock, in milliseconds, and gets the next state and the next
    /// thing to do. The engine has ended when it asks for `Action::Exit`.
    ///
    /// The state must wait for the event. A batch's deadline, the time of
    /// its first arrival plus `max_wait_time`, must be a time the clock can
    /// show.
    pub fn run<R, V>(&self, state: State<R>, event: Event<R, V>, now: u64) -> (out: (
        State<R>,
        Action<R, V>,
    ))
        requires
            awaits(state@, event@),
            state is Idle && event is Arrived ==> now + self.max_wait_time <= u64::MAX,
        ensures
            self.next(state@, event@, now as int) == Some((out.0@, out.1@)),
    {
        match state {
            State::Idle => match event {
                Event::Arrived(first) => {
                    let deadline = now + self.max_wait_time as u64;
                    let mut items = Vec::new();
                    items.push(first);
                    assert(items.deep_view() =~= seq![first.deep_view()]);
                    self.settle(items, deadline, now)
                },
                Event::Closed => (State::Stopped, Action::Exit),
                _ => unreached(),
            },
            State::Collecting { items, deadline } => match event {
                Event::Arrived(item) => {
                    let ghost before = items.deep_view();
                    let mut items = items;
                    items.push(item);
                    assert(items.deep_view() =~= before.push(item.deep_view()));
                    self.settle(items, deadline, now)
                },
                Event::TimedOut => Self::send_off(items, false),
                Event::Closed => Self::send_off(items, true),
                _ => unreached(),
            },
            State::Embedding { batch, closed } => match event {
                Event::Embedded(vectors) => {
                    let deliveries = batch.route(Ok(vectors));
                    (State::Delivering { closed }, Action::Deliver(deliveries))
                },
                Event::Failed(detail) => {
                    let deliveries = batch.route(Err(detail));
                    (State::Delivering { closed }, Action::Deliver(deliveries))
                },
                _ => unreached(),
            },
            State::Delivering { closed } => match event {
                Event::Delivered => if closed {
                    (State::Stopped, Action::Exit)
                } else {
                    (State::Idle, Action::AwaitFirst)
                },
                _ => unreached(),
            },
            State::Stopped => unreached(),
        }
    }
}

} // verus!

//! The batched endpoint: it queues the texts of a request for the engine
//! and answers with what the engine replies.

use vstd::prelude::*;

use crate::batch::EngineError;
use crate::batch_engine::BatchItem;
use crate::http::{Response, BAD_REQUEST, OK, SERVICE_UNAVAILABLE};

verus! {

/// The path of the batched endpoint, served on `POST`.
pub const PATH: &'static str = "/embed_batch";

/// The body of a request: the texts to embed.
#[derive(Debug)]
pub struct RequestBody {
    pub inputs: Vec<String>,
}

/// The body of a response: one vector per text, in the order of the texts,
/// or none at all where the request could not be served.
#[derive(Debug)]
pub struct ResponseBody<V> {
    pub outputs: Vec<V>,
}

/// What happened to a request since the handler was last asked.
#[derive(Debug)]
pub enum Event<R, V> {
    /// The body could not be read as a request.
    Malformed,
    /// The body was read, and a one-shot channel was made for the reply:
    /// this is the end of it that sends.
    Parsed(RequestBody, R),
    /// The request is in the intake queue.
    Queued,
    /// The intake queue is closed: it took the request no more.
    QueueClosed,
    /// The engine replied.
    Replied(Result<Vec<V>, EngineError>),
    /// The sending end of the reply channel is gone and nothing was sent.
    ReplyDropped,
}

/// What the handler asks of its driver.
#[derive(Debug)]
pub enum Action<R, V> {
    /// Put the request into the intake queue, waiting for room if it is
    /// full.
    Submit(BatchItem<R>),
    /// Wait for the reply, however long it takes.
    AwaitReply,
    /// Answer the client.
    Respond(Response<ResponseBody<V>>),
}

/// Whether `action` answers the client with `status` and a body of
/// `outputs`.
pub open spec fn responds<R, V>(action: Action<R, V>, status: u16, outputs: Seq<V>) -> bool {
    &&& action matches Action::Respond(response)
    &&& response.status == status
    &&& response.body matches Some(body)
    &&& body.outputs@ == outputs
}

/// Decides what comes next for a request on the batched endpoint.
///
/// A body that cannot be read is answered with status 400 and no body, and
/// nothing is queued. One that can is queued as it is, with the handle for
/// its reply. If the queue is closed the answer has status 503 and no
/// outputs. Once the request is queued the handler waits for the reply. A
/// reply of vectors is the response, in the order it came, with status 200;
/// an error, or a reply that never comes, is answered with status 200 and
/// no outputs.
pub fn handler<R, V>(event: Event<R, V>) -> (action: Action<R, V>)
    ensures
        match event {
            Event::Malformed => action == Action::<R, V>::Respond(
                Response { status: BAD_REQUEST, body: None },
            ),
            Event::Parsed(body, tx) => action == Action::<R, V>::Submit(
                BatchItem { input: body.inputs, tx },
            ),
            Event::Queued => action == Action::<R, V>::AwaitReply,
            Event::QueueClosed => responds(action, SERVICE_UNAVAILABLE, Seq::empty()),
            Event::Replied(Ok(vectors)) => action == Action::<R, V>::Respond(
                Response { status: OK, body: Some(ResponseBody { outputs: vectors }) },
            ),
            Event::Replied(Err(_)) => responds(action, OK, Seq::empty()),
            Event::ReplyDropped => responds(action, OK, Seq::empty()),
        },
{
    match event {
        Event::Malformed => Action::Respond(Response { status: BAD_REQUEST, body: None }),
        Event::Parsed(body, tx) => Action::Submit(BatchItem { input: body.inputs, tx }),
        Event::Queued => Action::AwaitReply,
        Event::QueueClosed => Action::Respond(
            Response { status: SERVICE_UNAVAILABLE, body: Some(ResponseBody { outputs: Vec::new() }) },
        ),
        Event::Replied(Ok(vectors)) => Action::Respond(
            Response { status: OK, body: Some(ResponseBody { outputs: vectors }) },
        ),
        Event::Replied(Err(_)) | Event::ReplyDropped => Action::Respond(
            Response { status: OK, body: Some(ResponseBody { outputs: Vec::new() }) },
        ),
    }
}

} // verus!

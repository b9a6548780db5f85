//! The immediate endpoint: it embeds the texts of one request in a call of
//! its own, past the queue and the engine.

use vstd::prelude::*;

use crate::http::{Response, BAD_REQUEST, OK};

verus! {

/// The path of the immediate endpoint, served on `POST`.
pub const PATH: &'static str = "/embed";

/// The chunk size that the embedder is given on this path.
pub const HINT: usize = 32;

/// The body of a request: the texts to embed.
#[derive(Debug)]
pub struct RequestBody {
    pub inputs: Vec<String>,
}

/// The body of a response: one vector per text, in the order of the texts,
/// or none at all where the embedding failed.
#[derive(Debug)]
pub struct ResponseBody<V> {
    pub outputs: Vec<V>,
}

/// What happened to a request since the handler was last asked.
#[derive(Debug)]
pub enum Event<V> {
    /// The body could not be read as a request.
    Malformed,
    /// The body was read.
    Parsed(RequestBody),
    /// The embedder answered with these vectors.
    Embedded(Vec<V>),
    /// The embedder failed, with this account of the failure.
    Failed(String),
}

/// What the handler asks of its driver.
#[derive(Debug)]
pub enum Action<V> {
    /// Have `texts` embedded in one call, with `hint` as the chunk size,
    /// holding the embedder for the whole call.
    Embed { texts: Vec<String>, hint: usize },
    /// Answer the client.
    Respond(Response<ResponseBody<V>>),
}

/// Whether `action` answers the client with `status` and a body of
/// `outputs`.
pub open spec fn responds<V>(action: Action<V>, status: u16, outputs: Seq<V>) -> bool {
    &&& action matches Action::Respond(response)
    &&& response.status == status
    &&& response.body matches Some(body)
    &&& body.outputs@ == outputs
}

/// Decides what comes next for a request on the immediate endpoint.
///
/// A body that cannot be read is answered with status 400 and no body. The
/// texts of one that can go to the embedder as they are, with the hint of
/// this path. What the embedder answers is the response, with status 200;
/// where it fails the response has status 200 too, and no outputs.
pub fn handler<V>(event: Event<V>) -> (action: Action<V>)
    ensures
        match event {
            Event::Malformed => action == Action::<V>::Respond(
                Response { status: BAD_REQUEST, body: None },
            ),
            Event::Parsed(body) => action == (Action::<V>::Embed {
                texts: body.inputs,
                hint: HINT,
            }),
            Event::Embedded(vectors) => action == Action::Respond(
                Response { status: OK, body: Some(ResponseBody { outputs: vectors }) },
            ),
            Event::Failed(_) => responds(action, OK, Seq::empty()),
        },
{
    match event {
        Event::Malformed => Action::Respond(Response { status: BAD_REQUEST, body: None }),
        Event::Parsed(body) => Action::Embed { texts: body.inputs, hint: HINT },
        Event::Embedded(vectors) => Action::Respond(
            Response { status: OK, body: Some(ResponseBody { outputs: vectors }) },
        ),
        Event::Failed(_) => Action::Respond(
            Response { status: OK, body: Some(ResponseBody { outputs: Vec::new() }) },
        ),
    }
}

} // verus!

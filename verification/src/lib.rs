//! A dynamic micro-batching scheduler for a text-embedding service.
//!
//! Many clients submit lists of texts; the engine coalesces them into
//! batches, bounded in size and in waiting time, has each batch embedded in
//! one call of the model, and hands every client its own slice of the result.
//!
//! The library holds the decisions. It never waits, sleeps or calls the
//! model: a driver performs what the engine and the handlers ask for and
//! reports back what came of it.
//!
//! - [`batch_engine`]: the engine's settings and its transition;
//! - [`batch`]: a closed batch, and the sharing out of the embedder's answer;
//! - [`reply`]: the sending of the replies over one-shot channels;
//! - [`model`]: the mathematics that these are proved against;
//! - [`laws`]: what follows for every step of the engine;
//! - [`runs`]: what follows for every run of the engine;
//! - [`api_embed_batch`], [`api_embed`], [`api_healhtz`]: the endpoints;
//! - [`http`]: what an endpoint answers;
//! - [`decimal`]: the numerals of the settings.

use vstd::prelude::*;

pub mod api_embed;
pub mod api_embed_batch;
pub mod api_healhtz;
pub mod batch;
pub mod batch_engine;
pub mod decimal;
pub mod http;
pub mod laws;
pub mod model;
pub mod reply;
pub mod runs;

verus! {

/// How many requests the intake queue holds before those who submit have to
/// wait.
pub const MAX_CHANNEL_SIZE: usize = 10_000;

/// Where the service listens.
pub const LISTEN_ADDRESS: &'static str = "0.0.0.0:8080";

} // verus!

//! The engine driven through whole runs: a simulated clock, a scripted
//! intake, one-shot channels for the replies and a mock embedder that returns,
//! for each text, the one-element vector of its length.

use embed_batcher::batch::EngineError;
use embed_batcher::batch_engine::{Action, BatchEngine, BatchItem, Event};
use embed_batcher::reply::deliver;
use tokio::sync::oneshot::{channel, Receiver, Sender};

type Vector = Vec<f32>;
type Reply = Result<Vec<Vector>, EngineError>;

/// One call of the mock embedder, as the run saw it.
#[derive(Debug, Clone, PartialEq)]
struct Call {
    texts: Vec<String>,
    hint: usize,
    at: u64,
}

/// A request that reaches the intake at a given time.
struct Arrival {
    at: u64,
    input: Vec<String>,
    tx: Sender<Reply>,
}

fn texts(words: &[&str]) -> Vec<String> {
    words.iter().map(|w| w.to_string()).collect()
}

fn lengths(texts: &[String]) -> Result<Vec<Vector>, String> {
    Ok(texts.iter().map(|t| vec![t.len() as f32]).collect())
}

fn submit(at: u64, words: &[&str]) -> (Arrival, Receiver<Reply>) {
    let (tx, rx) = channel();
    (Arrival { at, input: texts(words), tx }, rx)
}

/// Runs the engine as its driver does. Requests arrive at their times; the
/// intake closes at `closes`, if ever. The run ends when the engine exits,
/// or when it would wait for a request that never comes.
fn drive(
    engine: &BatchEngine,
    arrivals: Vec<Arrival>,
    closes: Option<u64>,
    embed: fn(&[String]) -> Result<Vec<Vector>, String>,
) -> (Vec<Call>, bool) {
    let mut intake = arrivals.into_iter().peekable();
    let mut calls = Vec::new();
    let mut now: u64 = 0;
    let (mut state, mut action) = BatchEngine::start::<Sender<Reply>, Vector>();
    loop {
        let event = match action {
            Action::AwaitFirst => match intake.next() {
                Some(arrival) => {
                    now = now.max(arrival.at);
                    Event::Arrived(BatchItem { input: arrival.input, tx: arrival.tx })
                }
                None => match closes {
                    Some(at) => {
                        now = now.max(at);
                        Event::Closed
                    }
                    None => return (calls, false),
                },
            },
            Action::AwaitNext { deadline } => {
                let next_at = intake.peek().map(|arrival| arrival.at.max(now));
                match (next_at, closes) {
                    (Some(at), _) if at < deadline => {
                        now = at;
                        let arrival = intake.next().unwrap();
                        Event::Arrived(BatchItem { input: arrival.input, tx: arrival.tx })
                    }
                    (None, Some(at)) if at.max(now) < deadline => {
                        now = at.max(now);
                        Event::Closed
                    }
                    _ => {
                        now = deadline;
                        Event::TimedOut
                    }
                }
            }
            Action::Embed { texts, hint } => {
                let outcome = embed(&texts);
                calls.push(Call { texts, hint, at: now });
                match outcome {
                    Ok(vectors) => Event::Embedded(vectors),
                    Err(detail) => Event::Failed(detail),
                }
            }
            Action::Deliver(deliveries) => {
                let sent = deliveries.len();
                assert_eq!(deliver(deliveries).len(), sent);
                Event::Delivered
            }
            Action::Exit => return (calls, true),
        };
        assert!(state.awaits(&event));
        let step = engine.run(state, event, now);
        state = step.0;
        action = step.1;
    }
}

fn vectors(values: &[f32]) -> Vec<Vector> {
    values.iter().map(|v| vec![*v]).collect()
}

#[test]
fn one_client_gets_its_vectors_in_order() {
    let engine = BatchEngine { max_wait_time: 50, max_batch_size: 4 };
    let (arrival, mut rx) = submit(0, &["a", "bb"]);
    let (calls, _) = drive(&engine, vec![arrival], None, lengths);
    assert_eq!(calls.len(), 1);
    assert_eq!(calls[0].texts, texts(&["a", "bb"]));
    assert_eq!(calls[0].hint, 2);
    assert_eq!(rx.try_recv().unwrap(), Ok(vectors(&[1.0, 2.0])));
}

#[test]
fn three_clients_within_the_window_share_one_call() {
    let engine = BatchEngine { max_wait_time: 50, max_batch_size: 4 };
    let (first, mut rx1) = submit(0, &["x"]);
    let (second, mut rx2) = submit(2, &["yy", "zzz"]);
    let (third, mut rx3) = submit(5, &["w"]);
    let (calls, _) = drive(&engine, vec![first, second, third], None, lengths);
    assert_eq!(calls.len(), 1);
    assert_eq!(calls[0].texts, texts(&["x", "yy", "zzz", "w"]));
    assert_eq!(calls[0].hint, 4);
    assert_eq!(calls[0].at, 50);
    assert_eq!(rx1.try_recv().unwrap(), Ok(vectors(&[1.0])));
    assert_eq!(rx2.try_recv().unwrap(), Ok(vectors(&[2.0, 3.0])));
    assert_eq!(rx3.try_recv().unwrap(), Ok(vectors(&[1.0])));
}

#[test]
fn five_back_to_back_requests_make_batches_of_two_two_one() {
    let engine = BatchEngine { max_wait_time: 1000, max_batch_size: 2 };
    let mut arrivals = Vec::new();
    let mut receivers = Vec::new();
    for _ in 0..5 {
        let (arrival, rx) = submit(0, &["q"]);
        arrivals.push(arrival);
        receivers.push(rx);
    }
    let (calls, _) = drive(&engine, arrivals, None, lengths);
    let sizes: Vec<usize> = calls.iter().map(|call| call.texts.len()).collect();
    assert_eq!(sizes, vec![2, 2, 1]);
    assert_eq!(calls[0].at, 0);
    assert_eq!(calls[1].at, 0);
    assert_eq!(calls[2].at, 1000);
    for mut rx in receivers {
        assert_eq!(rx.try_recv().unwrap(), Ok(vectors(&[1.0])));
    }
}

#[test]
fn a_lone_request_is_sent_when_its_deadline_passes() {
    let engine = BatchEngine { max_wait_time: 10, max_batch_size: 8 };
    let (arrival, mut rx) = submit(7, &["a"]);
    let (calls, ended) = drive(&engine, vec![arrival], None, lengths);
    assert_eq!(calls, vec![Call { texts: texts(&["a"]), hint: 1, at: 17 }]);
    assert!(!ended);
    assert_eq!(rx.try_recv().unwrap(), Ok(vectors(&[1.0])));
}

fn one_vector_too_few(texts: &[String]) -> Result<Vec<Vector>, String> {
    Ok(texts.iter().skip(1).map(|t| vec![t.len() as f32]).collect())
}

#[test]
fn an_answer_of_the_wrong_length_fails_the_client() {
    let engine = BatchEngine { max_wait_time: 50, max_batch_size: 4 };
    let (arrival, mut rx) = submit(0, &["a", "b"]);
    let (calls, _) = drive(&engine, vec![arrival], None, one_vector_too_few);
    assert_eq!(calls.len(), 1);
    assert_eq!(
        rx.try_recv().unwrap(),
        Err(EngineError::MismatchedUpstreamCount { got: 1, expected: 2 })
    );
}

#[test]
fn a_client_that_is_gone_does_not_cost_the_others_their_reply() {
    let engine = BatchEngine { max_wait_time: 50, max_batch_size: 4 };
    let (gone, rx_gone) = submit(0, &["lost", "too"]);
    let (live, mut rx_live) = submit(1, &["kept"]);
    drop(rx_gone);
    let (calls, ended) = drive(&engine, vec![gone, live], Some(20), lengths);
    assert_eq!(calls.len(), 1);
    assert_eq!(calls[0].texts, texts(&["lost", "too", "kept"]));
    assert!(ended);
    assert_eq!(rx_live.try_recv().unwrap(), Ok(vectors(&[4.0])));
}

fn broken(_texts: &[String]) -> Result<Vec<Vector>, String> {
    Err(String::from("model unavailable"))
}

#[test]
fn a_failure_of_the_embedder_fails_every_request_of_the_batch() {
    let engine = BatchEngine { max_wait_time: 50, max_batch_size: 4 };
    let (first, mut rx1) = submit(0, &["a"]);
    let (second, mut rx2) = submit(1, &["b", "c"]);
    let (calls, _) = drive(&engine, vec![first, second], None, broken);
    assert_eq!(calls.len(), 1);
    let expected = EngineError::UpstreamError { detail: String::from("model unavailable") };
    assert_eq!(rx1.try_recv().unwrap(), Err(expected.clone()));
    assert_eq!(rx2.try_recv().unwrap(), Err(expected));
}

#[test]
fn a_failing_embedder_does_not_stop_the_engine() {
    let engine = BatchEngine { max_wait_time: 5, max_batch_size: 1 };
    let (first, mut rx1) = submit(0, &["a"]);
    let (second, mut rx2) = submit(100, &["b"]);
    let (calls, ended) = drive(&engine, vec![first, second], Some(200), broken);
    assert_eq!(calls.len(), 2);
    assert!(ended);
    assert!(rx1.try_recv().unwrap().is_err());
    assert!(rx2.try_recv().unwrap().is_err());
}

#[test]
fn no_call_holds_more_requests_than_the_engine_allows() {
    let engine = BatchEngine { max_wait_time: 1000, max_batch_size: 3 };
    let mut arrivals = Vec::new();
    for i in 0..10 {
        arrivals.push(submit(i, &["one"]).0);
    }
    let (calls, _) = drive(&engine, arrivals, Some(5000), lengths);
    let sizes: Vec<usize> = calls.iter().map(|call| call.texts.len()).collect();
    assert_eq!(sizes, vec![3, 3, 3, 1]);
}

#[test]
fn a_batch_size_of_one_sends_every_request_alone_and_at_once() {
    let engine = BatchEngine { max_wait_time: 1000, max_batch_size: 1 };
    let (first, _rx1) = submit(3, &["a", "b"]);
    let (second, _rx2) = submit(4, &["c"]);
    let (calls, _) = drive(&engine, vec![first, second], None, lengths);
    assert_eq!(
        calls,
        vec![
            Call { texts: texts(&["a", "b"]), hint: 2, at: 3 },
            Call { texts: texts(&["c"]), hint: 1, at: 4 },
        ]
    );
}

#[test]
fn a_batch_size_of_zero_still_sends_every_request_alone() {
    let engine = BatchEngine { max_wait_time: 1000, max_batch_size: 0 };
    let (first, mut rx1) = submit(0, &["a"]);
    let (second, mut rx2) = submit(0, &["bb"]);
    let (calls, _) = drive(&engine, vec![first, second], None, lengths);
    let sizes: Vec<usize> = calls.iter().map(|call| call.texts.len()).collect();
    assert_eq!(sizes, vec![1, 1]);
    assert_eq!(rx1.try_recv().unwrap(), Ok(vectors(&[1.0])));
    assert_eq!(rx2.try_recv().unwrap(), Ok(vectors(&[2.0])));
}

#[test]
fn a_wait_of_zero_sends_every_request_alone() {
    let engine = BatchEngine { max_wait_time: 0, max_batch_size: 8 };
    let (first, _rx1) = submit(0, &["a"]);
    let (second, _rx2) = submit(0, &["b"]);
    let (calls, _) = drive(&engine, vec![first, second], None, lengths);
    let sizes: Vec<usize> = calls.iter().map(|call| call.texts.len()).collect();
    assert_eq!(sizes, vec![1, 1]);
}

#[test]
fn a_request_without_texts_gets_an_empty_reply() {
    let engine = BatchEngine { max_wait_time: 50, max_batch_size: 4 };
    let (first, mut rx1) = submit(0, &["ab"]);
    let (none, mut rx2) = submit(1, &[]);
    let (third, mut rx3) = submit(2, &["cde", "f"]);
    let (calls, _) = drive(&engine, vec![first, none, third], None, lengths);
    assert_eq!(calls.len(), 1);
    assert_eq!(calls[0].texts, texts(&["ab", "cde", "f"]));
    assert_eq!(calls[0].hint, 3);
    assert_eq!(rx1.try_recv().unwrap(), Ok(vectors(&[2.0])));
    assert_eq!(rx2.try_recv().unwrap(), Ok(vectors(&[])));
    assert_eq!(rx3.try_recv().unwrap(), Ok(vectors(&[3.0, 1.0])));
}

#[test]
fn a_batch_of_only_empty_requests_is_still_embedded() {
    let engine = BatchEngine { max_wait_time: 50, max_batch_size: 2 };
    let (first, mut rx1) = submit(0, &[]);
    let (second, mut rx2) = submit(0, &[]);
    let (calls, _) = drive(&engine, vec![first, second], None, lengths);
    assert_eq!(calls, vec![Call { texts: vec![], hint: 0, at: 0 }]);
    assert_eq!(rx1.try_recv().unwrap(), Ok(vec![]));
    assert_eq!(rx2.try_recv().unwrap(), Ok(vec![]));
}

#[test]
fn closing_the_intake_ends_the_engine_after_the_open_batch() {
    let engine = BatchEngine { max_wait_time: 1000, max_batch_size: 8 };
    let (first, mut rx1) = submit(0, &["a"]);
    let (second, mut rx2) = submit(10, &["bb"]);
    let (calls, ended) = drive(&engine, vec![first, second], Some(30), lengths);
    assert_eq!(calls, vec![Call { texts: texts(&["a", "bb"]), hint: 2, at: 30 }]);
    assert!(ended);
    assert_eq!(rx1.try_recv().unwrap(), Ok(vectors(&[1.0])));
    assert_eq!(rx2.try_recv().unwrap(), Ok(vectors(&[2.0])));
}

#[test]
fn closing_an_idle_intake_ends_the_engine_at_once() {
    let engine = BatchEngine { max_wait_time: 1000, max_batch_size: 8 };
    let (calls, ended) = drive(&engine, vec![], Some(0), lengths);
    assert!(calls.is_empty());
    assert!(ended);
}

#[test]
fn a_request_that_arrives_at_the_deadline_opens_the_next_batch() {
    let engine = BatchEngine { max_wait_time: 10, max_batch_size: 8 };
    let (first, _rx1) = submit(0, &["a"]);
    let (second, _rx2) = submit(10, &["b"]);
    let (calls, _) = drive(&engine, vec![first, second], None, lengths);
    assert_eq!(
        calls,
        vec![
            Call { texts: texts(&["a"]), hint: 1, at: 10 },
            Call { texts: texts(&["b"]), hint: 1, at: 20 },
        ]
    );
}

/// A small generator of numbers, the same on every run.
fn next_number(seed: &mut u64) -> u64 {
    *seed = seed.wrapping_mul(6364136223846793005).wrapping_add(1442695040888963407);
    *seed >> 33
}

#[test]
fn in_long_runs_every_request_is_replied_once_and_in_order() {
    let mut seed = 2024;
    for round in 0..50 {
        let engine = BatchEngine {
            max_wait_time: (next_number(&mut seed) % 30) as usize,
            max_batch_size: 1 + (next_number(&mut seed) % 6) as usize,
        };
        let mut at = 0;
        let mut arrivals = Vec::new();
        let mut receivers = Vec::new();
        let mut all_texts = Vec::new();
        for request in 0..40 {
            at += next_number(&mut seed) % 12;
            let count = (next_number(&mut seed) % 4) as usize;
            let words: Vec<String> = (0..count)
                .map(|text| "x".repeat(1 + (round + request + text) % 7))
                .collect();
            let (tx, rx) = channel();
            all_texts.extend(words.iter().cloned());
            receivers.push((rx, words.clone()));
            arrivals.push(Arrival { at, input: words, tx });
        }
        let (calls, ended) = drive(&engine, arrivals, Some(at + 100), lengths);
        assert!(ended);
        let sent: Vec<String> = calls.iter().flat_map(|call| call.texts.iter().cloned()).collect();
        assert_eq!(sent, all_texts);
        for call in &calls {
            assert_eq!(call.hint, call.texts.len());
        }
        for (mut rx, words) in receivers {
            assert_eq!(rx.try_recv().unwrap(), Ok(lengths(&words).unwrap()));
        }
    }
}

#[test]
fn batches_never_wait_beyond_their_deadline() {
    let mut seed = 7;
    let engine = BatchEngine { max_wait_time: 25, max_batch_size: 1000 };
    let mut at = 0;
    let mut arrivals = Vec::new();
    let mut times = Vec::new();
    for _ in 0..60 {
        at += next_number(&mut seed) % 20;
        let (arrival, _rx) = submit(at, &["t"]);
        times.push(at);
        arrivals.push(arrival);
    }
    let (calls, _) = drive(&engine, arrivals, None, lengths);
    let mut first = 0;
    for call in &calls {
        assert_eq!(call.at, times[first] + 25);
        for &arrived in &times[first..first + call.texts.len()] {
            assert!(arrived < call.at);
        }
        first += call.texts.len();
    }
    assert_eq!(first, times.len());
}

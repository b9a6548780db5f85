//! Replies on their way to the clients, over one-shot channels.

use embed_batcher::batch::{Batch, Delivery, EngineError};
use embed_batcher::batch_engine::BatchItem;
use embed_batcher::reply::deliver;
use tokio::sync::oneshot::{channel, error::TryRecvError, Receiver, Sender};

type Reply = Result<Vec<Vec<f32>>, EngineError>;

fn request(words: &[&str]) -> (BatchItem<Sender<Reply>>, Receiver<Reply>) {
    let (tx, rx) = channel();
    (BatchItem { input: words.iter().map(|w| w.to_string()).collect(), tx }, rx)
}

#[test]
fn every_reply_reaches_the_client_that_waits_for_it() {
    let (tx1, mut rx1) = channel();
    let (tx2, mut rx2) = channel();
    let taken = deliver(vec![
        Delivery { tx: tx1, reply: Ok(vec![vec![1.0f32, 2.0]]) },
        Delivery { tx: tx2, reply: Err(EngineError::UpstreamError { detail: "down".into() }) },
    ]);
    assert_eq!(taken, vec![true, true]);
    assert_eq!(rx1.try_recv().unwrap(), Ok(vec![vec![1.0, 2.0]]));
    assert_eq!(
        rx2.try_recv().unwrap(),
        Err(EngineError::UpstreamError { detail: "down".into() })
    );
}

#[test]
fn a_client_that_is_gone_is_passed_over() {
    let (tx1, rx1) = channel::<Reply>();
    let (tx2, mut rx2) = channel();
    let (tx3, rx3) = channel::<Reply>();
    let (tx4, mut rx4) = channel();
    drop(rx1);
    drop(rx3);
    let taken = deliver(vec![
        Delivery { tx: tx1, reply: Ok(vec![vec![1.0f32]]) },
        Delivery { tx: tx2, reply: Ok(vec![vec![2.0]]) },
        Delivery { tx: tx3, reply: Ok(vec![]) },
        Delivery { tx: tx4, reply: Ok(vec![vec![4.0], vec![5.0]]) },
    ]);
    assert_eq!(taken, vec![false, true, false, true]);
    assert_eq!(rx2.try_recv().unwrap(), Ok(vec![vec![2.0]]));
    assert_eq!(rx4.try_recv().unwrap(), Ok(vec![vec![4.0], vec![5.0]]));
}

#[test]
fn no_replies_are_sent_in_no_time() {
    assert_eq!(deliver(Vec::<Delivery<Sender<Reply>, Vec<f32>>>::new()), Vec::<bool>::new());
}

#[test]
fn a_reply_is_sent_once_and_its_channel_is_used_up() {
    let (tx, mut rx) = channel();
    assert_eq!(deliver(vec![Delivery { tx, reply: Ok(vec![vec![0.5f32]]) }]), vec![true]);
    assert_eq!(rx.try_recv().unwrap(), Ok(vec![vec![0.5]]));
    assert_eq!(rx.try_recv(), Err(TryRecvError::Closed));
}

#[test]
fn a_batch_is_routed_and_delivered_to_those_who_stayed() {
    let (first, rx1) = request(&["left"]);
    let (second, mut rx2) = request(&["stayed", "on"]);
    let (batch, texts) = Batch::close(vec![first, second]);
    assert_eq!(texts, vec!["left", "stayed", "on"]);
    drop(rx1);
    let answer = vec![vec![4.0f32], vec![6.0], vec![2.0]];
    assert_eq!(deliver(batch.route(Ok(answer))), vec![false, true]);
    assert_eq!(rx2.try_recv().unwrap(), Ok(vec![vec![6.0], vec![2.0]]));
}

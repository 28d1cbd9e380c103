use futures::task::noop_waker;
use gnostr_query::collector::Inbound;
use gnostr_query::relay::{after_offer, after_read, RelayStep, HANDOFF_CAPACITY};
use std::future::Future;
use std::task::{Context, Poll};
use tokio::sync::mpsc;

fn offer_of(step: RelayStep) -> String {
    match step {
        RelayStep::Offer(frame) => frame,
        other => panic!("expected an offer, got {other:?}"),
    }
}

#[test]
fn queue_holds_a_hundred_frames() {
    assert_eq!(HANDOFF_CAPACITY, 100);
}

#[test]
fn text_frames_are_offered() {
    assert_eq!(
        after_read(Inbound::Text("frame".to_string())),
        RelayStep::Offer("frame".to_string())
    );
    assert_eq!(
        after_read(Inbound::Text(String::new())),
        RelayStep::Offer(String::new())
    );
}

#[test]
fn end_of_stream_marker_is_offered_like_any_frame() {
    let marker = "[\"EOSE\",\"gnostr-query\"]".to_string();
    assert_eq!(
        after_read(Inbound::Text(marker.clone())),
        RelayStep::Offer(marker)
    );
}

#[test]
fn other_messages_are_passed_over() {
    assert_eq!(after_read(Inbound::Other), RelayStep::Read);
}

#[test]
fn close_and_failure_end_the_task() {
    assert_eq!(after_read(Inbound::Closed), RelayStep::Stop);
    assert_eq!(after_read(Inbound::Failed), RelayStep::Stop);
}

#[test]
fn refused_offer_ends_the_task() {
    assert_eq!(after_offer(true), RelayStep::Read);
    assert_eq!(after_offer(false), RelayStep::Stop);
}

#[test]
fn relay_offers_every_frame_in_order() {
    let link = vec![
        Inbound::Text("a".to_string()),
        Inbound::Other,
        Inbound::Text("a".to_string()),
        Inbound::Text("b".to_string()),
        Inbound::Closed,
        Inbound::Text("c".to_string()),
    ];
    let mut offered = Vec::new();
    for event in link {
        match after_read(event) {
            RelayStep::Offer(frame) => {
                offered.push(frame);
                if after_offer(true) == RelayStep::Stop {
                    break;
                }
            }
            RelayStep::Read => {}
            RelayStep::Stop => break,
        }
    }
    assert_eq!(offered, vec!["a", "a", "b"]);
}

#[test]
fn full_queue_holds_the_relay_until_a_slot_is_drained() {
    let (queue, mut reader) = mpsc::channel::<String>(HANDOFF_CAPACITY);
    let waker = noop_waker();
    let mut cx = Context::from_waker(&waker);

    for i in 0..100 {
        let frame = offer_of(after_read(Inbound::Text(format!("f{i}"))));
        let mut offer = Box::pin(queue.send(frame));
        assert!(matches!(offer.as_mut().poll(&mut cx), Poll::Ready(Ok(()))));
        assert_eq!(after_offer(true), RelayStep::Read);
    }

    let frame = offer_of(after_read(Inbound::Text("f100".to_string())));
    let mut offer = Box::pin(queue.send(frame));
    assert!(offer.as_mut().poll(&mut cx).is_pending());
    assert!(offer.as_mut().poll(&mut cx).is_pending());

    assert_eq!(reader.try_recv().ok(), Some("f0".to_string()));
    assert!(matches!(offer.as_mut().poll(&mut cx), Poll::Ready(Ok(()))));
    drop(offer);

    for i in 1..=100 {
        assert_eq!(reader.try_recv().ok(), Some(format!("f{i}")));
    }
    assert!(reader.try_recv().is_err());
}

#[test]
fn relay_ends_when_the_reader_is_gone() {
    let (queue, reader) = mpsc::channel::<String>(HANDOFF_CAPACITY);
    drop(reader);
    let waker = noop_waker();
    let mut cx = Context::from_waker(&waker);
    let frame = offer_of(after_read(Inbound::Text("f".to_string())));
    let mut offer = Box::pin(queue.send(frame));
    let taken = match offer.as_mut().poll(&mut cx) {
        Poll::Ready(outcome) => outcome.is_ok(),
        Poll::Pending => panic!("an offer to a closed queue does not wait"),
    };
    assert!(!taken);
    assert_eq!(after_offer(taken), RelayStep::Stop);
}

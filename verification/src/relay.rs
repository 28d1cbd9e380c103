//! The streaming consumer: every text frame goes to the hand-off queue.
//!
//! The network task reads the link and offers each text frame to the queue; an
//! offer waits while the queue is full. This module decides what the task does
//! after each read and after each offer; the reads and the offers themselves
//! are the task's.

use crate::collector::Inbound;
use vstd::prelude::*;

verus! {

/// The number of frames that the hand-off queue holds at most.
pub const HANDOFF_CAPACITY: usize = 100;

/// What the network task does next.
#[derive(Debug, Clone, PartialEq, Eq)]
pub enum RelayStep {
    /// Offer this frame to the hand-off queue, waiting for room if it is full.
    Offer(String),
    /// Read the next message from the link.
    Read,
    /// End the task.
    Stop,
}

/// What follows a read that delivered `event`.
///
/// Every text frame is offered, the end-of-stream marker like any other. A
/// closed link ends the task, and so does a failed read.
pub open spec fn step_after_read(event: Inbound) -> RelayStep {
    match event {
        Inbound::Text(frame) => RelayStep::Offer(frame),
        Inbound::Other => RelayStep::Read,
        Inbound::Closed => RelayStep::Stop,
        Inbound::Failed => RelayStep::Stop,
    }
}

/// What follows an offer: the next read if the queue took the frame, the end
/// of the task if the queue's consumer is gone.
pub open spec fn step_after_offer(taken: bool) -> RelayStep {
    if taken {
        RelayStep::Read
    } else {
        RelayStep::Stop
    }
}

/// The frames that the task offers while reads deliver `events` and the queue
/// takes every offer: the text frames up to the first close or failure, each
/// once and in the order of arrival.
pub open spec fn offered(events: Seq<Inbound>) -> Seq<Seq<char>>
    decreases events.len(),
{
    if events.len() == 0 {
        Seq::empty()
    } else {
        match step_after_read(events[0]) {
            RelayStep::Offer(frame) => seq![frame@] + offered(events.skip(1)),
            RelayStep::Read => offered(events.skip(1)),
            RelayStep::Stop => Seq::empty(),
        }
    }
}

/// Decides what follows a read that delivered `event`.
pub fn after_read(event: Inbound) -> (step: RelayStep)
    ensures
        step == step_after_read(event),
{
    match event {
        Inbound::Text(frame) => RelayStep::Offer(frame),
        Inbound::Other => RelayStep::Read,
        Inbound::Closed => RelayStep::Stop,
        Inbound::Failed => RelayStep::Stop,
    }
}

/// Decides what follows an offer that the queue took (`taken`) or refused
/// because its consumer is gone.
pub fn after_offer(taken: bool) -> (step: RelayStep)
    ensures
        step == step_after_offer(taken),
{
    if taken {
        RelayStep::Read
    } else {
        RelayStep::Stop
    }
}

/// Whether every one of `events` is a text frame.
pub open spec fn only_text(events: Seq<Inbound>) -> bool {
    forall|i: int| 0 <= i < events.len() ==> #[trigger] events[i] is Text
}

/// The text that a text frame carries.
pub open spec fn text_of(event: Inbound) -> Seq<char> {
    match event {
        Inbound::Text(frame) => frame@,
        _ => Seq::empty(),
    }
}

/// No frame is dropped and none is offered twice: over text frames alone the
/// task offers exactly the frames that arrived, in their order.
pub proof fn lemma_every_frame_offered(events: Seq<Inbound>)
    requires
        only_text(events),
    ensures
        offered(events) == events.map_values(|event: Inbound| text_of(event)),
    decreases events.len(),
{
    let all = events.map_values(|event: Inbound| text_of(event));
    if events.len() == 0 {
        assert(offered(events) =~= all);
    } else {
        let rest = events.skip(1);
        assert(events[0] is Text);
        assert forall|i: int| 0 <= i < rest.len() implies #[trigger] rest[i] is Text by {
            assert(rest[i] == events[i + 1]);
        }
        lemma_every_frame_offered(rest);
        assert(seq![text_of(events[0])] + rest.map_values(|event: Inbound| text_of(event))
            =~= all);
    }
}

/// Nothing is offered once the link has closed or a read has failed.
pub proof fn lemma_nothing_offered_after_end(before: Seq<Inbound>, end: Inbound, after: Seq<Inbound>)
    requires
        end is Closed || end is Failed,
    ensures
        offered(before + seq![end] + after) == offered(before),
    decreases before.len(),
{
    let events = before + seq![end] + after;
    if before.len() == 0 {
        assert(events[0] == end);
        assert(offered(before) =~= Seq::<Seq<char>>::empty());
    } else {
        assert(events[0] == before[0]);
        assert(events.skip(1) =~= before.skip(1) + seq![end] + after);
        lemma_nothing_offered_after_end(before.skip(1), end, after);
    }
}

} // verus!

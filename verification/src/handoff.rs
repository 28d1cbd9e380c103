//! The hand-off between the network task and the display loop, seen whole.
//!
//! The queue between the two is a channel that both sides use at once, so no
//! function here can hold it. This module describes the hand-off as a
//! mathematical state instead: the queue is a first-in first-out buffer of at
//! most [`HANDOFF_CAPACITY`] frames, the network task moves by the decisions of
//! [`crate::relay`], and the display loop takes the oldest frame when it polls.
//! The laws below are laws of this description.

use crate::collector::Inbound;
use crate::relay::{offered, step_after_offer, step_after_read, RelayStep, HANDOFF_CAPACITY};
use vstd::prelude::*;

verus! {

/// The state of the hand-off.
pub struct Handoff {
    /// What the link has still to deliver, next read first.
    pub unread: Seq<Inbound>,
    /// The frame that the task has offered and the queue has not yet taken.
    pub pending: Option<Seq<char>>,
    /// The frames in the queue, oldest first.
    pub queue: Seq<Seq<char>>,
    /// The frames that the display has taken, oldest first.
    pub shown: Seq<Seq<char>>,
    /// Whether the task has ended.
    pub stopped: bool,
}

/// The hand-off before anything was read from a link that will deliver
/// `events`.
pub open spec fn start(events: Seq<Inbound>) -> Handoff {
    Handoff {
        unread: events,
        pending: None,
        queue: Seq::empty(),
        shown: Seq::empty(),
        stopped: false,
    }
}

/// Whether the queue has room for one more frame.
pub open spec fn has_room(h: Handoff) -> bool {
    h.queue.len() < HANDOFF_CAPACITY
}

/// Whether the task is held back: it has offered a frame and the queue is
/// full.
pub open spec fn held_back(h: Handoff) -> bool {
    !h.stopped && h.pending is Some && !has_room(h)
}

/// One move of the network task.
///
/// With an offer pending, the queue takes the frame if it has room, and the
/// task goes on as it decides after a taken offer; without room nothing
/// happens. With no offer pending, the task reads once and does what it
/// decides after that read. A task that has ended, or that waits for a link
/// with nothing to deliver, does not move.
pub open spec fn task_move(h: Handoff) -> Handoff {
    if h.stopped {
        h
    } else if h.pending is Some {
        if has_room(h) {
            Handoff {
                pending: None,
                queue: h.queue.push(h.pending.unwrap()),
                stopped: step_after_offer(true) is Stop,
                ..h
            }
        } else {
            h
        }
    } else if h.unread.len() == 0 {
        h
    } else {
        match step_after_read(h.unread[0]) {
            RelayStep::Offer(frame) => Handoff {
                unread: h.unread.skip(1),
                pending: Some(frame@),
                ..h
            },
            RelayStep::Read => Handoff { unread: h.unread.skip(1), ..h },
            RelayStep::Stop => Handoff { unread: h.unread.skip(1), stopped: true, ..h },
        }
    }
}

/// One poll of the display loop: it takes the oldest frame of the queue, if
/// there is one, and does not wait.
pub open spec fn poll(h: Handoff) -> Handoff {
    if h.queue.len() == 0 {
        h
    } else {
        Handoff { queue: h.queue.skip(1), shown: h.shown.push(h.queue[0]), ..h }
    }
}

/// The pending frame as a sequence of one frame or none.
pub open spec fn pending_frames(h: Handoff) -> Seq<Seq<char>> {
    match h.pending {
        Some(frame) => seq![frame],
        None => Seq::empty(),
    }
}

/// Every frame of the hand-off in the order of arrival: those shown, those in
/// the queue, the one pending, and those that the task will still offer.
pub open spec fn all_frames(h: Handoff) -> Seq<Seq<char>> {
    h.shown + h.queue + pending_frames(h) + if h.stopped {
        Seq::empty()
    } else {
        offered(h.unread)
    }
}

/// The queue never holds more than its capacity.
pub proof fn lemma_queue_stays_bounded(h: Handoff)
    requires
        h.queue.len() <= HANDOFF_CAPACITY,
    ensures
        task_move(h).queue.len() <= HANDOFF_CAPACITY,
        poll(h).queue.len() <= HANDOFF_CAPACITY,
{
}

/// A full queue holds the task back: while nothing is polled, the task does
/// not move. The queue keeps its frames, the pending frame stays pending, and
/// nothing more is read from the link.
pub proof fn lemma_full_queue_holds_task(h: Handoff)
    requires
        held_back(h),
    ensures
        task_move(h) == h,
{
}

/// One poll frees a task that a full queue held back: the display takes the
/// oldest frame, the queue takes the pending frame behind the others, and
/// the task's next move is a read.
pub proof fn lemma_poll_frees_task(h: Handoff)
    requires
        held_back(h),
        h.queue.len() == HANDOFF_CAPACITY,
    ensures
        ({
            let after = task_move(poll(h));
            &&& after.shown == h.shown.push(h.queue[0])
            &&& after.queue == h.queue.skip(1).push(h.pending.unwrap())
            &&& after.queue.len() == HANDOFF_CAPACITY
            &&& after.pending is None
            &&& after.unread == h.unread
            &&& !after.stopped
        }),
{
}

/// A text frame that arrives while the queue is full is read and offered, and
/// there the task stays: the frame is neither dropped nor put in the place of
/// an older one, and the frame behind it is not read.
pub proof fn lemma_frame_beyond_capacity(h: Handoff)
    requires
        !h.stopped,
        h.pending is None,
        h.queue.len() == HANDOFF_CAPACITY,
        h.unread.len() > 0,
        h.unread[0] is Text,
    ensures
        ({
            let offering = task_move(h);
            &&& offering.pending == Some(h.unread[0]->Text_0@)
            &&& offering.queue == h.queue
            &&& offering.shown == h.shown
            &&& offering.unread == h.unread.skip(1)
            &&& held_back(offering)
            &&& task_move(offering) == offering
        }),
{
}

/// No move loses a frame, repeats one, or changes the order: the frames of
/// the hand-off stay the same through every move of the task and every poll.
pub proof fn lemma_moves_keep_frames(h: Handoff)
    ensures
        all_frames(task_move(h)) == all_frames(h),
        all_frames(poll(h)) == all_frames(h),
{
    if h.queue.len() > 0 {
        assert(h.shown.push(h.queue[0]) + h.queue.skip(1) =~= h.shown + h.queue);
    }
    if !h.stopped {
        if h.pending is Some {
            if has_room(h) {
                let frame = h.pending.unwrap();
                assert(h.shown + h.queue.push(frame) =~= h.shown + h.queue + seq![frame]);
                assert(all_frames(task_move(h)) =~= all_frames(h));
            }
        } else if h.unread.len() > 0 {
            let rest = h.unread.skip(1);
            match step_after_read(h.unread[0]) {
                RelayStep::Offer(frame) => {
                    assert(offered(h.unread) == seq![frame@] + offered(rest));
                    assert(all_frames(task_move(h)) =~= all_frames(h));
                },
                RelayStep::Read => {
                    assert(offered(h.unread) == offered(rest));
                },
                RelayStep::Stop => {
                    assert(offered(h.unread) =~= Seq::<Seq<char>>::empty());
                    assert(all_frames(task_move(h)) =~= all_frames(h));
                },
            }
        }
    }
}

/// At the start, the frames of the hand-off are those that the task offers
/// over the whole link.
pub proof fn lemma_frames_at_start(events: Seq<Inbound>)
    ensures
        all_frames(start(events)) == offered(events),
{
    assert(all_frames(start(events)) =~= offered(events));
}

} // verus!

//! The bounded consumer: frames are gathered until a limit is met or the link ends.
//!
//! Reading from the link is the caller's work. The caller asks
//! [`BoundedCollector::wants_frame`] before each read and hands what it read to
//! [`BoundedCollector::accept`], which says how to go on. [`collect`] runs the
//! same decisions over a recorded sequence of reads.

use vstd::prelude::*;

verus! {

/// What one read from the link delivered.
#[derive(Debug, Clone, PartialEq, Eq)]
pub enum Inbound {
    /// A text frame.
    Text(String),
    /// A message that is not text; it carries no result.
    Other,
    /// The remote closed: no further frame will come.
    Closed,
    /// The read failed.
    Failed,
}

/// How to go on after a read.
#[derive(Debug, Clone, Copy, PartialEq, Eq, Structural)]
pub enum Step {
    /// The batch is not complete: read again.
    Continue,
    /// The batch is complete: read no more.
    Done,
    /// The read failed: the run is over and no batch is returned.
    Failed,
}

/// A read failed before the batch was complete.
#[derive(Debug, Clone, Copy, PartialEq, Eq, Structural)]
pub struct ReceiveError;

/// The outcome of a run over a sequence of reads.
pub struct Run {
    /// The frames gathered, in the order of their arrival.
    pub batch: Seq<Seq<char>>,
    /// How many reads were made.
    pub reads: nat,
    /// Whether a failed read ended the run.
    pub failed: bool,
}

/// Whether a batch of `held` frames is complete under `limit`.
pub open spec fn complete(limit: int, held: nat) -> bool {
    held >= limit
}

/// The batch after `event` was read while `batch` was held.
///
/// A text frame is appended unless the batch is complete already; nothing
/// else changes the batch.
pub open spec fn batch_after(limit: int, batch: Seq<Seq<char>>, event: Inbound) -> Seq<Seq<char>> {
    match event {
        Inbound::Text(frame) => if complete(limit, batch.len()) {
            batch
        } else {
            batch.push(frame@)
        },
        _ => batch,
    }
}

/// How to go on after `event` was read while `batch` was held.
pub open spec fn step_after(limit: int, batch: Seq<Seq<char>>, event: Inbound) -> Step {
    match event {
        Inbound::Failed => Step::Failed,
        Inbound::Closed => Step::Done,
        _ => if complete(limit, batch_after(limit, batch, event).len()) {
            Step::Done
        } else {
            Step::Continue
        },
    }
}

/// The run that starts with `batch` held after `reads` reads and goes on over
/// `events`, of which a read takes the first.
///
/// No read is made once the batch is complete. A link that yields nothing
/// more has ended.
pub open spec fn run_from(limit: int, batch: Seq<Seq<char>>, reads: nat, events: Seq<Inbound>) -> Run
    decreases events.len(),
{
    if complete(limit, batch.len()) || events.len() == 0 {
        Run { batch, reads, failed: false }
    } else {
        let next = batch_after(limit, batch, events[0]);
        match step_after(limit, batch, events[0]) {
            Step::Continue => run_from(limit, next, reads + 1, events.skip(1)),
            Step::Done => Run { batch: next, reads: reads + 1, failed: false },
            Step::Failed => Run { batch: next, reads: reads + 1, failed: true },
        }
    }
}

/// The run over `events` from an empty batch.
pub open spec fn run_of(limit: int, events: Seq<Inbound>) -> Run {
    run_from(limit, Seq::empty(), 0, events)
}

/// Gathers text frames up to a limit.
pub struct BoundedCollector {
    limit: i32,
    batch: Vec<String>,
}

impl BoundedCollector {
    /// The limit this collector was made with.
    pub closed spec fn limit(&self) -> int {
        self.limit as int
    }

    /// The frames gathered so far.
    pub closed spec fn batch(&self) -> Seq<Seq<char>> {
        self.batch@.map_values(|frame: String| frame@)
    }

    /// A collector that holds nothing yet.
    pub fn new(limit: i32) -> (collector: BoundedCollector)
        ensures
            collector.limit() == limit,
            collector.batch() == Seq::<Seq<char>>::empty(),
    {
        let collector = BoundedCollector { limit, batch: Vec::new() };
        assert(collector.batch() =~= Seq::<Seq<char>>::empty());
        collector
    }

    /// Whether another frame is to be read: the batch is not complete.
    ///
    /// With a limit of zero or less this is false from the start.
    pub fn wants_frame(&self) -> (wanted: bool)
        ensures
            wanted == !complete(self.limit(), self.batch().len()),
    {
        self.limit > 0 && self.batch.len() < self.limit as usize
    }

    /// Takes what a read delivered and says how to go on.
    ///
    /// The test for a complete batch comes before the append: a frame that
    /// arrives when the batch is complete is not added to it.
    pub fn accept(&mut self, event: Inbound) -> (step: Step)
        ensures
            final(self).limit() == old(self).limit(),
            final(self).batch() == batch_after(old(self).limit(), old(self).batch(), event),
            step == step_after(old(self).limit(), old(self).batch(), event),
    {
        match event {
            Inbound::Failed => Step::Failed,
            Inbound::Closed => Step::Done,
            Inbound::Other => if self.wants_frame() {
                Step::Continue
            } else {
                Step::Done
            },
            Inbound::Text(frame) => {
                if self.wants_frame() {
                    self.batch.push(frame);
                    assert(self.batch() =~= old(self).batch().push(frame@));
                }
                if self.wants_frame() {
                    Step::Continue
                } else {
                    Step::Done
                }
            },
        }
    }

    /// Hands out the batch.
    pub fn into_batch(self) -> (batch: Vec<String>)
        ensures
            batch@.map_values(|frame: String| frame@) == self.batch(),
    {
        self.batch
    }
}

/// A copy of `event`.
fn copy_of(event: &Inbound) -> (copy: Inbound)
    ensures
        copy == *event,
{
    match event {
        Inbound::Text(frame) => Inbound::Text(frame.clone()),
        Inbound::Other => Inbound::Other,
        Inbound::Closed => Inbound::Closed,
        Inbound::Failed => Inbound::Failed,
    }
}

/// Collects from a link whose reads deliver `events`, one after another.
///
/// Gives the batch, or the failure that ended the run, and beside it the
/// number of reads that were made.
pub fn collect(events: &Vec<Inbound>, limit: i32) -> (outcome: (
    Result<Vec<String>, ReceiveError>,
    usize,
))
    ensures
        outcome.0 is Err <==> run_of(limit as int, events@).failed,
        outcome.0 matches Ok(batch) ==> batch@.map_values(|frame: String| frame@) == run_of(
            limit as int,
            events@,
        ).batch,
        outcome.1 == run_of(limit as int, events@).reads,
{
    let mut collector = BoundedCollector::new(limit);
    let mut reads: usize = 0;
    assert(events@.skip(0) =~= events@);
    while collector.wants_frame() && reads < events.len()
        invariant
            reads <= events.len(),
            collector.limit() == limit,
            run_from(limit as int, collector.batch(), reads as nat, events@.skip(reads as int))
                == run_of(limit as int, events@),
        decreases events.len() - reads,
    {
        let step = collector.accept(copy_of(&events[reads]));
        proof {
            assert(events@.skip(reads as int)[0] == events@[reads as int]);
            assert(events@.skip(reads as int).skip(1) =~= events@.skip(reads + 1));
        }
        reads = reads + 1;
        match step {
            Step::Continue => {},
            Step::Done => {
                return (Ok(collector.into_batch()), reads);
            },
            Step::Failed => {
                return (Err(ReceiveError), reads);
            },
        }
    }
    (Ok(collector.into_batch()), reads)
}

/// The text that `event` carries; none for what is not a text frame.
pub open spec fn frame_of(event: Inbound) -> Seq<char> {
    match event {
        Inbound::Text(frame) => frame@,
        _ => Seq::empty(),
    }
}

/// Whether every one of `events` is a text frame.
pub open spec fn all_text(events: Seq<Inbound>) -> bool {
    forall|i: int| 0 <= i < events.len() ==> #[trigger] events[i] is Text
}

/// The texts of `events`, in order.
pub open spec fn frames_of(events: Seq<Inbound>) -> Seq<Seq<char>> {
    events.map_values(|event: Inbound| frame_of(event))
}

/// The number of frames that a batch can hold under `limit`.
pub open spec fn capacity(limit: int) -> nat {
    if limit > 0 {
        limit as nat
    } else {
        0
    }
}

/// How many frames a batch takes of `offered` text frames when it holds
/// `held` already: as many as are offered, up to the limit.
pub open spec fn room(limit: int, held: nat, offered: nat) -> nat {
    if limit - held <= 0 {
        0
    } else if limit - held < offered {
        (limit - held) as nat
    } else {
        offered
    }
}

/// From any state: the batch stays within the limit, only grows, and grows
/// by no more than the reads that are made; no more reads are made than
/// there are events.
pub proof fn lemma_run_from_bounds(
    limit: int,
    batch: Seq<Seq<char>>,
    reads: nat,
    events: Seq<Inbound>,
)
    requires
        batch.len() <= capacity(limit),
    ensures
        ({
            let run = run_from(limit, batch, reads, events);
            &&& run.batch.len() <= capacity(limit)
            &&& batch.len() <= run.batch.len()
            &&& run.batch.len() - batch.len() <= run.reads - reads
            &&& reads <= run.reads <= reads + events.len()
            &&& run.failed ==> run.reads > reads && events[run.reads - reads - 1] is Failed
        }),
    decreases events.len(),
{
    if !(complete(limit, batch.len()) || events.len() == 0) {
        if step_after(limit, batch, events[0]) == Step::Continue {
            let rest = events.skip(1);
            lemma_run_from_bounds(limit, batch_after(limit, batch, events[0]), reads + 1, rest);
            let run = run_from(limit, batch, reads, events);
            if run.failed {
                assert(rest[run.reads - reads - 2] == events[run.reads - reads - 1]);
            }
        }
    }
}

/// A batch never holds more frames than the limit allows nor more than were
/// read, and a run fails only on a failed read.
pub proof fn lemma_run_bounds(limit: int, events: Seq<Inbound>)
    ensures
        ({
            let run = run_of(limit, events);
            &&& run.batch.len() <= capacity(limit)
            &&& run.batch.len() <= run.reads <= events.len()
            &&& run.failed ==> run.reads > 0 && events[run.reads - 1] is Failed
        }),
{
    lemma_run_from_bounds(limit, Seq::empty(), 0, events);
}

/// With a limit of zero or less the batch is empty and nothing is read.
pub proof fn lemma_no_limit_no_read(limit: int, events: Seq<Inbound>)
    requires
        limit <= 0,
    ensures
        run_of(limit, events) == (Run { batch: Seq::empty(), reads: 0, failed: false }),
{
}

/// From any state, over text frames alone: the run appends the first frames
/// up to the limit, in order, and reads exactly those.
pub proof fn lemma_run_from_over_text(
    limit: int,
    batch: Seq<Seq<char>>,
    reads: nat,
    events: Seq<Inbound>,
)
    requires
        all_text(events),
    ensures
        ({
            let taken = room(limit, batch.len(), events.len());
            run_from(limit, batch, reads, events) == (Run {
                batch: batch + frames_of(events).take(taken as int),
                reads: reads + taken,
                failed: false,
            })
        }),
    decreases events.len(),
{
    let taken = room(limit, batch.len(), events.len());
    if complete(limit, batch.len()) || events.len() == 0 {
        assert(batch + frames_of(events).take(0) =~= batch);
    } else {
        let first = events[0];
        let rest = events.skip(1);
        assert(first is Text);
        let next = batch.push(frame_of(first));
        assert(all_text(rest)) by {
            assert forall|i: int| 0 <= i < rest.len() implies #[trigger] rest[i] is Text by {
                assert(rest[i] == events[i + 1]);
            }
        }
        let more = room(limit, next.len(), rest.len());
        assert(taken == more + 1);
        assert(next + frames_of(rest).take(more as int) =~= batch + frames_of(events).take(
            taken as int,
        ));
        if step_after(limit, batch, first) == Step::Continue {
            lemma_run_from_over_text(limit, next, reads + 1, rest);
        } else {
            assert(more == 0);
        }
    }
}

/// Over a link that yields text frames alone, the batch is the first frames
/// up to the limit, in order; exactly those are read, so no frame beyond the
/// limit is; and a link that ends before the limit is met is no failure.
pub proof fn lemma_run_over_text(limit: int, events: Seq<Inbound>)
    requires
        all_text(events),
    ensures
        ({
            let taken = room(limit, 0, events.len());
            run_of(limit, events) == (Run {
                batch: frames_of(events).take(taken as int),
                reads: taken,
                failed: false,
            })
        }),
{
    lemma_run_from_over_text(limit, Seq::empty(), 0, events);
    let taken = room(limit, 0, events.len());
    assert(Seq::<Seq<char>>::empty() + frames_of(events).take(taken as int) =~= frames_of(
        events,
    ).take(taken as int));
}

/// A close ends the run with what was gathered before it: what the link
/// might have yielded afterwards plays no part.
pub proof fn lemma_run_ends_at_close(limit: int, before: Seq<Inbound>, after: Seq<Inbound>)
    requires
        all_text(before),
        before.len() < limit,
    ensures
        run_of(limit, before + seq![Inbound::Closed] + after) == (Run {
            batch: frames_of(before),
            reads: before.len() + 1,
            failed: false,
        }),
{
    lemma_run_from_to_end(limit, Seq::empty(), 0, before, Inbound::Closed, after);
    assert(Seq::<Seq<char>>::empty() + frames_of(before) =~= frames_of(before));
}

/// A failed read before the limit is met fails the run.
pub proof fn lemma_run_fails_at_failure(limit: int, before: Seq<Inbound>, after: Seq<Inbound>)
    requires
        all_text(before),
        before.len() < limit,
    ensures
        run_of(limit, before + seq![Inbound::Failed] + after).failed,
        run_of(limit, before + seq![Inbound::Failed] + after).reads == before.len() + 1,
{
    lemma_run_from_to_end(limit, Seq::empty(), 0, before, Inbound::Failed, after);
}

/// From any state: text frames that leave the batch incomplete, then a close
/// or a failure.
proof fn lemma_run_from_to_end(
    limit: int,
    batch: Seq<Seq<char>>,
    reads: nat,
    before: Seq<Inbound>,
    end: Inbound,
    after: Seq<Inbound>,
)
    requires
        all_text(before),
        batch.len() + before.len() < limit,
        end is Closed || end is Failed,
    ensures
        run_from(limit, batch, reads, before + seq![end] + after) == (Run {
            batch: batch + frames_of(before),
            reads: reads + before.len() + 1,
            failed: end is Failed,
        }),
    decreases before.len(),
{
    let events = before + seq![end] + after;
    if before.len() == 0 {
        assert(events[0] == end);
        assert(batch + frames_of(before) =~= batch);
    } else {
        let rest = before.skip(1);
        assert(events[0] == before[0]);
        assert(before[0] is Text);
        assert(events.skip(1) =~= rest + seq![end] + after);
        assert(all_text(rest)) by {
            assert forall|i: int| 0 <= i < rest.len() implies #[trigger] rest[i] is Text by {
                assert(rest[i] == before[i + 1]);
            }
        }
        let next = batch.push(frame_of(before[0]));
        lemma_run_from_to_end(limit, next, reads + 1, rest, end, after);
        assert(next + frames_of(rest) =~= batch + frames_of(before));
    }
}

} // verus!

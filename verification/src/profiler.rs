//! The profiler context and the capture-routine logic.
//!
//! One `Profiler` value holds the process-wide state: the sample buffer, the
//! target registry, the shared sampling interval and the diagnostics counter.
//! `record_capture` is the computational heart of the interrupt-time handler:
//! given the frame identifiers the host runtime captured for one thread, it
//! writes one `[count, id0 .. idn-1, SEPARATOR, SEPARATOR]` run into the
//! buffer and advances the counter. `run_round` models one full trigger round
//! of the scheduler: per registered target, either the trigger failed to
//! deliver (nothing happens for that target) or it was delivered and the
//! handler ran with whatever the capture primitive returned.

use crate::buffer::{Buffer, DEFAULT_CAPACITY, SEPARATOR};
use crate::registry::Registry;
use crate::scheduler::ONE_MILLISECOND_NS;
use vstd::prelude::*;

verus! {

/// Capacity of the pre-allocated scratch buffer handed to the host's
/// stack-capture primitive: the maximum stack depth ever recorded.
pub const MAX_STACK_DEPTH: usize = 2048;

/// Process-wide profiling state, created once and passed by reference to
/// every component.
pub struct Profiler {
    pub buffer: Buffer,
    pub registry: Registry,
    pub interval_ns: u64,
    pub counter: u64,
}

/// The run one capture writes into the buffer: the frame count, the captured
/// frame identifiers in the order they were captured, then the double
/// sentinel.
pub open spec fn capture_record(frames: Seq<u64>) -> Seq<u64> {
    seq![frames.len() as u64] + frames + seq![SEPARATOR, SEPARATOR]
}

/// What the host's stack-capture primitive returned for one thread: the
/// number of captured frames and the caller-owned scratch buffer it filled.
/// A failed or empty capture is `frame_count == 0`.
pub struct ThreadCapture {
    pub frame_count: usize,
    pub frames: Vec<u64>,
}

impl ThreadCapture {
    /// The capture primitive never reports more frames than the scratch
    /// buffer holds, nor more than the maximum depth it was given.
    pub open spec fn wf(self) -> bool {
        self.frame_count <= self.frames@.len() && self.frame_count <= MAX_STACK_DEPTH
    }

    /// The frame identifiers actually captured: the filled prefix of the
    /// scratch buffer.
    pub open spec fn captured(self) -> Seq<u64> {
        self.frames@.take(self.frame_count as int)
    }

    /// The sub-run this capture contributes on its own: its frame count
    /// followed by its frames, without a separator.
    pub open spec fn sub_run(self) -> Seq<u64> {
        seq![self.captured().len() as u64] + self.captured()
    }
}

/// What one trigger round did for one registered target: whether the trigger
/// reached the thread, and, if it did, what the capture primitive returned
/// inside the handler.
pub struct TargetOutcome {
    pub delivered: bool,
    pub capture: ThreadCapture,
}

impl TargetOutcome {
    pub open spec fn wf(self) -> bool {
        self.capture.wf()
    }

    /// What this target contributed to the buffer: one capture record if the
    /// trigger was delivered, nothing if delivery failed.
    pub open spec fn record(self) -> Seq<u64> {
        if self.delivered {
            capture_record(self.capture.captured())
        } else {
            Seq::<u64>::empty()
        }
    }
}

/// Everything one round appends to the buffer: the records of the delivered
/// targets, concatenated in target order.
pub open spec fn round_records(outs: Seq<TargetOutcome>) -> Seq<u64>
    decreases outs.len(),
{
    if outs.len() == 0 {
        Seq::<u64>::empty()
    } else {
        round_records(outs.drop_last()) + outs.last().record()
    }
}

/// How many triggers of one round were delivered and executed.
pub open spec fn delivered_count(outs: Seq<TargetOutcome>) -> nat
    decreases outs.len(),
{
    if outs.len() == 0 {
        0nat
    } else {
        delivered_count(outs.drop_last()) + if outs.last().delivered {
            1nat
        } else {
            0nat
        }
    }
}

pub open spec fn all_outcomes_wf(outs: Seq<TargetOutcome>) -> bool {
    forall|k: int| 0 <= k < outs.len() ==> outs[k].wf()
}

/// What one multi-target handler invocation writes before its trailing
/// separator: the sub-runs of all sampled threads, concatenated in the
/// order the registry's runtime-handle list was walked.
pub open spec fn concat_sub_runs(cs: Seq<ThreadCapture>) -> Seq<u64>
    decreases cs.len(),
{
    if cs.len() == 0 {
        Seq::<u64>::empty()
    } else {
        concat_sub_runs(cs.drop_last()) + cs.last().sub_run()
    }
}

pub open spec fn all_captures_wf(cs: Seq<ThreadCapture>) -> bool {
    forall|k: int| 0 <= k < cs.len() ==> cs[k].wf()
}

impl Profiler {
    pub open spec fn wf(self) -> bool {
        self.buffer.wf()
    }

    /// A fresh context: empty buffer at the default capacity, no registered
    /// targets, the default one-millisecond interval, counter at zero.
    pub fn new() -> (r: Profiler)
        ensures
            r.wf(),
            r.buffer.capacity() == DEFAULT_CAPACITY,
            r.buffer.history@ == Seq::<u64>::empty(),
            r.buffer.cursor == 0,
            r.registry.targets@ == Seq::<u64>::empty(),
            r.registry.runtime_handles@ == Map::<u64, u64>::empty(),
            r.interval_ns == ONE_MILLISECOND_NS,
            r.counter == 0,
    {
        Profiler {
            buffer: Buffer::new(),
            registry: Registry::new(),
            interval_ns: ONE_MILLISECOND_NS,
            counter: 0,
        }
    }

    /// Registers a thread as a sampling target; duplicates add a second
    /// target rather than being rejected.
    pub fn register(&mut self, thread: u64, runtime_thread: u64)
        ensures
            final(self).registry.targets@ == old(self).registry.targets@.push(thread),
            final(self).registry.runtime_handles@ == old(self).registry.runtime_handles@.insert(
                thread,
                runtime_thread,
            ),
            final(self).buffer == old(self).buffer,
            final(self).interval_ns == old(self).interval_ns,
            final(self).counter == old(self).counter,
    {
        self.registry.register(thread, runtime_thread);
    }

    /// Stores a new target interval; it takes effect on the scheduler's next
    /// iteration, never the one in flight.
    pub fn set_sampling_interval(&mut self, nanos: u64)
        ensures
            final(self).interval_ns == nanos,
            final(self).buffer == old(self).buffer,
            final(self).registry == old(self).registry,
            final(self).counter == old(self).counter,
    {
        self.interval_ns = nanos;
    }

    pub fn get_sampling_interval(&self) -> (r: u64)
        ensures
            r == self.interval_ns,
    {
        self.interval_ns
    }

    /// Current value of the diagnostics counter: how many captures have
    /// completed so far.
    pub fn sample_count(&self) -> (r: u64)
        ensures
            r == self.counter,
    {
        self.counter
    }

    /// The target list the scheduler uses for one trigger round.
    pub fn snapshot_targets(&self) -> (r: Vec<u64>)
        ensures
            r@ == self.registry.targets@,
    {
        self.registry.snapshot_targets()
    }

    /// Writes one sub-run — the frame count, then the `frame_count` captured
    /// identifiers in order — without a separator.
    fn push_run(&mut self, frames: &Vec<u64>, frame_count: usize)
        requires
            old(self).wf(),
            frame_count <= frames@.len(),
            frame_count <= MAX_STACK_DEPTH,
            old(self).buffer.history@.len() + frame_count + 1 <= usize::MAX,
        ensures
            final(self).wf(),
            final(self).buffer.capacity() == old(self).buffer.capacity(),
            final(self).buffer.history@ == old(self).buffer.history@ + seq![frame_count as u64]
                + frames@.take(frame_count as int),
            final(self).counter == old(self).counter,
            final(self).registry == old(self).registry,
            final(self).interval_ns == old(self).interval_ns,
    {
        self.buffer.push(frame_count as u64);
        proof {
            assert(self.buffer.history@ =~= old(self).buffer.history@ + seq![
                frame_count as u64,
            ] + frames@.take(0));
        }
        let mut i: usize = 0;
        while i < frame_count
            invariant
                self.wf(),
                i <= frame_count,
                frame_count <= frames@.len(),
                self.buffer.capacity() == old(self).buffer.capacity(),
                self.buffer.history@ == old(self).buffer.history@ + seq![frame_count as u64]
                    + frames@.take(i as int),
                old(self).buffer.history@.len() + frame_count + 1 <= usize::MAX,
                self.counter == old(self).counter,
                self.registry == old(self).registry,
                self.interval_ns == old(self).interval_ns,
            decreases frame_count - i,
        {
            self.buffer.push(frames[i]);
            i = i + 1;
            proof {
                assert(frames@.take(i as int) =~= frames@.take(i - 1).push(frames@[i - 1]));
                assert(self.buffer.history@ =~= old(self).buffer.history@ + seq![
                    frame_count as u64,
                ] + frames@.take(i as int));
            }
        }
    }

    /// The work the interrupt-time handler does once the host's stack-capture
    /// primitive has returned: count the capture, then write the frame count,
    /// the `frame_count` captured identifiers in order, and the double
    /// sentinel into the buffer. A failed capture is passed in as
    /// `frame_count == 0` and still yields a (zero-length) record, so a
    /// reader can always resynchronize on the next separator.
    pub fn record_capture(&mut self, frames: &Vec<u64>, frame_count: usize)
        requires
            old(self).wf(),
            frame_count <= frames@.len(),
            frame_count <= MAX_STACK_DEPTH,
            old(self).buffer.history@.len() + frame_count + 3 <= usize::MAX,
            old(self).counter < u64::MAX,
        ensures
            final(self).wf(),
            final(self).buffer.capacity() == old(self).buffer.capacity(),
            final(self).buffer.history@ == old(self).buffer.history@ + capture_record(
                frames@.take(frame_count as int),
            ),
            final(self).counter == old(self).counter + 1,
            final(self).registry == old(self).registry,
            final(self).interval_ns == old(self).interval_ns,
    {
        self.counter = self.counter + 1;
        self.push_run(frames, frame_count);
        self.buffer.push_seperator();
        proof {
            assert(frames@.take(frame_count as int).len() == frame_count);
            assert(self.buffer.history@ =~= old(self).buffer.history@ + capture_record(
                frames@.take(frame_count as int),
            ));
        }
    }

    /// The multi-target handler variant: a single invocation samples several
    /// runtime threads cooperatively, writing one concatenated sub-run per
    /// sampled thread and a single trailing separator. A reader can tell the
    /// sub-runs apart only by their frame counts — there is no per-thread
    /// tag. The counter advances once, for the one handler invocation.
    pub fn record_capture_multi(&mut self, captures: &Vec<ThreadCapture>)
        requires
            old(self).wf(),
            all_captures_wf(captures@),
            old(self).buffer.history@.len() + concat_sub_runs(captures@).len() + 2 <= usize::MAX,
            old(self).counter < u64::MAX,
        ensures
            final(self).wf(),
            final(self).buffer.capacity() == old(self).buffer.capacity(),
            final(self).buffer.history@ == old(self).buffer.history@ + concat_sub_runs(captures@)
                + seq![SEPARATOR, SEPARATOR],
            final(self).counter == old(self).counter + 1,
            final(self).registry == old(self).registry,
            final(self).interval_ns == old(self).interval_ns,
    {
        self.counter = self.counter + 1;
        proof {
            assert(self.buffer.history@ =~= old(self).buffer.history@ + concat_sub_runs(
                captures@.take(0),
            ));
        }
        let mut i: usize = 0;
        while i < captures.len()
            invariant
                self.wf(),
                i <= captures@.len(),
                all_captures_wf(captures@),
                self.buffer.capacity() == old(self).buffer.capacity(),
                self.buffer.history@ == old(self).buffer.history@ + concat_sub_runs(
                    captures@.take(i as int),
                ),
                old(self).buffer.history@.len() + concat_sub_runs(captures@).len() + 2
                    <= usize::MAX,
                self.counter == old(self).counter + 1,
                self.registry == old(self).registry,
                self.interval_ns == old(self).interval_ns,
            decreases captures@.len() - i,
        {
            proof {
                assert(captures@.take(i + 1).drop_last() =~= captures@.take(i as int));
                assert(captures@.take(i + 1).last() == captures@[i as int]);
                lemma_sub_runs_prefix_bound(captures@, i + 1);
            }
            let c = &captures[i];
            self.push_run(&c.frames, c.frame_count);
            i = i + 1;
            proof {
                assert(self.buffer.history@ =~= old(self).buffer.history@ + concat_sub_runs(
                    captures@.take(i as int),
                ));
            }
        }
        proof {
            assert(captures@.take(captures@.len() as int) =~= captures@);
        }
        self.buffer.push_seperator();
        proof {
            assert(self.buffer.history@ =~= old(self).buffer.history@ + concat_sub_runs(captures@)
                + seq![SEPARATOR, SEPARATOR]);
        }
    }

    /// One full trigger round of the scheduler over the registered targets:
    /// for each target, in target order, either the trigger failed to deliver
    /// (nothing is written, the counter does not move) or the handler ran and
    /// recorded its capture. Appends exactly the delivered records and counts
    /// exactly the delivered captures.
    pub fn run_round(&mut self, outcomes: &Vec<TargetOutcome>)
        requires
            old(self).wf(),
            outcomes@.len() == old(self).registry.targets@.len(),
            all_outcomes_wf(outcomes@),
            old(self).buffer.history@.len() + round_records(outcomes@).len() <= usize::MAX,
            old(self).counter + outcomes@.len() <= u64::MAX,
        ensures
            final(self).wf(),
            final(self).buffer.capacity() == old(self).buffer.capacity(),
            final(self).buffer.history@ == old(self).buffer.history@ + round_records(outcomes@),
            final(self).counter == old(self).counter + delivered_count(outcomes@),
            final(self).registry == old(self).registry,
            final(self).interval_ns == old(self).interval_ns,
    {
        proof {
            assert(self.buffer.history@ =~= old(self).buffer.history@ + round_records(
                outcomes@.take(0),
            ));
        }
        let mut i: usize = 0;
        while i < outcomes.len()
            invariant
                self.wf(),
                i <= outcomes@.len(),
                all_outcomes_wf(outcomes@),
                self.buffer.capacity() == old(self).buffer.capacity(),
                self.buffer.history@ == old(self).buffer.history@ + round_records(
                    outcomes@.take(i as int),
                ),
                self.counter == old(self).counter + delivered_count(outcomes@.take(i as int)),
                self.registry == old(self).registry,
                self.interval_ns == old(self).interval_ns,
                old(self).buffer.history@.len() + round_records(outcomes@).len() <= usize::MAX,
                old(self).counter + outcomes@.len() <= u64::MAX,
            decreases outcomes@.len() - i,
        {
            proof {
                assert(outcomes@.take(i + 1).drop_last() =~= outcomes@.take(i as int));
                assert(outcomes@.take(i + 1).last() == outcomes@[i as int]);
                lemma_round_prefix_bounds(outcomes@, i + 1);
                lemma_counter_counts_deliveries(outcomes@.take(i as int));
            }
            let o = &outcomes[i];
            if o.delivered {
                self.record_capture(&o.capture.frames, o.capture.frame_count);
            }
            i = i + 1;
            proof {
                assert(self.buffer.history@ =~= old(self).buffer.history@ + round_records(
                    outcomes@.take(i as int),
                ));
            }
        }
        proof {
            assert(outcomes@.take(outcomes@.len() as int) =~= outcomes@);
        }
    }
}

/// The records of a prefix of a round never outgrow the records of the whole
/// round, and a prefix never counts more deliveries than the whole round.
proof fn lemma_round_prefix_bounds(outs: Seq<TargetOutcome>, i: int)
    requires
        0 <= i <= outs.len(),
    ensures
        round_records(outs.take(i)).len() <= round_records(outs).len(),
        delivered_count(outs.take(i)) <= delivered_count(outs),
    decreases outs.len() - i,
{
    if i == outs.len() {
        assert(outs.take(i) =~= outs);
    } else {
        assert(outs.take(i + 1).drop_last() =~= outs.take(i));
        assert(outs.take(i + 1).last() == outs[i]);
        lemma_round_prefix_bounds(outs, i + 1);
    }
}

/// The sub-runs of a prefix of a multi-target capture never outgrow the
/// sub-runs of the whole capture.
proof fn lemma_sub_runs_prefix_bound(cs: Seq<ThreadCapture>, i: int)
    requires
        0 <= i <= cs.len(),
    ensures
        concat_sub_runs(cs.take(i)).len() <= concat_sub_runs(cs).len(),
    decreases cs.len() - i,
{
    if i == cs.len() {
        assert(cs.take(i) =~= cs);
    } else {
        assert(cs.take(i + 1).drop_last() =~= cs.take(i));
        assert(cs.take(i + 1).last() == cs[i]);
        lemma_sub_runs_prefix_bound(cs, i + 1);
    }
}

/// Registration is not deduplicating: after registering the same thread
/// twice, the target list holds its handle at the last two positions, and a
/// round whose last two triggers were delivered appends two separate capture
/// records — one independent run per registration.
pub proof fn lemma_duplicate_registration_two_runs(
    targets: Seq<u64>,
    t: u64,
    outs: Seq<TargetOutcome>,
)
    requires
        outs.len() == targets.push(t).push(t).len(),
        outs[outs.len() - 2].delivered,
        outs[outs.len() - 1].delivered,
    ensures
        targets.push(t).push(t)[targets.len() as int] == t,
        targets.push(t).push(t)[targets.len() as int + 1] == t,
        round_records(outs) == round_records(outs.drop_last().drop_last()) + capture_record(
            outs[outs.len() - 2].capture.captured(),
        ) + capture_record(outs[outs.len() - 1].capture.captured()),
{
    assert(outs.len() >= 2);
    assert(outs.drop_last().len() == outs.len() - 1);
    assert(outs.drop_last().last() == outs[outs.len() - 2]);
    assert(round_records(outs) == round_records(outs.drop_last()) + outs.last().record());
    assert(round_records(outs.drop_last()) == round_records(outs.drop_last().drop_last())
        + outs.drop_last().last().record());
    assert(round_records(outs) =~= round_records(outs.drop_last().drop_last()) + capture_record(
        outs[outs.len() - 2].capture.captured(),
    ) + capture_record(outs[outs.len() - 1].capture.captured()));
}

/// The diagnostics counter advances by exactly one per delivered-and-executed
/// capture and is unaffected by delivery failures: a round where nothing was
/// delivered leaves it unchanged, and one where every trigger was delivered
/// advances it by exactly the number of targets.
pub proof fn lemma_counter_counts_deliveries(outs: Seq<TargetOutcome>)
    ensures
        delivered_count(outs) <= outs.len(),
        (forall|k: int| 0 <= k < outs.len() ==> !outs[k].delivered) ==> delivered_count(outs)
            == 0,
        (forall|k: int| 0 <= k < outs.len() ==> outs[k].delivered) ==> delivered_count(outs)
            == outs.len(),
    decreases outs.len(),
{
    if outs.len() > 0 {
        lemma_counter_counts_deliveries(outs.drop_last());
    }
}

/// A round with no registered targets leaves the sample buffer unmodified:
/// with no outcomes nothing is appended, so the stored slots and the write
/// cursor both stay as they were.
pub proof fn lemma_empty_round_leaves_buffer(p0: Profiler, p1: Profiler, outs: Seq<TargetOutcome>)
    requires
        p0.wf(),
        p1.wf(),
        outs.len() == 0,
        p1.buffer.history@ == p0.buffer.history@ + round_records(outs),
    ensures
        p1.buffer.history@ == p0.buffer.history@,
        p1.buffer.cursor == p0.buffer.cursor,
{
    assert(p0.buffer.history@ + round_records(outs) =~= p0.buffer.history@);
}

} // verus!

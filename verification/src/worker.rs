//! A paced, cancellation-aware audio producer over a bounded output queue.
use vstd::prelude::*;

use crate::buffer::AudioBuffer;
use crate::cancel::AudioCancellationToken;
use crate::error::{AudioError, AudioWorkerError};
use crate::pacing::{spec_timestamp_for, AudioClock, AudioDeadline, AudioPacer};
use crate::queue::{spec_push_fitting, AudioDropPolicy, AudioPushOutcome, AudioQueue};
use crate::sync::saturating_add_u64;
use crate::timestamp::Timestamp;
use crate::types::AudioFormat;

verus! {

/// Delta diagnostics from one paced audio worker run.
#[derive(Clone, Copy, Debug, PartialEq, Eq, Structural)]
pub struct AudioWorkerReport {
    requested_blocks: u64,
    processed_blocks: u64,
    cancelled: bool,
    underflow_blocks: u64,
    produced_frames: u64,
    dropped_oldest_frames: u64,
    dropped_newest_frames: u64,
    missed_deadlines: u64,
    total_lateness_nanos: u64,
    remaining_queue_frames: usize,
}

impl Default for AudioWorkerReport {
    fn default() -> (report: Self)
        ensures
            report.spec_requested_blocks() == 0,
            report.spec_processed_blocks() == 0,
            !report.spec_cancelled(),
            report.spec_underflow_blocks() == 0,
            report.spec_produced_frames() == 0,
            report.spec_dropped_oldest_frames() == 0,
            report.spec_dropped_newest_frames() == 0,
            report.spec_missed_deadlines() == 0,
            report.spec_total_lateness_nanos() == 0,
            report.spec_remaining_queue_frames() == 0,
    {
        AudioWorkerReport {
            requested_blocks: 0,
            processed_blocks: 0,
            cancelled: false,
            underflow_blocks: 0,
            produced_frames: 0,
            dropped_oldest_frames: 0,
            dropped_newest_frames: 0,
            missed_deadlines: 0,
            total_lateness_nanos: 0,
            remaining_queue_frames: 0,
        }
    }
}

/// `count * each`, capped at `u64::MAX`.
pub open spec fn saturating_product(count: int, each: int) -> u64 {
    if count * each > u64::MAX {
        u64::MAX
    } else {
        (count * each) as u64
    }
}

impl AudioWorkerReport {
    /// Blocks requested from the worker.
    pub closed spec fn spec_requested_blocks(self) -> u64 {
        self.requested_blocks
    }

    /// Paced blocks completed.
    pub closed spec fn spec_processed_blocks(self) -> u64 {
        self.processed_blocks
    }

    /// Whether cancellation stopped the run early.
    pub closed spec fn spec_cancelled(self) -> bool {
        self.cancelled
    }

    /// Blocks for which the producer returned no audio.
    pub closed spec fn spec_underflow_blocks(self) -> u64 {
        self.underflow_blocks
    }

    /// Produced sample frames, including dropped output.
    pub closed spec fn spec_produced_frames(self) -> u64 {
        self.produced_frames
    }

    /// Old frames removed under drop-oldest pressure.
    pub closed spec fn spec_dropped_oldest_frames(self) -> u64 {
        self.dropped_oldest_frames
    }

    /// Submitted frames discarded under drop-newest pressure.
    pub closed spec fn spec_dropped_newest_frames(self) -> u64 {
        self.dropped_newest_frames
    }

    /// Deadlines observed late after the producer returned.
    pub closed spec fn spec_missed_deadlines(self) -> u64 {
        self.missed_deadlines
    }

    /// Total lateness after the producer returned.
    pub closed spec fn spec_total_lateness_nanos(self) -> u64 {
        self.total_lateness_nanos
    }

    /// Frames left in the output queue.
    pub closed spec fn spec_remaining_queue_frames(self) -> usize {
        self.remaining_queue_frames
    }

    /// Returns the number of blocks requested from the worker.
    pub fn requested_blocks(self) -> (n: u64)
        ensures
            n == self.spec_requested_blocks(),
    {
        self.requested_blocks
    }

    /// Returns the number of paced blocks completed.
    pub fn processed_blocks(self) -> (n: u64)
        ensures
            n == self.spec_processed_blocks(),
    {
        self.processed_blocks
    }

    /// Returns whether cancellation stopped the run before its requested count.
    pub fn cancelled(self) -> (cancelled: bool)
        ensures
            cancelled == self.spec_cancelled(),
    {
        self.cancelled
    }

    /// Returns the number of blocks for which the producer returned no audio.
    pub fn underflow_blocks(self) -> (n: u64)
        ensures
            n == self.spec_underflow_blocks(),
    {
        self.underflow_blocks
    }

    /// Returns the number of produced sample frames, including dropped output.
    pub fn produced_frames(self) -> (n: u64)
        ensures
            n == self.spec_produced_frames(),
    {
        self.produced_frames
    }

    /// Returns the number of old sample frames removed under drop-oldest pressure.
    pub fn dropped_oldest_frames(self) -> (n: u64)
        ensures
            n == self.spec_dropped_oldest_frames(),
    {
        self.dropped_oldest_frames
    }

    /// Returns the number of submitted sample frames discarded under drop-newest pressure.
    pub fn dropped_newest_frames(self) -> (n: u64)
        ensures
            n == self.spec_dropped_newest_frames(),
    {
        self.dropped_newest_frames
    }

    /// Returns the number of post-callback deadlines observed late.
    pub fn missed_deadlines(self) -> (n: u64)
        ensures
            n == self.spec_missed_deadlines(),
    {
        self.missed_deadlines
    }

    /// Returns total post-callback lateness in nanoseconds.
    pub fn total_lateness_nanos(self) -> (n: u64)
        ensures
            n == self.spec_total_lateness_nanos(),
    {
        self.total_lateness_nanos
    }

    /// Returns the number of sample frames remaining in the output queue.
    pub fn remaining_queue_frames(self) -> (n: usize)
        ensures
            n == self.spec_remaining_queue_frames(),
    {
        self.remaining_queue_frames
    }
}


/// The counters of a worker report, as plain values.
pub struct ReportCounts {
    pub requested_blocks: u64,
    pub processed_blocks: u64,
    pub cancelled: bool,
    pub underflow_blocks: u64,
    pub produced_frames: u64,
    pub dropped_oldest_frames: u64,
    pub dropped_newest_frames: u64,
    pub missed_deadlines: u64,
    pub total_lateness_nanos: u64,
    pub remaining_queue_frames: usize,
}

impl View for AudioWorkerReport {
    type V = ReportCounts;

    open spec fn view(&self) -> ReportCounts {
        ReportCounts {
            requested_blocks: self.spec_requested_blocks(),
            processed_blocks: self.spec_processed_blocks(),
            cancelled: self.spec_cancelled(),
            underflow_blocks: self.spec_underflow_blocks(),
            produced_frames: self.spec_produced_frames(),
            dropped_oldest_frames: self.spec_dropped_oldest_frames(),
            dropped_newest_frames: self.spec_dropped_newest_frames(),
            missed_deadlines: self.spec_missed_deadlines(),
            total_lateness_nanos: self.spec_total_lateness_nanos(),
            remaining_queue_frames: self.spec_remaining_queue_frames(),
        }
    }
}

/// The counters at the start of a run of `block_count` blocks.
pub open spec fn initial_counts(block_count: u64) -> ReportCounts {
    ReportCounts {
        requested_blocks: block_count,
        processed_blocks: 0,
        cancelled: false,
        underflow_blocks: 0,
        produced_frames: 0,
        dropped_oldest_frames: 0,
        dropped_newest_frames: 0,
        missed_deadlines: 0,
        total_lateness_nanos: 0,
        remaining_queue_frames: 0,
    }
}

/// The submit error of what the producer returned for `deadline`, if any:
/// a buffer of another format, another length or another start time than
/// the block's, or one longer than the queue can ever hold. Returning no
/// buffer is no error.
pub open spec fn spec_block_error<S: Copy>(
    format: AudioFormat,
    capacity: nat,
    block_frames: usize,
    deadline: AudioDeadline,
    produced: Option<AudioBuffer<S>>,
) -> Option<AudioError> {
    match produced {
        None => None,
        Some(buffer) => if buffer.spec_format() != format {
            Some(AudioError::FormatMismatch { expected: format, actual: buffer.spec_format() })
        } else if buffer.spec_frames() != block_frames {
            Some(
                AudioError::FrameCountMismatch {
                    expected: block_frames,
                    actual: buffer.spec_frames() as usize,
                },
            )
        } else if buffer.spec_timestamp() != deadline.spec_timestamp() {
            Some(
                AudioError::BufferTimestampMismatch {
                    expected: deadline.spec_timestamp(),
                    actual: buffer.spec_timestamp(),
                },
            )
        } else if buffer.spec_frames() > capacity {
            Some(AudioError::BufferTooLarge { frames: buffer.spec_frames() as usize })
        } else {
            None
        },
    }
}

/// The queued buffers and counters after a block whose produced value has
/// no submit error: no buffer counts one underflow; a buffer counts its
/// frames as produced and is pushed, and what the push drops is counted.
pub open spec fn spec_accept<S: Copy>(
    buffers: Seq<AudioBuffer<S>>,
    capacity: nat,
    policy: AudioDropPolicy,
    counts: ReportCounts,
    produced: Option<AudioBuffer<S>>,
) -> (Seq<AudioBuffer<S>>, ReportCounts) {
    match produced {
        None => (
            buffers,
            ReportCounts {
                underflow_blocks: saturating_add_u64(counts.underflow_blocks as int, 1),
                ..counts
            },
        ),
        Some(buffer) => {
            let pushed = spec_push_fitting(buffers, capacity as int, policy, buffer);
            let counted = ReportCounts {
                produced_frames: saturating_add_u64(
                    counts.produced_frames as int,
                    buffer.spec_frames(),
                ),
                ..counts
            };
            (
                pushed.0,
                match pushed.1 {
                    AudioPushOutcome::Enqueued => counted,
                    AudioPushOutcome::DroppedOldest { frames } => ReportCounts {
                        dropped_oldest_frames: saturating_add_u64(
                            counted.dropped_oldest_frames as int,
                            frames as int,
                        ),
                        ..counted
                    },
                    AudioPushOutcome::DroppedNewest { frames } => ReportCounts {
                        dropped_newest_frames: saturating_add_u64(
                            counted.dropped_newest_frames as int,
                            frames as int,
                        ),
                        ..counted
                    },
                },
            )
        },
    }
}

/// The counters after a block ends `lateness` nanoseconds after its
/// deadline: a late block counts as a missed deadline and adds its
/// lateness, and the block counts as processed.
pub open spec fn spec_close_block(counts: ReportCounts, lateness: u64) -> ReportCounts {
    ReportCounts {
        processed_blocks: (counts.processed_blocks + 1) as u64,
        missed_deadlines: if lateness == 0 {
            counts.missed_deadlines
        } else {
            saturating_add_u64(counts.missed_deadlines as int, 1)
        },
        total_lateness_nanos: if lateness == 0 {
            counts.total_lateness_nanos
        } else {
            saturating_add_u64(counts.total_lateness_nanos as int, lateness as int)
        },
        ..counts
    }
}

/// `deadline` is that of block `k` of a run starting at sample index
/// `start`: its first sample index is `start + k * block_frames`, and its
/// timestamp is that index on the sample clock.
pub open spec fn is_block_deadline(
    deadline: AudioDeadline,
    format: AudioFormat,
    start: int,
    k: int,
    block_frames: usize,
) -> bool {
    &&& deadline.spec_index() == start + k * block_frames
    &&& deadline.spec_timestamp().spec_nanos() == spec_timestamp_for(
        start + k * block_frames,
        format.spec_sample_rate() as int,
    )
}

/// One completed block of a run: the producer, in some state, was handed
/// the block's deadline, the format and the block length and returned
/// `produced`, which had no submit error; the block ended `lateness`
/// nanoseconds late; and the queue and counters went from `before` to
/// `after` accordingly.
pub open spec fn block_completed<S: Copy, E, F: FnMut(AudioDeadline, AudioFormat, usize) -> Result<
    Option<AudioBuffer<S>>,
    E,
>>(
    format: AudioFormat,
    capacity: nat,
    policy: AudioDropPolicy,
    start: int,
    k: int,
    block_frames: usize,
    deadline: AudioDeadline,
    produced: Option<AudioBuffer<S>>,
    lateness: u64,
    buffers_before: Seq<AudioBuffer<S>>,
    counts_before: ReportCounts,
    buffers_after: Seq<AudioBuffer<S>>,
    counts_after: ReportCounts,
) -> bool {
    let accepted = spec_accept(buffers_before, capacity, policy, counts_before, produced);
    &&& block_frames > 0
    &&& is_block_deadline(deadline, format, start, k, block_frames)
    &&& exists|f: F|
        #[trigger] call_ensures(
            f,
            (deadline, format, block_frames),
            Ok::<Option<AudioBuffer<S>>, E>(produced),
        )
    &&& spec_block_error(format, capacity, block_frames, deadline, produced) is None
    &&& buffers_after == accepted.0
    &&& counts_after == spec_close_block(accepted.1, lateness)
}

/// The first `n` blocks of a run, block by block: `buffers[k]` and
/// `counts[k]` are the queue and counters before block `k`, and the last
/// entries those after block `n - 1`.
pub open spec fn run_trace<S: Copy, E, F: FnMut(AudioDeadline, AudioFormat, usize) -> Result<
    Option<AudioBuffer<S>>,
    E,
>>(
    format: AudioFormat,
    capacity: nat,
    policy: AudioDropPolicy,
    start: int,
    block_frames: usize,
    deadlines: Seq<AudioDeadline>,
    produced: Seq<Option<AudioBuffer<S>>>,
    lateness: Seq<u64>,
    buffers: Seq<Seq<AudioBuffer<S>>>,
    counts: Seq<ReportCounts>,
    n: int,
) -> bool {
    &&& 0 <= n
    &&& deadlines.len() == n
    &&& produced.len() == n
    &&& lateness.len() == n
    &&& buffers.len() == n + 1
    &&& counts.len() == n + 1
    &&& forall|k: int|
        0 <= k < n ==> #[trigger] block_completed::<S, E, F>(
            format,
            capacity,
            policy,
            start,
            k,
            block_frames,
            deadlines[k],
            produced[k],
            lateness[k],
            buffers[k],
            counts[k],
            buffers[k + 1],
            counts[k + 1],
        )
}

/// Why a run stopped at block `n` with `error`: the pacer refused the
/// block (an empty block, or a timeline that overflows at its index), the
/// producer, in some state, failed for the block's deadline, or it returned
/// a value with that submit error, which was not queued.
pub open spec fn block_failed<S: Copy, E, F: FnMut(AudioDeadline, AudioFormat, usize) -> Result<
    Option<AudioBuffer<S>>,
    E,
>>(
    format: AudioFormat,
    capacity: nat,
    start: int,
    n: int,
    block_frames: usize,
    error: AudioWorkerError<E>,
) -> bool {
    let index = start + n * block_frames;
    match error {
        AudioWorkerError::Pacing(e) => if block_frames == 0 {
            e == AudioError::ZeroBlock
        } else {
            &&& e == AudioError::ScheduleOverflow
            &&& (spec_timestamp_for(index, format.spec_sample_rate() as int) > u64::MAX || index
                + block_frames > u64::MAX)
        },
        AudioWorkerError::Source(e) => exists|deadline: AudioDeadline, f: F|
            #![trigger call_ensures(f, (deadline, format, block_frames), Err::<Option<AudioBuffer<S>>, E>(e))]
            block_frames > 0 && is_block_deadline(deadline, format, start, n, block_frames)
                && call_ensures(
                f,
                (deadline, format, block_frames),
                Err::<Option<AudioBuffer<S>>, E>(e),
            ),
        AudioWorkerError::Submit(e) => exists|
            deadline: AudioDeadline,
            produced: Option<AudioBuffer<S>>,
            f: F,
        |
            #![trigger call_ensures(f, (deadline, format, block_frames), Ok::<Option<AudioBuffer<S>>, E>(produced))]
            block_frames > 0 && is_block_deadline(deadline, format, start, n, block_frames)
                && call_ensures(
                f,
                (deadline, format, block_frames),
                Ok::<Option<AudioBuffer<S>>, E>(produced),
            ) && spec_block_error(format, capacity, block_frames, deadline, produced) == Some(e),
    }
}

/// A paced, cancellation-aware audio producer over a bounded output queue.
pub struct AudioWorker<S: Copy> {
    pacer: AudioPacer,
    queue: AudioQueue<S>,
}

/// The accounting that a completed run's report satisfies for
/// `block_count` requested blocks of `block_frames` frames.
pub open spec fn report_consistent(report: AudioWorkerReport, block_count: u64, block_frames: usize) -> bool {
    &&& report.spec_requested_blocks() == block_count
    &&& report.spec_processed_blocks() <= block_count
    &&& report.spec_underflow_blocks() <= report.spec_processed_blocks()
    &&& report.spec_missed_deadlines() <= report.spec_processed_blocks()
    &&& report.spec_produced_frames() == saturating_product(
        report.spec_processed_blocks() - report.spec_underflow_blocks(),
        block_frames as int,
    )
    &&& report.spec_cancelled() ==> report.spec_processed_blocks() < block_count
}

proof fn lemma_saturating_product_step(count: int, each: int)
    requires
        count >= 0,
        each >= 0,
    ensures
        saturating_add_u64(saturating_product(count, each) as int, each) == saturating_product(
            count + 1,
            each,
        ),
{
    assert((count + 1) * each == count * each + each) by (nonlinear_arith);
    assert(count * each >= 0) by (nonlinear_arith)
        requires
            count >= 0,
            each >= 0,
    ;
}

impl<S: Copy> AudioWorker<S> {
    /// The worker's pacer.
    pub closed spec fn spec_pacer(&self) -> AudioPacer {
        self.pacer
    }

    /// The worker's output queue.
    pub closed spec fn spec_queue(&self) -> AudioQueue<S> {
        self.queue
    }

    /// Internal consistency: the pacer and the queue share a format and the
    /// queue is consistent.
    pub closed spec fn inv(&self) -> bool {
        &&& self.queue.inv()
        &&& self.pacer.spec_scheduler().spec_format() == self.queue.spec_format()
    }

    /// Creates a worker for one audio format and bounded output policy.
    ///
    /// Returns [`AudioError::ZeroCapacity`] when `capacity_frames` is zero.
    pub fn new(format: AudioFormat, capacity_frames: usize, policy: AudioDropPolicy) -> (result:
        Result<Self, AudioError>)
        ensures
            match result {
                Ok(worker) => {
                    &&& capacity_frames > 0
                    &&& worker.inv()
                    &&& worker.spec_pacer().spec_scheduler().spec_format() == format
                    &&& worker.spec_pacer().spec_scheduler().spec_next_index() == 0
                    &&& worker.spec_queue().spec_capacity() == capacity_frames
                    &&& worker.spec_queue().spec_policy() == policy
                    &&& worker.spec_queue().spec_buffers().len() == 0
                },
                Err(error) => capacity_frames == 0 && error == AudioError::ZeroCapacity,
            },
    {
        let queue = match AudioQueue::new(format, capacity_frames, policy) {
            Ok(queue) => queue,
            Err(error) => return Err(error),
        };
        Ok(AudioWorker { pacer: AudioPacer::new(format), queue })
    }

    /// Runs up to `block_count` paced blocks without blocking the output consumer.
    ///
    /// Before each block the cancellation token is checked. The producer is
    /// called after the block reaches its sample-clock deadline; a produced
    /// buffer must match the worker format, block length, and exact
    /// first-sample timestamp, and is then pushed to the bounded queue.
    /// Returns [`AudioWorkerError::Pacing`] for clock/timeline failures,
    /// [`AudioWorkerError::Source`] for producer failures, or
    /// [`AudioWorkerError::Submit`] for a buffer contract violation.
    ///
    /// The run is described block by block (see [`run_trace`]): every
    /// completed block had its scheduled deadline, a producer result without
    /// a submit error, and the queue and counters changed as
    /// [`spec_accept`] and [`spec_close_block`] say. The run ends after
    /// `block_count` blocks, earlier when the token is seen cancelled, or
    /// with the error of the first block that fails ([`block_failed`]). The
    /// report says `cancelled` exactly when the run stopped on the token
    /// before `block_count` blocks.
    pub fn run<C: AudioClock, E, F>(
        &mut self,
        clock: &mut C,
        block_frames: usize,
        block_count: u64,
        cancellation: &AudioCancellationToken,
        mut produce: F,
    ) -> (result: Result<AudioWorkerReport, AudioWorkerError<E>>) where
        F: FnMut(AudioDeadline, AudioFormat, usize) -> Result<Option<AudioBuffer<S>>, E>,

        requires
            old(self).inv(),
            forall|f: F, deadline: AudioDeadline, format: AudioFormat, frames: usize|
                call_requires(f, (deadline, format, frames)),
        ensures
            final(self).inv(),
            final(self).spec_pacer().spec_scheduler().spec_format() == old(
                self,
            ).spec_pacer().spec_scheduler().spec_format(),
            final(self).spec_queue().spec_capacity() == old(self).spec_queue().spec_capacity(),
            final(self).spec_queue().spec_policy() == old(self).spec_queue().spec_policy(),
            exists|
                deadlines: Seq<AudioDeadline>,
                produced: Seq<Option<AudioBuffer<S>>>,
                lateness: Seq<u64>,
                buffers: Seq<Seq<AudioBuffer<S>>>,
                counts: Seq<ReportCounts>,
                n: int,
            |
                {
                    &&& #[trigger] run_trace::<S, E, F>(
                        old(self).spec_queue().spec_format(),
                        old(self).spec_queue().spec_capacity(),
                        old(self).spec_queue().spec_policy(),
                        old(self).spec_pacer().spec_scheduler().spec_next_index() as int,
                        block_frames,
                        deadlines,
                        produced,
                        lateness,
                        buffers,
                        counts,
                        n,
                    )
                    &&& buffers[0] == old(self).spec_queue().spec_buffers()
                    &&& counts[0] == initial_counts(block_count)
                    &&& final(self).spec_queue().spec_buffers() == buffers[n]
                    &&& final(self).spec_pacer().spec_scheduler().spec_next_index() == old(
                        self,
                    ).spec_pacer().spec_scheduler().spec_next_index() + if result matches Err(
                        AudioWorkerError::Source(_) | AudioWorkerError::Submit(_),
                    ) {
                        (n + 1) * block_frames
                    } else {
                        n * block_frames
                    }
                    &&& match result {
                        Ok(report) => {
                            &&& n <= block_count
                            &&& report@ == ReportCounts {
                                cancelled: report@.cancelled,
                                remaining_queue_frames: report@.remaining_queue_frames,
                                ..counts[n]
                            }
                            &&& report@.cancelled <==> n < block_count
                            &&& report@.remaining_queue_frames
                                == final(self).spec_queue().spec_queued_frames()
                        },
                        Err(error) => {
                            &&& n < block_count
                            &&& block_failed::<S, E, F>(
                                old(self).spec_queue().spec_format(),
                                old(self).spec_queue().spec_capacity(),
                                old(self).spec_pacer().spec_scheduler().spec_next_index() as int,
                                n,
                                block_frames,
                                error,
                            )
                        },
                    }
                },
            match result {
                Ok(report) => {
                    &&& report_consistent(report, block_count, block_frames)
                    &&& report.spec_remaining_queue_frames()
                        == final(self).spec_queue().spec_queued_frames()
                    &&& final(self).spec_pacer().spec_scheduler().spec_next_index() == old(
                        self,
                    ).spec_pacer().spec_scheduler().spec_next_index() + report.spec_processed_blocks()
                        * block_frames
                },
                Err(AudioWorkerError::Pacing(error)) => block_frames == 0 <==> error
                    == AudioError::ZeroBlock,
                Err(_) => true,
            },
    {
        let format = self.pacer.format();
        let mut report = AudioWorkerReport {
            requested_blocks: block_count,
            processed_blocks: 0,
            cancelled: false,
            underflow_blocks: 0,
            produced_frames: 0,
            dropped_oldest_frames: 0,
            dropped_newest_frames: 0,
            missed_deadlines: 0,
            total_lateness_nanos: 0,
            remaining_queue_frames: 0,
        };
        let ghost start_index = self.pacer.spec_scheduler().spec_next_index() as int;
        let ghost capacity = self.queue.spec_capacity();
        let ghost policy = self.queue.spec_policy();
        let ghost mut deadlines: Seq<AudioDeadline> = Seq::empty();
        let ghost mut produced_seq: Seq<Option<AudioBuffer<S>>> = Seq::empty();
        let ghost mut lateness_seq: Seq<u64> = Seq::empty();
        let ghost mut buffers_seq: Seq<Seq<AudioBuffer<S>>> = seq![self.queue.spec_buffers()];
        let ghost mut counts_seq: Seq<ReportCounts> = seq![report@];
        proof {
            assert(report@ == initial_counts(block_count));
        }
        let mut block: u64 = 0;
        let mut stopped = false;
        while block < block_count
            invariant_except_break
                block == report.processed_blocks,
                !stopped,
            invariant
                self.inv(),
                block <= block_count,
                report.processed_blocks <= block_count,
                forall|f: F, deadline: AudioDeadline, format: AudioFormat, frames: usize|
                    call_requires(f, (deadline, format, frames)),
                format == self.pacer.spec_scheduler().spec_format(),
                format == old(self).pacer.spec_scheduler().spec_format(),
                format == self.queue.spec_format(),
                format == old(self).queue.spec_format(),
                capacity == self.queue.spec_capacity(),
                policy == self.queue.spec_policy(),
                self.queue.spec_capacity() == old(self).queue.spec_capacity(),
                self.queue.spec_policy() == old(self).queue.spec_policy(),
                start_index == old(self).pacer.spec_scheduler().spec_next_index(),
                report.requested_blocks == block_count,
                !report.cancelled,
                report.remaining_queue_frames == 0,
                report.underflow_blocks <= report.processed_blocks,
                report.missed_deadlines <= report.processed_blocks,
                report.produced_frames == saturating_product(
                    report.processed_blocks - report.underflow_blocks,
                    block_frames as int,
                ),
                self.pacer.spec_scheduler().spec_next_index() == start_index
                    + report.processed_blocks * block_frames,
                run_trace::<S, E, F>(
                    format,
                    capacity,
                    policy,
                    start_index,
                    block_frames,
                    deadlines,
                    produced_seq,
                    lateness_seq,
                    buffers_seq,
                    counts_seq,
                    report.processed_blocks as int,
                ),
                buffers_seq[0] == old(self).queue.spec_buffers(),
                counts_seq[0] == initial_counts(block_count),
                buffers_seq[report.processed_blocks as int] == self.queue.spec_buffers(),
                counts_seq[report.processed_blocks as int] == report@,
            ensures
                stopped ==> report.processed_blocks < block_count,
                !stopped ==> report.processed_blocks == block_count,
            decreases block_count - block,
        {
            if cancellation.is_cancelled() {
                stopped = true;
                break;
            }
            let ghost n = report.processed_blocks as int;
            let ghost buffers_before = self.queue.spec_buffers();
            let ghost counts_before = report@;
            let pacing = match self.pacer.next(clock, block_frames) {
                Ok(pacing) => pacing,
                Err(error) => {
                    proof {
                        assert(run_trace::<S, E, F>(
                            format,
                            capacity,
                            policy,
                            start_index,
                            block_frames,
                            deadlines,
                            produced_seq,
                            lateness_seq,
                            buffers_seq,
                            counts_seq,
                            n,
                        ));
                        assert(n < block_count);
                        assert(self.queue.spec_buffers() == buffers_seq[n]);
                        assert(self.pacer.spec_scheduler().spec_next_index() == start_index + n
                            * block_frames);
                        assert(block_failed::<S, E, F>(
                            format,
                            capacity,
                            start_index,
                            n,
                            block_frames,
                            AudioWorkerError::Pacing(error),
                        ));
                    }
                    return Err(AudioWorkerError::Pacing(error));
                },
            };
            let deadline = pacing.deadline();
            proof {
                assert(is_block_deadline(deadline, format, start_index, n, block_frames));
                assert((n + 1) * block_frames == n * block_frames + block_frames) by (nonlinear_arith);
            }
            let ghost producer = produce;
            let produced = match produce(deadline, format, block_frames) {
                Ok(produced) => produced,
                Err(error) => {
                    proof {
                        assert(call_ensures(
                            producer,
                            (deadline, format, block_frames),
                            Err::<Option<AudioBuffer<S>>, E>(error),
                        ));
                        assert(run_trace::<S, E, F>(
                            format,
                            capacity,
                            policy,
                            start_index,
                            block_frames,
                            deadlines,
                            produced_seq,
                            lateness_seq,
                            buffers_seq,
                            counts_seq,
                            n,
                        ));
                        assert(n < block_count);
                        assert(block_frames > 0);
                        assert(is_block_deadline(deadline, format, start_index, n, block_frames));
                        assert(exists|d: AudioDeadline, f: F|
                            #![trigger call_ensures(f, (d, format, block_frames), Err::<Option<AudioBuffer<S>>, E>(error))]
                            block_frames > 0 && is_block_deadline(d, format, start_index, n, block_frames)
                                && call_ensures(
                                f,
                                (d, format, block_frames),
                                Err::<Option<AudioBuffer<S>>, E>(error),
                            ));
                        let ghost failure = AudioWorkerError::<E>::Source(error);
                        assert(failure matches AudioWorkerError::Source(e) && e == error);
                        assert(block_failed::<S, E, F>(
                            format,
                            capacity,
                            start_index,
                            n,
                            block_frames,
                            failure,
                        ));
                    }
                    return Err(AudioWorkerError::Source(error));
                },
            };
            proof {
                assert(call_ensures(
                    producer,
                    (deadline, format, block_frames),
                    Ok::<Option<AudioBuffer<S>>, E>(produced),
                ));
            }
            let ghost produced_value = produced;
            match produced {
                None => {
                    report.underflow_blocks = if report.underflow_blocks == u64::MAX {
                        u64::MAX
                    } else {
                        report.underflow_blocks + 1
                    };
                },
                Some(buffer) => {
                    if buffer.format() != format {
                        proof {
                            assert(run_trace::<S, E, F>(
                                format,
                                capacity,
                                policy,
                                start_index,
                                block_frames,
                                deadlines,
                                produced_seq,
                                lateness_seq,
                                buffers_seq,
                                counts_seq,
                                n,
                            ));
                        }
                        let error = AudioError::FormatMismatch { expected: format, actual: buffer.format() };
                        proof {
                            let ghost failure = AudioWorkerError::<E>::Submit(error);
                            assert(block_failed::<S, E, F>(
                                format,
                                capacity,
                                start_index,
                                n,
                                block_frames,
                                failure,
                            ));
                        }
                        return Err(AudioWorkerError::Submit(error));
                    }
                    if buffer.frames() != block_frames {
                        proof {
                            assert(run_trace::<S, E, F>(
                                format,
                                capacity,
                                policy,
                                start_index,
                                block_frames,
                                deadlines,
                                produced_seq,
                                lateness_seq,
                                buffers_seq,
                                counts_seq,
                                n,
                            ));
                        }
                        let error = AudioError::FrameCountMismatch {
                                    expected: block_frames,
                                    actual: buffer.frames(),
                                };
                        proof {
                            let ghost failure = AudioWorkerError::<E>::Submit(error);
                            assert(block_failed::<S, E, F>(
                                format,
                                capacity,
                                start_index,
                                n,
                                block_frames,
                                failure,
                            ));
                        }
                        return Err(AudioWorkerError::Submit(error));
                    }
                    if buffer.timestamp() != deadline.timestamp() {
                        proof {
                            assert(run_trace::<S, E, F>(
                                format,
                                capacity,
                                policy,
                                start_index,
                                block_frames,
                                deadlines,
                                produced_seq,
                                lateness_seq,
                                buffers_seq,
                                counts_seq,
                                n,
                            ));
                        }
                        let error = AudioError::BufferTimestampMismatch {
                                    expected: deadline.timestamp(),
                                    actual: buffer.timestamp(),
                                };
                        proof {
                            let ghost failure = AudioWorkerError::<E>::Submit(error);
                            assert(block_failed::<S, E, F>(
                                format,
                                capacity,
                                start_index,
                                n,
                                block_frames,
                                failure,
                            ));
                        }
                        return Err(AudioWorkerError::Submit(error));
                    }
                    proof {
                        lemma_saturating_product_step(
                            report.processed_blocks - report.underflow_blocks,
                            block_frames as int,
                        );
                    }
                    report.produced_frames = report.produced_frames.saturating_add(buffer.frames() as u64);
                    let outcome = match self.queue.push(buffer) {
                        Ok(outcome) => outcome,
                        Err(error) => {
                            proof {
                                assert(run_trace::<S, E, F>(
                                    format,
                                    capacity,
                                    policy,
                                    start_index,
                                    block_frames,
                                    deadlines,
                                    produced_seq,
                                    lateness_seq,
                                    buffers_seq,
                                    counts_seq,
                                    n,
                                ));
                                let ghost failure = AudioWorkerError::<E>::Submit(error);
                                assert(block_failed::<S, E, F>(
                                    format,
                                    capacity,
                                    start_index,
                                    n,
                                    block_frames,
                                    failure,
                                ));
                            }
                            return Err(AudioWorkerError::Submit(error));
                        },
                    };
                    match outcome {
                        AudioPushOutcome::Enqueued => {},
                        AudioPushOutcome::DroppedOldest { frames } => {
                            report.dropped_oldest_frames = report.dropped_oldest_frames.saturating_add(
                                frames as u64,
                            );
                        },
                        AudioPushOutcome::DroppedNewest { frames } => {
                            report.dropped_newest_frames = report.dropped_newest_frames.saturating_add(
                                frames as u64,
                            );
                        },
                    }
                },
            }
            let ghost accepted = spec_accept(buffers_before, capacity, policy, counts_before, produced_value);
            proof {
                assert(self.queue.spec_buffers() == accepted.0);
                assert(report@ == accepted.1);
            }
            let observed_at = clock.now();
            let lateness = observed_at.as_nanos().saturating_sub(deadline.timestamp().as_nanos());
            if lateness != 0 {
                report.missed_deadlines = report.missed_deadlines.saturating_add(1);
                report.total_lateness_nanos = report.total_lateness_nanos.saturating_add(lateness);
            }
            proof {
                assert((report.processed_blocks + 1) * block_frames == report.processed_blocks
                    * block_frames + block_frames) by (nonlinear_arith);
            }
            report.processed_blocks = report.processed_blocks + 1;
            proof {
                assert(report@ == spec_close_block(accepted.1, lateness));
                assert(block_completed::<S, E, F>(
                    format,
                    capacity,
                    policy,
                    start_index,
                    n,
                    block_frames,
                    deadline,
                    produced_value,
                    lateness,
                    buffers_before,
                    counts_before,
                    self.queue.spec_buffers(),
                    report@,
                ));
                let ghost old_deadlines = deadlines;
                let ghost old_produced = produced_seq;
                let ghost old_lateness = lateness_seq;
                let ghost old_buffers = buffers_seq;
                let ghost old_counts = counts_seq;
                deadlines = deadlines.push(deadline);
                produced_seq = produced_seq.push(produced_value);
                lateness_seq = lateness_seq.push(lateness);
                buffers_seq = buffers_seq.push(self.queue.spec_buffers());
                counts_seq = counts_seq.push(report@);
                assert forall|k: int| 0 <= k < n + 1 implies #[trigger] block_completed::<S, E, F>(
                    format,
                    capacity,
                    policy,
                    start_index,
                    k,
                    block_frames,
                    deadlines[k],
                    produced_seq[k],
                    lateness_seq[k],
                    buffers_seq[k],
                    counts_seq[k],
                    buffers_seq[k + 1],
                    counts_seq[k + 1],
                ) by {
                    if k < n {
                        assert(deadlines[k] == old_deadlines[k]);
                        assert(produced_seq[k] == old_produced[k]);
                        assert(lateness_seq[k] == old_lateness[k]);
                        assert(buffers_seq[k] == old_buffers[k]);
                        assert(buffers_seq[k + 1] == old_buffers[k + 1]);
                        assert(counts_seq[k] == old_counts[k]);
                        assert(counts_seq[k + 1] == old_counts[k + 1]);
                    }
                }
            }
            block = block + 1;
        }
        report.cancelled = stopped;
        report.remaining_queue_frames = self.queue.queued_frames();
        proof {
            assert(run_trace::<S, E, F>(
                format,
                capacity,
                policy,
                start_index,
                block_frames,
                deadlines,
                produced_seq,
                lateness_seq,
                buffers_seq,
                counts_seq,
                report.processed_blocks as int,
            ));
        }
        Ok(report)
    }

    /// Removes and returns the oldest produced audio block.
    pub fn take_next(&mut self) -> (buffer: Option<AudioBuffer<S>>)
        requires
            old(self).inv(),
        ensures
            final(self).inv(),
            final(self).spec_pacer() == old(self).spec_pacer(),
            match buffer {
                Some(b) => {
                    &&& old(self).spec_queue().spec_buffers().len() > 0
                    &&& b == old(self).spec_queue().spec_buffers()[0]
                    &&& final(self).spec_queue().spec_buffers() == old(
                        self,
                    ).spec_queue().spec_buffers().skip(1)
                },
                None => {
                    &&& old(self).spec_queue().spec_buffers().len() == 0
                    &&& final(self).spec_queue().spec_buffers() == old(self).spec_queue().spec_buffers()
                },
            },
    {
        self.queue.pop()
    }

    /// Returns the number of sample frames waiting for the output consumer.
    pub fn queued_frames(&self) -> (frames: usize)
        requires
            self.inv(),
        ensures
            frames == self.spec_queue().spec_queued_frames(),
            frames <= self.spec_queue().spec_capacity(),
    {
        proof {
            self.queue.lemma_inv_wf();
        }
        self.queue.queued_frames()
    }

    /// Returns the configured worker format.
    pub fn format(&self) -> (format: AudioFormat)
        ensures
            format == self.spec_pacer().spec_scheduler().spec_format(),
    {
        self.pacer.format()
    }

    /// Resets the timeline and discards queued output for a new run.
    pub fn reset(&mut self)
        requires
            old(self).inv(),
        ensures
            final(self).inv(),
            final(self).spec_pacer().spec_scheduler().spec_next_index() == 0,
            final(self).spec_pacer().spec_scheduler().spec_format() == old(
                self,
            ).spec_pacer().spec_scheduler().spec_format(),
            final(self).spec_queue().spec_buffers().len() == 0,
            final(self).spec_queue().spec_capacity() == old(self).spec_queue().spec_capacity(),
            final(self).spec_queue().spec_policy() == old(self).spec_queue().spec_policy(),
    {
        self.pacer.reset();
        self.queue.clear();
    }
}

} // verus!

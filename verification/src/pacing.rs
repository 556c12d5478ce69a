//! Exact rational sample-clock deadlines and block pacing.
use vstd::prelude::*;

use crate::error::AudioError;
use crate::timestamp::Timestamp;
use crate::types::AudioFormat;

verus! {

broadcast use AudioFormat::lemma_wf;

/// The first-sample timestamp, in nanoseconds, of sample frame `index`.
pub open spec fn spec_timestamp_for(index: int, sample_rate: int) -> int {
    index * 1_000_000_000 / sample_rate
}

/// Later sample frames never get earlier deadlines.
pub proof fn lemma_timestamps_monotone(i: int, j: int, sample_rate: int)
    requires
        0 <= i <= j,
        sample_rate > 0,
    ensures
        spec_timestamp_for(i, sample_rate) <= spec_timestamp_for(j, sample_rate),
{
    assert(i * 1_000_000_000 <= j * 1_000_000_000);
    vstd::arithmetic::div_mod::lemma_div_is_ordered(i * 1_000_000_000, j * 1_000_000_000, sample_rate);
}

/// One exact sample-clock deadline.
#[derive(Clone, Copy, Debug, PartialEq, Eq, Structural)]
pub struct AudioDeadline {
    pub(crate) index: u64,
    pub(crate) timestamp: Timestamp,
}

impl AudioDeadline {
    /// The deadline's sample-frame index.
    pub closed spec fn spec_index(self) -> u64 {
        self.index
    }

    /// The deadline's timestamp.
    pub closed spec fn spec_timestamp(self) -> Timestamp {
        self.timestamp
    }

    /// Returns the zero-based sample-frame index.
    pub fn index(self) -> (index: u64)
        ensures
            index == self.spec_index(),
    {
        self.index
    }

    /// Returns the exact integer nanosecond timestamp for the frame.
    pub fn timestamp(self) -> (timestamp: Timestamp)
        ensures
            timestamp == self.spec_timestamp(),
    {
        self.timestamp
    }
}

/// A rational sample-clock scheduler without floating-point drift.
pub struct AudioScheduler {
    format: AudioFormat,
    next_index: u64,
}

/// Clock operations needed by the portable audio pacer.
///
/// Implementations supply the wall clock; nothing is assumed of the values
/// they return.
pub trait AudioClock {
    /// Returns elapsed monotonic time from the clock's origin.
    fn now(&self) -> Timestamp;

    /// Waits until `deadline`, returning immediately when it has already passed.
    fn sleep_until(&mut self, deadline: Timestamp);
}

/// The result of waiting for one audio block deadline.
#[derive(Clone, Copy, Debug, PartialEq, Eq, Structural)]
pub struct AudioPacingResult {
    deadline: AudioDeadline,
    frames: usize,
    requested_at: Timestamp,
    observed_at: Timestamp,
    waited_nanos: u64,
}

impl AudioPacingResult {
    /// The first sample-frame deadline of the block.
    pub closed spec fn spec_deadline(self) -> AudioDeadline {
        self.deadline
    }

    /// The block's number of frames.
    pub closed spec fn spec_frames(self) -> usize {
        self.frames
    }

    /// The clock reading before waiting.
    pub closed spec fn spec_requested_at(self) -> Timestamp {
        self.requested_at
    }

    /// The clock reading after waiting.
    pub closed spec fn spec_observed_at(self) -> Timestamp {
        self.observed_at
    }

    /// The time spent waiting.
    pub closed spec fn spec_waited_nanos(self) -> u64 {
        self.waited_nanos
    }

    /// Returns the first sample-frame deadline in the block.
    pub fn deadline(self) -> (deadline: AudioDeadline)
        ensures
            deadline == self.spec_deadline(),
    {
        self.deadline
    }

    /// Returns the number of sample frames represented by the block.
    pub fn frames(self) -> (frames: usize)
        ensures
            frames == self.spec_frames(),
    {
        self.frames
    }

    /// Returns the clock reading before waiting.
    pub fn requested_at(self) -> (at: Timestamp)
        ensures
            at == self.spec_requested_at(),
    {
        self.requested_at
    }

    /// Returns the clock reading after waiting.
    pub fn observed_at(self) -> (at: Timestamp)
        ensures
            at == self.spec_observed_at(),
    {
        self.observed_at
    }

    /// Returns elapsed time spent waiting.
    pub fn waited_nanos(self) -> (nanos: u64)
        ensures
            nanos == self.spec_waited_nanos(),
    {
        self.waited_nanos
    }

    /// Returns whether the block was observed after its first-sample deadline.
    pub fn missed(self) -> (missed: bool)
        ensures
            missed <==> self.spec_observed_at().spec_nanos()
                > self.spec_deadline().spec_timestamp().spec_nanos(),
    {
        self.observed_at.as_nanos() > self.deadline.timestamp.as_nanos()
    }

    /// Returns lateness after the first-sample deadline, or zero when on time.
    pub fn lateness_nanos(self) -> (lateness: u64)
        ensures
            lateness == saturating_difference(
                self.spec_observed_at().spec_nanos() as int,
                self.spec_deadline().spec_timestamp().spec_nanos() as int,
            ),
    {
        self.observed_at.as_nanos().saturating_sub(self.deadline.timestamp.as_nanos())
    }
}

/// `a - b`, or zero when `b` exceeds `a`.
pub open spec fn saturating_difference(a: int, b: int) -> int {
    if a > b {
        a - b
    } else {
        0
    }
}

/// A block-based sample-clock pacer with an injected wall clock.
pub struct AudioPacer {
    scheduler: AudioScheduler,
}

impl AudioScheduler {
    /// The scheduled format.
    pub closed spec fn spec_format(self) -> AudioFormat {
        self.format
    }

    /// The sample-frame index of the next deadline.
    pub closed spec fn spec_next_index(self) -> u64 {
        self.next_index
    }

    /// Creates a scheduler beginning at sample-frame index zero.
    pub fn new(format: AudioFormat) -> (scheduler: Self)
        ensures
            scheduler.spec_format() == format,
            scheduler.spec_next_index() == 0,
    {
        AudioScheduler { format, next_index: 0 }
    }

    /// Returns and advances the next exact sample-clock deadline.
    ///
    /// Returns [`AudioError::ScheduleOverflow`], leaving the scheduler
    /// unchanged, when the timeline no longer fits in the public integer
    /// representation.
    pub fn next_deadline(&mut self) -> (result: Result<AudioDeadline, AudioError>)
        ensures
            final(self).spec_format() == old(self).spec_format(),
            ({
                let index = old(self).spec_next_index();
                let nanos = spec_timestamp_for(
                    index as int,
                    old(self).spec_format().spec_sample_rate() as int,
                );
                if nanos > u64::MAX || index == u64::MAX {
                    &&& result == Err::<AudioDeadline, AudioError>(AudioError::ScheduleOverflow)
                    &&& final(self).spec_next_index() == index
                } else {
                    &&& result is Ok
                    &&& result->Ok_0.spec_index() == index
                    &&& result->Ok_0.spec_timestamp().spec_nanos() == nanos
                    &&& final(self).spec_next_index() == index + 1
                }
            }),
    {
        let index = self.next_index;
        let timestamp = match audio_timestamp_for(index, self.format.sample_rate()) {
            Ok(timestamp) => timestamp,
            Err(error) => return Err(error),
        };
        if self.next_index == u64::MAX {
            return Err(AudioError::ScheduleOverflow);
        }
        self.next_index = self.next_index + 1;
        Ok(AudioDeadline { index, timestamp })
    }

    /// Returns and advances the first deadline of a non-empty audio block.
    ///
    /// Returns [`AudioError::ZeroBlock`] for an empty block or
    /// [`AudioError::ScheduleOverflow`] when advancing the sample index
    /// fails; the scheduler is then unchanged.
    pub fn next_block_deadline(&mut self, frames: usize) -> (result: Result<AudioDeadline, AudioError>)
        ensures
            final(self).spec_format() == old(self).spec_format(),
            ({
                let index = old(self).spec_next_index();
                let nanos = spec_timestamp_for(
                    index as int,
                    old(self).spec_format().spec_sample_rate() as int,
                );
                if frames == 0 {
                    &&& result == Err::<AudioDeadline, AudioError>(AudioError::ZeroBlock)
                    &&& final(self).spec_next_index() == index
                } else if nanos > u64::MAX || index + frames > u64::MAX {
                    &&& result == Err::<AudioDeadline, AudioError>(AudioError::ScheduleOverflow)
                    &&& final(self).spec_next_index() == index
                } else {
                    &&& result is Ok
                    &&& result->Ok_0.spec_index() == index
                    &&& result->Ok_0.spec_timestamp().spec_nanos() == nanos
                    &&& final(self).spec_next_index() == index + frames
                }
            }),
    {
        if frames == 0 {
            return Err(AudioError::ZeroBlock);
        }
        let timestamp = match audio_timestamp_for(self.next_index, self.format.sample_rate()) {
            Ok(timestamp) => timestamp,
            Err(error) => return Err(error),
        };
        let deadline = AudioDeadline { index: self.next_index, timestamp };
        let frames = frames as u64;
        match self.next_index.checked_add(frames) {
            Some(next) => {
                self.next_index = next;
                Ok(deadline)
            },
            None => Err(AudioError::ScheduleOverflow),
        }
    }

    /// Resets the scheduler to sample-frame index zero.
    pub fn reset(&mut self)
        ensures
            final(self).spec_format() == old(self).spec_format(),
            final(self).spec_next_index() == 0,
    {
        self.next_index = 0;
    }

    /// Returns the scheduled audio format.
    pub fn format(&self) -> (format: AudioFormat)
        ensures
            format == self.spec_format(),
    {
        self.format
    }
}

impl AudioPacer {
    /// The pacer's scheduler.
    pub closed spec fn spec_scheduler(self) -> AudioScheduler {
        self.scheduler
    }

    /// Creates a block pacer beginning at sample-frame index zero.
    pub fn new(format: AudioFormat) -> (pacer: Self)
        ensures
            pacer.spec_scheduler().spec_format() == format,
            pacer.spec_scheduler().spec_next_index() == 0,
    {
        AudioPacer { scheduler: AudioScheduler::new(format) }
    }

    /// Waits for the first sample deadline of the next non-empty block.
    ///
    /// The block's deadline is taken from the scheduler exactly as
    /// [`AudioScheduler::next_block_deadline`] states; the clock is read,
    /// asked to sleep until that deadline, and read again. Returns
    /// [`AudioError::ZeroBlock`] for an empty block or
    /// [`AudioError::ScheduleOverflow`] when the sample timeline is
    /// exhausted, without touching the clock.
    pub fn next<C: AudioClock>(&mut self, clock: &mut C, frames: usize) -> (result: Result<
        AudioPacingResult,
        AudioError,
    >)
        ensures
            final(self).spec_scheduler().spec_format() == old(self).spec_scheduler().spec_format(),
            ({
                let index = old(self).spec_scheduler().spec_next_index();
                let nanos = spec_timestamp_for(
                    index as int,
                    old(self).spec_scheduler().spec_format().spec_sample_rate() as int,
                );
                if frames == 0 {
                    &&& result == Err::<AudioPacingResult, AudioError>(AudioError::ZeroBlock)
                    &&& final(self).spec_scheduler().spec_next_index() == index
                } else if nanos > u64::MAX || index + frames > u64::MAX {
                    &&& result == Err::<AudioPacingResult, AudioError>(
                        AudioError::ScheduleOverflow,
                    )
                    &&& final(self).spec_scheduler().spec_next_index() == index
                } else {
                    &&& result is Ok
                    &&& result->Ok_0.spec_deadline().spec_index() == index
                    &&& result->Ok_0.spec_deadline().spec_timestamp().spec_nanos() == nanos
                    &&& result->Ok_0.spec_frames() == frames
                    &&& result->Ok_0.spec_waited_nanos() == saturating_difference(
                        result->Ok_0.spec_observed_at().spec_nanos() as int,
                        result->Ok_0.spec_requested_at().spec_nanos() as int,
                    )
                    &&& final(self).spec_scheduler().spec_next_index() == index + frames
                }
            }),
    {
        let deadline = match self.scheduler.next_block_deadline(frames) {
            Ok(deadline) => deadline,
            Err(error) => return Err(error),
        };
        let requested_at = clock.now();
        clock.sleep_until(deadline.timestamp());
        let observed_at = clock.now();
        Ok(AudioPacingResult {
            deadline,
            frames,
            requested_at,
            observed_at,
            waited_nanos: observed_at.as_nanos().saturating_sub(requested_at.as_nanos()),
        })
    }

    /// Resets the pacer to sample-frame index zero.
    pub fn reset(&mut self)
        ensures
            final(self).spec_scheduler().spec_format() == old(self).spec_scheduler().spec_format(),
            final(self).spec_scheduler().spec_next_index() == 0,
    {
        self.scheduler.reset();
    }

    /// Returns the configured audio format.
    pub fn format(&self) -> (format: AudioFormat)
        ensures
            format == self.spec_scheduler().spec_format(),
    {
        self.scheduler.format()
    }
}

/// The timestamp of sample frame `index`, or
/// [`AudioError::ScheduleOverflow`] when it does not fit in `u64`.
pub fn audio_timestamp_for(index: u64, sample_rate: u32) -> (result: Result<Timestamp, AudioError>)
    requires
        sample_rate > 0,
    ensures
        match result {
            Ok(t) => t.spec_nanos() == spec_timestamp_for(index as int, sample_rate as int),
            Err(e) => {
                &&& e == AudioError::ScheduleOverflow
                &&& spec_timestamp_for(index as int, sample_rate as int) > u64::MAX
            },
        },
{
    let nanoseconds = (index as u128) * 1_000_000_000u128 / (sample_rate as u128);
    if nanoseconds > u64::MAX as u128 {
        return Err(AudioError::ScheduleOverflow);
    }
    Ok(Timestamp::from_nanos(nanoseconds as u64))
}

} // verus!

//! A bounded, sample-quantized delay line for one audio source.
use vstd::prelude::*;

use crate::buffer::{repeat, AudioBuffer};
use crate::error::AudioError;
use crate::types::AudioFormat;
use std::collections::VecDeque;

verus! {

broadcast use AudioFormat::lemma_wf;

/// Maximum positive per-source delay accepted by the portable audio path.
pub const MAX_AUDIO_SYNC_OFFSET_MILLISECONDS: u32 = 5_000;

/// Sample frames, rounded down, in `milliseconds` at `sample_rate`.
pub open spec fn spec_delay_frames(milliseconds: int, sample_rate: int) -> int {
    milliseconds * sample_rate / 1_000
}


/// The delay in frames is the requested milliseconds of samples, rounded
/// down: `frames` whole sample periods fit in the delay and one more does
/// not. So the delay grows with the sample rate and with the milliseconds.
pub proof fn lemma_delay_frames_cover_milliseconds(milliseconds: int, sample_rate: int)
    requires
        milliseconds >= 0,
        sample_rate > 0,
    ensures
        ({
            let frames = spec_delay_frames(milliseconds, sample_rate);
            &&& frames >= 0
            &&& frames * 1_000 <= milliseconds * sample_rate
            &&& milliseconds * sample_rate < (frames + 1) * 1_000
        }),
{
    assert(milliseconds * sample_rate >= 0) by (nonlinear_arith)
        requires
            milliseconds >= 0,
            sample_rate > 0,
    ;
    let product = milliseconds * sample_rate;
    assert(product / 1_000 * 1_000 <= product);
    assert(product < (product / 1_000 + 1) * 1_000);
}

/// A longer delay or a faster sample rate never gives fewer delay frames.
pub proof fn lemma_delay_frames_monotone(milliseconds: int, sample_rate: int, more_milliseconds: int, faster_rate: int)
    requires
        0 <= milliseconds <= more_milliseconds,
        0 < sample_rate <= faster_rate,
    ensures
        spec_delay_frames(milliseconds, sample_rate) <= spec_delay_frames(more_milliseconds, faster_rate),
{
    assert(milliseconds * sample_rate <= more_milliseconds * faster_rate) by (nonlinear_arith)
        requires
            0 <= milliseconds <= more_milliseconds,
            0 < sample_rate <= faster_rate,
    ;
    vstd::arithmetic::div_mod::lemma_div_is_ordered(
        milliseconds * sample_rate,
        more_milliseconds * faster_rate,
        1_000,
    );
}

/// A bounded, sample-quantized delay line for one audio source.
///
/// The line prefixes the configured delay with silence, then emits captured
/// samples in order: the samples still pending always number exactly the
/// delay, and each processed block is replaced by the oldest pending samples.
pub struct AudioDelayLine<S: Copy> {
    format: AudioFormat,
    delay_milliseconds: u32,
    delay_frames: usize,
    delay_samples: usize,
    block_frames: usize,
    silence: S,
    samples: VecDeque<S>,
}

/// What `with_block_frames(format, milliseconds, block_frames, _)` rejects,
/// or `None` when it succeeds.
pub open spec fn delay_error(format: AudioFormat, milliseconds: u32, block_frames: usize) -> Option<
    AudioError,
> {
    let frames = spec_delay_frames(milliseconds as int, format.spec_sample_rate() as int);
    let channels = format.spec_channels() as int;
    if milliseconds > MAX_AUDIO_SYNC_OFFSET_MILLISECONDS {
        Some(AudioError::InvalidSyncOffset { milliseconds })
    } else if frames > usize::MAX || frames * channels > usize::MAX || block_frames * channels
        > usize::MAX || frames * channels + block_frames * channels > usize::MAX {
        Some(AudioError::ScheduleOverflow)
    } else {
        None
    }
}

impl<S: Copy> AudioDelayLine<S> {
    /// The accepted format.
    pub closed spec fn spec_format(&self) -> AudioFormat {
        self.format
    }

    /// The configured delay.
    pub closed spec fn spec_delay_milliseconds(&self) -> u32 {
        self.delay_milliseconds
    }

    /// The quantized delay in frames.
    pub closed spec fn spec_delay_frames(&self) -> usize {
        self.delay_frames
    }

    /// The block-size hint.
    pub closed spec fn spec_block_frames(&self) -> usize {
        self.block_frames
    }

    /// The sample value written as silence.
    pub closed spec fn spec_silence(&self) -> S {
        self.silence
    }

    /// The samples waiting to be emitted, oldest first.
    pub closed spec fn spec_pending(&self) -> Seq<S> {
        self.samples@
    }

    /// Internal consistency: exactly the delay's samples are pending.
    pub closed spec fn inv(&self) -> bool {
        &&& self.format.wf()
        &&& self.delay_frames == spec_delay_frames(
            self.delay_milliseconds as int,
            self.format.spec_sample_rate() as int,
        )
        &&& self.delay_samples == self.delay_frames * self.format.spec_channels()
        &&& self.samples@.len() == self.delay_samples
    }

    /// Creates a delay line with no block-size hint.
    ///
    /// Returns [`AudioError::InvalidSyncOffset`] when the requested delay is
    /// outside the portable bound.
    pub fn new(format: AudioFormat, delay_milliseconds: u32, silence: S) -> (result: Result<
        Self,
        AudioError,
    >)
        ensures
            match result {
                Ok(line) => {
                    &&& delay_error(format, delay_milliseconds, 0) is None
                    &&& line.inv()
                    &&& line.spec_format() == format
                    &&& line.spec_delay_milliseconds() == delay_milliseconds
                    &&& line.spec_block_frames() == 0
                    &&& line.spec_silence() == silence
                    &&& line.spec_pending() == repeat(
                        silence,
                        (line.spec_delay_frames() * format.spec_channels()) as nat,
                    )
                },
                Err(error) => delay_error(format, delay_milliseconds, 0) == Some(error),
            },
    {
        AudioDelayLine::with_block_frames(format, delay_milliseconds, 0, silence)
    }

    /// Creates a delay line and reserves room for one fixed-size input block.
    ///
    /// Returns [`AudioError::InvalidSyncOffset`] when the requested delay is
    /// outside the portable bound, and [`AudioError::ScheduleOverflow`] when
    /// the delay or the block does not fit in memory sizes.
    pub fn with_block_frames(
        format: AudioFormat,
        delay_milliseconds: u32,
        block_frames: usize,
        silence: S,
    ) -> (result: Result<Self, AudioError>)
        ensures
            match result {
                Ok(line) => {
                    &&& delay_error(format, delay_milliseconds, block_frames) is None
                    &&& line.inv()
                    &&& line.spec_format() == format
                    &&& line.spec_delay_milliseconds() == delay_milliseconds
                    &&& line.spec_delay_frames() == spec_delay_frames(
                        delay_milliseconds as int,
                        format.spec_sample_rate() as int,
                    )
                    &&& line.spec_delay_frames() * 1_000 <= delay_milliseconds * format.spec_sample_rate()
                    &&& delay_milliseconds * format.spec_sample_rate() < (line.spec_delay_frames() + 1)
                        * 1_000
                    &&& line.spec_block_frames() == block_frames
                    &&& line.spec_silence() == silence
                    &&& line.spec_pending() == repeat(
                        silence,
                        (line.spec_delay_frames() * format.spec_channels()) as nat,
                    )
                },
                Err(error) => delay_error(format, delay_milliseconds, block_frames) == Some(error),
            },
    {
        if delay_milliseconds > MAX_AUDIO_SYNC_OFFSET_MILLISECONDS {
            return Err(AudioError::InvalidSyncOffset { milliseconds: delay_milliseconds });
        }
        let rate = format.sample_rate();
        proof {
            lemma_delay_frames_cover_milliseconds(delay_milliseconds as int, rate as int);
        }
        assert((delay_milliseconds as int) * (rate as int) <= 5_000 * 0xffff_ffff) by (nonlinear_arith)
            requires
                delay_milliseconds <= 5_000,
                rate <= 0xffff_ffff,
        ;
        let frames_wide = (delay_milliseconds as u128) * (rate as u128) / 1_000u128;
        if frames_wide > usize::MAX as u128 {
            return Err(AudioError::ScheduleOverflow);
        }
        let delay_frames = frames_wide as usize;
        let channels = format.channels() as usize;
        let delay_samples = match delay_frames.checked_mul(channels) {
            Some(samples) => samples,
            None => return Err(AudioError::ScheduleOverflow),
        };
        let block_samples = match block_frames.checked_mul(channels) {
            Some(samples) => samples,
            None => return Err(AudioError::ScheduleOverflow),
        };
        if delay_samples.checked_add(block_samples).is_none() {
            return Err(AudioError::ScheduleOverflow);
        }
        let mut samples: VecDeque<S> = VecDeque::new();
        let mut i: usize = 0;
        while i < delay_samples
            invariant
                i <= delay_samples,
                samples@ == repeat(silence, i as nat),
            decreases delay_samples - i,
        {
            samples.push_back(silence);
            i = i + 1;
            assert(samples@ =~= repeat(silence, i as nat));
        }
        Ok(AudioDelayLine {
            format,
            delay_milliseconds,
            delay_frames,
            delay_samples,
            block_frames,
            silence,
            samples,
        })
    }

    /// Returns the format accepted by this delay line.
    pub fn format(&self) -> (format: AudioFormat)
        ensures
            format == self.spec_format(),
    {
        self.format
    }

    /// Returns the configured user-facing delay.
    pub fn delay_milliseconds(&self) -> (milliseconds: u32)
        ensures
            milliseconds == self.spec_delay_milliseconds(),
    {
        self.delay_milliseconds
    }

    /// Returns the exact sample-frame delay after quantization.
    pub fn delay_frames(&self) -> (frames: usize)
        ensures
            frames == self.spec_delay_frames(),
    {
        self.delay_frames
    }

    /// Returns whether processing can use the input buffer unchanged.
    pub fn is_passthrough(&self) -> (passthrough: bool)
        ensures
            passthrough == (self.spec_delay_frames() == 0),
    {
        self.delay_frames == 0
    }

    /// Clears queued audio and restores the configured leading silence.
    pub fn reset(&mut self)
        requires
            old(self).inv(),
        ensures
            final(self).inv(),
            final(self).spec_format() == old(self).spec_format(),
            final(self).spec_delay_milliseconds() == old(self).spec_delay_milliseconds(),
            final(self).spec_delay_frames() == old(self).spec_delay_frames(),
            final(self).spec_block_frames() == old(self).spec_block_frames(),
            final(self).spec_silence() == old(self).spec_silence(),
            final(self).spec_pending() == repeat(
                old(self).spec_silence(),
                (old(self).spec_delay_frames() * old(self).spec_format().spec_channels()) as nat,
            ),
    {
        let count = self.delay_samples;
        let silence = self.silence;
        let mut samples: VecDeque<S> = VecDeque::new();
        let mut i: usize = 0;
        while i < count
            invariant
                i <= count,
                samples@ == repeat(silence, i as nat),
            decreases count - i,
        {
            samples.push_back(silence);
            i = i + 1;
            assert(samples@ =~= repeat(silence, i as nat));
        }
        self.samples = samples;
    }

    /// Replaces the delay and clears already queued audio.
    ///
    /// Returns [`AudioError::InvalidSyncOffset`] (or
    /// [`AudioError::ScheduleOverflow`]) and leaves the line unchanged when
    /// the new delay is rejected.
    pub fn set_delay_milliseconds(&mut self, delay_milliseconds: u32) -> (result: Result<(), AudioError>)
        requires
            old(self).inv(),
        ensures
            final(self).inv(),
            final(self).spec_format() == old(self).spec_format(),
            final(self).spec_block_frames() == old(self).spec_block_frames(),
            final(self).spec_silence() == old(self).spec_silence(),
            match result {
                Ok(()) => {
                    &&& final(self).spec_delay_milliseconds() == delay_milliseconds
                    &&& final(self).spec_pending() == repeat(
                        old(self).spec_silence(),
                        (final(self).spec_delay_frames() * old(self).spec_format().spec_channels()) as nat,
                    )
                },
                Err(error) => {
                    &&& delay_error(
                        old(self).spec_format(),
                        delay_milliseconds,
                        old(self).spec_block_frames(),
                    ) == Some(error)
                    &&& final(self).spec_delay_milliseconds() == old(self).spec_delay_milliseconds()
                    &&& final(self).spec_pending() == old(self).spec_pending()
                },
            },
    {
        let replacement = match AudioDelayLine::with_block_frames(
            self.format,
            delay_milliseconds,
            self.block_frames,
            self.silence,
        ) {
            Ok(replacement) => replacement,
            Err(error) => return Err(error),
        };
        *self = replacement;
        Ok(())
    }

    /// Delays one audio block while preserving its requested output timestamp.
    ///
    /// The block's samples are appended to the pending samples, and the
    /// block's payload becomes the same number of oldest pending samples.
    /// Returns [`AudioError::FormatMismatch`] when the buffer format differs
    /// from this line's format.
    pub fn process(&mut self, input: AudioBuffer<S>) -> (result: Result<AudioBuffer<S>, AudioError>)
        requires
            old(self).inv(),
        ensures
            final(self).inv(),
            final(self).spec_format() == old(self).spec_format(),
            final(self).spec_delay_milliseconds() == old(self).spec_delay_milliseconds(),
            final(self).spec_delay_frames() == old(self).spec_delay_frames(),
            final(self).spec_block_frames() == old(self).spec_block_frames(),
            final(self).spec_silence() == old(self).spec_silence(),
            ({
                let n = input.spec_samples().len() as int;
                let all = old(self).spec_pending() + input.spec_samples();
                if input.spec_format() != old(self).spec_format() {
                    &&& result == Err::<AudioBuffer<S>, AudioError>(
                        AudioError::FormatMismatch {
                            expected: old(self).spec_format(),
                            actual: input.spec_format(),
                        },
                    )
                    &&& final(self).spec_pending() == old(self).spec_pending()
                } else if old(self).spec_delay_frames() == 0 {
                    &&& result == Ok::<AudioBuffer<S>, AudioError>(input)
                    &&& final(self).spec_pending() == old(self).spec_pending()
                } else {
                    &&& result is Ok
                    &&& result->Ok_0.spec_format() == input.spec_format()
                    &&& result->Ok_0.spec_timestamp() == input.spec_timestamp()
                    &&& result->Ok_0.spec_samples() == all.take(n)
                    &&& final(self).spec_pending() == all.skip(n)
                }
            }),
    {
        if input.format() != self.format {
            return Err(AudioError::FormatMismatch { expected: self.format, actual: input.format() });
        }
        if self.delay_frames == 0 {
            return Ok(input);
        }
        let mut input = input;
        let ghost initial = input;
        let payload = input.take_samples();
        let mut samples: VecDeque<S> = VecDeque::new();
        std::mem::swap(&mut samples, &mut self.samples);
        let ghost pending = samples@;
        let ghost all = pending + payload@;
        let mut i: usize = 0;
        while i < payload.len()
            invariant
                i <= payload@.len(),
                samples@ == pending + payload@.take(i as int),
            decreases payload@.len() - i,
        {
            samples.push_back(payload[i]);
            i = i + 1;
            assert(payload@.take(i as int) =~= payload@.take(i - 1).push(payload@[i - 1]));
        }
        assert(payload@.take(i as int) =~= payload@);
        let mut out: Vec<S> = Vec::new();
        let mut j: usize = 0;
        while j < payload.len()
            invariant
                j <= payload@.len(),
                samples@ == all.skip(j as int),
                out@ == all.take(j as int),
                all.len() == pending.len() + payload@.len(),
            decreases payload@.len() - j,
        {
            let next = samples.pop_front();
            match next {
                Some(sample) => {
                    out.push(sample);
                    assert(all.skip(j as int)[0] == all[j as int]);
                    assert(all.take(j + 1) =~= all.take(j as int).push(all[j as int]));
                    assert(all.skip(j as int).subrange(1, all.skip(j as int).len() as int)
                        =~= all.skip(j + 1));
                },
                None => {
                    assert(false);
                },
            }
            j = j + 1;
        }
        self.samples = samples;
        match input.replace_samples(out) {
            Ok(()) => {},
            Err(error) => {
                assert(false);
                return Err(error);
            },
        }
        Ok(input)
    }
}

} // verus!

//! Owned interleaved audio buffers and a bounded allocation pool.
//!
//! The sample type is a parameter: the buffer's own logic (interleaving,
//! frame counts, sample-clock timestamps, trimming and silence padding) does
//! not depend on how one sample is represented. Where silence must be
//! written, the caller supplies the sample value that stands for silence.
use vstd::prelude::*;

use crate::error::AudioError;
use crate::timestamp::Timestamp;
use crate::types::{AudioFormat, MAX_AUDIO_FRAMES};

verus! {

broadcast use AudioFormat::lemma_wf;

/// Integer nanoseconds covered by `frames` sample frames at `sample_rate`.
pub open spec fn spec_duration_nanos(frames: int, sample_rate: int) -> int {
    frames * 1_000_000_000 / sample_rate
}

/// Whether a sample count is a bounded whole number of frames.
pub open spec fn shape_ok(len: int, channels: int) -> bool {
    &&& channels > 0
    &&& len % channels == 0
    &&& len / channels <= MAX_AUDIO_FRAMES
}

/// `count` copies of one sample.
pub open spec fn repeat<S>(sample: S, count: nat) -> Seq<S> {
    Seq::new(count, |i: int| sample)
}

/// What building a buffer from `samples` with the sample check
/// `is_finite` gives: a shape error first, then
/// [`AudioError::NonFiniteSample`] exactly when some sample fails the
/// check, else a buffer of exactly those samples.
pub open spec fn checked_buffer_result<S: Copy, F: Fn(S) -> bool>(
    format: AudioFormat,
    timestamp: Timestamp,
    samples: Seq<S>,
    is_finite: F,
    result: Result<AudioBuffer<S>, AudioError>,
) -> bool {
    ({
        let len = samples.len() as int;
        let channels = format.spec_channels() as int;
        if len % channels != 0 {
            result == Err::<AudioBuffer<S>, AudioError>(
                AudioError::SamplesNotInterleaved {
                    samples: samples.len() as usize,
                    channels: format.spec_channels(),
                },
            )
        } else if len / channels > MAX_AUDIO_FRAMES {
            result == Err::<AudioBuffer<S>, AudioError>(
                AudioError::BufferTooLarge { frames: (len / channels) as usize },
            )
        } else {
            match result {
                Ok(buffer) => {
                    &&& buffer.wf()
                    &&& buffer.spec_format() == format
                    &&& buffer.spec_timestamp() == timestamp
                    &&& buffer.spec_samples() == samples
                    &&& forall|i: int|
                        0 <= i < len ==> is_finite.ensures((#[trigger] samples[i],), true)
                },
                Err(error) => {
                    &&& error == AudioError::NonFiniteSample
                    &&& exists|i: int|
                        0 <= i < len && is_finite.ensures((#[trigger] samples[i],), false)
                },
            }
        }
    })
}

/// An owned interleaved audio buffer.
#[derive(Debug, PartialEq)]
pub struct AudioBuffer<S: Copy> {
    format: AudioFormat,
    timestamp: Timestamp,
    samples: Vec<S>,
}

impl<S: Copy> AudioBuffer<S> {
    /// The buffer's audio format.
    pub closed spec fn spec_format(self) -> AudioFormat {
        self.format
    }

    /// The timestamp of the buffer's first frame.
    pub closed spec fn spec_timestamp(self) -> Timestamp {
        self.timestamp
    }

    /// The interleaved samples.
    pub closed spec fn spec_samples(self) -> Seq<S> {
        self.samples@
    }

    /// The number of whole frames.
    pub open spec fn spec_frames(self) -> int {
        self.spec_samples().len() as int / self.spec_format().spec_channels() as int
    }

    /// What every buffer satisfies.
    pub open spec fn wf(self) -> bool {
        &&& self.spec_format().wf()
        &&& shape_ok(self.spec_samples().len() as int, self.spec_format().spec_channels() as int)
    }

    #[verifier::type_invariant]
    closed spec fn buffer_invariant(self) -> bool {
        &&& self.format.wf()
        &&& shape_ok(self.samples@.len() as int, self.format.spec_channels() as int)
    }

    /// Creates a buffer after checking interleaving and the frame limit.
    ///
    /// Returns [`AudioError::SamplesNotInterleaved`] when the sample count is
    /// not divisible by the channel count, then
    /// [`AudioError::BufferTooLarge`] when the buffer exceeds the frame limit.
    /// Every sample value is accepted; [`AudioBuffer::new_checked`] also
    /// checks each sample, as floating-point buffers need.
    pub fn new(format: AudioFormat, timestamp: Timestamp, samples: Vec<S>) -> (result: Result<
        Self,
        AudioError,
    >)
        ensures
            ({
                let len = samples@.len() as int;
                let channels = format.spec_channels() as int;
                match result {
                    Ok(buffer) => {
                        &&& shape_ok(len, channels)
                        &&& buffer.wf()
                        &&& buffer.spec_format() == format
                        &&& buffer.spec_timestamp() == timestamp
                        &&& buffer.spec_samples() == samples@
                    },
                    Err(error) => if len % channels != 0 {
                        error == AudioError::SamplesNotInterleaved {
                            samples: samples@.len() as usize,
                            channels: format.spec_channels(),
                        }
                    } else {
                        &&& len / channels > MAX_AUDIO_FRAMES
                        &&& error == AudioError::BufferTooLarge { frames: (len / channels) as usize }
                    },
                }
            }),
    {
        let channels = format.channels() as usize;
        if samples.len() % channels != 0 {
            return Err(AudioError::SamplesNotInterleaved { samples: samples.len(), channels: format.channels() });
        }
        let frames = samples.len() / channels;
        if frames > MAX_AUDIO_FRAMES {
            return Err(AudioError::BufferTooLarge { frames });
        }
        Ok(AudioBuffer { format, timestamp, samples })
    }

    /// Creates a buffer after checking interleaving, the frame limit and,
    /// with `is_finite`, every sample.
    ///
    /// Returns the errors of [`AudioBuffer::new`] first, then
    /// [`AudioError::NonFiniteSample`] when `is_finite` rejects a sample.
    pub fn new_checked<F: Fn(S) -> bool>(
        format: AudioFormat,
        timestamp: Timestamp,
        samples: Vec<S>,
        is_finite: F,
    ) -> (result: Result<Self, AudioError>)
        requires
            forall|s: S| #[trigger] is_finite.requires((s,)),
        ensures
            checked_buffer_result(format, timestamp, samples@, is_finite, result),
    {
        let channels = format.channels() as usize;
        if samples.len() % channels != 0 {
            return Err(AudioError::SamplesNotInterleaved { samples: samples.len(), channels: format.channels() });
        }
        let frames = samples.len() / channels;
        if frames > MAX_AUDIO_FRAMES {
            return Err(AudioError::BufferTooLarge { frames });
        }
        let mut i: usize = 0;
        while i < samples.len()
            invariant
                i <= samples@.len(),
                channels == format.spec_channels(),
                channels > 0,
                (samples@.len() as int) % (channels as int) == 0,
                (samples@.len() as int) / (channels as int) <= MAX_AUDIO_FRAMES,
                forall|s: S| #[trigger] is_finite.requires((s,)),
                forall|j: int| 0 <= j < i ==> is_finite.ensures((#[trigger] samples@[j],), true),
            decreases samples@.len() - i,
        {
            if !is_finite(samples[i]) {
                return Err(AudioError::NonFiniteSample);
            }
            i = i + 1;
        }
        Ok(AudioBuffer { format, timestamp, samples })
    }

    /// Creates a buffer of `frames` frames, every sample being `silence`.
    ///
    /// Returns [`AudioError::BufferTooLarge`] when `frames` exceeds the frame
    /// limit.
    pub fn silence(format: AudioFormat, timestamp: Timestamp, frames: usize, silence: S) -> (result:
        Result<Self, AudioError>)
        ensures
            match result {
                Ok(buffer) => {
                    &&& frames <= MAX_AUDIO_FRAMES
                    &&& buffer.wf()
                    &&& buffer.spec_format() == format
                    &&& buffer.spec_timestamp() == timestamp
                    &&& buffer.spec_frames() == frames
                    &&& buffer.spec_samples() == repeat(
                        silence,
                        (frames * format.spec_channels()) as nat,
                    )
                },
                Err(error) => {
                    &&& frames > MAX_AUDIO_FRAMES || frames * format.spec_channels() > usize::MAX
                    &&& error == AudioError::BufferTooLarge { frames }
                },
            },
    {
        if frames > MAX_AUDIO_FRAMES {
            return Err(AudioError::BufferTooLarge { frames });
        }
        let channels = format.channels() as usize;
        let count = match frames.checked_mul(channels) {
            Some(count) => count,
            None => return Err(AudioError::BufferTooLarge { frames }),
        };
        let samples = fill(silence, count);
        proof {
            lemma_whole_frames(frames as int, channels as int);
        }
        Ok(AudioBuffer { format, timestamp, samples })
    }

    /// Returns the audio format.
    pub fn format(&self) -> (format: AudioFormat)
        ensures
            format == self.spec_format(),
            self.wf(),
    {
        proof {
            use_type_invariant(self);
        }
        self.format
    }

    /// Returns the first-sample timestamp.
    pub fn timestamp(&self) -> (timestamp: Timestamp)
        ensures
            timestamp == self.spec_timestamp(),
    {
        self.timestamp
    }

    /// Returns the number of interleaved audio frames.
    pub fn frames(&self) -> (frames: usize)
        ensures
            frames == self.spec_frames(),
            frames <= MAX_AUDIO_FRAMES,
            self.wf(),
    {
        proof {
            use_type_invariant(self);
        }
        self.samples.len() / (self.format.channels() as usize)
    }

    /// Consumes the buffer and returns its owned interleaved samples.
    pub fn into_samples(self) -> (samples: Vec<S>)
        ensures
            samples@ == self.spec_samples(),
    {
        self.samples
    }

    /// Returns the immutable interleaved sample slice.
    pub fn samples(&self) -> (samples: &[S])
        ensures
            samples@ == self.spec_samples(),
    {
        self.samples.as_slice()
    }

    /// Removes the payload, leaving an empty buffer with the same format and
    /// timestamp.
    pub fn take_samples(&mut self) -> (samples: Vec<S>)
        ensures
            samples@ == old(self).spec_samples(),
            final(self).spec_format() == old(self).spec_format(),
            final(self).spec_timestamp() == old(self).spec_timestamp(),
            final(self).spec_samples() == Seq::<S>::empty(),
    {
        proof {
            use_type_invariant(&*self);
        }
        let mut samples: Vec<S> = Vec::new();
        std::mem::swap(&mut samples, &mut self.samples);
        samples
    }

    /// Installs a new payload after the checks of [`Self::new`]; on an error
    /// the buffer is left unchanged.
    pub fn replace_samples(&mut self, samples: Vec<S>) -> (result: Result<(), AudioError>)
        ensures
            ({
                let len = samples@.len() as int;
                let channels = old(self).spec_format().spec_channels() as int;
                &&& final(self).spec_format() == old(self).spec_format()
                &&& final(self).spec_timestamp() == old(self).spec_timestamp()
                &&& match result {
                    Ok(()) => {
                        &&& shape_ok(len, channels)
                        &&& final(self).spec_samples() == samples@
                    },
                    Err(error) => {
                        &&& final(self).spec_samples() == old(self).spec_samples()
                        &&& if len % channels != 0 {
                            error == AudioError::SamplesNotInterleaved {
                                samples: samples@.len() as usize,
                                channels: old(self).spec_format().spec_channels(),
                            }
                        } else {
                            &&& len / channels > MAX_AUDIO_FRAMES
                            &&& error == AudioError::BufferTooLarge {
                                frames: (len / channels) as usize,
                            }
                        }
                    },
                }
            }),
    {
        proof {
            use_type_invariant(&*self);
        }
        let channels = self.format.channels() as usize;
        if samples.len() % channels != 0 {
            return Err(AudioError::SamplesNotInterleaved { samples: samples.len(), channels: self.format.channels() });
        }
        let frames = samples.len() / channels;
        if frames > MAX_AUDIO_FRAMES {
            return Err(AudioError::BufferTooLarge { frames });
        }
        self.samples = samples;
        Ok(())
    }

    /// Returns a sample if its frame and channel are in range.
    pub fn sample(&self, frame: usize, channel: usize) -> (sample: Option<S>)
        ensures
            ({
                let channels = self.spec_format().spec_channels() as int;
                if channel < channels && frame < self.spec_frames() {
                    sample == Some(self.spec_samples()[frame * channels + channel])
                } else {
                    sample is None
                }
            }),
    {
        proof {
            use_type_invariant(self);
        }
        let channels = self.format.channels() as usize;
        if channel >= channels {
            return None;
        }
        let frames = self.samples.len() / channels;
        if frame >= frames {
            return None;
        }
        proof {
            lemma_frame_index(frame as int, channel as int, channels as int, self.samples@.len() as int);
        }
        Some(self.samples[frame * channels + channel])
    }

    /// Returns the integer nanosecond duration represented by this buffer.
    pub fn duration_nanos(&self) -> (duration: Option<u64>)
        ensures
            duration is Some,
            duration->Some_0 == spec_duration_nanos(
                self.spec_frames(),
                self.spec_format().spec_sample_rate() as int,
            ),
    {
        let frames = self.frames();
        let rate = self.format.sample_rate();
        let duration = (frames as u128) * 1_000_000_000u128 / (rate as u128);
        proof {
            lemma_div_bound(frames as int * 1_000_000_000, rate as int);
        }
        Some(duration as u64)
    }

    /// Returns the exclusive timestamp at the end of this buffer.
    pub fn end_timestamp(&self) -> (end: Option<Timestamp>)
        ensures
            ({
                let total = self.spec_timestamp().spec_nanos() + spec_duration_nanos(
                    self.spec_frames(),
                    self.spec_format().spec_sample_rate() as int,
                );
                match end {
                    Some(t) => t.spec_nanos() == total,
                    None => total > u64::MAX,
                }
            }),
    {
        match self.duration_nanos() {
            Some(duration) => self.timestamp.checked_add(duration),
            None => None,
        }
    }

    /// Drops complete leading sample frames and advances the timestamp.
    ///
    /// Returns `Ok(None)` when all frames were removed, and
    /// [`AudioError::ScheduleOverflow`] when the new timestamp cannot be
    /// represented.
    pub fn trim_front(&self, frames: usize) -> (result: Result<Option<Self>, AudioError>)
        ensures
            ({
                let channels = self.spec_format().spec_channels() as int;
                let advanced = self.spec_timestamp().spec_nanos() + spec_duration_nanos(
                    frames as int,
                    self.spec_format().spec_sample_rate() as int,
                );
                if frames >= self.spec_frames() {
                    result == Ok::<Option<Self>, AudioError>(None::<Self>)
                } else if advanced > u64::MAX {
                    result == Err::<Option<Self>, AudioError>(AudioError::ScheduleOverflow)
                } else {
                    &&& result is Ok
                    &&& result->Ok_0 is Some
                    &&& result->Ok_0->Some_0.wf()
                    &&& result->Ok_0->Some_0.spec_format() == self.spec_format()
                    &&& result->Ok_0->Some_0.spec_timestamp().spec_nanos() == advanced
                    &&& result->Ok_0->Some_0.spec_samples() == self.spec_samples().subrange(
                        frames * channels,
                        self.spec_samples().len() as int,
                    )
                }
            }),
    {
        proof {
            use_type_invariant(self);
        }
        if frames >= self.frames() {
            return Ok(None);
        }
        let rate = self.format.sample_rate();
        let offset = match audio_duration_nanos(frames, rate) {
            Ok(offset) => offset,
            Err(error) => return Err(error),
        };
        let timestamp = match self.timestamp.checked_add(offset) {
            Some(timestamp) => timestamp,
            None => return Err(AudioError::ScheduleOverflow),
        };
        let channels = self.format.channels() as usize;
        let _len = self.samples.len();
        proof {
            lemma_frame_index(frames as int, 0, channels as int, self.samples@.len() as int);
        }
        let start = frames * channels;
        let rest = copy_from(&self.samples, start);
        proof {
            lemma_suffix_shape(frames as int, channels as int, self.samples@.len() as int);
        }
        Ok(Some(AudioBuffer { format: self.format, timestamp, samples: rest }))
    }

    /// Drops complete leading sample frames in place, advancing the timestamp.
    ///
    /// Returns `Ok(false)` and leaves the buffer untouched when the trim would
    /// consume every frame, and [`AudioError::ScheduleOverflow`] (buffer
    /// untouched) when the new timestamp cannot be represented.
    pub fn trim_front_in_place(&mut self, frames: usize) -> (result: Result<bool, AudioError>)
        ensures
            ({
                let channels = old(self).spec_format().spec_channels() as int;
                let advanced = old(self).spec_timestamp().spec_nanos() + spec_duration_nanos(
                    frames as int,
                    old(self).spec_format().spec_sample_rate() as int,
                );
                &&& final(self).spec_format() == old(self).spec_format()
                &&& if frames >= old(self).spec_frames() {
                    &&& result == Ok::<bool, AudioError>(false)
                    &&& *final(self) == *old(self)
                } else if advanced > u64::MAX {
                    &&& result == Err::<bool, AudioError>(AudioError::ScheduleOverflow)
                    &&& *final(self) == *old(self)
                } else {
                    &&& result == Ok::<bool, AudioError>(true)
                    &&& final(self).spec_timestamp().spec_nanos() == advanced
                    &&& final(self).spec_samples() == old(self).spec_samples().subrange(
                        frames * channels,
                        old(self).spec_samples().len() as int,
                    )
                }
            }),
    {
        proof {
            use_type_invariant(&*self);
        }
        let trimmed = match self.trim_front(frames) {
            Ok(Some(trimmed)) => trimmed,
            Ok(None) => return Ok(false),
            Err(error) => return Err(error),
        };
        *self = trimmed;
        Ok(true)
    }

    /// Prefixes `frames` silence frames and gives the result `timestamp`.
    ///
    /// Returns [`AudioError::BufferTooLarge`] if the combined buffer exceeds
    /// the frame limit.
    pub fn prepend_silence(&self, frames: usize, timestamp: Timestamp, silence: S) -> (result:
        Result<Self, AudioError>)
        ensures
            ({
                let channels = self.spec_format().spec_channels() as int;
                match result {
                    Ok(buffer) => {
                        &&& frames + self.spec_frames() <= MAX_AUDIO_FRAMES
                        &&& frames * channels <= usize::MAX
                        &&& buffer.wf()
                        &&& buffer.spec_format() == self.spec_format()
                        &&& buffer.spec_timestamp() == timestamp
                        &&& buffer.spec_frames() == frames + self.spec_frames()
                        &&& buffer.spec_samples() == repeat(silence, (frames * channels) as nat)
                            + self.spec_samples()
                    },
                    Err(error) => {
                        &&& frames + self.spec_frames() > MAX_AUDIO_FRAMES || frames * channels
                            > usize::MAX
                        &&& error == AudioError::BufferTooLarge { frames }
                    },
                }
            }),
    {
        proof {
            use_type_invariant(self);
        }
        let current = self.frames();
        if frames > MAX_AUDIO_FRAMES - current {
            return Err(AudioError::BufferTooLarge { frames });
        }
        let channels = self.format.channels() as usize;
        let count = match frames.checked_mul(channels) {
            Some(count) => count,
            None => return Err(AudioError::BufferTooLarge { frames }),
        };
        let mut samples = fill(silence, count);
        let ghost prefix = samples@;
        let mut i: usize = 0;
        while i < self.samples.len()
            invariant
                i <= self.samples@.len(),
                samples@ == prefix + self.samples@.subrange(0, i as int),
            decreases self.samples@.len() - i,
        {
            samples.push(self.samples[i]);
            i = i + 1;
            assert(self.samples@.subrange(0, i as int) =~= self.samples@.subrange(0, i - 1)
                + seq![self.samples@[i - 1]]);
        }
        assert(self.samples@.subrange(0, i as int) =~= self.samples@);
        proof {
            lemma_concat_shape(frames as int, current as int, channels as int, self.samples@.len() as int);
        }
        Ok(AudioBuffer { format: self.format, timestamp, samples })
    }

    /// Prefixes silence frames in place. On an error the buffer is unchanged.
    ///
    /// Returns [`AudioError::BufferTooLarge`] if the combined buffer exceeds
    /// the frame limit.
    pub fn prepend_silence_in_place(&mut self, frames: usize, timestamp: Timestamp, silence: S) -> (result:
        Result<(), AudioError>)
        ensures
            ({
                let channels = old(self).spec_format().spec_channels() as int;
                &&& final(self).spec_format() == old(self).spec_format()
                &&& match result {
                    Ok(()) => {
                        &&& frames + old(self).spec_frames() <= MAX_AUDIO_FRAMES
                        &&& frames * channels <= usize::MAX
                        &&& final(self).spec_timestamp() == timestamp
                        &&& final(self).spec_frames() == frames + old(self).spec_frames()
                        &&& final(self).spec_samples() == repeat(silence, (frames * channels) as nat)
                            + old(self).spec_samples()
                    },
                    Err(error) => {
                        &&& frames + old(self).spec_frames() > MAX_AUDIO_FRAMES || frames * channels
                            > usize::MAX
                        &&& error == AudioError::BufferTooLarge { frames }
                        &&& *final(self) == *old(self)
                    },
                }
            }),
    {
        let padded = match self.prepend_silence(frames, timestamp, silence) {
            Ok(padded) => padded,
            Err(error) => return Err(error),
        };
        *self = padded;
        Ok(())
    }

    /// Replaces the timestamp without touching the sample payload.
    pub fn set_timestamp(&mut self, timestamp: Timestamp)
        ensures
            final(self).spec_timestamp() == timestamp,
            final(self).spec_format() == old(self).spec_format(),
            final(self).spec_samples() == old(self).spec_samples(),
    {
        proof {
            use_type_invariant(&*self);
        }
        self.timestamp = timestamp;
    }
}

impl<S: Copy> Clone for AudioBuffer<S> {
    fn clone(&self) -> (copy: Self)
        ensures
            copy.spec_format() == self.spec_format(),
            copy.spec_timestamp() == self.spec_timestamp(),
            copy.spec_samples() == self.spec_samples(),
    {
        proof {
            use_type_invariant(self);
        }
        let samples = copy_from(&self.samples, 0);
        assert(samples@ =~= self.samples@);
        AudioBuffer { format: self.format, timestamp: self.timestamp, samples }
    }
}

/// Reuses interleaved sample allocations for a fixed audio format.
///
/// Recycling happens at the producer/consumer boundary: acquire a buffer,
/// fill it, submit it, then release it after the consumer is done.
pub struct AudioBufferPool<S: Copy> {
    format: AudioFormat,
    capacity: usize,
    buffers: Vec<Vec<S>>,
}

impl<S: Copy> AudioBufferPool<S> {
    /// The pool's audio format.
    pub closed spec fn spec_format(self) -> AudioFormat {
        self.format
    }

    /// The most allocations the pool retains.
    pub closed spec fn spec_capacity(self) -> nat {
        self.capacity as nat
    }

    /// The number of retained allocations.
    pub closed spec fn spec_available(self) -> nat {
        self.buffers@.len()
    }

    /// Creates an empty pool that retains at most `capacity` sample vectors.
    pub fn new(format: AudioFormat, capacity: usize) -> (pool: Self)
        ensures
            pool.spec_format() == format,
            pool.spec_capacity() == capacity,
            pool.spec_available() == 0,
    {
        AudioBufferPool { format, capacity, buffers: Vec::new() }
    }

    /// Acquires a buffer of `frames` silent frames, reusing a retained
    /// allocation when possible.
    ///
    /// Returns [`AudioError::BufferTooLarge`] when `frames` exceeds the frame
    /// limit.
    pub fn acquire(&mut self, timestamp: Timestamp, frames: usize, silence: S) -> (result: Result<
        AudioBuffer<S>,
        AudioError,
    >)
        ensures
            final(self).spec_format() == old(self).spec_format(),
            final(self).spec_capacity() == old(self).spec_capacity(),
            match result {
                Ok(buffer) => {
                    &&& frames <= MAX_AUDIO_FRAMES
                    &&& buffer.spec_format() == old(self).spec_format()
                    &&& buffer.spec_timestamp() == timestamp
                    &&& buffer.spec_frames() == frames
                    &&& buffer.spec_samples() == repeat(
                        silence,
                        (frames * old(self).spec_format().spec_channels()) as nat,
                    )
                    &&& final(self).spec_available() == if old(self).spec_available() > 0 {
                        old(self).spec_available() - 1
                    } else {
                        0
                    }
                },
                Err(error) => {
                    &&& frames > MAX_AUDIO_FRAMES || frames * old(self).spec_format().spec_channels()
                        > usize::MAX
                    &&& error == AudioError::BufferTooLarge { frames }
                    &&& final(self).spec_available() == old(self).spec_available()
                },
            },
    {
        if frames > MAX_AUDIO_FRAMES {
            return Err(AudioError::BufferTooLarge { frames });
        }
        if frames.checked_mul(self.format.channels() as usize).is_none() {
            return Err(AudioError::BufferTooLarge { frames });
        }
        let _recycled = self.buffers.pop();
        AudioBuffer::silence(self.format, timestamp, frames, silence)
    }

    /// Returns a buffer's sample allocation to the pool.
    ///
    /// A buffer with a different format, or one arriving when the pool is
    /// full, is rejected.
    pub fn release(&mut self, buffer: AudioBuffer<S>) -> (kept: bool)
        ensures
            final(self).spec_format() == old(self).spec_format(),
            final(self).spec_capacity() == old(self).spec_capacity(),
            kept <==> (buffer.spec_format() == old(self).spec_format()
                && old(self).spec_available() < old(self).spec_capacity()),
            final(self).spec_available() == old(self).spec_available() + if kept { 1nat } else { 0nat },
    {
        if buffer.format() != self.format || self.buffers.len() >= self.capacity {
            return false;
        }
        let mut payload = buffer.into_samples();
        payload.clear();
        self.buffers.push(payload);
        true
    }

    /// Returns the number of retained allocations available for reuse.
    pub fn available(&self) -> (available: usize)
        ensures
            available == self.spec_available(),
    {
        self.buffers.len()
    }
}

/// Integer nanoseconds covered by `frames` frames, or
/// [`AudioError::ScheduleOverflow`] when that does not fit in `u64`.
pub fn audio_duration_nanos(frames: usize, sample_rate: u32) -> (result: Result<u64, AudioError>)
    requires
        sample_rate > 0,
    ensures
        match result {
            Ok(d) => d == spec_duration_nanos(frames as int, sample_rate as int),
            Err(e) => {
                &&& e == AudioError::ScheduleOverflow
                &&& spec_duration_nanos(frames as int, sample_rate as int) > u64::MAX
            },
        },
{
    let duration = (frames as u128) * 1_000_000_000u128 / (sample_rate as u128);
    if duration > u64::MAX as u128 {
        return Err(AudioError::ScheduleOverflow);
    }
    Ok(duration as u64)
}

/// A vector of `count` copies of `value`.
fn fill<S: Copy>(value: S, count: usize) -> (v: Vec<S>)
    ensures
        v@ == repeat(value, count as nat),
{
    let mut v: Vec<S> = Vec::new();
    let mut i: usize = 0;
    while i < count
        invariant
            i <= count,
            v@ == repeat(value, i as nat),
        decreases count - i,
    {
        v.push(value);
        i = i + 1;
        assert(v@ =~= repeat(value, i as nat));
    }
    v
}

/// The elements of `v` from `start` on.
fn copy_from<S: Copy>(v: &Vec<S>, start: usize) -> (rest: Vec<S>)
    requires
        start <= v@.len(),
    ensures
        rest@ == v@.subrange(start as int, v@.len() as int),
{
    let mut rest: Vec<S> = Vec::new();
    let mut i: usize = start;
    while i < v.len()
        invariant
            start <= i <= v@.len(),
            rest@ == v@.subrange(start as int, i as int),
        decreases v@.len() - i,
    {
        rest.push(v[i]);
        i = i + 1;
        assert(rest@ =~= v@.subrange(start as int, i as int));
    }
    rest
}

pub(crate) proof fn lemma_whole_frames(frames: int, channels: int)
    requires
        channels > 0,
        0 <= frames,
    ensures
        (frames * channels) % channels == 0,
        (frames * channels) / channels == frames,
{
    vstd::arithmetic::div_mod::lemma_mod_multiples_basic(frames, channels);
    vstd::arithmetic::div_mod::lemma_div_multiples_vanish(frames, channels);
    assert(channels * frames == frames * channels) by (nonlinear_arith);
}

proof fn lemma_exact(len: int, channels: int)
    requires
        channels > 0,
        len % channels == 0,
    ensures
        len == channels * (len / channels),
{
    vstd::arithmetic::div_mod::lemma_fundamental_div_mod(len, channels);
}

proof fn lemma_frame_index(frame: int, channel: int, channels: int, len: int)
    requires
        channels > 0,
        0 <= channel < channels,
        0 <= frame < len / channels,
        len % channels == 0,
        len >= 0,
    ensures
        frame * channels + channel < len,
        frame * channels + channels <= len,
{
    let q = len / channels;
    lemma_exact(len, channels);
    assert(frame * channels + channels <= q * channels) by (nonlinear_arith)
        requires
            frame + 1 <= q,
            channels > 0,
    ;
    assert(q * channels == channels * q) by (nonlinear_arith);
}

proof fn lemma_suffix_shape(frames: int, channels: int, len: int)
    requires
        channels > 0,
        0 <= frames < len / channels,
        len % channels == 0,
        len / channels <= MAX_AUDIO_FRAMES,
    ensures
        shape_ok(len - frames * channels, channels),
        (len - frames * channels) / channels == len / channels - frames,
{
    let q = len / channels;
    lemma_exact(len, channels);
    assert(len - frames * channels == (q - frames) * channels) by (nonlinear_arith)
        requires
            len == channels * q,
    ;
    lemma_whole_frames(q - frames, channels);
}

proof fn lemma_concat_shape(frames: int, current: int, channels: int, len: int)
    requires
        channels > 0,
        0 <= frames,
        current == len / channels,
        len % channels == 0,
        len >= 0,
        frames + current <= MAX_AUDIO_FRAMES,
    ensures
        shape_ok(frames * channels + len, channels),
        (frames * channels + len) / channels == frames + current,
{
    lemma_exact(len, channels);
    assert(frames * channels + len == (frames + current) * channels) by (nonlinear_arith)
        requires
            len == channels * current,
    ;
    lemma_whole_frames(frames + current, channels);
}

proof fn lemma_div_bound(x: int, d: int)
    requires
        0 <= x <= MAX_AUDIO_FRAMES * 1_000_000_000,
        d > 0,
    ensures
        x / d <= u64::MAX,
{
    vstd::arithmetic::div_mod::lemma_div_is_ordered_by_denominator(x, 1, d);
}

} // verus!

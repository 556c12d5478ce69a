//! A sample clock driven by hardware-audio callback edges.
use vstd::prelude::*;

use crate::error::AudioError;
use crate::pacing::AudioClock;
use crate::sync::saturate_i64;
use crate::timestamp::Timestamp;
use crate::types::{AudioFormat, MAX_CALLBACK_CORRECTION_PPM};

verus! {

broadcast use AudioFormat::lemma_wf;

/// The parts-per-million scale factor for one correction setting.
pub open spec fn spec_scale(correction_ppm: int) -> int {
    1_000_000 + correction_ppm
}

/// The numerator `frames * 1e9 * (1e6 + correction_ppm)` of corrected
/// elapsed time.
pub open spec fn spec_numerator(frames: int, correction_ppm: int) -> int {
    frames * 1_000_000_000 * spec_scale(correction_ppm)
}

/// Corrected elapsed nanoseconds for a numerator at a sample rate.
pub open spec fn spec_elapsed(numerator: int, sample_rate: int) -> int {
    numerator / 1_000_000 / sample_rate
}

/// An observed hardware-audio callback interval.
#[derive(Clone, Copy, Debug, PartialEq, Eq, Structural)]
pub struct AudioCallbackObservation {
    timestamp: Timestamp,
    expected_timestamp: Timestamp,
    frames: usize,
    drift_nanos: i64,
}

impl AudioCallbackObservation {
    /// The device timestamp supplied by the callback.
    pub closed spec fn spec_timestamp(self) -> Timestamp {
        self.timestamp
    }

    /// The corrected sample-clock timestamp expected for the callback.
    pub closed spec fn spec_expected_timestamp(self) -> Timestamp {
        self.expected_timestamp
    }

    /// The frames delivered by the callback.
    pub closed spec fn spec_frames(self) -> usize {
        self.frames
    }

    /// `device - expected`, saturated to `i64`.
    pub closed spec fn spec_drift_nanos(self) -> i64 {
        self.drift_nanos
    }

    /// Returns the device timestamp supplied by the callback.
    pub fn timestamp(self) -> (t: Timestamp)
        ensures
            t == self.spec_timestamp(),
    {
        self.timestamp
    }

    /// Returns the corrected sample-clock timestamp expected for this callback.
    pub fn expected_timestamp(self) -> (t: Timestamp)
        ensures
            t == self.spec_expected_timestamp(),
    {
        self.expected_timestamp
    }

    /// Returns the number of sample frames delivered by the callback.
    pub fn frames(self) -> (frames: usize)
        ensures
            frames == self.spec_frames(),
    {
        self.frames
    }

    /// Returns `device - expected` in nanoseconds, saturated to `i64`.
    pub fn drift_nanos(self) -> (drift: i64)
        ensures
            drift == self.spec_drift_nanos(),
    {
        self.drift_nanos
    }
}

/// A safe adapter for clocks reported by OS audio callbacks.
///
/// Platform code feeds callback timestamps and frame counts into this value.
/// It never sleeps: callback delivery is the clock edge.
pub struct AudioCallbackClock {
    format: AudioFormat,
    origin: Option<Timestamp>,
    last_timestamp: Timestamp,
    delivered_frames: u64,
    correction_ppm: i32,
    /// Running `delivered_frames * 1e9 * (1e6 + correction_ppm)`.
    elapsed_numerator: i128,
}

impl AudioCallbackClock {
    /// The callback format.
    pub closed spec fn spec_format(&self) -> AudioFormat {
        self.format
    }

    /// The timestamp of the first callback, once one was seen.
    pub closed spec fn spec_origin(&self) -> Option<Timestamp> {
        self.origin
    }

    /// The most recent callback timestamp.
    pub closed spec fn spec_last_timestamp(&self) -> Timestamp {
        self.last_timestamp
    }

    /// The total callback frames observed.
    pub closed spec fn spec_delivered_frames(&self) -> u64 {
        self.delivered_frames
    }

    /// The active rate correction.
    pub closed spec fn spec_correction_ppm(&self) -> i32 {
        self.correction_ppm
    }

    #[verifier::type_invariant]
    closed spec fn numerator_matches(&self) -> bool {
        &&& -MAX_CALLBACK_CORRECTION_PPM <= self.correction_ppm <= MAX_CALLBACK_CORRECTION_PPM
        &&& self.elapsed_numerator as int == spec_numerator(
            self.delivered_frames as int,
            self.correction_ppm as int,
        )
    }

    /// Creates an uninitialized callback clock for one device format.
    pub fn new(format: AudioFormat) -> (clock: Self)
        ensures
            clock.spec_format() == format,
            clock.spec_origin() is None,
            clock.spec_last_timestamp().spec_nanos() == 0,
            clock.spec_delivered_frames() == 0,
            clock.spec_correction_ppm() == 0,
    {
        AudioCallbackClock {
            format,
            origin: None,
            last_timestamp: Timestamp::zero(),
            delivered_frames: 0,
            correction_ppm: 0,
            elapsed_numerator: 0,
        }
    }

    /// Records one callback edge and returns its measured drift.
    ///
    /// The expected timestamp of a callback is the first callback's timestamp
    /// plus the corrected duration of all frames delivered before it. Returns
    /// [`AudioError::ZeroBlock`] for an empty callback,
    /// [`AudioError::CallbackTimestampRegression`] when the device clock
    /// moves backward (both leave the clock unchanged), and
    /// [`AudioError::ScheduleOverflow`] when the timeline no longer fits; the
    /// first callback's timestamp is then already recorded as the origin.
    pub fn observe_callback(&mut self, timestamp: Timestamp, frames: usize) -> (result: Result<
        AudioCallbackObservation,
        AudioError,
    >)
        ensures
            final(self).spec_format() == old(self).spec_format(),
            final(self).spec_correction_ppm() == old(self).spec_correction_ppm(),
            ({
                let origin = match old(self).spec_origin() {
                    Some(origin) => origin,
                    None => timestamp,
                };
                let elapsed = spec_elapsed(
                    spec_numerator(
                        old(self).spec_delivered_frames() as int,
                        old(self).spec_correction_ppm() as int,
                    ),
                    old(self).spec_format().spec_sample_rate() as int,
                );
                let expected = origin.spec_nanos() + elapsed;
                if frames == 0 {
                    &&& result == Err::<AudioCallbackObservation, AudioError>(AudioError::ZeroBlock)
                    &&& *final(self) == *old(self)
                } else if old(self).spec_origin() is Some && timestamp.spec_nanos()
                    < old(self).spec_last_timestamp().spec_nanos() {
                    &&& result == Err::<AudioCallbackObservation, AudioError>(
                        AudioError::CallbackTimestampRegression {
                            previous: old(self).spec_last_timestamp(),
                            actual: timestamp,
                        },
                    )
                    &&& *final(self) == *old(self)
                } else if elapsed > u64::MAX || expected > u64::MAX
                    || old(self).spec_delivered_frames() + frames > u64::MAX {
                    &&& result == Err::<AudioCallbackObservation, AudioError>(
                        AudioError::ScheduleOverflow,
                    )
                    &&& final(self).spec_origin() == Some(origin)
                    &&& final(self).spec_last_timestamp() == old(self).spec_last_timestamp()
                    &&& final(self).spec_delivered_frames() == old(self).spec_delivered_frames()
                } else {
                    &&& result is Ok
                    &&& result->Ok_0.spec_timestamp() == timestamp
                    &&& result->Ok_0.spec_expected_timestamp().spec_nanos() == expected
                    &&& result->Ok_0.spec_frames() == frames
                    &&& result->Ok_0.spec_drift_nanos() == saturate_i64(
                        timestamp.spec_nanos() - expected,
                    )
                    &&& final(self).spec_origin() == Some(origin)
                    &&& final(self).spec_last_timestamp() == timestamp
                    &&& final(self).spec_delivered_frames() == old(self).spec_delivered_frames()
                        + frames
                }
            }),
    {
        proof {
            use_type_invariant(&*self);
        }
        if frames == 0 {
            return Err(AudioError::ZeroBlock);
        }
        if self.origin.is_some() && timestamp.as_nanos() < self.last_timestamp.as_nanos() {
            return Err(AudioError::CallbackTimestampRegression { previous: self.last_timestamp, actual: timestamp });
        }
        let origin = match self.origin {
            Some(origin) => origin,
            None => {
                self.origin = Some(timestamp);
                timestamp
            },
        };
        let rate = self.format.sample_rate();
        proof {
            lemma_numerator_bounds(self.delivered_frames as int, self.correction_ppm as int);
        }
        let elapsed = match scale_elapsed_nanos(self.elapsed_numerator, rate) {
            Ok(elapsed) => elapsed,
            Err(error) => return Err(error),
        };
        let expected_timestamp = match origin.checked_add(elapsed) {
            Some(expected) => expected,
            None => return Err(AudioError::ScheduleOverflow),
        };
        let drift = (timestamp.as_nanos() as i128) - (expected_timestamp.as_nanos() as i128);
        let delivered = frames as u64;
        let total = match self.delivered_frames.checked_add(delivered) {
            Some(total) => total,
            None => return Err(AudioError::ScheduleOverflow),
        };
        let contribution = frame_numerator(delivered, self.correction_ppm);
        proof {
            lemma_numerator_bounds(total as int, self.correction_ppm as int);
            lemma_numerator_adds(
                self.delivered_frames as int,
                delivered as int,
                self.correction_ppm as int,
            );
        }
        let numerator = self.elapsed_numerator + contribution;
        *self = AudioCallbackClock {
            format: self.format,
            origin: self.origin,
            last_timestamp: timestamp,
            delivered_frames: total,
            correction_ppm: self.correction_ppm,
            elapsed_numerator: numerator,
        };
        let drift_nanos: i64 = if drift < i64::MIN as i128 {
            i64::MIN
        } else if drift > i64::MAX as i128 {
            i64::MAX
        } else {
            drift as i64
        };
        Ok(AudioCallbackObservation { timestamp, expected_timestamp, frames, drift_nanos })
    }

    /// Sets a bounded sample-clock correction in parts per million.
    ///
    /// Returns [`AudioError::CallbackCorrectionOutOfRange`], leaving the
    /// clock unchanged, when the requested adjustment exceeds the safe bound.
    pub fn set_correction_ppm(&mut self, correction_ppm: i32) -> (result: Result<(), AudioError>)
        ensures
            final(self).spec_format() == old(self).spec_format(),
            final(self).spec_origin() == old(self).spec_origin(),
            final(self).spec_last_timestamp() == old(self).spec_last_timestamp(),
            final(self).spec_delivered_frames() == old(self).spec_delivered_frames(),
            if -MAX_CALLBACK_CORRECTION_PPM <= correction_ppm <= MAX_CALLBACK_CORRECTION_PPM {
                &&& result is Ok
                &&& final(self).spec_correction_ppm() == correction_ppm
            } else {
                &&& result == Err::<(), AudioError>(
                    AudioError::CallbackCorrectionOutOfRange { ppm: correction_ppm },
                )
                &&& final(self).spec_correction_ppm() == old(self).spec_correction_ppm()
            },
    {
        proof {
            use_type_invariant(&*self);
        }
        if correction_ppm < -MAX_CALLBACK_CORRECTION_PPM || correction_ppm > MAX_CALLBACK_CORRECTION_PPM {
            return Err(AudioError::CallbackCorrectionOutOfRange { ppm: correction_ppm });
        }
        let numerator = frame_numerator(self.delivered_frames, correction_ppm);
        *self = AudioCallbackClock {
            format: self.format,
            origin: self.origin,
            last_timestamp: self.last_timestamp,
            delivered_frames: self.delivered_frames,
            correction_ppm,
            elapsed_numerator: numerator,
        };
        Ok(())
    }

    /// Returns the callback format.
    pub fn format(&self) -> (format: AudioFormat)
        ensures
            format == self.spec_format(),
    {
        self.format
    }

    /// Returns the most recent callback timestamp.
    pub fn callback_timestamp(&self) -> (t: Timestamp)
        ensures
            t == self.spec_last_timestamp(),
    {
        self.last_timestamp
    }

    /// Returns the total callback sample frames observed.
    pub fn delivered_frames(&self) -> (frames: u64)
        ensures
            frames == self.spec_delivered_frames(),
    {
        self.delivered_frames
    }

    /// Returns the active rate correction in parts per million.
    pub fn correction_ppm(&self) -> (ppm: i32)
        ensures
            ppm == self.spec_correction_ppm(),
    {
        self.correction_ppm
    }
}

impl AudioClock for AudioCallbackClock {
    /// The most recent callback timestamp.
    fn now(&self) -> (t: Timestamp)
        ensures
            t == self.spec_last_timestamp(),
    {
        self.callback_timestamp()
    }

    /// The next callback is the device-owned clock edge; a callback thread is
    /// never blocked here.
    fn sleep_until(&mut self, deadline: Timestamp) {
    }
}

proof fn lemma_numerator_bounds(frames: int, correction_ppm: int)
    requires
        0 <= frames <= u64::MAX,
        -10_000 <= correction_ppm <= 10_000,
    ensures
        0 <= spec_numerator(frames, correction_ppm) <= u64::MAX * 1_000_000_000 * 1_010_000,
{
    assert(0 <= frames * 1_000_000_000 * spec_scale(correction_ppm) <= u64::MAX * 1_000_000_000
        * 1_010_000) by (nonlinear_arith)
        requires
            0 <= frames <= u64::MAX,
            990_000 <= spec_scale(correction_ppm) <= 1_010_000,
    ;
}

proof fn lemma_numerator_adds(frames: int, more: int, correction_ppm: int)
    ensures
        spec_numerator(frames, correction_ppm) + spec_numerator(more, correction_ppm)
            == spec_numerator(frames + more, correction_ppm),
{
    assert(frames * 1_000_000_000 * spec_scale(correction_ppm) + more * 1_000_000_000 * spec_scale(
        correction_ppm,
    ) == (frames + more) * 1_000_000_000 * spec_scale(correction_ppm)) by (nonlinear_arith);
}

/// The numerator contribution `frames * 1e9 * (1e6 + correction_ppm)`.
pub fn frame_numerator(frames: u64, correction_ppm: i32) -> (numerator: i128)
    requires
        -MAX_CALLBACK_CORRECTION_PPM <= correction_ppm <= MAX_CALLBACK_CORRECTION_PPM,
    ensures
        numerator == spec_numerator(frames as int, correction_ppm as int),
{
    proof {
        lemma_numerator_bounds(frames as int, correction_ppm as int);
    }
    let scale = scale_for(correction_ppm);
    assert(0 <= (frames as int) * 1_000_000_000 <= u64::MAX * 1_000_000_000);
    (frames as i128) * 1_000_000_000i128 * scale
}

/// Converts an accumulated numerator into corrected elapsed nanoseconds, or
/// [`AudioError::ScheduleOverflow`] when they do not fit in `u64`.
pub fn scale_elapsed_nanos(numerator: i128, sample_rate: u32) -> (result: Result<u64, AudioError>)
    requires
        numerator >= 0,
        sample_rate > 0,
    ensures
        match result {
            Ok(elapsed) => elapsed == spec_elapsed(numerator as int, sample_rate as int),
            Err(error) => error == AudioError::ScheduleOverflow && spec_elapsed(
                numerator as int,
                sample_rate as int,
            ) > u64::MAX,
        },
{
    let corrected = (numerator as u128) / 1_000_000u128 / (sample_rate as u128);
    if corrected > u64::MAX as u128 {
        return Err(AudioError::ScheduleOverflow);
    }
    Ok(corrected as u64)
}

/// Returns the parts-per-million scale factor for one correction setting.
pub fn scale_for(correction_ppm: i32) -> (scale: i128)
    ensures
        scale == spec_scale(correction_ppm as int),
{
    1_000_000i128 + correction_ppm as i128
}

} // verus!

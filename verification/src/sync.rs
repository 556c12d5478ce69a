//! Signed A/V timestamp comparison, sample-level correction and drift metrics.
use vstd::prelude::*;

use crate::buffer::{repeat, AudioBuffer};
use crate::error::AudioError;
use crate::timestamp::Timestamp;
use crate::types::{AudioFormat, MAX_AUDIO_FRAMES};

verus! {

broadcast use AudioFormat::lemma_wf;

/// Whether audio is aligned with, early relative to, or late relative to video.
#[derive(Clone, Copy, Debug, PartialEq, Eq, Structural)]
pub enum SyncState {
    /// The two timestamps are within the configured tolerance.
    InSync,
    /// Audio is earlier than the video timestamp.
    AudioBehind,
    /// Audio is later than the video timestamp.
    AudioAhead,
}

/// Safe action suggested by one A/V synchronization observation.
#[derive(Clone, Copy, Debug, PartialEq, Eq, Structural)]
pub enum SyncAction {
    /// Continue without changing either timeline.
    Keep,
    /// Discard or trim audio that is already behind the video timeline.
    DropEarlyAudio,
    /// Hold video or insert audio silence until later audio catches up.
    WaitForAudio,
}

/// The sample-level correction selected by an A/V observation.
#[derive(Clone, Copy, Debug, PartialEq, Eq, Structural)]
pub enum AudioCorrection {
    /// Keep the buffer and its timestamp unchanged.
    Keep,
    /// Remove this many leading sample frames from an early buffer.
    TrimLeading { frames: usize },
    /// Prefix this many silence frames before a late buffer.
    InsertSilence { frames: usize },
}

/// `value` clamped to the `i64` range.
pub open spec fn saturate_i64(value: int) -> i64 {
    if value < i64::MIN {
        i64::MIN
    } else if value > i64::MAX {
        i64::MAX
    } else {
        value as i64
    }
}

/// The state that a signed difference `audio - video` has under a tolerance.
pub open spec fn spec_state(delta: int, tolerance: int) -> SyncState {
    if delta < -tolerance {
        SyncState::AudioBehind
    } else if delta > tolerance {
        SyncState::AudioAhead
    } else {
        SyncState::InSync
    }
}

/// The action that goes with a state.
pub open spec fn spec_action(state: SyncState) -> SyncAction {
    match state {
        SyncState::InSync => SyncAction::Keep,
        SyncState::AudioBehind => SyncAction::DropEarlyAudio,
        SyncState::AudioAhead => SyncAction::WaitForAudio,
    }
}

/// Whole sample frames, rounded up, that cover `nanos` at `sample_rate`.
pub open spec fn spec_frames_for_nanos(nanos: int, sample_rate: int) -> int {
    (nanos * sample_rate + 999_999_999) / 1_000_000_000
}

/// The absolute value of an `i64`, as `i64::unsigned_abs` gives it.
pub open spec fn abs_i64(value: i64) -> nat {
    if value < 0 {
        (-(value as int)) as nat
    } else {
        value as nat
    }
}

/// One signed A/V timestamp comparison.
#[derive(Clone, Copy, Debug, PartialEq, Eq, Structural)]
pub struct AvSyncObservation {
    video_timestamp: Timestamp,
    audio_timestamp: Timestamp,
    delta_nanos: i64,
    state: SyncState,
    action: SyncAction,
}

impl AvSyncObservation {
    /// The compared video timestamp.
    pub closed spec fn spec_video_timestamp(self) -> Timestamp {
        self.video_timestamp
    }

    /// The compared audio timestamp.
    pub closed spec fn spec_audio_timestamp(self) -> Timestamp {
        self.audio_timestamp
    }

    /// `audio - video`, saturated to `i64`.
    pub closed spec fn spec_delta_nanos(self) -> i64 {
        self.delta_nanos
    }

    /// The classified state.
    pub closed spec fn spec_state(self) -> SyncState {
        self.state
    }

    /// The recommended action.
    pub closed spec fn spec_action(self) -> SyncAction {
        self.action
    }

    /// Returns the video timestamp used for comparison.
    pub fn video_timestamp(self) -> (t: Timestamp)
        ensures
            t == self.spec_video_timestamp(),
    {
        self.video_timestamp
    }

    /// Returns the audio timestamp used for comparison.
    pub fn audio_timestamp(self) -> (t: Timestamp)
        ensures
            t == self.spec_audio_timestamp(),
    {
        self.audio_timestamp
    }

    /// Returns `audio - video` in nanoseconds, saturated to `i64`.
    pub fn delta_nanos(self) -> (delta: i64)
        ensures
            delta == self.spec_delta_nanos(),
    {
        self.delta_nanos
    }

    /// Returns the classified synchronization state.
    pub fn state(self) -> (state: SyncState)
        ensures
            state == self.spec_state(),
    {
        self.state
    }

    /// Returns the non-destructive correction recommendation.
    pub fn action(self) -> (action: SyncAction)
        ensures
            action == self.spec_action(),
    {
        self.action
    }
}

/// A deterministic A/V clock comparison policy.
#[derive(Clone, Copy, Debug, PartialEq, Eq, Structural)]
pub struct AvSyncController {
    tolerance_nanos: u64,
}

/// What an observation of `video` and `audio` under `tolerance` holds.
pub open spec fn observation_matches(
    observation: AvSyncObservation,
    tolerance: u64,
    video: Timestamp,
    audio: Timestamp,
) -> bool {
    let delta = audio.spec_nanos() - video.spec_nanos();
    &&& observation.spec_video_timestamp() == video
    &&& observation.spec_audio_timestamp() == audio
    &&& observation.spec_delta_nanos() == saturate_i64(delta)
    &&& observation.spec_state() == spec_state(delta, tolerance as int)
    &&& observation.spec_action() == spec_action(spec_state(delta, tolerance as int))
}

/// The correction that a saturated drift and its state call for at a sample
/// rate, or `None` when the frame count does not fit in `usize`.
pub open spec fn spec_correction_from(delta: i64, state: SyncState, sample_rate: int) -> Option<
    AudioCorrection,
> {
    let frames = spec_frames_for_nanos(abs_i64(delta) as int, sample_rate);
    if frames > usize::MAX {
        None
    } else {
        Some(
            match state {
                SyncState::InSync => AudioCorrection::Keep,
                SyncState::AudioBehind => AudioCorrection::TrimLeading { frames: frames as usize },
                SyncState::AudioAhead => AudioCorrection::InsertSilence { frames: frames as usize },
            },
        )
    }
}

/// The correction that an observation calls for at a sample rate.
pub open spec fn spec_correction(observation: AvSyncObservation, sample_rate: int) -> Option<
    AudioCorrection,
> {
    spec_correction_from(observation.spec_delta_nanos(), observation.spec_state(), sample_rate)
}

impl AvSyncController {
    /// The in-sync tolerance.
    pub closed spec fn spec_tolerance(self) -> u64 {
        self.tolerance_nanos
    }

    /// Creates a controller with an in-sync tolerance in nanoseconds.
    pub fn new(tolerance_nanos: u64) -> (controller: Self)
        ensures
            controller.spec_tolerance() == tolerance_nanos,
    {
        AvSyncController { tolerance_nanos }
    }

    /// Compares one video and audio timestamp.
    pub fn observe(self, video_timestamp: Timestamp, audio_timestamp: Timestamp) -> (observation:
        AvSyncObservation)
        ensures
            observation_matches(observation, self.spec_tolerance(), video_timestamp, audio_timestamp),
    {
        let signed_delta = (audio_timestamp.as_nanos() as i128) - (video_timestamp.as_nanos() as i128);
        let delta_nanos: i64 = if signed_delta < i64::MIN as i128 {
            i64::MIN
        } else if signed_delta > i64::MAX as i128 {
            i64::MAX
        } else {
            signed_delta as i64
        };
        let tolerance = self.tolerance_nanos as i128;
        let (state, action) = if signed_delta < -tolerance {
            (SyncState::AudioBehind, SyncAction::DropEarlyAudio)
        } else if signed_delta > tolerance {
            (SyncState::AudioAhead, SyncAction::WaitForAudio)
        } else {
            (SyncState::InSync, SyncAction::Keep)
        };
        AvSyncObservation { video_timestamp, audio_timestamp, delta_nanos, state, action }
    }

    /// Reconciles one audio buffer against a video timestamp.
    ///
    /// A buffer that begins materially before video has its leading samples
    /// trimmed. A buffer that begins materially after video receives explicit
    /// `silence` frames at the video timestamp. If trimming consumes the
    /// entire buffer, the result is `Ok(None)` and the caller may drop it.
    /// Returns [`AudioError::ScheduleOverflow`] if the sample-count conversion
    /// or corrected timestamp cannot be represented, and
    /// [`AudioError::BufferTooLarge`] when the padded buffer would exceed the
    /// frame limit.
    pub fn reconcile<S: Copy>(self, video_timestamp: Timestamp, buffer: &AudioBuffer<S>, silence: S) -> (result:
        Result<Option<AudioBuffer<S>>, AudioError>)
        ensures
            ({
                let channels = buffer.spec_format().spec_channels() as int;
                match self.reconcile_spec(video_timestamp, *buffer) {
                    None => result == Err::<Option<AudioBuffer<S>>, AudioError>(
                        AudioError::ScheduleOverflow,
                    ),
                    Some(AudioCorrection::Keep) => {
                        &&& result is Ok
                        &&& result->Ok_0 is Some
                        &&& result->Ok_0->Some_0.spec_format() == buffer.spec_format()
                        &&& result->Ok_0->Some_0.spec_timestamp() == buffer.spec_timestamp()
                        &&& result->Ok_0->Some_0.spec_samples() == buffer.spec_samples()
                    },
                    Some(AudioCorrection::TrimLeading { frames }) => {
                        let advanced = buffer.spec_timestamp().spec_nanos()
                            + crate::buffer::spec_duration_nanos(
                            frames as int,
                            buffer.spec_format().spec_sample_rate() as int,
                        );
                        if frames >= buffer.spec_frames() {
                            result == Ok::<Option<AudioBuffer<S>>, AudioError>(None)
                        } else if advanced > u64::MAX {
                            result == Err::<Option<AudioBuffer<S>>, AudioError>(
                                AudioError::ScheduleOverflow,
                            )
                        } else {
                            &&& result is Ok
                            &&& result->Ok_0 is Some
                            &&& result->Ok_0->Some_0.spec_format() == buffer.spec_format()
                            &&& result->Ok_0->Some_0.spec_timestamp().spec_nanos() == advanced
                            &&& result->Ok_0->Some_0.spec_samples()
                                == buffer.spec_samples().subrange(
                                frames * channels,
                                buffer.spec_samples().len() as int,
                            )
                        }
                    },
                    Some(AudioCorrection::InsertSilence { frames }) => {
                        if frames + buffer.spec_frames() > MAX_AUDIO_FRAMES || frames * channels
                            > usize::MAX {
                            result == Err::<Option<AudioBuffer<S>>, AudioError>(
                                AudioError::BufferTooLarge { frames },
                            )
                        } else {
                            &&& result is Ok
                            &&& result->Ok_0 is Some
                            &&& result->Ok_0->Some_0.spec_format() == buffer.spec_format()
                            &&& result->Ok_0->Some_0.spec_timestamp() == video_timestamp
                            &&& result->Ok_0->Some_0.spec_samples() == repeat(
                                silence,
                                (frames * channels) as nat,
                            ) + buffer.spec_samples()
                        }
                    },
                }
            }),
    {
        let observation = self.observe(video_timestamp, buffer.timestamp());
        let correction = match correction_for(observation, buffer.format().sample_rate()) {
            Ok(correction) => correction,
            Err(error) => return Err(error),
        };
        match correction {
            AudioCorrection::Keep => Ok(Some(buffer.clone())),
            AudioCorrection::TrimLeading { frames } => buffer.trim_front(frames),
            AudioCorrection::InsertSilence { frames } => match buffer.prepend_silence(
                frames,
                video_timestamp,
                silence,
            ) {
                Ok(padded) => Ok(Some(padded)),
                Err(error) => Err(error),
            },
        }
    }

    /// Reconciles one audio buffer in place against a video timestamp.
    ///
    /// Equivalent to [`AvSyncController::reconcile`], with the corrected
    /// buffer replacing `buffer`. Returns `Ok(false)`, leaving `buffer`
    /// unchanged, when trimming would consume the whole buffer. On an error
    /// `buffer` is unchanged.
    pub fn reconcile_in_place<S: Copy>(
        self,
        video_timestamp: Timestamp,
        buffer: &mut AudioBuffer<S>,
        silence: S,
    ) -> (result: Result<bool, AudioError>)
        ensures
            ({
                let before = *old(buffer);
                let after = *final(buffer);
                match self.reconcile_spec(video_timestamp, before) {
                    None => {
                        &&& result == Err::<bool, AudioError>(AudioError::ScheduleOverflow)
                        &&& after == before
                    },
                    Some(AudioCorrection::Keep) => {
                        &&& result == Ok::<bool, AudioError>(true)
                        &&& after == before
                    },
                    Some(AudioCorrection::TrimLeading { frames }) => {
                        let advanced = before.spec_timestamp().spec_nanos()
                            + crate::buffer::spec_duration_nanos(
                            frames as int,
                            before.spec_format().spec_sample_rate() as int,
                        );
                        &&& after.spec_format() == before.spec_format()
                        &&& if frames >= before.spec_frames() {
                            &&& result == Ok::<bool, AudioError>(false)
                            &&& after == before
                        } else if advanced > u64::MAX {
                            &&& result == Err::<bool, AudioError>(AudioError::ScheduleOverflow)
                            &&& after == before
                        } else {
                            &&& result == Ok::<bool, AudioError>(true)
                            &&& after.spec_timestamp().spec_nanos() == advanced
                            &&& after.spec_samples() == before.spec_samples().subrange(
                                frames * before.spec_format().spec_channels(),
                                before.spec_samples().len() as int,
                            )
                        }
                    },
                    Some(AudioCorrection::InsertSilence { frames }) => {
                        let channels = before.spec_format().spec_channels() as int;
                        &&& after.spec_format() == before.spec_format()
                        &&& if frames + before.spec_frames() > MAX_AUDIO_FRAMES || frames * channels
                            > usize::MAX {
                            &&& result == Err::<bool, AudioError>(
                                AudioError::BufferTooLarge { frames },
                            )
                            &&& after == before
                        } else {
                            &&& result == Ok::<bool, AudioError>(true)
                            &&& after.spec_timestamp() == video_timestamp
                            &&& after.spec_samples() == repeat(silence, (frames * channels) as nat)
                                + before.spec_samples()
                        }
                    },
                }
            }),
    {
        let observation = self.observe(video_timestamp, buffer.timestamp());
        let correction = match correction_for(observation, buffer.format().sample_rate()) {
            Ok(correction) => correction,
            Err(error) => return Err(error),
        };
        match correction {
            AudioCorrection::Keep => Ok(true),
            AudioCorrection::TrimLeading { frames } => buffer.trim_front_in_place(frames),
            AudioCorrection::InsertSilence { frames } => match buffer.prepend_silence_in_place(
                frames,
                video_timestamp,
                silence,
            ) {
                Ok(()) => Ok(true),
                Err(error) => Err(error),
            },
        }
    }

    /// The correction that [`Self::reconcile`] applies to `buffer`, or
    /// `None` when the frame count does not fit in `usize`.
    pub open spec fn reconcile_spec<S: Copy>(self, video: Timestamp, buffer: AudioBuffer<S>) -> Option<
        AudioCorrection,
    > {
        let delta = buffer.spec_timestamp().spec_nanos() - video.spec_nanos();
        spec_correction_from(
            saturate_i64(delta),
            spec_state(delta, self.spec_tolerance() as int),
            buffer.spec_format().spec_sample_rate() as int,
        )
    }

    /// Returns the configured in-sync tolerance.
    pub fn tolerance_nanos(self) -> (tolerance: u64)
        ensures
            tolerance == self.spec_tolerance(),
    {
        self.tolerance_nanos
    }
}

/// The correction that one observation calls for at `sample_rate`.
///
/// Returns [`AudioError::ScheduleOverflow`] when the frame count does not
/// fit in `usize`.
pub fn correction_for(observation: AvSyncObservation, sample_rate: u32) -> (result: Result<
    AudioCorrection,
    AudioError,
>)
    ensures
        match spec_correction(observation, sample_rate as int) {
            Some(correction) => result == Ok::<AudioCorrection, AudioError>(correction),
            None => result == Err::<AudioCorrection, AudioError>(AudioError::ScheduleOverflow),
        },
{
    let delta = observation.delta_nanos();
    let magnitude: u64 = if delta < 0 {
        ((-(delta as i128)) as u64)
    } else {
        delta as u64
    };
    let frames = frames_for_nanos(magnitude, sample_rate);
    if frames > usize::MAX as u128 {
        return Err(AudioError::ScheduleOverflow);
    }
    let frames = frames as usize;
    Ok(
        match observation.state() {
            SyncState::InSync => AudioCorrection::Keep,
            SyncState::AudioBehind => AudioCorrection::TrimLeading { frames },
            SyncState::AudioAhead => AudioCorrection::InsertSilence { frames },
        },
    )
}

/// Whole sample frames, rounded up, that cover `nanoseconds`.
pub fn frames_for_nanos(nanoseconds: u64, sample_rate: u32) -> (frames: u128)
    ensures
        frames == spec_frames_for_nanos(nanoseconds as int, sample_rate as int),
{
    assert((nanoseconds as int) * (sample_rate as int) <= 0xffff_ffff_ffff_ffff * 0xffff_ffff)
        by (nonlinear_arith);
    let numerator = (nanoseconds as u128) * (sample_rate as u128) + 999_999_999u128;
    numerator / 1_000_000_000u128
}

/// Aggregated drift telemetry from a sequence of A/V observations.
#[derive(Clone, Copy, Debug, PartialEq, Eq, Structural)]
pub struct AvSyncMetrics {
    observations: u64,
    in_sync: u64,
    audio_behind: u64,
    audio_ahead: u64,
    max_abs_delta_nanos: u64,
    total_abs_delta_nanos: u64,
}

impl Default for AvSyncMetrics {
    fn default() -> (metrics: Self)
        ensures
            metrics.spec_observations() == 0,
            metrics.spec_in_sync() == 0,
            metrics.spec_audio_behind() == 0,
            metrics.spec_audio_ahead() == 0,
            metrics.spec_max_abs_delta_nanos() == 0,
            metrics.spec_total_abs_delta_nanos() == 0,
    {
        AvSyncMetrics {
            observations: 0,
            in_sync: 0,
            audio_behind: 0,
            audio_ahead: 0,
            max_abs_delta_nanos: 0,
            total_abs_delta_nanos: 0,
        }
    }
}

/// Whether nothing has been recorded in `metrics`.
pub open spec fn is_empty_metrics(metrics: AvSyncMetrics) -> bool {
    &&& metrics.spec_observations() == 0
    &&& metrics.spec_in_sync() == 0
    &&& metrics.spec_audio_behind() == 0
    &&& metrics.spec_audio_ahead() == 0
    &&& metrics.spec_max_abs_delta_nanos() == 0
    &&& metrics.spec_total_abs_delta_nanos() == 0
}

/// `a + b` capped at `u64::MAX`.
pub open spec fn saturating_add_u64(a: int, b: int) -> u64 {
    if a + b > u64::MAX {
        u64::MAX
    } else {
        (a + b) as u64
    }
}

impl AvSyncMetrics {
    /// Total observations.
    pub closed spec fn spec_observations(self) -> u64 {
        self.observations
    }

    /// Observations within tolerance.
    pub closed spec fn spec_in_sync(self) -> u64 {
        self.in_sync
    }

    /// Observations with audio behind video.
    pub closed spec fn spec_audio_behind(self) -> u64 {
        self.audio_behind
    }

    /// Observations with audio ahead of video.
    pub closed spec fn spec_audio_ahead(self) -> u64 {
        self.audio_ahead
    }

    /// The largest absolute drift observed.
    pub closed spec fn spec_max_abs_delta_nanos(self) -> u64 {
        self.max_abs_delta_nanos
    }

    /// The saturating sum of absolute drift.
    pub closed spec fn spec_total_abs_delta_nanos(self) -> u64 {
        self.total_abs_delta_nanos
    }

    /// The accounting that every metrics value from a monitor satisfies: the
    /// observation count is the three per-state counts summed (capped at
    /// `u64::MAX`), and the largest drift never exceeds the total drift.
    pub open spec fn consistent(self) -> bool {
        &&& self.spec_observations() == saturating_add_u64(
            self.spec_in_sync() + self.spec_audio_behind(),
            self.spec_audio_ahead() as int,
        )
        &&& self.spec_max_abs_delta_nanos() <= self.spec_total_abs_delta_nanos()
    }

    /// Whether `after` is `self` with `observation` recorded: the total and
    /// the observation's state are counted (saturating), the largest drift
    /// is updated and the drift is added to the total (saturating).
    pub open spec fn records(self, observation: AvSyncObservation, after: AvSyncMetrics) -> bool {
        let absolute = abs_i64(observation.spec_delta_nanos());
        let state = observation.spec_state();
        &&& after.spec_observations() == saturating_add_u64(self.spec_observations() as int, 1)
        &&& after.spec_in_sync() == if state == SyncState::InSync {
            saturating_add_u64(self.spec_in_sync() as int, 1)
        } else {
            self.spec_in_sync()
        }
        &&& after.spec_audio_behind() == if state == SyncState::AudioBehind {
            saturating_add_u64(self.spec_audio_behind() as int, 1)
        } else {
            self.spec_audio_behind()
        }
        &&& after.spec_audio_ahead() == if state == SyncState::AudioAhead {
            saturating_add_u64(self.spec_audio_ahead() as int, 1)
        } else {
            self.spec_audio_ahead()
        }
        &&& after.spec_max_abs_delta_nanos() == if absolute > self.spec_max_abs_delta_nanos() {
            absolute as u64
        } else {
            self.spec_max_abs_delta_nanos()
        }
        &&& after.spec_total_abs_delta_nanos() == saturating_add_u64(
            self.spec_total_abs_delta_nanos() as int,
            absolute as int,
        )
    }

    /// Returns the total number of observations.
    pub fn observations(self) -> (n: u64)
        ensures
            n == self.spec_observations(),
    {
        self.observations
    }

    /// Returns observations within tolerance.
    pub fn in_sync(self) -> (n: u64)
        ensures
            n == self.spec_in_sync(),
    {
        self.in_sync
    }

    /// Returns observations where audio was behind video.
    pub fn audio_behind(self) -> (n: u64)
        ensures
            n == self.spec_audio_behind(),
    {
        self.audio_behind
    }

    /// Returns observations where audio was ahead of video.
    pub fn audio_ahead(self) -> (n: u64)
        ensures
            n == self.spec_audio_ahead(),
    {
        self.audio_ahead
    }

    /// Returns the largest absolute observed drift.
    pub fn max_abs_delta_nanos(self) -> (n: u64)
        ensures
            n == self.spec_max_abs_delta_nanos(),
    {
        self.max_abs_delta_nanos
    }

    /// Returns the saturating sum of absolute observed drift.
    pub fn total_abs_delta_nanos(self) -> (n: u64)
        ensures
            n == self.spec_total_abs_delta_nanos(),
    {
        self.total_abs_delta_nanos
    }
}

/// Recording an observation keeps the metrics' accounting consistent.
pub proof fn lemma_record_keeps_consistency(
    metrics: AvSyncMetrics,
    observation: AvSyncObservation,
    after: AvSyncMetrics,
)
    requires
        metrics.consistent(),
        metrics.records(observation, after),
    ensures
        after.consistent(),
{
}


/// How many of `observations` are in `state`.
pub open spec fn count_in_state(observations: Seq<AvSyncObservation>, state: SyncState) -> nat
    decreases observations.len(),
{
    if observations.len() == 0 {
        0
    } else {
        count_in_state(observations.drop_last(), state) + if observations.last().spec_state()
            == state {
            1nat
        } else {
            0nat
        }
    }
}

/// The largest absolute drift among `observations`, zero for none.
pub open spec fn max_abs_delta(observations: Seq<AvSyncObservation>) -> nat
    decreases observations.len(),
{
    if observations.len() == 0 {
        0
    } else {
        let earlier = max_abs_delta(observations.drop_last());
        let last = abs_i64(observations.last().spec_delta_nanos());
        if last > earlier {
            last
        } else {
            earlier
        }
    }
}

/// The sum of the absolute drifts of `observations`.
pub open spec fn sum_abs_delta(observations: Seq<AvSyncObservation>) -> nat
    decreases observations.len(),
{
    if observations.len() == 0 {
        0
    } else {
        sum_abs_delta(observations.drop_last()) + abs_i64(observations.last().spec_delta_nanos())
    }
}

/// `metrics[i + 1]` is `metrics[i]` with `observations[i]` recorded, for
/// every observation.
pub open spec fn records_all(metrics: Seq<AvSyncMetrics>, observations: Seq<AvSyncObservation>) -> bool {
    &&& metrics.len() == observations.len() + 1
    &&& forall|i: int|
        0 <= i < observations.len() ==> #[trigger] metrics[i].records(observations[i], metrics[i + 1])
}

/// Metrics that start empty and record `n` observations, fewer than
/// `u64::MAX`, count exactly `n` observations and, per state, the
/// observations in it; their largest drift is the largest absolute drift
/// seen, which never decreased along the way; and their total drift is the
/// sum of the absolute drifts, capped at `u64::MAX`.
pub proof fn lemma_recorded_totals(metrics: Seq<AvSyncMetrics>, observations: Seq<AvSyncObservation>)
    requires
        records_all(metrics, observations),
        is_empty_metrics(metrics[0]),
        observations.len() < u64::MAX,
    ensures
        ({
            let last = metrics[observations.len() as int];
            &&& last.spec_observations() == observations.len()
            &&& last.spec_in_sync() == count_in_state(observations, SyncState::InSync)
            &&& last.spec_audio_behind() == count_in_state(observations, SyncState::AudioBehind)
            &&& last.spec_audio_ahead() == count_in_state(observations, SyncState::AudioAhead)
            &&& last.spec_max_abs_delta_nanos() == max_abs_delta(observations)
            &&& last.spec_total_abs_delta_nanos() == if sum_abs_delta(observations) > u64::MAX {
                u64::MAX as nat
            } else {
                sum_abs_delta(observations)
            }
            &&& forall|i: int|
                0 <= i <= observations.len() ==> #[trigger] metrics[i].spec_max_abs_delta_nanos()
                    <= last.spec_max_abs_delta_nanos()
        }),
    decreases observations.len(),
{
    let n = observations.len() as int;
    if n > 0 {
        let earlier_metrics = metrics.drop_last();
        let earlier = observations.drop_last();
        assert forall|i: int| 0 <= i < earlier.len() implies #[trigger] earlier_metrics[i].records(
            earlier[i],
            earlier_metrics[i + 1],
        ) by {
            assert(metrics[i].records(observations[i], metrics[i + 1]));
        }
        lemma_recorded_totals(earlier_metrics, earlier);
        assert(metrics[n - 1].records(observations[n - 1], metrics[n]));
        assert(earlier_metrics[n - 1] == metrics[n - 1]);
        lemma_count_bound(earlier, SyncState::InSync);
        lemma_count_bound(earlier, SyncState::AudioBehind);
        lemma_count_bound(earlier, SyncState::AudioAhead);
        assert forall|i: int| 0 <= i <= n implies #[trigger] metrics[i].spec_max_abs_delta_nanos()
            <= metrics[n].spec_max_abs_delta_nanos() by {
            if i < n {
                assert(earlier_metrics[i] == metrics[i]);
            }
        }
    }
}

proof fn lemma_count_bound(observations: Seq<AvSyncObservation>, state: SyncState)
    ensures
        count_in_state(observations, state) <= observations.len(),
    decreases observations.len(),
{
    if observations.len() > 0 {
        lemma_count_bound(observations.drop_last(), state);
    }
}

/// A bounded-memory accumulator for long-running A/V drift diagnostics.
pub struct AvSyncMonitor {
    controller: AvSyncController,
    metrics: AvSyncMetrics,
    /// The observations recorded since the monitor was created or reset.
    history: Ghost<Seq<AvSyncObservation>>,
}

/// `value`, capped at `u64::MAX`.
pub open spec fn capped(value: nat) -> nat {
    if value > u64::MAX {
        u64::MAX as nat
    } else {
        value
    }
}

/// Whether `metrics` sums up `history`: the observations, and those in
/// each state, counted up to `u64::MAX`; the largest absolute drift; and
/// the sum of absolute drifts, capped at `u64::MAX`.
pub open spec fn summarizes(metrics: AvSyncMetrics, history: Seq<AvSyncObservation>) -> bool {
    &&& metrics.spec_observations() == capped(history.len())
    &&& metrics.spec_in_sync() == capped(count_in_state(history, SyncState::InSync))
    &&& metrics.spec_audio_behind() == capped(count_in_state(history, SyncState::AudioBehind))
    &&& metrics.spec_audio_ahead() == capped(count_in_state(history, SyncState::AudioAhead))
    &&& metrics.spec_max_abs_delta_nanos() == max_abs_delta(history)
    &&& metrics.spec_total_abs_delta_nanos() == capped(sum_abs_delta(history))
}

/// Recording an observation in metrics that sum up a history gives
/// metrics that sum up the history with the observation appended.
pub proof fn lemma_record_extends_summary(
    metrics: AvSyncMetrics,
    history: Seq<AvSyncObservation>,
    observation: AvSyncObservation,
    after: AvSyncMetrics,
)
    requires
        summarizes(metrics, history),
        metrics.records(observation, after),
    ensures
        summarizes(after, history.push(observation)),
{
    let extended = history.push(observation);
    assert(extended.drop_last() =~= history);
    assert(extended.last() == observation);
    assert(abs_i64(observation.spec_delta_nanos()) <= u64::MAX);
}

impl AvSyncMonitor {
    /// The monitor's classification policy.
    pub closed spec fn spec_controller(self) -> AvSyncController {
        self.controller
    }

    /// The accumulated metrics.
    pub closed spec fn spec_metrics(self) -> AvSyncMetrics {
        self.metrics
    }

    /// The observations recorded since the monitor was created or reset.
    pub closed spec fn spec_history(self) -> Seq<AvSyncObservation> {
        self.history@
    }

    #[verifier::type_invariant]
    closed spec fn monitor_invariant(self) -> bool {
        &&& self.metrics.consistent()
        &&& summarizes(self.metrics, self.history@)
    }

    /// Creates an empty monitor with the supplied classification tolerance.
    pub fn new(tolerance_nanos: u64) -> (monitor: Self)
        ensures
            monitor.spec_controller().spec_tolerance() == tolerance_nanos,
            is_empty_metrics(monitor.spec_metrics()),
            monitor.spec_history() == Seq::<AvSyncObservation>::empty(),
    {
        AvSyncMonitor {
            controller: AvSyncController::new(tolerance_nanos),
            metrics: AvSyncMetrics {
                observations: 0,
                in_sync: 0,
                audio_behind: 0,
                audio_ahead: 0,
                max_abs_delta_nanos: 0,
                total_abs_delta_nanos: 0,
            },
            history: Ghost(Seq::empty()),
        }
    }

    /// Records and returns one classified observation.
    pub fn observe(&mut self, video_timestamp: Timestamp, audio_timestamp: Timestamp) -> (observation:
        AvSyncObservation)
        ensures
            observation_matches(
                observation,
                old(self).spec_controller().spec_tolerance(),
                video_timestamp,
                audio_timestamp,
            ),
            final(self).spec_controller() == old(self).spec_controller(),
            old(self).spec_metrics().records(observation, final(self).spec_metrics()),
            final(self).spec_metrics().consistent(),
            final(self).spec_history() == old(self).spec_history().push(observation),
    {
        proof {
            use_type_invariant(&*self);
        }
        let observation = self.controller.observe(video_timestamp, audio_timestamp);
        let old_metrics = self.metrics;
        let state = observation.state();
        let delta = observation.delta_nanos();
        let absolute: u64 = if delta < 0 {
            ((-(delta as i128)) as u64)
        } else {
            delta as u64
        };
        let metrics = AvSyncMetrics {
            observations: old_metrics.observations.saturating_add(1),
            in_sync: if state == SyncState::InSync {
                old_metrics.in_sync.saturating_add(1)
            } else {
                old_metrics.in_sync
            },
            audio_behind: if state == SyncState::AudioBehind {
                old_metrics.audio_behind.saturating_add(1)
            } else {
                old_metrics.audio_behind
            },
            audio_ahead: if state == SyncState::AudioAhead {
                old_metrics.audio_ahead.saturating_add(1)
            } else {
                old_metrics.audio_ahead
            },
            max_abs_delta_nanos: if absolute > old_metrics.max_abs_delta_nanos {
                absolute
            } else {
                old_metrics.max_abs_delta_nanos
            },
            total_abs_delta_nanos: old_metrics.total_abs_delta_nanos.saturating_add(absolute),
        };
        proof {
            lemma_record_keeps_consistency(old_metrics, observation, metrics);
            lemma_record_extends_summary(old_metrics, self.history@, observation, metrics);
        }
        *self = AvSyncMonitor {
            controller: self.controller,
            metrics,
            history: Ghost(self.history@.push(observation)),
        };
        observation
    }

    /// Returns the accumulated metrics without resetting the monitor.
    pub fn metrics(&self) -> (metrics: AvSyncMetrics)
        ensures
            metrics == self.spec_metrics(),
            metrics.consistent(),
            summarizes(metrics, self.spec_history()),
    {
        proof {
            use_type_invariant(self);
        }
        self.metrics
    }

    /// Clears accumulated observations while preserving the tolerance policy.
    pub fn reset(&mut self)
        ensures
            final(self).spec_controller() == old(self).spec_controller(),
            is_empty_metrics(final(self).spec_metrics()),
            final(self).spec_history() == Seq::<AvSyncObservation>::empty(),
    {
        *self = AvSyncMonitor {
            controller: self.controller,
            metrics: AvSyncMetrics::default(),
            history: Ghost(Seq::empty()),
        };
    }
}

} // verus!

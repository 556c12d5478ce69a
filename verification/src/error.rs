//! Errors raised by audio values, queues, clocks and mixing.
use vstd::prelude::*;

use crate::text::{
    push_decimal, push_signed, push_str, spec_decimal, spec_signed_decimal, string_from_chars,
};
use crate::timestamp::Timestamp;
use crate::types::{AudioChannelLayout, AudioFormat, AudioMonitorTapId, AudioSourceId};

verus! {

/// Errors from a paced audio worker.
#[derive(Debug, PartialEq, Eq)]
pub enum AudioWorkerError<E> {
    /// The sample-clock pacer could not advance its timeline.
    Pacing(AudioError),
    /// The producer callback failed.
    Source(E),
    /// The producer returned a buffer that violated the worker contract.
    Submit(AudioError),
}

/// Errors raised by audio values, queues, and mixing.
#[allow(inconsistent_fields)]
#[derive(Clone, Copy, Debug, PartialEq, Eq, Structural)]
pub enum AudioError {
    /// Sample rate or channel count is zero.
    InvalidFormat,
    /// The sample count is not a complete interleaved frame sequence.
    SamplesNotInterleaved { samples: usize, channels: u16 },
    /// A sample is NaN or infinite.
    NonFiniteSample,
    /// An audio buffer exceeds [`crate::types::MAX_AUDIO_FRAMES`].
    BufferTooLarge { frames: usize },
    /// A buffer format does not match a queue or mixer.
    FormatMismatch {
        /// Expected format.
        expected: AudioFormat,
        /// Supplied format.
        actual: AudioFormat,
    },
    /// A worker buffer starts at a different sample-clock timestamp.
    BufferTimestampMismatch {
        /// Timestamp required by the worker deadline.
        expected: Timestamp,
        /// Timestamp supplied by the producer.
        actual: Timestamp,
    },
    /// Two audio formats have different channel counts.
    ChannelMismatch,
    /// A buffer has a different frame count from a mix request.
    FrameCountMismatch { expected: usize, actual: usize },
    /// A queue capacity is zero.
    ZeroCapacity,
    /// A mixer source ID is unknown.
    UnknownSource(AudioSourceId),
    /// A source occurs more than once in one mix input list.
    DuplicateInput(AudioSourceId),
    /// A source gain is not finite.
    InvalidGain,
    /// An audio gain filter is outside the bounded OBS-compatible range.
    InvalidFilterGain { milli_db: i32 },
    /// An audio limiter threshold is outside OBS's bounded dB range.
    InvalidLimiterThreshold { milli_db: i32 },
    /// An audio limiter release time is outside OBS's bounded millisecond range.
    InvalidLimiterRelease { milliseconds: u16 },
    /// An audio compressor ratio is outside OBS's bounded ratio range.
    InvalidCompressorRatio { milli_ratio: u16 },
    /// An audio compressor threshold is outside OBS's bounded dB range.
    InvalidCompressorThreshold { milli_db: i32 },
    /// An audio compressor attack time is outside OBS's bounded range.
    InvalidCompressorAttack { milliseconds: u16 },
    /// An audio compressor release time is outside OBS's bounded range.
    InvalidCompressorRelease { milliseconds: u16 },
    /// An audio compressor output gain is outside OBS's bounded dB range.
    InvalidCompressorOutputGain { milli_db: i32 },
    /// An audio expander ratio is outside OBS's bounded ratio range.
    InvalidExpanderRatio { milli_ratio: u16 },
    /// An audio expander threshold is outside OBS's bounded dB range.
    InvalidExpanderThreshold { milli_db: i32 },
    /// An audio expander attack time is outside OBS's bounded range.
    InvalidExpanderAttack { milliseconds: u16 },
    /// An audio expander release time is outside OBS's bounded range.
    InvalidExpanderRelease { milliseconds: u16 },
    /// An audio expander output gain is outside OBS's bounded dB range.
    InvalidExpanderOutputGain { milli_db: i32 },
    /// An ordered audio filter chain reached its fixed capacity.
    FilterChainFull { max: usize },
    /// An audio filter would have produced a non-finite sample.
    FilterOverflow,
    /// A source pan is not finite or is outside `[-1.0, 1.0]`.
    InvalidPan,
    /// A mix sum overflowed the finite sample range.
    MixOverflow,
    /// Source IDs are exhausted.
    SourceIdExhausted,
    /// A monitor tap capacity is zero.
    ZeroMonitorCapacity,
    /// A monitor tap ID is unknown.
    UnknownMonitorTap(AudioMonitorTapId),
    /// Monitor tap IDs are exhausted.
    MonitorTapIdExhausted,
    /// An audio pacing block must contain at least one sample frame.
    ZeroBlock,
    /// The sample-clock timestamp or frame index overflowed.
    ScheduleOverflow,
    /// A callback device clock moved backward.
    CallbackTimestampRegression {
        /// Previous callback timestamp.
        previous: Timestamp,
        /// Regressed callback timestamp.
        actual: Timestamp,
    },
    /// A callback clock correction exceeds the safe bound.
    CallbackCorrectionOutOfRange { ppm: i32 },
    /// A per-source delay exceeds the portable bound.
    InvalidSyncOffset { milliseconds: u32 },
}


/// The Debug form of a channel layout.
pub open spec fn spec_layout_debug(layout: AudioChannelLayout) -> Seq<char> {
    match layout {
        AudioChannelLayout::Mono => "Mono"@,
        AudioChannelLayout::Stereo => "Stereo"@,
        AudioChannelLayout::TwoPointOne => "TwoPointOne"@,
        AudioChannelLayout::Quad => "Quad"@,
        AudioChannelLayout::FivePointOne => "FivePointOne"@,
        AudioChannelLayout::SevenPointOne => "SevenPointOne"@,
        AudioChannelLayout::Discrete(channels) => "Discrete("@ + spec_decimal(channels as nat) + ")"@,
    }
}

/// The Debug form of an audio format.
pub open spec fn spec_format_debug(format: AudioFormat) -> Seq<char> {
    "AudioFormat { sample_rate: "@ + spec_decimal(format.spec_sample_rate() as nat) + ", channels: "@
        + spec_decimal(format.spec_channels() as nat) + ", layout: "@ + spec_layout_debug(
        format.spec_layout(),
    ) + " }"@
}

/// The Debug form of a timestamp.
pub open spec fn spec_timestamp_debug(timestamp: Timestamp) -> Seq<char> {
    "Timestamp { nanos: "@ + spec_decimal(timestamp.spec_nanos()) + " }"@
}

/// Appends the Debug form of a channel layout to `out`.
pub fn push_layout_debug(out: &mut Vec<char>, layout: AudioChannelLayout)
    ensures
        final(out)@ == old(out)@ + spec_layout_debug(layout),
{
    match layout {
        AudioChannelLayout::Mono => push_str(out, "Mono"),
        AudioChannelLayout::Stereo => push_str(out, "Stereo"),
        AudioChannelLayout::TwoPointOne => push_str(out, "TwoPointOne"),
        AudioChannelLayout::Quad => push_str(out, "Quad"),
        AudioChannelLayout::FivePointOne => push_str(out, "FivePointOne"),
        AudioChannelLayout::SevenPointOne => push_str(out, "SevenPointOne"),
        AudioChannelLayout::Discrete(channels) => {
            push_str(out, "Discrete(");
            push_decimal(out, channels as u128);
            push_str(out, ")");
            assert(out@ =~= old(out)@ + spec_layout_debug(layout));
        },
    }
}

/// Appends the Debug form of an audio format to `out`.
pub fn push_format_debug(out: &mut Vec<char>, format: AudioFormat)
    ensures
        final(out)@ == old(out)@ + spec_format_debug(format),
{
    push_str(out, "AudioFormat { sample_rate: ");
    push_decimal(out, format.sample_rate() as u128);
    push_str(out, ", channels: ");
    push_decimal(out, format.channels() as u128);
    push_str(out, ", layout: ");
    push_layout_debug(out, format.layout());
    push_str(out, " }");
    assert(out@ =~= old(out)@ + spec_format_debug(format));
}

/// Appends the Debug form of a timestamp to `out`.
pub fn push_timestamp_debug(out: &mut Vec<char>, timestamp: Timestamp)
    ensures
        final(out)@ == old(out)@ + spec_timestamp_debug(timestamp),
{
    push_str(out, "Timestamp { nanos: ");
    push_decimal(out, timestamp.as_nanos() as u128);
    push_str(out, " }");
    assert(out@ =~= old(out)@ + spec_timestamp_debug(timestamp));
}

/// The message of an audio error.
pub open spec fn spec_audio_error_message(error: AudioError) -> Seq<char> {
    match error {
        AudioError::InvalidFormat => "audio format values must be non-zero"@,
        AudioError::SamplesNotInterleaved { samples, channels } => spec_decimal(samples as nat) + " samples cannot be interleaved across "@ + spec_decimal(channels as nat) + " channels"@,
        AudioError::NonFiniteSample => "audio samples must be finite"@,
        AudioError::BufferTooLarge { frames } => "audio buffer has too many frames: "@ + spec_decimal(frames as nat),
        AudioError::FormatMismatch { expected, actual } => "audio format "@ + spec_format_debug(actual) + " does not match "@ + spec_format_debug(expected),
        AudioError::BufferTimestampMismatch { expected, actual } => "audio buffer starts at "@ + spec_timestamp_debug(actual) + "; expected "@ + spec_timestamp_debug(expected),
        AudioError::ChannelMismatch => "audio channel layouts do not match"@,
        AudioError::FrameCountMismatch { expected, actual } => "audio buffer has "@ + spec_decimal(actual as nat) + " frames; expected "@ + spec_decimal(expected as nat),
        AudioError::ZeroCapacity => "audio queue capacity must be non-zero"@,
        AudioError::UnknownSource(source) => "audio source "@ + spec_decimal(source.0 as nat) + " does not exist"@,
        AudioError::DuplicateInput(source) => "audio source "@ + spec_decimal(source.0 as nat) + " occurs more than once"@,
        AudioError::InvalidGain => "audio gain must be finite"@,
        AudioError::InvalidFilterGain { milli_db } => "audio filter gain "@ + spec_signed_decimal(milli_db as int) + " milli-dB is outside the supported range"@,
        AudioError::InvalidLimiterThreshold { milli_db } => "audio limiter threshold "@ + spec_signed_decimal(milli_db as int) + " milli-dB is outside the supported range"@,
        AudioError::InvalidLimiterRelease { milliseconds } => "audio limiter release "@ + spec_decimal(milliseconds as nat) + " ms is outside the supported range"@,
        AudioError::InvalidCompressorRatio { milli_ratio } => "audio compressor ratio "@ + spec_decimal(milli_ratio as nat) + " milli-ratio is outside the supported range"@,
        AudioError::InvalidCompressorThreshold { milli_db } => "audio compressor threshold "@ + spec_signed_decimal(milli_db as int) + " milli-dB is outside the supported range"@,
        AudioError::InvalidCompressorAttack { milliseconds } => "audio compressor attack "@ + spec_decimal(milliseconds as nat) + " ms is outside the supported range"@,
        AudioError::InvalidCompressorRelease { milliseconds } => "audio compressor release "@ + spec_decimal(milliseconds as nat) + " ms is outside the supported range"@,
        AudioError::InvalidCompressorOutputGain { milli_db } => "audio compressor output gain "@ + spec_signed_decimal(milli_db as int) + " milli-dB is outside the supported range"@,
        AudioError::InvalidExpanderRatio { milli_ratio } => "audio expander ratio "@ + spec_decimal(milli_ratio as nat) + " milli-ratio is outside the supported range"@,
        AudioError::InvalidExpanderThreshold { milli_db } => "audio expander threshold "@ + spec_signed_decimal(milli_db as int) + " milli-dB is outside the supported range"@,
        AudioError::InvalidExpanderAttack { milliseconds } => "audio expander attack "@ + spec_decimal(milliseconds as nat) + " ms is outside the supported range"@,
        AudioError::InvalidExpanderRelease { milliseconds } => "audio expander release "@ + spec_decimal(milliseconds as nat) + " ms is outside the supported range"@,
        AudioError::InvalidExpanderOutputGain { milli_db } => "audio expander output gain "@ + spec_signed_decimal(milli_db as int) + " milli-dB is outside the supported range"@,
        AudioError::FilterChainFull { max } => "audio filter chain is limited to "@ + spec_decimal(max as nat) + " filters"@,
        AudioError::FilterOverflow => "audio filter produced a non-finite sample"@,
        AudioError::InvalidPan => "audio pan must be finite and between -1 and 1"@,
        AudioError::MixOverflow => "audio mix exceeded finite sample range"@,
        AudioError::SourceIdExhausted => "audio source ID space is exhausted"@,
        AudioError::ZeroMonitorCapacity => "audio monitor tap capacity must be non-zero"@,
        AudioError::UnknownMonitorTap(tap) => "audio monitor tap "@ + spec_decimal(tap.0 as nat) + " does not exist"@,
        AudioError::MonitorTapIdExhausted => "audio monitor tap ID space is exhausted"@,
        AudioError::ZeroBlock => "audio pacing blocks must be non-empty"@,
        AudioError::ScheduleOverflow => "audio schedule timestamp overflowed"@,
        AudioError::CallbackTimestampRegression { previous, actual } => "audio callback timestamp "@ + spec_timestamp_debug(actual) + " moved before "@ + spec_timestamp_debug(previous),
        AudioError::CallbackCorrectionOutOfRange { ppm } => "audio callback correction "@ + spec_signed_decimal(ppm as int) + " ppm is outside +/-10000 ppm"@,
        AudioError::InvalidSyncOffset { milliseconds } => "audio sync offset "@ + spec_decimal(milliseconds as nat) + " ms is outside the supported range"@,
    }
}

impl AudioError {
    /// Describes the error in one line.
    pub fn message(&self) -> (message: String)
        ensures
            message@ == spec_audio_error_message(*self),
    {
        let mut out: Vec<char> = Vec::new();
        match self {
            AudioError::InvalidFormat => {
                push_str(&mut out, "audio format values must be non-zero");
            },
            AudioError::SamplesNotInterleaved { samples, channels } => {
                push_decimal(&mut out, *samples as u128);
                push_str(&mut out, " samples cannot be interleaved across ");
                push_decimal(&mut out, *channels as u128);
                push_str(&mut out, " channels");
            },
            AudioError::NonFiniteSample => {
                push_str(&mut out, "audio samples must be finite");
            },
            AudioError::BufferTooLarge { frames } => {
                push_str(&mut out, "audio buffer has too many frames: ");
                push_decimal(&mut out, *frames as u128);
            },
            AudioError::FormatMismatch { expected, actual } => {
                push_str(&mut out, "audio format ");
                push_format_debug(&mut out, *actual);
                push_str(&mut out, " does not match ");
                push_format_debug(&mut out, *expected);
            },
            AudioError::BufferTimestampMismatch { expected, actual } => {
                push_str(&mut out, "audio buffer starts at ");
                push_timestamp_debug(&mut out, *actual);
                push_str(&mut out, "; expected ");
                push_timestamp_debug(&mut out, *expected);
            },
            AudioError::ChannelMismatch => {
                push_str(&mut out, "audio channel layouts do not match");
            },
            AudioError::FrameCountMismatch { expected, actual } => {
                push_str(&mut out, "audio buffer has ");
                push_decimal(&mut out, *actual as u128);
                push_str(&mut out, " frames; expected ");
                push_decimal(&mut out, *expected as u128);
            },
            AudioError::ZeroCapacity => {
                push_str(&mut out, "audio queue capacity must be non-zero");
            },
            AudioError::UnknownSource(source) => {
                push_str(&mut out, "audio source ");
                push_decimal(&mut out, source.0 as u128);
                push_str(&mut out, " does not exist");
            },
            AudioError::DuplicateInput(source) => {
                push_str(&mut out, "audio source ");
                push_decimal(&mut out, source.0 as u128);
                push_str(&mut out, " occurs more than once");
            },
            AudioError::InvalidGain => {
                push_str(&mut out, "audio gain must be finite");
            },
            AudioError::InvalidFilterGain { milli_db } => {
                push_str(&mut out, "audio filter gain ");
                push_signed(&mut out, *milli_db as i64);
                push_str(&mut out, " milli-dB is outside the supported range");
            },
            AudioError::InvalidLimiterThreshold { milli_db } => {
                push_str(&mut out, "audio limiter threshold ");
                push_signed(&mut out, *milli_db as i64);
                push_str(&mut out, " milli-dB is outside the supported range");
            },
            AudioError::InvalidLimiterRelease { milliseconds } => {
                push_str(&mut out, "audio limiter release ");
                push_decimal(&mut out, *milliseconds as u128);
                push_str(&mut out, " ms is outside the supported range");
            },
            AudioError::InvalidCompressorRatio { milli_ratio } => {
                push_str(&mut out, "audio compressor ratio ");
                push_decimal(&mut out, *milli_ratio as u128);
                push_str(&mut out, " milli-ratio is outside the supported range");
            },
            AudioError::InvalidCompressorThreshold { milli_db } => {
                push_str(&mut out, "audio compressor threshold ");
                push_signed(&mut out, *milli_db as i64);
                push_str(&mut out, " milli-dB is outside the supported range");
            },
            AudioError::InvalidCompressorAttack { milliseconds } => {
                push_str(&mut out, "audio compressor attack ");
                push_decimal(&mut out, *milliseconds as u128);
                push_str(&mut out, " ms is outside the supported range");
            },
            AudioError::InvalidCompressorRelease { milliseconds } => {
                push_str(&mut out, "audio compressor release ");
                push_decimal(&mut out, *milliseconds as u128);
                push_str(&mut out, " ms is outside the supported range");
            },
            AudioError::InvalidCompressorOutputGain { milli_db } => {
                push_str(&mut out, "audio compressor output gain ");
                push_signed(&mut out, *milli_db as i64);
                push_str(&mut out, " milli-dB is outside the supported range");
            },
            AudioError::InvalidExpanderRatio { milli_ratio } => {
                push_str(&mut out, "audio expander ratio ");
                push_decimal(&mut out, *milli_ratio as u128);
                push_str(&mut out, " milli-ratio is outside the supported range");
            },
            AudioError::InvalidExpanderThreshold { milli_db } => {
                push_str(&mut out, "audio expander threshold ");
                push_signed(&mut out, *milli_db as i64);
                push_str(&mut out, " milli-dB is outside the supported range");
            },
            AudioError::InvalidExpanderAttack { milliseconds } => {
                push_str(&mut out, "audio expander attack ");
                push_decimal(&mut out, *milliseconds as u128);
                push_str(&mut out, " ms is outside the supported range");
            },
            AudioError::InvalidExpanderRelease { milliseconds } => {
                push_str(&mut out, "audio expander release ");
                push_decimal(&mut out, *milliseconds as u128);
                push_str(&mut out, " ms is outside the supported range");
            },
            AudioError::InvalidExpanderOutputGain { milli_db } => {
                push_str(&mut out, "audio expander output gain ");
                push_signed(&mut out, *milli_db as i64);
                push_str(&mut out, " milli-dB is outside the supported range");
            },
            AudioError::FilterChainFull { max } => {
                push_str(&mut out, "audio filter chain is limited to ");
                push_decimal(&mut out, *max as u128);
                push_str(&mut out, " filters");
            },
            AudioError::FilterOverflow => {
                push_str(&mut out, "audio filter produced a non-finite sample");
            },
            AudioError::InvalidPan => {
                push_str(&mut out, "audio pan must be finite and between -1 and 1");
            },
            AudioError::MixOverflow => {
                push_str(&mut out, "audio mix exceeded finite sample range");
            },
            AudioError::SourceIdExhausted => {
                push_str(&mut out, "audio source ID space is exhausted");
            },
            AudioError::ZeroMonitorCapacity => {
                push_str(&mut out, "audio monitor tap capacity must be non-zero");
            },
            AudioError::UnknownMonitorTap(tap) => {
                push_str(&mut out, "audio monitor tap ");
                push_decimal(&mut out, tap.0 as u128);
                push_str(&mut out, " does not exist");
            },
            AudioError::MonitorTapIdExhausted => {
                push_str(&mut out, "audio monitor tap ID space is exhausted");
            },
            AudioError::ZeroBlock => {
                push_str(&mut out, "audio pacing blocks must be non-empty");
            },
            AudioError::ScheduleOverflow => {
                push_str(&mut out, "audio schedule timestamp overflowed");
            },
            AudioError::CallbackTimestampRegression { previous, actual } => {
                push_str(&mut out, "audio callback timestamp ");
                push_timestamp_debug(&mut out, *actual);
                push_str(&mut out, " moved before ");
                push_timestamp_debug(&mut out, *previous);
            },
            AudioError::CallbackCorrectionOutOfRange { ppm } => {
                push_str(&mut out, "audio callback correction ");
                push_signed(&mut out, *ppm as i64);
                push_str(&mut out, " ppm is outside +/-10000 ppm");
            },
            AudioError::InvalidSyncOffset { milliseconds } => {
                push_str(&mut out, "audio sync offset ");
                push_decimal(&mut out, *milliseconds as u128);
                push_str(&mut out, " ms is outside the supported range");
            },
        }
        assert(out@ =~= spec_audio_error_message(*self));
        string_from_chars(out)
    }
}

/// The message of a worker error, given the message of the producer's own
/// error.
pub open spec fn spec_worker_error_message<E>(error: AudioWorkerError<E>, source_message: Seq<char>) -> Seq<char> {
    match error {
        AudioWorkerError::Pacing(error) => "audio worker pacing failed: "@ + spec_audio_error_message(error),
        AudioWorkerError::Source(_) => "audio source failed: "@ + source_message,
        AudioWorkerError::Submit(error) => "audio submission failed: "@ + spec_audio_error_message(error),
    }
}

impl<E> AudioWorkerError<E> {
    /// Describes the error in one line; `source_message` describes the
    /// producer's own error and is used for [`AudioWorkerError::Source`].
    pub fn message(&self, source_message: &str) -> (message: String)
        ensures
            message@ == spec_worker_error_message(*self, source_message@),
    {
        let mut out: Vec<char> = Vec::new();
        match self {
            AudioWorkerError::Pacing(error) => {
                push_str(&mut out, "audio worker pacing failed: ");
                push_str(&mut out, error.message().as_str());
            },
            AudioWorkerError::Source(_) => {
                push_str(&mut out, "audio source failed: ");
                push_str(&mut out, source_message);
            },
            AudioWorkerError::Submit(error) => {
                push_str(&mut out, "audio submission failed: ");
                push_str(&mut out, error.message().as_str());
            },
        }
        assert(out@ =~= spec_worker_error_message(*self, source_message@));
        string_from_chars(out)
    }
}

} // verus!

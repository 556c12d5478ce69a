//! Validated audio formats, channel layouts and stable handles.
use vstd::prelude::*;

use crate::error::AudioError;

verus! {

/// Maximum number of interleaved audio frames in one owned buffer.
pub const MAX_AUDIO_FRAMES: usize = 1_048_576;

/// Maximum rate correction accepted by a callback-driven device clock.
pub const MAX_CALLBACK_CORRECTION_PPM: i32 = 10_000;

/// Common endpoint formats tried after the engine's preferred mix format.
///
/// WASAPI shared-mode devices usually accept 48 kHz or 44.1 kHz, but fixed
/// native endpoints such as some USB interfaces and virtual cables may expose
/// only 96 kHz, 32 kHz, or 16 kHz. Keeping this list bounded lets the route and
/// monitor workers negotiate those devices without probing arbitrary formats.
pub fn common_audio_device_formats() -> (formats: [(u32, u16); 10])
    ensures
        formats@ == seq![
            (48_000u32, 2u16),
            (44_100u32, 2u16),
            (48_000u32, 1u16),
            (44_100u32, 1u16),
            (96_000u32, 2u16),
            (32_000u32, 2u16),
            (16_000u32, 2u16),
            (96_000u32, 1u16),
            (32_000u32, 1u16),
            (16_000u32, 1u16),
        ],
{
    let formats = [
        (48_000u32, 2u16),
        (44_100u32, 2u16),
        (48_000u32, 1u16),
        (44_100u32, 1u16),
        (96_000u32, 2u16),
        (32_000u32, 2u16),
        (16_000u32, 2u16),
        (96_000u32, 1u16),
        (32_000u32, 1u16),
        (16_000u32, 1u16),
    ];
    assert(formats@ =~= seq![
        (48_000u32, 2u16),
        (44_100u32, 2u16),
        (48_000u32, 1u16),
        (44_100u32, 1u16),
        (96_000u32, 2u16),
        (32_000u32, 2u16),
        (16_000u32, 2u16),
        (96_000u32, 1u16),
        (32_000u32, 1u16),
        (16_000u32, 1u16),
    ]);
    formats
}

/// Standard interleaved channel layouts accepted by the portable audio graph.
///
/// `Discrete` preserves compatibility with provider formats that expose a
/// positive channel count without a standard speaker assignment.
#[derive(Clone, Copy, Debug, PartialEq, Eq, Hash, PartialOrd, Ord, Structural)]
pub enum AudioChannelLayout {
    /// One front-center channel.
    Mono,
    /// Front-left and front-right.
    Stereo,
    /// Front-left, front-right, and low-frequency effects.
    TwoPointOne,
    /// Front-left, front-right, rear-left, and rear-right.
    Quad,
    /// Front-left, front-right, front-center, low-frequency effects, side-left,
    /// and side-right.
    FivePointOne,
    /// Front-left, front-right, front-center, low-frequency effects, rear-left,
    /// rear-right, side-left, and side-right.
    SevenPointOne,
    /// A positive channel count with no standard speaker assignment.
    Discrete(u16),
}

/// The layout that a bare channel count stands for.
pub open spec fn spec_layout_from_channels(channels: u16) -> AudioChannelLayout {
    if channels == 1 {
        AudioChannelLayout::Mono
    } else if channels == 2 {
        AudioChannelLayout::Stereo
    } else if channels == 3 {
        AudioChannelLayout::TwoPointOne
    } else if channels == 4 {
        AudioChannelLayout::Quad
    } else if channels == 6 {
        AudioChannelLayout::FivePointOne
    } else if channels == 8 {
        AudioChannelLayout::SevenPointOne
    } else {
        AudioChannelLayout::Discrete(channels)
    }
}

impl AudioChannelLayout {
    /// The number of interleaved channels in a layout.
    pub open spec fn spec_channels(self) -> u16 {
        match self {
            AudioChannelLayout::Mono => 1,
            AudioChannelLayout::Stereo => 2,
            AudioChannelLayout::TwoPointOne => 3,
            AudioChannelLayout::Quad => 4,
            AudioChannelLayout::FivePointOne => 6,
            AudioChannelLayout::SevenPointOne => 8,
            AudioChannelLayout::Discrete(channels) => channels,
        }
    }

    /// The stable identifier of a layout.
    pub open spec fn spec_id(self) -> Seq<char> {
        match self {
            AudioChannelLayout::Mono => "mono"@,
            AudioChannelLayout::Stereo => "stereo"@,
            AudioChannelLayout::TwoPointOne => "2.1"@,
            AudioChannelLayout::Quad => "quad"@,
            AudioChannelLayout::FivePointOne => "5.1"@,
            AudioChannelLayout::SevenPointOne => "7.1"@,
            AudioChannelLayout::Discrete(_) => "discrete"@,
        }
    }

    /// Infers the standard layout for a channel count, retaining unknown
    /// positive counts as [`Self::Discrete`].
    pub fn from_channels(channels: u16) -> (layout: Self)
        ensures
            layout == spec_layout_from_channels(channels),
            layout.spec_channels() == channels,
    {
        match channels {
            1 => AudioChannelLayout::Mono,
            2 => AudioChannelLayout::Stereo,
            3 => AudioChannelLayout::TwoPointOne,
            4 => AudioChannelLayout::Quad,
            6 => AudioChannelLayout::FivePointOne,
            8 => AudioChannelLayout::SevenPointOne,
            other => AudioChannelLayout::Discrete(other),
        }
    }

    /// Returns the number of interleaved channels in this layout.
    pub fn channels(self) -> (channels: u16)
        ensures
            channels == self.spec_channels(),
    {
        match self {
            AudioChannelLayout::Mono => 1,
            AudioChannelLayout::Stereo => 2,
            AudioChannelLayout::TwoPointOne => 3,
            AudioChannelLayout::Quad => 4,
            AudioChannelLayout::FivePointOne => 6,
            AudioChannelLayout::SevenPointOne => 8,
            AudioChannelLayout::Discrete(channels) => channels,
        }
    }

    /// Returns a stable identifier for standard layouts.
    pub fn id(self) -> (id: &'static str)
        ensures
            id@ == self.spec_id(),
    {
        match self {
            AudioChannelLayout::Mono => "mono",
            AudioChannelLayout::Stereo => "stereo",
            AudioChannelLayout::TwoPointOne => "2.1",
            AudioChannelLayout::Quad => "quad",
            AudioChannelLayout::FivePointOne => "5.1",
            AudioChannelLayout::SevenPointOne => "7.1",
            AudioChannelLayout::Discrete(_) => "discrete",
        }
    }
}

/// A validated interleaved audio format.
///
/// The sample rate and the channel count are positive, and the channel count
/// is the one that the layout names.
#[derive(Clone, Copy, Debug, PartialEq, Eq, Hash, PartialOrd, Ord, Structural)]
pub struct AudioFormat {
    pub(crate) sample_rate: u32,
    pub(crate) channels: u16,
    pub(crate) layout: AudioChannelLayout,
}

impl AudioFormat {
    /// The format's sample rate in frames per second.
    pub closed spec fn spec_sample_rate(self) -> u32 {
        self.sample_rate
    }

    /// The format's number of interleaved channels.
    pub closed spec fn spec_channels(self) -> u16 {
        self.channels
    }

    /// The format's channel layout.
    pub closed spec fn spec_layout(self) -> AudioChannelLayout {
        self.layout
    }

    /// What every format built by this library satisfies.
    pub closed spec fn wf(self) -> bool {
        &&& self.sample_rate > 0
        &&& self.channels > 0
        &&& self.layout.spec_channels() == self.channels
    }

    #[verifier::type_invariant]
    closed spec fn format_invariant(self) -> bool {
        self.wf()
    }

    /// Well-formedness in terms of the public accessors.
    pub broadcast proof fn lemma_wf(self)
        requires
            #[trigger] self.wf(),
        ensures
            self.spec_sample_rate() > 0,
            self.spec_channels() > 0,
            self.spec_layout().spec_channels() == self.spec_channels(),
    {
    }

    /// Creates a format with a positive sample rate and channel count.
    ///
    /// Returns [`AudioError::InvalidFormat`] when either value is zero.
    pub fn new(sample_rate: u32, channels: u16) -> (result: Result<Self, AudioError>)
        ensures
            match result {
                Ok(format) => {
                    &&& sample_rate != 0 && channels != 0
                    &&& format.wf()
                    &&& format.spec_sample_rate() == sample_rate
                    &&& format.spec_channels() == channels
                    &&& format.spec_layout() == spec_layout_from_channels(channels)
                },
                Err(error) => {
                    &&& sample_rate == 0 || channels == 0
                    &&& error == AudioError::InvalidFormat
                },
            },
    {
        if sample_rate == 0 || channels == 0 {
            return Err(AudioError::InvalidFormat);
        }
        Ok(AudioFormat { sample_rate, channels, layout: AudioChannelLayout::from_channels(channels) })
    }

    /// Creates a format from a named channel layout.
    ///
    /// The layout is part of the format identity. Returns
    /// [`AudioError::InvalidFormat`] when the sample rate or the layout
    /// contains no channels.
    pub fn with_layout(sample_rate: u32, layout: AudioChannelLayout) -> (result: Result<
        Self,
        AudioError,
    >)
        ensures
            match result {
                Ok(format) => {
                    &&& sample_rate != 0 && layout.spec_channels() != 0
                    &&& format.wf()
                    &&& format.spec_sample_rate() == sample_rate
                    &&& format.spec_channels() == layout.spec_channels()
                    &&& format.spec_layout() == layout
                },
                Err(error) => {
                    &&& sample_rate == 0 || layout.spec_channels() == 0
                    &&& error == AudioError::InvalidFormat
                },
            },
    {
        if sample_rate == 0 || layout.channels() == 0 {
            return Err(AudioError::InvalidFormat);
        }
        Ok(AudioFormat { sample_rate, channels: layout.channels(), layout })
    }

    /// Returns samples per second.
    pub fn sample_rate(self) -> (rate: u32)
        ensures
            rate == self.spec_sample_rate(),
            rate > 0,
            self.wf(),
    {
        proof {
            use_type_invariant(&self);
        }
        self.sample_rate
    }

    /// Returns the number of interleaved channels.
    pub fn channels(self) -> (channels: u16)
        ensures
            channels == self.spec_channels(),
            channels > 0,
            self.wf(),
    {
        proof {
            use_type_invariant(&self);
        }
        self.channels
    }

    /// Returns the semantic layout associated with the interleaved channels.
    pub fn layout(self) -> (layout: AudioChannelLayout)
        ensures
            layout == self.spec_layout(),
            layout.spec_channels() == self.spec_channels(),
            self.wf(),
    {
        proof {
            use_type_invariant(&self);
        }
        self.layout
    }
}

/// A stable handle for a mixer source.
#[derive(Clone, Copy, Debug, PartialEq, Eq, Hash, PartialOrd, Ord, Structural)]
pub struct AudioSourceId(pub u64);

impl AudioSourceId {
    /// Returns the numeric value for logs and fixtures.
    pub fn value(self) -> (value: u64)
        ensures
            value == self.0,
    {
        self.0
    }
}

/// The destination policy for one mixer source.
///
/// The output bus is the signal sent to recording and streaming. The monitor
/// bus is the signal sent to a local monitoring sink.
#[derive(Clone, Copy, Debug, PartialEq, Eq, Hash, PartialOrd, Ord, Structural)]
pub enum AudioMonitorMode {
    /// Send the source to the output bus only.
    Off,
    /// Send the source to the monitor bus and mute it from the output bus.
    MonitorOnly,
    /// Send the source to both the monitor and output buses.
    MonitorAndOutput,
}

impl Default for AudioMonitorMode {
    fn default() -> (mode: Self)
        ensures
            mode == AudioMonitorMode::Off,
    {
        AudioMonitorMode::Off
    }
}

impl AudioMonitorMode {
    /// Returns whether this mode contributes the source to the output bus.
    pub fn sends_to_output(self) -> (sends: bool)
        ensures
            sends <==> (self == AudioMonitorMode::Off || self == AudioMonitorMode::MonitorAndOutput),
    {
        match self {
            AudioMonitorMode::Off | AudioMonitorMode::MonitorAndOutput => true,
            AudioMonitorMode::MonitorOnly => false,
        }
    }

    /// Returns whether this mode contributes the source to the monitor bus.
    pub fn sends_to_monitor(self) -> (sends: bool)
        ensures
            sends <==> (self == AudioMonitorMode::MonitorOnly || self
                == AudioMonitorMode::MonitorAndOutput),
    {
        match self {
            AudioMonitorMode::MonitorOnly | AudioMonitorMode::MonitorAndOutput => true,
            AudioMonitorMode::Off => false,
        }
    }
}

/// A stable handle for a bounded post-mix monitoring tap.
#[derive(Clone, Copy, Debug, PartialEq, Eq, Hash, PartialOrd, Ord, Structural)]
pub struct AudioMonitorTapId(pub u64);

impl AudioMonitorTapId {
    /// Returns the numeric value for logs and fixtures.
    pub fn value(self) -> (value: u64)
        ensures
            value == self.0,
    {
        self.0
    }
}

} // verus!

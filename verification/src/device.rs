//! Audio device descriptors, lifecycle states and the deterministic
//! simulated devices used when no host audio server is available.
use vstd::prelude::*;

use crate::buffer::AudioBuffer;
use crate::error::{spec_audio_error_message, AudioError};
use crate::text::{is_blank, push_str, spec_is_blank, str_eq, string_from_chars};
use crate::timestamp::Timestamp;
use crate::types::{AudioFormat, MAX_AUDIO_FRAMES};

verus! {

broadcast use AudioFormat::lemma_wf;

/// An I/O error from the operating system, carried through unchanged.
#[verifier::external_type_specification]
#[verifier::external_body]
pub struct ExIoError(std::io::Error);

/// The direction of a device exposed by an audio provider.
#[derive(Clone, Copy, Debug, PartialEq, Eq, Hash, PartialOrd, Ord, Structural)]
pub enum AudioDeviceKind {
    /// A source that supplies samples to the mixer.
    Input,
    /// A sink used for monitoring the mixed signal.
    Output,
}

/// Stable metadata for one audio device.
#[derive(Debug, PartialEq, Eq)]
pub struct AudioDeviceInfo {
    id: String,
    name: String,
    kind: AudioDeviceKind,
    available: bool,
    default_route: bool,
}

/// Lifecycle state of an audio input.
#[derive(Clone, Copy, Debug, PartialEq, Eq, Structural)]
pub enum AudioInputState {
    /// The input has not been started.
    Stopped,
    /// The input is delivering blocks.
    Running,
    /// The input failed and must be recreated.
    Failed,
}

/// Lifecycle state of an audio monitoring output.
#[derive(Clone, Copy, Debug, PartialEq, Eq, Structural)]
pub enum AudioOutputState {
    /// The output has not received a block.
    Stopped,
    /// The output is accepting mixed blocks.
    Running,
    /// The output failed and must be recreated.
    Failed,
}

/// Errors crossing the platform audio boundary.
#[derive(Debug)]
pub enum AudioDeviceError {
    /// A descriptor or provider argument is invalid.
    InvalidDevice(String),
    /// The requested device or format is not available.
    Unavailable(String),
    /// The underlying device process or stream returned an I/O error.
    Io(std::io::Error),
    /// The device returned a block that cannot satisfy the audio contract.
    Audio(AudioError),
}

/// The message of a device error whose variant carries no I/O error.
pub open spec fn spec_device_error_message(error: AudioDeviceError) -> Seq<char> {
    match error {
        AudioDeviceError::InvalidDevice(reason) => "invalid audio device: "@ + reason@,
        AudioDeviceError::Unavailable(reason) => "audio device unavailable: "@ + reason@,
        AudioDeviceError::Io(_) => "audio device I/O failed: "@,
        AudioDeviceError::Audio(error) => "audio device block failed: "@
            + spec_audio_error_message(error),
    }
}

impl AudioDeviceError {
    /// Describes the error in one line. For an I/O error the description of
    /// the operating system's error follows the prefix.
    pub fn message(&self) -> (message: String)
        ensures
            self is Io ==> message@.len() >= spec_device_error_message(*self).len()
                && message@.subrange(0, spec_device_error_message(*self).len() as int)
                == spec_device_error_message(*self),
            !(self is Io) ==> message@ == spec_device_error_message(*self),
    {
        let mut out: Vec<char> = Vec::new();
        match self {
            AudioDeviceError::InvalidDevice(reason) => {
                push_str(&mut out, "invalid audio device: ");
                push_str(&mut out, reason.as_str());
            },
            AudioDeviceError::Unavailable(reason) => {
                push_str(&mut out, "audio device unavailable: ");
                push_str(&mut out, reason.as_str());
            },
            AudioDeviceError::Io(error) => {
                push_str(&mut out, "audio device I/O failed: ");
                let ghost prefix = out@;
                let text = error.to_string();
                push_str(&mut out, text.as_str());
                assert(out@.subrange(0, prefix.len() as int) =~= prefix);
            },
            AudioDeviceError::Audio(error) => {
                push_str(&mut out, "audio device block failed: ");
                push_str(&mut out, error.message().as_str());
            },
        }
        proof {
            if !(self is Io) {
                assert(out@ =~= spec_device_error_message(*self));
            }
        }
        string_from_chars(out)
    }
}

/// The message of the error for a blank device id or name.
pub open spec fn blank_device_message() -> Seq<char> {
    "audio device id and name must be non-empty"@
}

impl Clone for AudioDeviceInfo {
    fn clone(&self) -> (copy: Self)
        ensures
            copy.spec_id() == self.spec_id(),
            copy.spec_name() == self.spec_name(),
            copy.spec_kind() == self.spec_kind(),
            copy.spec_available() == self.spec_available(),
            copy.spec_default() == self.spec_default(),
    {
        AudioDeviceInfo {
            id: self.id.clone(),
            name: self.name.clone(),
            kind: self.kind,
            available: self.available,
            default_route: self.default_route,
        }
    }
}

impl View for AudioDeviceInfo {
    /// Id, name, kind, availability and whether it is the default route.
    type V = (Seq<char>, Seq<char>, AudioDeviceKind, bool, bool);

    open spec fn view(&self) -> (Seq<char>, Seq<char>, AudioDeviceKind, bool, bool) {
        (self.spec_id(), self.spec_name(), self.spec_kind(), self.spec_available(), self.spec_default())
    }
}

impl AudioDeviceInfo {
    /// The provider-stable id.
    pub closed spec fn spec_id(&self) -> Seq<char> {
        self.id@
    }

    /// The display name.
    pub closed spec fn spec_name(&self) -> Seq<char> {
        self.name@
    }

    /// The direction.
    pub closed spec fn spec_kind(&self) -> AudioDeviceKind {
        self.kind
    }

    /// Whether the provider considers the device usable.
    pub closed spec fn spec_available(&self) -> bool {
        self.available
    }

    /// Whether this is the provider's default route for its kind.
    pub closed spec fn spec_default(&self) -> bool {
        self.default_route
    }

    /// Creates a validated device descriptor, available and not the default
    /// route.
    ///
    /// Returns [`AudioDeviceError::InvalidDevice`] when the id or the name is
    /// empty or all whitespace.
    pub fn new(id: &str, name: &str, kind: AudioDeviceKind) -> (result: Result<Self, AudioDeviceError>)
        ensures
            match result {
                Ok(device) => {
                    &&& !spec_is_blank(id@)
                    &&& !spec_is_blank(name@)
                    &&& device.spec_id() == id@
                    &&& device.spec_name() == name@
                    &&& device.spec_kind() == kind
                    &&& device.spec_available()
                    &&& !device.spec_default()
                },
                Err(error) => {
                    &&& spec_is_blank(id@) || spec_is_blank(name@)
                    &&& error is InvalidDevice
                    &&& error->InvalidDevice_0@ == blank_device_message()
                },
            },
    {
        if is_blank(id) || is_blank(name) {
            return Err(AudioDeviceError::InvalidDevice("audio device id and name must be non-empty".to_owned()));
        }
        Ok(AudioDeviceInfo {
            id: id.to_owned(),
            name: name.to_owned(),
            kind,
            available: true,
            default_route: false,
        })
    }

    /// Returns the provider-stable device ID.
    pub fn id(&self) -> (id: &str)
        ensures
            id@ == self.spec_id(),
    {
        self.id.as_str()
    }

    /// Returns the display name.
    pub fn name(&self) -> (name: &str)
        ensures
            name@ == self.spec_name(),
    {
        self.name.as_str()
    }

    /// Returns whether this is an input or output device.
    pub fn kind(&self) -> (kind: AudioDeviceKind)
        ensures
            kind == self.spec_kind(),
    {
        self.kind
    }

    /// Returns whether the provider currently considers the device usable.
    pub fn available(&self) -> (available: bool)
        ensures
            available == self.spec_available(),
    {
        self.available
    }

    /// Returns whether the provider identifies this as the system/default
    /// route for its device kind.
    pub fn is_default(&self) -> (default_route: bool)
        ensures
            default_route == self.spec_default(),
    {
        self.default_route
    }

    /// Marks the descriptor unavailable (or available) without removing it
    /// from a catalog.
    pub fn set_available(&mut self, available: bool)
        ensures
            final(self).spec_available() == available,
            final(self).spec_id() == old(self).spec_id(),
            final(self).spec_name() == old(self).spec_name(),
            final(self).spec_kind() == old(self).spec_kind(),
            final(self).spec_default() == old(self).spec_default(),
    {
        self.available = available;
    }

    /// Marks the descriptor as the provider's default route.
    pub fn set_default(&mut self, default_route: bool)
        ensures
            final(self).spec_default() == default_route,
            final(self).spec_id() == old(self).spec_id(),
            final(self).spec_name() == old(self).spec_name(),
            final(self).spec_kind() == old(self).spec_kind(),
            final(self).spec_available() == old(self).spec_available(),
    {
        self.default_route = default_route;
    }
}

/// The id of the simulated input device.
pub open spec fn simulated_input_id() -> Seq<char> {
    "test-audio"@
}

/// The id of the simulated output device.
pub open spec fn simulated_output_id() -> Seq<char> {
    "test-output"@
}

/// Deterministic provider used when a host audio server is unavailable.
#[derive(Clone, Copy, Debug)]
pub struct SimulatedAudioProvider;

impl Default for SimulatedAudioProvider {
    fn default() -> (provider: Self) {
        SimulatedAudioProvider
    }
}

impl SimulatedAudioProvider {
    /// Creates the fallback provider.
    pub fn new() -> (provider: Self) {
        SimulatedAudioProvider
    }

    /// Discovers the one deterministic input device, which is the default
    /// input route.
    pub fn discover(&self) -> (result: Result<Vec<AudioDeviceInfo>, AudioDeviceError>)
        ensures
            result is Ok,
            result->Ok_0@.len() == 1,
            result->Ok_0@[0].spec_id() == simulated_input_id(),
            result->Ok_0@[0].spec_name() == "Deterministic test signal"@,
            result->Ok_0@[0].spec_kind() == AudioDeviceKind::Input,
            result->Ok_0@[0].spec_available(),
            result->Ok_0@[0].spec_default(),
    {
        proof {
            reveal_strlit("test-audio");
            reveal_strlit("Deterministic test signal");
            assert(!spec_is_blank("test-audio"@)) by {
                assert(!crate::text::spec_is_whitespace("test-audio"@[0]));
            }
            assert(!spec_is_blank("Deterministic test signal"@)) by {
                assert(!crate::text::spec_is_whitespace("Deterministic test signal"@[0]));
            }
        }
        let mut device = match AudioDeviceInfo::new(
            "test-audio",
            "Deterministic test signal",
            AudioDeviceKind::Input,
        ) {
            Ok(device) => device,
            Err(error) => return Err(error),
        };
        device.set_default(true);
        let mut devices = Vec::new();
        devices.push(device);
        Ok(devices)
    }

    /// Discovers the one deterministic monitor sink, which is the default
    /// output route.
    pub fn discover_outputs(&self) -> (result: Result<Vec<AudioDeviceInfo>, AudioDeviceError>)
        ensures
            result is Ok,
            result->Ok_0@.len() == 1,
            result->Ok_0@[0].spec_id() == simulated_output_id(),
            result->Ok_0@[0].spec_name() == "Deterministic monitor sink"@,
            result->Ok_0@[0].spec_kind() == AudioDeviceKind::Output,
            result->Ok_0@[0].spec_available(),
            result->Ok_0@[0].spec_default(),
    {
        proof {
            reveal_strlit("test-output");
            reveal_strlit("Deterministic monitor sink");
            assert(!spec_is_blank("test-output"@)) by {
                assert(!crate::text::spec_is_whitespace("test-output"@[0]));
            }
            assert(!spec_is_blank("Deterministic monitor sink"@)) by {
                assert(!crate::text::spec_is_whitespace("Deterministic monitor sink"@[0]));
            }
        }
        let mut device = match AudioDeviceInfo::new(
            "test-output",
            "Deterministic monitor sink",
            AudioDeviceKind::Output,
        ) {
            Ok(device) => device,
            Err(error) => return Err(error),
        };
        device.set_default(true);
        let mut devices = Vec::new();
        devices.push(device);
        Ok(devices)
    }

    /// Opens the simulated input at `format`.
    ///
    /// Returns [`AudioDeviceError::Unavailable`] naming `device_id` for any id
    /// other than the simulated input's.
    pub fn open_input(&self, device_id: &str, format: AudioFormat) -> (result: Result<
        SimulatedAudioInput,
        AudioDeviceError,
    >)
        ensures
            match result {
                Ok(input) => {
                    &&& device_id@ == simulated_input_id()
                    &&& input.spec_format() == format
                    &&& input.spec_state() == AudioInputState::Stopped
                    &&& input.spec_phase() == 0
                },
                Err(error) => {
                    &&& device_id@ != simulated_input_id()
                    &&& error is Unavailable
                    &&& error->Unavailable_0@ == device_id@
                },
            },
    {
        if !str_eq(device_id, "test-audio") {
            return Err(AudioDeviceError::Unavailable(device_id.to_owned()));
        }
        SimulatedAudioInput::new(format)
    }

    /// Opens the simulated monitor sink at `format`.
    ///
    /// Returns [`AudioDeviceError::Unavailable`] naming `device_id` for any id
    /// other than the simulated output's.
    pub fn open_output(&self, device_id: &str, format: AudioFormat) -> (result: Result<
        SimulatedAudioOutput,
        AudioDeviceError,
    >)
        ensures
            match result {
                Ok(output) => {
                    &&& device_id@ == simulated_output_id()
                    &&& output.spec_format() == format
                    &&& output.spec_state() == AudioOutputState::Stopped
                },
                Err(error) => {
                    &&& device_id@ != simulated_output_id()
                    &&& error is Unavailable
                    &&& error->Unavailable_0@ == device_id@
                },
            },
    {
        if !str_eq(device_id, "test-output") {
            return Err(AudioDeviceError::Unavailable(device_id.to_owned()));
        }
        SimulatedAudioOutput::new(format)
    }
}

/// Frames in one period of the simulated square wave.
pub open spec fn signal_period() -> nat {
    48_000
}

/// Whether the simulated signal is in its positive half at `phase`.
pub open spec fn signal_high(phase: int) -> bool {
    phase % (signal_period() as int) < 24_000
}

/// The interleaved simulated signal: `frames` frames starting at `phase`,
/// every channel of a frame at the same level.
pub open spec fn simulated_signal<S>(phase: int, frames: nat, channels: nat, high: S, low: S) -> Seq<S> {
    Seq::new(
        frames * channels,
        |k: int|
            if signal_high(phase + k / (channels as int)) {
                high
            } else {
                low
            },
    )
}

/// A bounded deterministic square-wave signal for tests and fallback
/// operation: the first half of every 48 000-frame period is at the high
/// level, the second half at the low level.
pub struct SimulatedAudioInput {
    format: AudioFormat,
    state: AudioInputState,
    phase: u32,
}

impl SimulatedAudioInput {
    /// The negotiated format.
    pub closed spec fn spec_format(&self) -> AudioFormat {
        self.format
    }

    /// The lifecycle state.
    pub closed spec fn spec_state(&self) -> AudioInputState {
        self.state
    }

    /// The position in the square wave's period.
    pub closed spec fn spec_phase(&self) -> u32 {
        self.phase
    }

    #[verifier::type_invariant]
    closed spec fn phase_in_period(&self) -> bool {
        self.phase < 48_000
    }

    /// Creates a stopped signal source at phase zero.
    ///
    /// The check for a channel-less format never fails: every [`AudioFormat`]
    /// has at least one channel.
    pub fn new(format: AudioFormat) -> (result: Result<Self, AudioDeviceError>)
        ensures
            result is Ok,
            result->Ok_0.spec_format() == format,
            result->Ok_0.spec_state() == AudioInputState::Stopped,
            result->Ok_0.spec_phase() == 0,
    {
        if format.channels() == 0 {
            return Err(AudioDeviceError::InvalidDevice("audio input requires at least one channel".to_owned()));
        }
        Ok(SimulatedAudioInput { format, state: AudioInputState::Stopped, phase: 0 })
    }

    /// Returns the fixed format negotiated at construction.
    pub fn format(&self) -> (format: AudioFormat)
        ensures
            format == self.spec_format(),
    {
        self.format
    }

    /// Returns the current lifecycle state.
    pub fn state(&self) -> (state: AudioInputState)
        ensures
            state == self.spec_state(),
    {
        self.state
    }

    /// Reads one block of `frames` frames of the square wave at `timestamp`,
    /// with `high` and `low` standing for the two signal levels.
    ///
    /// The input becomes running and the phase advances by `frames` (modulo
    /// the period) whether or not the block fits. Returns
    /// [`AudioDeviceError::Audio`] with [`AudioError::BufferTooLarge`] when
    /// the block exceeds the frame limit.
    pub fn read_block<S: Copy>(&mut self, timestamp: Timestamp, frames: usize, high: S, low: S) -> (result:
        Result<AudioBuffer<S>, AudioDeviceError>)
        ensures
            final(self).spec_state() == AudioInputState::Running,
            final(self).spec_format() == old(self).spec_format(),
            final(self).spec_phase() == (old(self).spec_phase() + frames) % (signal_period() as int),
            match result {
                Ok(buffer) => {
                    &&& frames <= MAX_AUDIO_FRAMES
                    &&& buffer.spec_format() == old(self).spec_format()
                    &&& buffer.spec_timestamp() == timestamp
                    &&& buffer.spec_frames() == frames
                    &&& buffer.spec_samples() == simulated_signal(
                        old(self).spec_phase() as int,
                        frames as nat,
                        old(self).spec_format().spec_channels() as nat,
                        high,
                        low,
                    )
                },
                Err(error) => {
                    &&& frames > MAX_AUDIO_FRAMES
                    &&& error is Audio
                    &&& error->Audio_0 == AudioError::BufferTooLarge { frames }
                },
            },
    {
        proof {
            use_type_invariant(&*self);
        }
        self.state = AudioInputState::Running;
        let start = self.phase;
        self.phase = ((self.phase as u64 + (frames as u64 % 48_000)) % 48_000) as u32;
        assert(self.phase == (start + frames) % 48_000) by (nonlinear_arith)
            requires
                self.phase == (start + (frames % 48_000)) % 48_000,
                start < 48_000 || start >= 0,
        ;
        if frames > MAX_AUDIO_FRAMES {
            return Err(AudioDeviceError::Audio(AudioError::BufferTooLarge { frames }));
        }
        let channels = self.format.channels() as usize;
        assert(frames * channels <= MAX_AUDIO_FRAMES * 65535) by (nonlinear_arith)
            requires
                frames <= MAX_AUDIO_FRAMES,
                channels <= 65535,
        ;
        let mut samples: Vec<S> = Vec::new();
        let mut frame: usize = 0;
        let mut phase = start;
        while frame < frames
            invariant
                frame <= frames <= MAX_AUDIO_FRAMES,
                channels == self.format.spec_channels(),
                channels > 0,
                phase as int == (start + frame) % 48_000,
                samples@ == simulated_signal(start as int, frame as nat, channels as nat, high, low),
            decreases frames - frame,
        {
            let value = if phase < 24_000 {
                high
            } else {
                low
            };
            let ghost before = samples@;
            let mut channel: usize = 0;
            while channel < channels
                invariant
                    channel <= channels,
                    samples@ == before + Seq::new(channel as nat, |k: int| value),
                decreases channels - channel,
            {
                samples.push(value);
                channel = channel + 1;
                assert(samples@ =~= before + Seq::new(channel as nat, |k: int| value));
            }
            proof {
                lemma_signal_step(start as int, frame as nat, channels as nat, high, low, value);
            }
            phase = if phase == 47_999 {
                0
            } else {
                phase + 1
            };
            frame = frame + 1;
        }
        proof {
            crate::buffer::lemma_whole_frames(frames as int, channels as int);
        }
        match AudioBuffer::new(self.format, timestamp, samples) {
            Ok(buffer) => Ok(buffer),
            Err(error) => Err(AudioDeviceError::Audio(error)),
        }
    }

    /// Stops the input.
    pub fn stop(&mut self)
        ensures
            final(self).spec_state() == AudioInputState::Stopped,
            final(self).spec_format() == old(self).spec_format(),
            final(self).spec_phase() == old(self).spec_phase(),
    {
        proof {
            use_type_invariant(&*self);
        }
        self.state = AudioInputState::Stopped;
    }
}

proof fn lemma_signal_step<S>(start: int, frame: nat, channels: nat, high: S, low: S, value: S)
    requires
        channels > 0,
        start >= 0,
        value == (if signal_high(start + frame) {
            high
        } else {
            low
        }),
    ensures
        simulated_signal(start, frame, channels, high, low) + Seq::new(channels, |k: int| value)
            =~= simulated_signal(start, frame + 1, channels, high, low),
{
    let left = simulated_signal(start, frame, channels, high, low) + Seq::new(channels, |k: int| value);
    let right = simulated_signal(start, frame + 1, channels, high, low);
    assert((frame + 1) * channels == frame * channels + channels) by (nonlinear_arith);
    assert forall|k: int| 0 <= k < right.len() implies left[k] == right[k] by {
        if k < frame * channels {
            assert(k / (channels as int) < frame) by (nonlinear_arith)
                requires
                    0 <= k < frame * channels,
                    channels > 0,
            ;
        } else {
            assert(k / (channels as int) == frame) by (nonlinear_arith)
                requires
                    frame * channels <= k < frame * channels + channels,
                    channels > 0,
            ;
        }
    }
}

/// Deterministic sink used to exercise optional monitoring without a host
/// device. It accepts blocks of its format and discards them.
pub struct SimulatedAudioOutput {
    format: AudioFormat,
    state: AudioOutputState,
}

impl SimulatedAudioOutput {
    /// The negotiated format.
    pub closed spec fn spec_format(&self) -> AudioFormat {
        self.format
    }

    /// The lifecycle state.
    pub closed spec fn spec_state(&self) -> AudioOutputState {
        self.state
    }

    /// Creates a stopped deterministic sink.
    ///
    /// The check for a channel-less format never fails: every [`AudioFormat`]
    /// has at least one channel.
    pub fn new(format: AudioFormat) -> (result: Result<Self, AudioDeviceError>)
        ensures
            result is Ok,
            result->Ok_0.spec_format() == format,
            result->Ok_0.spec_state() == AudioOutputState::Stopped,
    {
        if format.channels() == 0 {
            return Err(AudioDeviceError::InvalidDevice("audio output requires at least one channel".to_owned()));
        }
        Ok(SimulatedAudioOutput { format, state: AudioOutputState::Stopped })
    }

    /// Returns the fixed format negotiated at construction.
    pub fn format(&self) -> (format: AudioFormat)
        ensures
            format == self.spec_format(),
    {
        self.format
    }

    /// Returns the current lifecycle state.
    pub fn state(&self) -> (state: AudioOutputState)
        ensures
            state == self.spec_state(),
    {
        self.state
    }

    /// Accepts one block of the sink's format, which makes the sink running.
    ///
    /// Returns [`AudioDeviceError::Audio`] with
    /// [`AudioError::FormatMismatch`], leaving the state unchanged, for a
    /// block of another format.
    pub fn write_block<S: Copy>(&mut self, buffer: &AudioBuffer<S>) -> (result: Result<(), AudioDeviceError>)
        ensures
            final(self).spec_format() == old(self).spec_format(),
            if buffer.spec_format() == old(self).spec_format() {
                &&& result is Ok
                &&& final(self).spec_state() == AudioOutputState::Running
            } else {
                &&& result is Err
                &&& result->Err_0 is Audio
                &&& result->Err_0->Audio_0 == AudioError::FormatMismatch {
                    expected: old(self).spec_format(),
                    actual: buffer.spec_format(),
                }
                &&& final(self).spec_state() == old(self).spec_state()
            },
    {
        if buffer.format() != self.format {
            return Err(AudioDeviceError::Audio(AudioError::FormatMismatch { expected: self.format, actual: buffer.format() }));
        }
        self.state = AudioOutputState::Running;
        Ok(())
    }

    /// Stops the sink.
    pub fn stop(&mut self)
        ensures
            final(self).spec_state() == AudioOutputState::Stopped,
            final(self).spec_format() == old(self).spec_format(),
    {
        self.state = AudioOutputState::Stopped;
    }
}

} // verus!

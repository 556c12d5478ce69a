//! The WASAPI streams' bookkeeping between the device callbacks and the
//! engine.
//!
//! The device callbacks run on the audio stack's threads and hand blocks
//! over bounded queues; this module holds what is decided on either side
//! of those queues: which blocks a callback may hand over, how the reader
//! gathers exactly the samples of one block, how the writer reports a
//! failed or stopped stream, which stream configuration is chosen, and how
//! the endpoints become device descriptors.
use vstd::prelude::*;

use crate::buffer::{checked_buffer_result, AudioBuffer};
use crate::device::{AudioDeviceError, AudioDeviceInfo, AudioDeviceKind, AudioInputState, AudioOutputState};
use crate::error::AudioError;
use crate::output_worker::{bounded_error, spec_bounded_error};
use crate::text::{push_decimal, push_str, spec_decimal, str_eq, string_from_chars};
use crate::timestamp::Timestamp;
use crate::types::{AudioFormat, MAX_AUDIO_FRAMES};

verus! {

/// Blocks that the bounded callback queues hold.
pub const CALLBACK_QUEUE_CAPACITY: usize = 12;

/// The most samples one input callback may hand over.
pub const MAX_CALLBACK_SAMPLES: usize = MAX_AUDIO_FRAMES * 8;

/// What an input callback hands to the reader.
#[derive(Debug)]
pub enum CallbackBlock<S> {
    /// The samples of one callback.
    Samples(Vec<S>),
    /// The device reported a discontinuity but keeps the stream alive.
    Xrun,
    /// The stream failed with a message.
    Error(String),
}

/// The block that an input callback with `samples` hands over: the samples
/// themselves, or an error when they exceed [`MAX_CALLBACK_SAMPLES`], in
/// which case the callback also flags an overrun.
pub fn callback_block<S: Copy>(samples: &[S]) -> (block: CallbackBlock<S>)
    ensures
        samples@.len() <= MAX_CALLBACK_SAMPLES ==> (block matches CallbackBlock::Samples(v) && v@
            == samples@),
        samples@.len() > MAX_CALLBACK_SAMPLES ==> (block matches CallbackBlock::Error(m) && m@
            == "WASAPI callback exceeded the "@ + spec_decimal(MAX_CALLBACK_SAMPLES as nat)
            + "-sample block limit"@),
{
    if samples.len() > MAX_CALLBACK_SAMPLES {
        let mut out: Vec<char> = Vec::new();
        push_str(&mut out, "WASAPI callback exceeded the ");
        push_decimal(&mut out, MAX_CALLBACK_SAMPLES as u128);
        push_str(&mut out, "-sample block limit");
        return CallbackBlock::Error(string_from_chars(out));
    }
    let mut block: Vec<S> = Vec::new();
    let mut i: usize = 0;
    while i < samples.len()
        invariant
            i <= samples@.len(),
            block@ == samples@.take(i as int),
        decreases samples@.len() - i,
    {
        block.push(samples[i]);
        i = i + 1;
        assert(block@ =~= samples@.take(i as int));
    }
    assert(samples@.take(samples@.len() as int) =~= samples@);
    CallbackBlock::Samples(block)
}

/// What the reader learns while it waits for the samples of a block.
#[derive(Debug)]
pub enum InputEvent<S> {
    /// A callback found the queue full and dropped a block.
    Overrun,
    /// A block arrived from the callback queue.
    Received(CallbackBlock<S>),
    /// No block arrived within the read timeout.
    TimedOut,
    /// The callback side of the queue is gone.
    Disconnected,
}

/// The error message that an input event ends a read with, if any.
pub open spec fn spec_input_event_error<S>(event: InputEvent<S>) -> Option<Seq<char>> {
    match event {
        InputEvent::Overrun => Some(
            "WASAPI input callback queue overflowed; audio blocks were dropped"@,
        ),
        InputEvent::TimedOut => Some("WASAPI input did not deliver a complete audio block"@),
        InputEvent::Disconnected => Some("WASAPI input stream disconnected"@),
        InputEvent::Received(CallbackBlock::Error(message)) => Some(
            "WASAPI input stream failed: "@ + message@,
        ),
        InputEvent::Received(_) => None,
    }
}

/// The reader side of a WASAPI input stream: the samples received but not
/// yet handed out, and the stream state.
pub struct WasapiInputReader<S> {
    format: AudioFormat,
    state: AudioInputState,
    pending: Vec<S>,
}

impl<S: Copy> WasapiInputReader<S> {
    /// The stream format.
    pub closed spec fn spec_format(&self) -> AudioFormat {
        self.format
    }

    /// The stream state.
    pub closed spec fn spec_state(&self) -> AudioInputState {
        self.state
    }

    /// The samples received and not yet handed out, oldest first.
    pub closed spec fn spec_pending(&self) -> Seq<S> {
        self.pending@
    }

    /// A stopped reader with nothing pending.
    pub fn new(format: AudioFormat) -> (reader: Self)
        ensures
            reader.spec_format() == format,
            reader.spec_state() == AudioInputState::Stopped,
            reader.spec_pending() == Seq::<S>::empty(),
    {
        WasapiInputReader { format, state: AudioInputState::Stopped, pending: Vec::new() }
    }

    /// The stream format.
    pub fn format(&self) -> (format: AudioFormat)
        ensures
            format == self.spec_format(),
    {
        self.format
    }

    /// The stream state.
    pub fn state(&self) -> (state: AudioInputState)
        ensures
            state == self.spec_state(),
    {
        self.state
    }

    /// The number of samples received and not yet handed out.
    pub fn pending_samples(&self) -> (n: usize)
        ensures
            n == self.spec_pending().len(),
    {
        self.pending.len()
    }

    /// The number of samples that a block of `frames` frames needs.
    ///
    /// Returns [`AudioError::BufferTooLarge`] (as a device error) beyond the
    /// frame limit.
    pub fn block_samples(&self, frames: usize) -> (result: Result<usize, AudioDeviceError>)
        ensures
            frames > MAX_AUDIO_FRAMES ==> (result matches Err(
                AudioDeviceError::Audio(AudioError::BufferTooLarge { frames: f }),
            ) && f == frames),
            frames <= MAX_AUDIO_FRAMES && frames * self.spec_format().spec_channels() <= usize::MAX
                ==> result == Ok::<usize, AudioDeviceError>(
                (frames * self.spec_format().spec_channels()) as usize,
            ),
            frames <= MAX_AUDIO_FRAMES && frames * self.spec_format().spec_channels() > usize::MAX
                ==> (result matches Err(AudioDeviceError::Unavailable(m)) && m@
                == "WASAPI block is too large"@),
    {
        proof {
            reveal_strlit("WASAPI block is too large");
        }
        if frames > MAX_AUDIO_FRAMES {
            return Err(AudioDeviceError::Audio(AudioError::BufferTooLarge { frames }));
        }
        match frames.checked_mul(self.format.channels() as usize) {
            Some(n) => Ok(n),
            None => Err(AudioDeviceError::Unavailable("WASAPI block is too large".to_owned())),
        }
    }

    /// Applies what arrived while waiting for samples. A block of samples
    /// is appended and an xrun is ignored; an overrun discards what is
    /// pending; an overrun, a timeout, a lost queue and a stream error fail
    /// the stream with a message.
    pub fn on_event(&mut self, event: InputEvent<S>) -> (result: Result<(), AudioDeviceError>)
        ensures
            final(self).spec_format() == old(self).spec_format(),
            match spec_input_event_error(event) {
                Some(message) => {
                    &&& result matches Err(AudioDeviceError::Unavailable(m)) && m@ == message
                    &&& final(self).spec_state() == AudioInputState::Failed
                    &&& final(self).spec_pending() == if event is Overrun {
                        Seq::<S>::empty()
                    } else {
                        old(self).spec_pending()
                    }
                },
                None => {
                    &&& result is Ok
                    &&& final(self).spec_state() == old(self).spec_state()
                    &&& final(self).spec_pending() == match event {
                        InputEvent::Received(CallbackBlock::Samples(block)) => old(
                            self,
                        ).spec_pending() + block@,
                        _ => old(self).spec_pending(),
                    }
                },
            },
    {
        match event {
            InputEvent::Overrun => {
                self.pending.clear();
                self.state = AudioInputState::Failed;
                Err(
                    AudioDeviceError::Unavailable(
                        "WASAPI input callback queue overflowed; audio blocks were dropped".to_owned(),
                    ),
                )
            },
            InputEvent::TimedOut => {
                self.state = AudioInputState::Failed;
                Err(
                    AudioDeviceError::Unavailable(
                        "WASAPI input did not deliver a complete audio block".to_owned(),
                    ),
                )
            },
            InputEvent::Disconnected => {
                self.state = AudioInputState::Failed;
                Err(AudioDeviceError::Unavailable("WASAPI input stream disconnected".to_owned()))
            },
            InputEvent::Received(CallbackBlock::Samples(block)) => {
                let mut block = block;
                self.pending.append(&mut block);
                Ok(())
            },
            InputEvent::Received(CallbackBlock::Xrun) => Ok(()),
            InputEvent::Received(CallbackBlock::Error(message)) => {
                self.state = AudioInputState::Failed;
                let mut out: Vec<char> = Vec::new();
                push_str(&mut out, "WASAPI input stream failed: ");
                push_str(&mut out, message.as_str());
                Err(AudioDeviceError::Unavailable(string_from_chars(out)))
            },
        }
    }

    /// Hands out the oldest `count` pending samples as one block and marks
    /// the stream running. The block is checked as
    /// [`AudioBuffer::new_checked`] checks it: its shape, then every sample
    /// with `is_finite`.
    pub fn finish_block<F: Fn(S) -> bool>(
        &mut self,
        timestamp: Timestamp,
        count: usize,
        is_finite: F,
    ) -> (result: Result<AudioBuffer<S>, AudioDeviceError>)
        requires
            count <= old(self).spec_pending().len(),
            forall|s: S| #[trigger] is_finite.requires((s,)),
        ensures
            final(self).spec_format() == old(self).spec_format(),
            final(self).spec_state() == AudioInputState::Running,
            final(self).spec_pending() == old(self).spec_pending().skip(count as int),
            ({
                let block = old(self).spec_pending().take(count as int);
                match result {
                    Ok(buffer) => checked_buffer_result(
                        old(self).spec_format(),
                        timestamp,
                        block,
                        is_finite,
                        Ok(buffer),
                    ),
                    Err(AudioDeviceError::Audio(error)) => checked_buffer_result(
                        old(self).spec_format(),
                        timestamp,
                        block,
                        is_finite,
                        Err(error),
                    ),
                    Err(_) => false,
                }
            }),
    {
        let ghost before = self.pending@;
        let mut block = self.pending.split_off(count);
        std::mem::swap(&mut block, &mut self.pending);
        assert(block@ =~= before.take(count as int));
        assert(self.pending@ =~= before.skip(count as int));
        self.state = AudioInputState::Running;
        match AudioBuffer::new_checked(self.format, timestamp, block, is_finite) {
            Ok(buffer) => Ok(buffer),
            Err(error) => Err(AudioDeviceError::Audio(error)),
        }
    }

    /// Stops the reader and discards what is pending.
    pub fn stop(&mut self)
        ensures
            final(self).spec_format() == old(self).spec_format(),
            final(self).spec_state() == AudioInputState::Stopped,
            final(self).spec_pending() == Seq::<S>::empty(),
    {
        self.pending.clear();
        self.state = AudioInputState::Stopped;
    }
}

/// The output stream state shared with the device callback, as a code.
pub const OUTPUT_STATE_STOPPED: u8 = 0;

/// The code of a running output stream.
pub const OUTPUT_STATE_RUNNING: u8 = 1;

/// The code of a failed output stream.
pub const OUTPUT_STATE_FAILED: u8 = 2;

/// The output state that a shared state code stands for; an unknown code
/// reads as stopped.
pub fn output_state_from_code(code: u8) -> (state: AudioOutputState)
    ensures
        state == if code == OUTPUT_STATE_RUNNING {
            AudioOutputState::Running
        } else if code == OUTPUT_STATE_FAILED {
            AudioOutputState::Failed
        } else {
            AudioOutputState::Stopped
        },
{
    if code == OUTPUT_STATE_RUNNING {
        AudioOutputState::Running
    } else if code == OUTPUT_STATE_FAILED {
        AudioOutputState::Failed
    } else {
        AudioOutputState::Stopped
    }
}

/// The code of an output state.
pub fn output_state_code(state: AudioOutputState) -> (code: u8)
    ensures
        output_state_from_code_spec(code) == state,
        code == match state {
            AudioOutputState::Stopped => OUTPUT_STATE_STOPPED,
            AudioOutputState::Running => OUTPUT_STATE_RUNNING,
            AudioOutputState::Failed => OUTPUT_STATE_FAILED,
        },
{
    match state {
        AudioOutputState::Stopped => OUTPUT_STATE_STOPPED,
        AudioOutputState::Running => OUTPUT_STATE_RUNNING,
        AudioOutputState::Failed => OUTPUT_STATE_FAILED,
    }
}

/// The output state that a state code stands for.
pub open spec fn output_state_from_code_spec(code: u8) -> AudioOutputState {
    if code == OUTPUT_STATE_RUNNING {
        AudioOutputState::Running
    } else if code == OUTPUT_STATE_FAILED {
        AudioOutputState::Failed
    } else {
        AudioOutputState::Stopped
    }
}

/// The error of a failed output stream: its recorded message, or a generic
/// one when none was recorded.
pub fn output_failure(last_error: Option<String>) -> (error: AudioDeviceError)
    ensures
        error matches AudioDeviceError::Unavailable(reason) && reason@ == match last_error {
            Some(m) => m@,
            None => "WASAPI output stream failed"@,
        },
{
    match last_error {
        Some(message) => AudioDeviceError::Unavailable(message),
        None => AudioDeviceError::Unavailable("WASAPI output stream failed".to_owned()),
    }
}

/// The message recorded when the device reports a stream error, bounded to
/// the error message limit.
pub fn output_stream_error_message(error: &str) -> (message: String)
    ensures
        message@ == spec_bounded_error("WASAPI output stream failed: "@ + error@),
{
    let mut out: Vec<char> = Vec::new();
    push_str(&mut out, "WASAPI output stream failed: ");
    push_str(&mut out, error);
    let text = string_from_chars(out);
    bounded_error(text.as_str())
}

/// Checks a block before it is queued for the output callback: it must have
/// the stream format, the stream must not have failed, and it must not be
/// stopped.
pub fn check_output_write(
    expected: AudioFormat,
    actual: AudioFormat,
    state: AudioOutputState,
    stopped: bool,
    last_error: Option<String>,
) -> (result: Result<(), AudioDeviceError>)
    ensures
        actual != expected ==> result == Err::<(), AudioDeviceError>(
            AudioDeviceError::Audio(AudioError::FormatMismatch { expected, actual }),
        ),
        actual == expected && state == AudioOutputState::Failed ==> (result matches Err(
            AudioDeviceError::Unavailable(reason),
        ) && reason@ == match last_error {
            Some(m) => m@,
            None => "WASAPI output stream failed"@,
        }),
        actual == expected && state != AudioOutputState::Failed && stopped ==> (result matches Err(
            AudioDeviceError::Unavailable(reason),
        ) && reason@ == "WASAPI output stream is stopped"@),
        actual == expected && state != AudioOutputState::Failed && !stopped ==> result is Ok,
{
    if actual != expected {
        return Err(AudioDeviceError::Audio(AudioError::FormatMismatch { expected, actual }));
    }
    if state == AudioOutputState::Failed {
        return Err(output_failure(last_error));
    }
    if stopped {
        return Err(AudioDeviceError::Unavailable("WASAPI output stream is stopped".to_owned()));
    }
    Ok(())
}

/// The message recorded when a block cannot be queued: the queue was full
/// or the callback side is gone.
pub fn queue_failure_message(full: bool) -> (message: &'static str)
    ensures
        message@ == if full {
            "WASAPI output queue is full; monitor device is not keeping up"@
        } else {
            "WASAPI output stream disconnected"@
        },
{
    if full {
        "WASAPI output queue is full; monitor device is not keeping up"
    } else {
        "WASAPI output stream disconnected"
    }
}

/// The error for an endpoint that supports no stream of the requested rate
/// and channel count; `output` selects the wording of the playback side.
pub fn unsupported_format(output: bool, format: AudioFormat) -> (error: AudioDeviceError)
    ensures
        error matches AudioDeviceError::Unavailable(reason) && reason@ == (if output {
            "WASAPI output does not support "@
        } else {
            "WASAPI endpoint does not support "@
        }) + spec_decimal(format.spec_sample_rate() as nat) + " Hz / "@ + spec_decimal(
            format.spec_channels() as nat,
        ) + " channels"@,
{
    let mut out: Vec<char> = Vec::new();
    if output {
        push_str(&mut out, "WASAPI output does not support ");
    } else {
        push_str(&mut out, "WASAPI endpoint does not support ");
    }
    push_decimal(&mut out, format.sample_rate() as u128);
    push_str(&mut out, " Hz / ");
    push_decimal(&mut out, format.channels() as u128);
    push_str(&mut out, " channels");
    AudioDeviceError::Unavailable(string_from_chars(out))
}

/// The samples queued for the output callback, oldest first.
pub struct WasapiOutputQueue<S> {
    pending: std::collections::VecDeque<S>,
}

impl<S> WasapiOutputQueue<S> {
    /// The samples queued, oldest first.
    pub closed spec fn spec_pending(&self) -> Seq<S> {
        self.pending@
    }

    /// An empty queue.
    pub fn new() -> (queue: Self)
        ensures
            queue.spec_pending() == Seq::<S>::empty(),
    {
        WasapiOutputQueue { pending: std::collections::VecDeque::new() }
    }

    /// Queues the samples of one received block behind those pending.
    pub fn extend(&mut self, block: &[S])
        where
            S: Copy,
        ensures
            final(self).spec_pending() == old(self).spec_pending() + block@,
    {
        let ghost start = self.pending@;
        let mut i: usize = 0;
        while i < block.len()
            invariant
                i <= block@.len(),
                self.pending@ == start + block@.take(i as int),
            decreases block@.len() - i,
        {
            self.pending.push_back(block[i]);
            i = i + 1;
            assert(self.pending@ =~= start + block@.take(i as int));
        }
        assert(block@.take(block@.len() as int) =~= block@);
    }

    /// The next sample for the device, if one is queued.
    pub fn next_pending(&mut self) -> (sample: Option<S>)
        ensures
            match sample {
                Some(s) => old(self).spec_pending().len() > 0 && s == old(self).spec_pending()[0]
                    && final(self).spec_pending() == old(self).spec_pending().skip(1),
                None => old(self).spec_pending().len() == 0 && final(self).spec_pending() == old(
                    self,
                ).spec_pending(),
            },
    {
        self.pending.pop_front()
    }
}

/// A device endpoint as the audio stack describes it: its stable id, its
/// name, and whether it captures and renders.
pub type EndpointView = (Seq<char>, Seq<char>, bool, bool);

/// The descriptors of endpoints `0..n`: one input and one output entry per
/// endpoint that supports each direction, flagged as default when the id is
/// the direction's default; `None` when an id or name is blank.
pub open spec fn spec_endpoint_devices(
    endpoints: Seq<EndpointView>,
    n: int,
    default_input: Option<Seq<char>>,
    default_output: Option<Seq<char>>,
) -> Option<Seq<(Seq<char>, Seq<char>, AudioDeviceKind, bool, bool)>>
    decreases n,
{
    if n <= 0 {
        Some(Seq::empty())
    } else {
        match spec_endpoint_devices(endpoints, n - 1, default_input, default_output) {
            None => None,
            Some(before) => {
                let (id, name, input, output) = endpoints[n - 1];
                if (input || output) && (crate::text::spec_is_blank(id) || crate::text::spec_is_blank(
                    name,
                )) {
                    None
                } else {
                    let with_input = if input {
                        before.push((id, name, AudioDeviceKind::Input, true, default_input == Some(id)))
                    } else {
                        before
                    };
                    Some(
                        if output {
                            with_input.push(
                                (id, name, AudioDeviceKind::Output, true, default_output == Some(id)),
                            )
                        } else {
                            with_input
                        },
                    )
                }
            },
        }
    }
}

/// The text of an optional string.
pub open spec fn optional_view(s: Option<String>) -> Option<Seq<char>> {
    match s {
        Some(d) => Some(d@),
        None => None,
    }
}

/// Whether an optional string equals `id`.
fn is_default(default: &Option<String>, id: &str) -> (found: bool)
    ensures
        found == match default {
            Some(d) => d@ == id@,
            None => false,
        },
{
    match default {
        Some(d) => str_eq(d.as_str(), id),
        None => false,
    }
}

/// Builds the device descriptors of the endpoints the audio stack reports,
/// in order: an input entry and then an output entry for each endpoint,
/// for the directions it supports, each flagged as default when its id is
/// that direction's default endpoint. An endpoint with a blank id or name
/// is refused as [`AudioDeviceError::InvalidDevice`].
pub fn endpoint_devices(
    endpoints: &Vec<(String, String, bool, bool)>,
    default_input: Option<String>,
    default_output: Option<String>,
) -> (result: Result<Vec<AudioDeviceInfo>, AudioDeviceError>)
    ensures
        ({
            let views = endpoints@.map_values(|e: (String, String, bool, bool)| (e.0@, e.1@, e.2, e.3));
            let di = optional_view(default_input);
            let dout = optional_view(default_output);
            match spec_endpoint_devices(views, views.len() as int, di, dout) {
                Some(expected) => result matches Ok(devices) && devices@.map_values(
                    |d: AudioDeviceInfo| d@,
                ) == expected,
                None => result matches Err(AudioDeviceError::InvalidDevice(_)),
            }
        }),
{
    let ghost views = endpoints@.map_values(|e: (String, String, bool, bool)| (e.0@, e.1@, e.2, e.3));
    let ghost di = optional_view(default_input);
    let ghost dout = optional_view(default_output);
    let mut devices: Vec<AudioDeviceInfo> = Vec::new();
    let mut i: usize = 0;
    while i < endpoints.len()
        invariant
            i <= endpoints@.len(),
            views == endpoints@.map_values(|e: (String, String, bool, bool)| (e.0@, e.1@, e.2, e.3)),
            di == optional_view(default_input),
            dout == optional_view(default_output),
            spec_endpoint_devices(views, i as int, di, dout) == Some(
                devices@.map_values(|d: AudioDeviceInfo| d@),
            ),
        decreases endpoints@.len() - i,
    {
        let (id, name, input, output) = (&endpoints[i].0, &endpoints[i].1, endpoints[i].2, endpoints[i].3);
        let ghost before = devices@.map_values(|d: AudioDeviceInfo| d@);
        if input {
            let mut entry = match AudioDeviceInfo::new(id.as_str(), name.as_str(), AudioDeviceKind::Input) {
                Ok(entry) => entry,
                Err(error) => {
                    proof {
                        assert(spec_endpoint_devices(views, i + 1, di, dout) is None);
                        lemma_endpoint_failure_stays(views, di, dout, i + 1, views.len() as int);
                    }
                    return Err(error);
                },
            };
            entry.set_default(is_default(&default_input, id.as_str()));
            devices.push(entry);
        }
        if output {
            let mut entry = match AudioDeviceInfo::new(id.as_str(), name.as_str(), AudioDeviceKind::Output) {
                Ok(entry) => entry,
                Err(error) => {
                    proof {
                        assert(spec_endpoint_devices(views, i + 1, di, dout) is None);
                        lemma_endpoint_failure_stays(views, di, dout, i + 1, views.len() as int);
                    }
                    return Err(error);
                },
            };
            entry.set_default(is_default(&default_output, id.as_str()));
            devices.push(entry);
        }
        proof {
            let after = devices@.map_values(|d: AudioDeviceInfo| d@);
            let (vid, vname, vin, vout) = views[i as int];
            let with_input = if vin {
                before.push((vid, vname, AudioDeviceKind::Input, true, di == Some(vid)))
            } else {
                before
            };
            let expected = if vout {
                with_input.push((vid, vname, AudioDeviceKind::Output, true, dout == Some(vid)))
            } else {
                with_input
            };
            assert(after =~= expected);
        }
        i = i + 1;
    }
    assert(views.len() == endpoints@.len());
    Ok(devices)
}

/// Once the descriptors of a prefix are refused, those of every longer
/// prefix are.
proof fn lemma_endpoint_failure_stays(
    endpoints: Seq<EndpointView>,
    default_input: Option<Seq<char>>,
    default_output: Option<Seq<char>>,
    k: int,
    n: int,
)
    requires
        k <= n,
        spec_endpoint_devices(endpoints, k, default_input, default_output) is None,
    ensures
        spec_endpoint_devices(endpoints, n, default_input, default_output) is None,
    decreases n - k,
{
    if k < n {
        lemma_endpoint_failure_stays(endpoints, default_input, default_output, k + 1, n);
    }
}

} // verus!

//! The decisions of an asynchronous monitoring-output worker: its published
//! lifecycle state, the formats it tries, its bounded error text and the
//! transitions of its reconnecting loop.
//!
//! The worker thread itself (channels, atomics, sleeping) lives with the
//! caller, which performs each action that a transition asks for and reports
//! what happened as the next event.
use vstd::prelude::*;

use crate::error::AudioError;
use crate::text::{chars_of, push_str, string_from_chars};
use crate::types::AudioFormat;

verus! {

broadcast use AudioFormat::lemma_wf;

/// The published state code of a worker that is negotiating its device.
pub const STATE_STARTING: u8 = 0;

/// The published state code of a worker whose output accepted a block.
pub const STATE_RUNNING: u8 = 1;

/// The published state code of a worker whose latest attempt failed.
pub const STATE_FAILED: u8 = 2;

/// The published state code of a worker that was cancelled.
pub const STATE_STOPPED: u8 = 3;

/// The longest error text, in characters, that a worker publishes.
pub const MAX_ERROR_MESSAGE_CHARS: usize = 512;

/// Lifecycle state published by an asynchronous monitoring-output worker.
#[derive(Clone, Copy, Debug, PartialEq, Eq, Structural)]
pub enum AudioOutputWorkerState {
    /// The worker thread is negotiating its output device.
    Starting,
    /// The output accepted at least one complete block.
    Running,
    /// The latest device open or block write failed; bounded recovery is active.
    Failed,
    /// The worker has been cancelled and released its device.
    Stopped,
}

/// The state that a published code stands for; unknown codes read as
/// starting.
pub open spec fn spec_state_from_raw(value: u8) -> AudioOutputWorkerState {
    if value == STATE_RUNNING {
        AudioOutputWorkerState::Running
    } else if value == STATE_FAILED {
        AudioOutputWorkerState::Failed
    } else if value == STATE_STOPPED {
        AudioOutputWorkerState::Stopped
    } else {
        AudioOutputWorkerState::Starting
    }
}

/// The code under which a state is published.
pub open spec fn spec_state_to_raw(state: AudioOutputWorkerState) -> u8 {
    match state {
        AudioOutputWorkerState::Starting => STATE_STARTING,
        AudioOutputWorkerState::Running => STATE_RUNNING,
        AudioOutputWorkerState::Failed => STATE_FAILED,
        AudioOutputWorkerState::Stopped => STATE_STOPPED,
    }
}

impl AudioOutputWorkerState {
    /// Reads a published state code; unknown codes read as starting.
    pub fn from_raw(value: u8) -> (state: Self)
        ensures
            state == spec_state_from_raw(value),
    {
        match value {
            STATE_RUNNING => AudioOutputWorkerState::Running,
            STATE_FAILED => AudioOutputWorkerState::Failed,
            STATE_STOPPED => AudioOutputWorkerState::Stopped,
            _ => AudioOutputWorkerState::Starting,
        }
    }

    /// Returns the code under which this state is published.
    pub fn to_raw(self) -> (value: u8)
        ensures
            value == spec_state_to_raw(self),
    {
        match self {
            AudioOutputWorkerState::Starting => STATE_STARTING,
            AudioOutputWorkerState::Running => STATE_RUNNING,
            AudioOutputWorkerState::Failed => STATE_FAILED,
            AudioOutputWorkerState::Stopped => STATE_STOPPED,
        }
    }
}

/// Publishing a state and reading it back gives the same state.
pub proof fn lemma_state_code_round_trip(state: AudioOutputWorkerState)
    ensures
        spec_state_from_raw(spec_state_to_raw(state)) == state,
{
}

/// Bounded telemetry for one asynchronous monitoring-output worker.
#[derive(Clone, Debug, PartialEq, Eq)]
pub struct AudioOutputWorkerSnapshot {
    /// Current worker lifecycle state.
    pub state: AudioOutputWorkerState,
    /// Complete blocks waiting in the handoff queue.
    pub queued_blocks: usize,
    /// Blocks rejected because the handoff queue was full or closed.
    pub dropped_blocks: u64,
    /// Number of bounded reopen attempts after an output failure.
    pub reconnects: u64,
    /// The latest bounded device failure, if any.
    pub last_error: Option<String>,
}

/// Errors raised before an asynchronous monitoring-output worker can start.
#[derive(Debug)]
pub enum AudioOutputWorkerError {
    /// A zero-capacity handoff queue would provide no valid back-pressure.
    ZeroCapacity,
    /// The operating system rejected creation of the worker thread.
    Spawn(std::io::Error),
}

impl AudioOutputWorkerError {
    /// Describes the error in one line. For a spawn failure the operating
    /// system's description follows the prefix.
    pub fn message(&self) -> (message: String)
        ensures
            self is ZeroCapacity ==> message@ == "audio output queue capacity must be non-zero"@,
            self is Spawn ==> message@.len() >= "audio output worker failed to start: "@.len()
                && message@.subrange(0, "audio output worker failed to start: "@.len() as int)
                == "audio output worker failed to start: "@,
    {
        let mut out: Vec<char> = Vec::new();
        match self {
            AudioOutputWorkerError::ZeroCapacity => {
                push_str(&mut out, "audio output queue capacity must be non-zero");
            },
            AudioOutputWorkerError::Spawn(error) => {
                push_str(&mut out, "audio output worker failed to start: ");
                let ghost prefix = out@;
                let text = error.to_string();
                push_str(&mut out, text.as_str());
                assert(out@.subrange(0, prefix.len() as int) =~= prefix);
            },
        }
        string_from_chars(out)
    }
}

/// Checks the capacity of a worker's handoff queue before it starts.
///
/// Returns [`AudioOutputWorkerError::ZeroCapacity`] for a zero capacity.
pub fn check_worker_capacity(capacity_blocks: usize) -> (result: Result<(), AudioOutputWorkerError>)
    ensures
        result is Ok <==> capacity_blocks > 0,
        result matches Err(error) ==> error is ZeroCapacity,
{
    if capacity_blocks == 0 {
        return Err(AudioOutputWorkerError::ZeroCapacity);
    }
    Ok(())
}

/// Whether a worker's handle queues a submitted block: not once
/// cancellation is requested or the worker has failed; such a block is
/// counted as dropped.
pub fn accepts_block(cancelled: bool, state: AudioOutputWorkerState) -> (accepts: bool)
    ensures
        accepts == (!cancelled && state != AudioOutputWorkerState::Failed),
{
    !cancelled && state != AudioOutputWorkerState::Failed
}

/// The error text that a worker publishes: at most the first
/// [`MAX_ERROR_MESSAGE_CHARS`] characters of the full text.
pub open spec fn spec_bounded_error(text: Seq<char>) -> Seq<char> {
    if text.len() <= MAX_ERROR_MESSAGE_CHARS {
        text
    } else {
        text.take(MAX_ERROR_MESSAGE_CHARS as int)
    }
}

/// Returns at most the first [`MAX_ERROR_MESSAGE_CHARS`] characters of an
/// error text.
pub fn bounded_error(text: &str) -> (bounded: String)
    ensures
        bounded@ == spec_bounded_error(text@),
{
    let chars = chars_of(text);
    let mut kept: Vec<char> = Vec::new();
    let mut i: usize = 0;
    while i < chars.len() && i < MAX_ERROR_MESSAGE_CHARS
        invariant
            i <= chars@.len(),
            i <= MAX_ERROR_MESSAGE_CHARS,
            chars@ == text@,
            kept@ == chars@.take(i as int),
        decreases chars@.len() - i,
    {
        kept.push(chars[i]);
        i = i + 1;
        assert(kept@ =~= chars@.take(i as int));
    }
    assert(kept@ =~= spec_bounded_error(text@));
    string_from_chars(kept)
}

/// The common endpoint formats that a worker tries after the mix format,
/// as sample rate and channel count.
pub open spec fn common_output_formats() -> Seq<(u32, u16)> {
    seq![(48_000u32, 2u16), (44_100u32, 2u16), (48_000u32, 1u16), (44_100u32, 1u16)]
}

/// Whether `candidates` is the mix format followed by the common formats
/// that differ from every earlier candidate, in order.
pub open spec fn candidates_from(
    mix: AudioFormat,
    common: Seq<(u32, u16)>,
    candidates: Seq<AudioFormat>,
) -> bool
    decreases common.len(),
{
    if common.len() == 0 {
        candidates == seq![mix]
    } else {
        let (rate, channels) = common.last();
        exists|earlier: Seq<AudioFormat>, format: AudioFormat|
            {
                &&& candidates_from(mix, common.drop_last(), earlier)
                &&& format.spec_sample_rate() == rate
                &&& format.spec_channels() == channels
                &&& format.wf()
                &&& format.spec_layout() == crate::types::spec_layout_from_channels(channels)
                &&& candidates == if earlier.contains(format) {
                    earlier
                } else {
                    earlier.push(format)
                }
            }
    }
}

/// Returns the formats that a worker tries, in order: the mix format, then
/// each common format that is not already listed.
pub fn output_format_candidates(mix_format: AudioFormat) -> (candidates: Vec<AudioFormat>)
    ensures
        candidates@.len() >= 1,
        candidates@[0] == mix_format,
        candidates_from(mix_format, common_output_formats(), candidates@),
        forall|i: int, j: int|
            0 <= i < j < candidates@.len() ==> candidates@[i] != candidates@[j],
{
    let common = [(48_000u32, 2u16), (44_100u32, 2u16), (48_000u32, 1u16), (44_100u32, 1u16)];
    assert(common@ =~= common_output_formats());
    let mut candidates: Vec<AudioFormat> = Vec::new();
    candidates.push(mix_format);
    assert(candidates_from(mix_format, common@.take(0), candidates@)) by {
        assert(candidates@ =~= seq![mix_format]);
    }
    let mut k: usize = 0;
    while k < 4
        invariant
            k <= 4,
            common@ == common_output_formats(),
            candidates@.len() >= 1,
            candidates@[0] == mix_format,
            candidates_from(mix_format, common@.take(k as int), candidates@),
            forall|i: int, j: int|
                0 <= i < j < candidates@.len() ==> candidates@[i] != candidates@[j],
        decreases 4 - k,
    {
        let (rate, channels) = common[k];
        let candidate = match AudioFormat::new(rate, channels) {
            Ok(format) => format,
            Err(_) => {
                proof {
                    assert(false);
                }
                mix_format
            },
        };
        let ghost earlier = candidates@;
        let mut found = false;
        let mut i: usize = 0;
        while i < candidates.len()
            invariant
                i <= candidates@.len(),
                found <==> exists|j: int| 0 <= j < i && candidates@[j] == candidate,
            decreases candidates@.len() - i,
        {
            if candidates[i] == candidate {
                found = true;
            }
            i = i + 1;
        }
        if !found {
            candidates.push(candidate);
        }
        proof {
            let prefix = common@.take(k as int + 1);
            assert(prefix.drop_last() =~= common@.take(k as int));
            assert(prefix.last() == (rate, channels));
            if found {
                let j = choose|j: int| 0 <= j < earlier.len() && earlier[j] == candidate;
                assert(earlier.contains(candidate));
            } else {
                assert(!earlier.contains(candidate));
            }
            assert(candidates_from(mix_format, common@.take(k as int), earlier));
        }
        k = k + 1;
    }
    assert(common@.take(4) =~= common@);
    candidates
}

/// Where a monitoring-output worker's loop stands.
#[derive(Clone, Copy, Debug, PartialEq, Eq, Structural)]
pub enum OutputWorkerPhase {
    /// About to check for cancellation and open the output device.
    Opening,
    /// The device is open and blocks are awaited.
    Streaming,
    /// Waiting for the reconnect interval; whether the queue is drained if
    /// cancellation ends the wait.
    Waiting { drain_on_cancel: bool },
    /// The worker has ended.
    Finished,
}

/// What happened since the worker's last decision.
#[derive(Clone, Copy, Debug, PartialEq, Eq, Structural)]
pub enum OutputWorkerEvent {
    /// Cancellation was requested before an open attempt.
    Cancelled,
    /// The output device could not be opened.
    OpenFailed,
    /// The output device opened.
    Opened,
    /// The submission channel closed.
    Disconnected,
    /// No block arrived in time; whether cancellation is requested.
    TimedOut { cancelled: bool },
    /// A block arrived; whether cancellation is requested.
    Received { cancelled: bool },
    /// The device accepted the block.
    Written,
    /// The device rejected the block.
    WriteFailed,
    /// The reconnect wait ended; whether it ended by cancellation.
    WaitEnded { cancelled: bool },
}

/// What the worker does after a decision, in this order: record the
/// failure's bounded text, count one block taken from the queue, stop the
/// output, publish a state, drain the queue, count a reconnect, then write
/// the received block or start the reconnect wait.
#[derive(Clone, Copy, Debug, PartialEq, Eq, Structural)]
pub struct OutputWorkerAction {
    pub record_error: bool,
    pub dequeued: bool,
    pub stop_output: bool,
    pub publish: Option<AudioOutputWorkerState>,
    pub drain: bool,
    pub count_reconnect: bool,
    pub write_block: bool,
    pub wait_reconnect: bool,
}

/// An action that does nothing.
pub open spec fn no_action() -> OutputWorkerAction {
    OutputWorkerAction {
        record_error: false,
        dequeued: false,
        stop_output: false,
        publish: None,
        drain: false,
        count_reconnect: false,
        write_block: false,
        wait_reconnect: false,
    }
}

/// The worker's decision: its next phase and what it does.
pub open spec fn spec_worker_step(phase: OutputWorkerPhase, event: OutputWorkerEvent) -> (
    OutputWorkerPhase,
    OutputWorkerAction,
) {
    let none = no_action();
    match (phase, event) {
        (OutputWorkerPhase::Opening, OutputWorkerEvent::Cancelled) => (
            OutputWorkerPhase::Finished,
            OutputWorkerAction {
                publish: Some(AudioOutputWorkerState::Stopped),
                drain: true,
                ..none
            },
        ),
        (OutputWorkerPhase::Opening, OutputWorkerEvent::OpenFailed) => (
            OutputWorkerPhase::Waiting { drain_on_cancel: false },
            OutputWorkerAction {
                record_error: true,
                publish: Some(AudioOutputWorkerState::Failed),
                drain: true,
                count_reconnect: true,
                wait_reconnect: true,
                ..none
            },
        ),
        (OutputWorkerPhase::Opening, OutputWorkerEvent::Opened) => (
            OutputWorkerPhase::Streaming,
            OutputWorkerAction { publish: Some(AudioOutputWorkerState::Starting), ..none },
        ),
        (OutputWorkerPhase::Streaming, OutputWorkerEvent::Disconnected) => (
            OutputWorkerPhase::Finished,
            OutputWorkerAction {
                stop_output: true,
                publish: Some(AudioOutputWorkerState::Stopped),
                drain: true,
                ..none
            },
        ),
        (OutputWorkerPhase::Streaming, OutputWorkerEvent::TimedOut { cancelled }) => if cancelled {
            (
                OutputWorkerPhase::Finished,
                OutputWorkerAction {
                    stop_output: true,
                    publish: Some(AudioOutputWorkerState::Stopped),
                    drain: true,
                    ..none
                },
            )
        } else {
            (OutputWorkerPhase::Streaming, none)
        },
        (OutputWorkerPhase::Streaming, OutputWorkerEvent::Received { cancelled }) => if cancelled {
            (
                OutputWorkerPhase::Finished,
                OutputWorkerAction {
                    dequeued: true,
                    stop_output: true,
                    publish: Some(AudioOutputWorkerState::Stopped),
                    drain: true,
                    ..none
                },
            )
        } else {
            (OutputWorkerPhase::Streaming, OutputWorkerAction { dequeued: true, write_block: true, ..none })
        },
        (OutputWorkerPhase::Streaming, OutputWorkerEvent::Written) => (
            OutputWorkerPhase::Streaming,
            OutputWorkerAction { publish: Some(AudioOutputWorkerState::Running), ..none },
        ),
        (OutputWorkerPhase::Streaming, OutputWorkerEvent::WriteFailed) => (
            OutputWorkerPhase::Waiting { drain_on_cancel: true },
            OutputWorkerAction {
                record_error: true,
                stop_output: true,
                publish: Some(AudioOutputWorkerState::Failed),
                drain: true,
                count_reconnect: true,
                wait_reconnect: true,
                ..none
            },
        ),
        (OutputWorkerPhase::Waiting { drain_on_cancel }, OutputWorkerEvent::WaitEnded { cancelled }) => if cancelled {
            (
                OutputWorkerPhase::Finished,
                OutputWorkerAction {
                    publish: Some(AudioOutputWorkerState::Stopped),
                    drain: drain_on_cancel,
                    ..none
                },
            )
        } else {
            (OutputWorkerPhase::Opening, none)
        },
        _ => (phase, none),
    }
}

/// Decides the worker's next phase and what it does after `event`.
///
/// An event that does not belong to the current phase changes nothing.
pub fn worker_step(phase: OutputWorkerPhase, event: OutputWorkerEvent) -> (next: (
    OutputWorkerPhase,
    OutputWorkerAction,
))
    ensures
        next == spec_worker_step(phase, event),
{
    let none = OutputWorkerAction {
        record_error: false,
        dequeued: false,
        stop_output: false,
        publish: None,
        drain: false,
        count_reconnect: false,
        write_block: false,
        wait_reconnect: false,
    };
    let stop = OutputWorkerAction {
        stop_output: true,
        publish: Some(AudioOutputWorkerState::Stopped),
        drain: true,
        ..none
    };
    match (phase, event) {
        (OutputWorkerPhase::Opening, OutputWorkerEvent::Cancelled) => (
            OutputWorkerPhase::Finished,
            OutputWorkerAction {
                publish: Some(AudioOutputWorkerState::Stopped),
                drain: true,
                ..none
            },
        ),
        (OutputWorkerPhase::Opening, OutputWorkerEvent::OpenFailed) => (
            OutputWorkerPhase::Waiting { drain_on_cancel: false },
            OutputWorkerAction {
                record_error: true,
                publish: Some(AudioOutputWorkerState::Failed),
                drain: true,
                count_reconnect: true,
                wait_reconnect: true,
                ..none
            },
        ),
        (OutputWorkerPhase::Opening, OutputWorkerEvent::Opened) => (
            OutputWorkerPhase::Streaming,
            OutputWorkerAction { publish: Some(AudioOutputWorkerState::Starting), ..none },
        ),
        (OutputWorkerPhase::Streaming, OutputWorkerEvent::Disconnected) => (
            OutputWorkerPhase::Finished,
            stop,
        ),
        (OutputWorkerPhase::Streaming, OutputWorkerEvent::TimedOut { cancelled }) => {
            if cancelled {
                (OutputWorkerPhase::Finished, stop)
            } else {
                (OutputWorkerPhase::Streaming, none)
            }
        },
        (OutputWorkerPhase::Streaming, OutputWorkerEvent::Received { cancelled }) => {
            if cancelled {
                (OutputWorkerPhase::Finished, OutputWorkerAction { dequeued: true, ..stop })
            } else {
                (
                    OutputWorkerPhase::Streaming,
                    OutputWorkerAction { dequeued: true, write_block: true, ..none },
                )
            }
        },
        (OutputWorkerPhase::Streaming, OutputWorkerEvent::Written) => (
            OutputWorkerPhase::Streaming,
            OutputWorkerAction { publish: Some(AudioOutputWorkerState::Running), ..none },
        ),
        (OutputWorkerPhase::Streaming, OutputWorkerEvent::WriteFailed) => (
            OutputWorkerPhase::Waiting { drain_on_cancel: true },
            OutputWorkerAction {
                record_error: true,
                count_reconnect: true,
                wait_reconnect: true,
                publish: Some(AudioOutputWorkerState::Failed),
                ..stop
            },
        ),
        (
            OutputWorkerPhase::Waiting { drain_on_cancel },
            OutputWorkerEvent::WaitEnded { cancelled },
        ) => {
            if cancelled {
                (
                    OutputWorkerPhase::Finished,
                    OutputWorkerAction {
                        publish: Some(AudioOutputWorkerState::Stopped),
                        drain: drain_on_cancel,
                        ..none
                    },
                )
            } else {
                (OutputWorkerPhase::Opening, none)
            }
        },
        _ => (phase, none),
    }
}

/// A finished worker stays finished and does nothing, whatever happens.
pub proof fn lemma_finished_is_final(event: OutputWorkerEvent)
    ensures
        spec_worker_step(OutputWorkerPhase::Finished, event) == (
            OutputWorkerPhase::Finished,
            no_action(),
        ),
{
}

/// A worker finishes only by publishing that it stopped.
pub proof fn lemma_finishing_publishes_stopped(phase: OutputWorkerPhase, event: OutputWorkerEvent)
    requires
        phase != OutputWorkerPhase::Finished,
        spec_worker_step(phase, event).0 == OutputWorkerPhase::Finished,
    ensures
        spec_worker_step(phase, event).1.publish == Some(AudioOutputWorkerState::Stopped),
{
}

/// A worker publishes a failure only together with the failure's text, and
/// then always waits to reconnect.
pub proof fn lemma_failure_is_recorded(phase: OutputWorkerPhase, event: OutputWorkerEvent)
    requires
        spec_worker_step(phase, event).1.publish == Some(AudioOutputWorkerState::Failed),
    ensures
        spec_worker_step(phase, event).1.record_error,
        spec_worker_step(phase, event).1.count_reconnect,
        spec_worker_step(phase, event).1.wait_reconnect,
{
}

/// A block is written only after one was taken from the queue, and only
/// while the device is open.
pub proof fn lemma_writes_follow_receipt(phase: OutputWorkerPhase, event: OutputWorkerEvent)
    requires
        spec_worker_step(phase, event).1.write_block,
    ensures
        phase == OutputWorkerPhase::Streaming,
        event matches OutputWorkerEvent::Received { cancelled } && !cancelled,
        spec_worker_step(phase, event).1.dequeued,
        spec_worker_step(phase, event).0 == OutputWorkerPhase::Streaming,
{
}

/// A worker that waits to reconnect goes to a waiting phase, and a wait
/// that ends without cancellation reopens the device. So after a failed
/// open or a failed write the device is opened again unless the worker is
/// cancelled meanwhile.
pub proof fn lemma_reconnect_reopens(phase: OutputWorkerPhase, event: OutputWorkerEvent)
    requires
        spec_worker_step(phase, event).1.wait_reconnect,
    ensures
        spec_worker_step(phase, event).0 matches OutputWorkerPhase::Waiting { .. },
        spec_worker_step(
            spec_worker_step(phase, event).0,
            OutputWorkerEvent::WaitEnded { cancelled: false },
        ).0 == OutputWorkerPhase::Opening,
{
}

/// A write failure while streaming stops the device, publishes the
/// failure and waits to reconnect, after which the device is reopened.
pub proof fn lemma_write_failure_reconnects()
    ensures
        ({
            let (next, action) = spec_worker_step(
                OutputWorkerPhase::Streaming,
                OutputWorkerEvent::WriteFailed,
            );
            &&& action.stop_output
            &&& action.publish == Some(AudioOutputWorkerState::Failed)
            &&& action.wait_reconnect
            &&& spec_worker_step(next, OutputWorkerEvent::WaitEnded { cancelled: false }).0
                == OutputWorkerPhase::Opening
        }),
{
}

/// A device failure (a failed open or a failed write) always publishes the
/// failure and waits to reconnect.
pub proof fn lemma_device_failure_waits(phase: OutputWorkerPhase)
    requires
        phase == OutputWorkerPhase::Opening || phase == OutputWorkerPhase::Streaming,
    ensures
        ({
            let event = if phase == OutputWorkerPhase::Opening {
                OutputWorkerEvent::OpenFailed
            } else {
                OutputWorkerEvent::WriteFailed
            };
            let (next, action) = spec_worker_step(phase, event);
            &&& action.publish == Some(AudioOutputWorkerState::Failed)
            &&& action.wait_reconnect
            &&& next matches OutputWorkerPhase::Waiting { .. }
        }),
{
}

} // verus!

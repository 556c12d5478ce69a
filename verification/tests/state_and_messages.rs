use obs_rs::capture::{classify_helper_exit, launch_error, CaptureError};
use obs_rs::device::AudioDeviceError;
use obs_rs::error::{AudioError, AudioWorkerError};
use obs_rs::output_worker::{
    accepts_block, bounded_error, check_worker_capacity, output_format_candidates, worker_step,
    AudioOutputWorkerError, AudioOutputWorkerState, OutputWorkerEvent, OutputWorkerPhase,
};
use obs_rs::text::{decimal_string, parse_int, IntParseError};
use obs_rs::timestamp::Timestamp;
use obs_rs::types::{AudioFormat, AudioSourceId};
use obs_rs::windows_discovery::parse_discovery_output;

fn chars(text: &str) -> Vec<char> {
    text.chars().collect()
}

#[test]
fn worker_state_codes_round_trip() {
    for state in [
        AudioOutputWorkerState::Starting,
        AudioOutputWorkerState::Running,
        AudioOutputWorkerState::Failed,
        AudioOutputWorkerState::Stopped,
    ] {
        assert_eq!(AudioOutputWorkerState::from_raw(state.to_raw()), state);
    }
    assert_eq!(AudioOutputWorkerState::from_raw(200), AudioOutputWorkerState::Starting);
}

#[test]
fn worker_reconnects_after_a_failed_open_and_stops_on_cancel() {
    let (next, action) = worker_step(OutputWorkerPhase::Opening, OutputWorkerEvent::OpenFailed);
    assert_eq!(next, OutputWorkerPhase::Waiting { drain_on_cancel: false });
    assert!(action.record_error && action.drain && action.count_reconnect);
    assert_eq!(action.publish, Some(AudioOutputWorkerState::Failed));

    let (next, action) = worker_step(next, OutputWorkerEvent::WaitEnded { cancelled: false });
    assert_eq!(next, OutputWorkerPhase::Opening);
    assert_eq!(action.publish, None);

    let (next, action) = worker_step(next, OutputWorkerEvent::Opened);
    assert_eq!(next, OutputWorkerPhase::Streaming);
    assert_eq!(action.publish, Some(AudioOutputWorkerState::Starting));

    let (next, action) = worker_step(next, OutputWorkerEvent::Received { cancelled: false });
    assert!(action.dequeued && action.write_block);
    let (next, action) = worker_step(next, OutputWorkerEvent::Written);
    assert_eq!(action.publish, Some(AudioOutputWorkerState::Running));

    let (next, action) = worker_step(next, OutputWorkerEvent::TimedOut { cancelled: true });
    assert_eq!(next, OutputWorkerPhase::Finished);
    assert!(action.stop_output && action.drain);
    assert_eq!(action.publish, Some(AudioOutputWorkerState::Stopped));

    let (still, action) = worker_step(next, OutputWorkerEvent::Opened);
    assert_eq!(still, OutputWorkerPhase::Finished);
    assert_eq!(action.publish, None);
}

#[test]
fn worker_handles_refuse_blocks_after_cancel_or_failure() {
    assert!(accepts_block(false, AudioOutputWorkerState::Running));
    assert!(accepts_block(false, AudioOutputWorkerState::Starting));
    assert!(!accepts_block(true, AudioOutputWorkerState::Running));
    assert!(!accepts_block(false, AudioOutputWorkerState::Failed));
    assert!(check_worker_capacity(1).is_ok());
    assert!(matches!(check_worker_capacity(0), Err(AudioOutputWorkerError::ZeroCapacity)));
    assert_eq!(
        AudioOutputWorkerError::ZeroCapacity.message(),
        "audio output queue capacity must be non-zero"
    );
    assert_eq!(bounded_error("short"), "short");
    assert_eq!(bounded_error(&"é".repeat(600)).chars().count(), 512);
}

#[test]
fn output_formats_are_tried_from_the_mix_format_without_repeats() {
    let stereo = AudioFormat::new(48_000, 2).expect("format");
    let candidates = output_format_candidates(stereo);
    assert_eq!(
        candidates,
        vec![
            stereo,
            AudioFormat::new(44_100, 2).expect("format"),
            AudioFormat::new(48_000, 1).expect("format"),
            AudioFormat::new(44_100, 1).expect("format"),
        ]
    );
    let wide = AudioFormat::new(96_000, 6).expect("format");
    let candidates = output_format_candidates(wide);
    assert_eq!(candidates.len(), 5);
    assert_eq!(candidates[0], wide);
}

#[test]
fn audio_errors_describe_themselves() {
    assert_eq!(AudioError::UnknownSource(AudioSourceId(7)).message(), "audio source 7 does not exist");
    assert_eq!(
        AudioError::FrameCountMismatch { expected: 4, actual: 2 }.message(),
        "audio buffer has 2 frames; expected 4"
    );
    assert_eq!(
        AudioError::InvalidFilterGain { milli_db: -40_000 }.message(),
        "audio filter gain -40000 milli-dB is outside the supported range"
    );
    let stereo = AudioFormat::new(48_000, 2).expect("format");
    let mono = AudioFormat::new(44_100, 1).expect("format");
    assert_eq!(
        AudioError::FormatMismatch { expected: stereo, actual: mono }.message(),
        "audio format AudioFormat { sample_rate: 44100, channels: 1, layout: Mono } does not match AudioFormat { sample_rate: 48000, channels: 2, layout: Stereo }"
    );
    assert_eq!(
        AudioError::BufferTimestampMismatch { expected: Timestamp::from_nanos(5), actual: Timestamp::from_nanos(3) }
            .message(),
        "audio buffer starts at Timestamp { nanos: 3 }; expected Timestamp { nanos: 5 }"
    );
    let worker: AudioWorkerError<String> = AudioWorkerError::Source("boom".to_owned());
    assert_eq!(worker.message("boom"), "audio source failed: boom");
    assert_eq!(
        AudioDeviceError::Unavailable("gone".to_owned()).message(),
        "audio device unavailable: gone"
    );
    assert_eq!(
        AudioDeviceError::Audio(AudioError::ZeroCapacity).message(),
        "audio device block failed: audio queue capacity must be non-zero"
    );
}

#[test]
fn helper_failures_are_classified() {
    assert_eq!(
        classify_helper_exit("exit code: 5", "Access is denied"),
        CaptureError::PermissionDenied
    );
    assert_eq!(
        classify_helper_exit("exit code: 1", ""),
        CaptureError::PlatformUnavailable {
            message: "Windows capture helper exited with exit code: 1".to_owned()
        }
    );
    assert!(matches!(
        launch_error("Windows capture helper", true, "not found"),
        CaptureError::PlatformUnavailable { .. }
    ));
    assert!(matches!(
        launch_error("Windows capture helper", false, "busy"),
        CaptureError::Io { .. }
    ));
}

#[test]
fn discovery_rejects_duplicate_ids_and_bad_displays() {
    let duplicate = "OBSRWIN1\tDISCOVERY\t1\nOBSRWIN1\tVERSION\t0.1.0\nwindow\twgc-window-1\tA\nwindow\twgc-window-1\tB\n";
    assert_eq!(
        parse_discovery_output(duplicate),
        Err(CaptureError::Protocol { message: "Windows discovery contains duplicate device IDs".to_owned() })
    );
    let zero = "OBSRWIN1\tDISCOVERY\t1\nOBSRWIN1\tVERSION\t0.1.0\nscreen\twgc-screen-1\tPrimary\t0\t0\t0\t1080\t1\n";
    assert_eq!(
        parse_discovery_output(zero),
        Err(CaptureError::Protocol { message: "Windows display dimensions must be non-zero".to_owned() })
    );
    let sorted = "OBSRWIN1\tDISCOVERY\t1\nOBSRWIN1\tVERSION\t0.1.0\nwindow\twgc-window-b\tB\nwindow\twgc-window-a\tA\n";
    let (devices, _) = parse_discovery_output(sorted).expect("discovery");
    assert_eq!(devices[0].id, "wgc-window-a");
}

#[test]
fn decimal_integers_parse_like_from_str() {
    let text = chars("+42");
    assert_eq!(parse_int(&text, 0, text.len(), -100, 100), Ok(42));
    let text = chars("-7");
    assert_eq!(parse_int(&text, 0, text.len(), -100, 100), Ok(-7));
    assert_eq!(parse_int(&text, 0, text.len(), 0, 100), Err(IntParseError::InvalidDigit));
    let text = chars("101");
    assert_eq!(parse_int(&text, 0, text.len(), -100, 100), Err(IntParseError::PosOverflow));
    let text = chars("-101");
    assert_eq!(parse_int(&text, 0, text.len(), -100, 100), Err(IntParseError::NegOverflow));
    let text = chars("");
    assert_eq!(parse_int(&text, 0, 0, -100, 100), Err(IntParseError::Empty));
    let text = chars("+");
    assert_eq!(parse_int(&text, 0, 1, -100, 100), Err(IntParseError::InvalidDigit));
    assert_eq!(decimal_string(0), "0");
    assert_eq!(decimal_string(u128::MAX), u128::MAX.to_string());
}

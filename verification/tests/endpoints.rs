use obs_rs::benchmark::{
    candidate_formats, measured_candidate, rank_setup_candidate, SetupCandidateMetrics,
};
use obs_rs::capture::{
    capture_helper_args, open_kind, CaptureError, MacOsCaptureAdapter, WindowsCaptureAdapter,
    WINDOWS_HELPER_EXE,
};
use obs_rs::device::{AudioDeviceError, AudioDeviceInfo, AudioDeviceKind, AudioInputState, AudioOutputState};
use obs_rs::error::AudioError;
use obs_rs::pipewire::{
    block_byte_count, cat_args, discovered_devices, input_target, output_devices, output_target,
    DEFAULT_INPUT_ID, DEFAULT_OUTPUT_ID,
};
use obs_rs::setup_choice::setup_report;
use obs_rs::timestamp::Timestamp;
use obs_rs::types::AudioFormat;
use obs_rs::wasapi_stream::{
    callback_block, check_output_write, endpoint_devices, output_failure, output_state_code,
    output_state_from_code, output_stream_error_message, queue_failure_message, unsupported_format,
    CallbackBlock, InputEvent, WasapiInputReader, WasapiOutputQueue, CALLBACK_QUEUE_CAPACITY,
    MAX_CALLBACK_SAMPLES,
};
use obs_rs::windows_discovery::WindowsCaptureKind;

fn metrics(processed: u64, dropped: u64) -> SetupCandidateMetrics {
    SetupCandidateMetrics {
        render_p95_nanos: 1_000,
        render_p99_nanos: 1_000,
        render_max_nanos: 1_000,
        requested_frames: 60,
        processed_frames: processed,
        missed_deadlines: 0,
        dropped_frames: dropped,
        max_queue_age_nanos: 0,
        elapsed_millis: 1,
    }
}

/// The frame period of a 30 fps format, in nanoseconds.
const PERIOD_30_FPS: Option<u64> = Some(33_333_333);

#[test]
fn candidate_matrix_is_bounded_and_ordered() {
    let formats = candidate_formats();
    assert_eq!(formats.len(), 4);
    assert_eq!(formats[0].0, "720p30");
    assert_eq!(formats[3].0, "1080p60");
}

#[test]
fn stable_candidate_gets_the_highest_tier() {
    assert_eq!(rank_setup_candidate(1_280, 720, 30, 1, PERIOD_30_FPS, metrics(60, 0)).0, 2);
}

#[test]
fn dropped_or_missed_candidate_is_not_stable_or_recommended() {
    assert_eq!(rank_setup_candidate(1_280, 720, 30, 1, PERIOD_30_FPS, metrics(59, 1)).0, 0);
}

#[test]
fn setup_report_recommends_the_stable_candidate_or_refuses() {
    let stable = measured_candidate("720p30", 1_280, 720, 30, 1, PERIOD_30_FPS, Ok(metrics(60, 0)));
    assert_eq!((stable.tier, stable.fps, stable.score), (2, 30, 27_648_000));
    let failed = measured_candidate("1080p60", 1_920, 1_080, 60, 1, Some(16_666_666), Err("gpu lost".to_owned()));
    assert_eq!((failed.tier, failed.score), (0, 0));
    assert_eq!(failed.error.as_deref(), Some("gpu lost"));

    let report = setup_report(vec![stable.clone(), failed.clone()], 12).expect("report");
    assert_eq!(report.recommended, Some(0));
    assert_eq!(report.elapsed_millis, 12);
    assert_eq!(
        setup_report(vec![failed], 3).err().as_deref(),
        Some("the local benchmark found no stable candidate")
    );
}

#[test]
fn non_windows_hosts_report_a_typed_unavailable_state() {
    let adapter = WindowsCaptureAdapter::new(WINDOWS_HELPER_EXE);
    assert!(matches!(
        adapter.discover_unavailable(),
        CaptureError::PlatformUnavailable { .. }
    ));
    assert_eq!(adapter.backend_name(), "windows-graphics-capture-media-foundation");
}

#[test]
fn non_macos_hosts_report_a_typed_unavailable_state() {
    let adapter = MacOsCaptureAdapter::default();
    assert!(matches!(
        adapter.discover_unavailable(),
        CaptureError::PlatformUnavailable { .. }
    ));
    assert_eq!(adapter.helper(), "obs-rs-capture-macos-helper");
}

#[test]
fn capture_command_keeps_the_protocol_target_and_format_together() {
    assert_eq!(
        capture_helper_args("wgc-screen-2", 1_280, 720, 60, 1, Some(false), Some(false)),
        vec![
            "--protocol",
            "OBSRWIN1",
            "--device",
            "wgc-screen-2",
            "--width",
            "1280",
            "--height",
            "720",
            "--fps-numerator",
            "60",
            "--fps-denominator",
            "1",
            "--capture-cursor",
            "false",
            "--capture-border",
            "false",
        ]
    );
    assert_eq!(capture_helper_args("wgc-window-7", 640, 480, 30000, 1001, None, Some(true)).len(), 14);
}

#[test]
fn capture_ids_select_screens_and_windows_only() {
    assert_eq!(open_kind("wgc-screen-picker"), Ok(WindowsCaptureKind::Screen));
    assert_eq!(open_kind("wgc-screen-2"), Ok(WindowsCaptureKind::Screen));
    assert_eq!(open_kind("wgc-window-picker"), Ok(WindowsCaptureKind::Window));
    assert_eq!(open_kind("wgc-window-99"), Ok(WindowsCaptureKind::Window));
    assert_eq!(
        open_kind("mf-camera-1"),
        Err(CaptureError::InvalidDevice {
            reason: "unknown Windows Graphics Capture stable ID mf-camera-1; cameras use Nokhwa"
                .to_owned()
        })
    );
}

#[test]
fn unknown_device_is_rejected_before_spawning_process() {
    let Err(error) = input_target("missing") else {
        panic!("unknown device should fail")
    };
    assert!(error.message().contains("unknown PipeWire input"));
    assert!(matches!(output_target("missing"), Err(AudioDeviceError::Unavailable(reason)) if reason == "unknown PipeWire output missing"));
    assert!(matches!(input_target(DEFAULT_INPUT_ID), Ok(None)));
    assert!(matches!(output_target(DEFAULT_OUTPUT_ID), Ok(None)));
    assert!(matches!(input_target("pipewire-node-42"), Ok(Some("42"))));
}

#[test]
fn pipewire_cat_arguments_describe_the_raw_stream() {
    let format = AudioFormat::new(48_000, 2).expect("format");
    assert_eq!(
        cat_args(false, format, Some("42")),
        vec!["--record", "--raw", "--format", "f32", "--rate", "48000", "--channels", "2", "--target", "42", "-"]
    );
    assert_eq!(
        cat_args(true, format, None),
        vec!["--playback", "--raw", "--format", "f32", "--rate", "48000", "--channels", "2", "-"]
    );
}

#[test]
fn pipewire_block_sizes_are_bounded() {
    assert!(matches!(block_byte_count(0, 2), Err(AudioDeviceError::InvalidDevice(_))));
    assert_eq!(block_byte_count(480, 2).expect("size"), 3_840);
    assert!(matches!(
        block_byte_count(usize::MAX, 2),
        Err(AudioDeviceError::InvalidDevice(reason)) if reason == "audio block is too large"
    ));
    assert!(matches!(
        block_byte_count(usize::MAX / 2, 2),
        Err(AudioDeviceError::InvalidDevice(reason)) if reason == "audio block byte size overflowed"
    ));
}

#[test]
fn pipewire_discovery_refuses_an_empty_graph_and_filters_outputs() {
    assert!(matches!(
        discovered_devices("[]"),
        Err(AudioDeviceError::Unavailable(reason)) if reason == "PipeWire has no discoverable audio node"
    ));
    let document = r#"[
      {"id": 7, "type": "PipeWire:Interface:Node", "info": {"props": {
        "media.class": "Audio/Sink", "node.description": "Speakers"}}},
      {"id": 42, "type": "PipeWire:Interface:Node", "info": {"props": {
        "media.class": "Audio/Source", "node.description": "USB Mic"}}}
    ]"#;
    let devices = discovered_devices(document).expect("devices");
    let outputs = output_devices(&devices);
    assert_eq!(outputs.len(), 2);
    assert!(outputs.iter().all(|device| device.kind() == AudioDeviceKind::Output));
    assert_eq!(outputs[0].id(), DEFAULT_OUTPUT_ID);
}

#[test]
fn input_callback_rejects_samples_beyond_the_bound() {
    let samples = vec![0.0_f32; MAX_CALLBACK_SAMPLES + 1];
    assert!(matches!(callback_block(&samples), CallbackBlock::Error(_)));
    assert!(matches!(callback_block(&samples[..MAX_CALLBACK_SAMPLES]), CallbackBlock::Samples(block) if block.len() == MAX_CALLBACK_SAMPLES));
}

#[test]
fn input_queue_overrun_fails_the_reader_and_discards_pending_samples() {
    let format = AudioFormat::new(48_000, 1).expect("format");
    let mut reader = WasapiInputReader::new(format);
    reader
        .on_event(InputEvent::Received(CallbackBlock::Samples(vec![0.25_f32])))
        .expect("samples");

    let error = reader.on_event(InputEvent::Overrun).expect_err("queue overrun should fail input");

    assert!(
        matches!(error, AudioDeviceError::Unavailable(message) if message.contains("queue overflowed"))
    );
    assert_eq!(reader.state(), AudioInputState::Failed);
    assert_eq!(reader.pending_samples(), 0);
}

#[test]
fn input_xruns_are_ignored_until_a_complete_block_arrives() {
    let format = AudioFormat::new(48_000, 1).expect("format");
    let mut reader = WasapiInputReader::new(format);
    let count = reader.block_samples(2).expect("count");
    reader.on_event(InputEvent::Received(CallbackBlock::Xrun)).expect("xrun");
    assert_eq!(reader.pending_samples(), 0);
    reader
        .on_event(InputEvent::Received(CallbackBlock::Samples(vec![0.25_f32, -0.25, 0.5])))
        .expect("samples");
    let block = reader
        .finish_block(Timestamp::from_millis(3), count, f32::is_finite)
        .expect("samples after xrun");
    assert_eq!(block.samples(), &[0.25, -0.25]);
    assert_eq!(block.timestamp(), Timestamp::from_millis(3));
    assert_eq!(reader.pending_samples(), 1);
    assert_eq!(reader.state(), AudioInputState::Running);
}

#[test]
fn input_reader_reports_each_stream_failure() {
    let format = AudioFormat::new(48_000, 2).expect("format");
    let mut reader: WasapiInputReader<f32> = WasapiInputReader::new(format);
    assert!(matches!(
        reader.on_event(InputEvent::TimedOut),
        Err(AudioDeviceError::Unavailable(m)) if m == "WASAPI input did not deliver a complete audio block"
    ));
    assert!(matches!(
        reader.on_event(InputEvent::Disconnected),
        Err(AudioDeviceError::Unavailable(m)) if m == "WASAPI input stream disconnected"
    ));
    assert!(matches!(
        reader.on_event(InputEvent::Received(CallbackBlock::Error("device removed".to_owned()))),
        Err(AudioDeviceError::Unavailable(m)) if m == "WASAPI input stream failed: device removed"
    ));
    assert!(matches!(
        reader.block_samples(2_000_000),
        Err(AudioDeviceError::Audio(AudioError::BufferTooLarge { frames: 2_000_000 }))
    ));
    assert_eq!(reader.block_samples(480).expect("count"), 960);
    reader.stop();
    assert_eq!(reader.state(), AudioInputState::Stopped);
}

#[test]
fn output_queue_is_bounded_and_fills_underflow_with_silence() {
    let (sender, receiver) = std::sync::mpsc::sync_channel::<Vec<f32>>(CALLBACK_QUEUE_CAPACITY);
    for _ in 0..CALLBACK_QUEUE_CAPACITY {
        sender.send(vec![0.25]).expect("bounded queue accepts capacity");
    }
    assert!(sender.try_send(vec![0.5]).is_err());

    let mut queue = WasapiOutputQueue::new();
    let mut next_sample = || loop {
        if let Some(sample) = queue.next_pending() {
            return sample;
        }
        match receiver.try_recv() {
            Ok(block) => queue.extend(&block),
            Err(_) => return 0.0,
        }
    };
    for _ in 0..CALLBACK_QUEUE_CAPACITY {
        assert_eq!(next_sample().to_bits(), 0.25_f32.to_bits());
    }
    assert_eq!(next_sample().to_bits(), 0.0_f32.to_bits());
}

#[test]
fn output_writes_report_format_failure_and_stop() {
    let format = AudioFormat::new(48_000, 2).expect("format");
    let mono = AudioFormat::new(48_000, 1).expect("mono");
    assert_eq!(
        check_output_write(format, format, AudioOutputState::Running, false, None).is_ok(),
        true
    );
    assert!(matches!(
        check_output_write(format, mono, AudioOutputState::Running, false, None),
        Err(AudioDeviceError::Audio(AudioError::FormatMismatch { .. }))
    ));
    assert!(matches!(
        check_output_write(format, format, AudioOutputState::Failed, false, Some("lost".to_owned())),
        Err(AudioDeviceError::Unavailable(m)) if m == "lost"
    ));
    assert!(matches!(
        check_output_write(format, format, AudioOutputState::Stopped, true, None),
        Err(AudioDeviceError::Unavailable(m)) if m == "WASAPI output stream is stopped"
    ));
    assert!(matches!(output_failure(None), AudioDeviceError::Unavailable(m) if m == "WASAPI output stream failed"));
    assert_eq!(queue_failure_message(true), "WASAPI output queue is full; monitor device is not keeping up");
    assert_eq!(queue_failure_message(false), "WASAPI output stream disconnected");
    assert_eq!(output_stream_error_message("gone"), "WASAPI output stream failed: gone");
    assert_eq!(output_stream_error_message(&"x".repeat(600)).chars().count(), 512);
    assert!(matches!(
        unsupported_format(false, format),
        AudioDeviceError::Unavailable(m) if m == "WASAPI endpoint does not support 48000 Hz / 2 channels"
    ));
    for state in [AudioOutputState::Stopped, AudioOutputState::Running, AudioOutputState::Failed] {
        assert_eq!(output_state_from_code(output_state_code(state)), state);
    }
    assert_eq!(output_state_from_code(9), AudioOutputState::Stopped);
}

#[test]
fn endpoints_become_input_and_output_descriptors() {
    let endpoints = vec![
        ("mic".to_owned(), "Microphone".to_owned(), true, false),
        ("headset".to_owned(), "Headset".to_owned(), true, true),
        ("dock".to_owned(), "Dock".to_owned(), false, false),
    ];
    let devices = endpoint_devices(&endpoints, Some("headset".to_owned()), Some("headset".to_owned()))
        .expect("devices");
    let summary: Vec<(String, AudioDeviceKind, bool)> = devices
        .iter()
        .map(|d: &AudioDeviceInfo| (d.id().to_owned(), d.kind(), d.is_default()))
        .collect();
    assert_eq!(
        summary,
        vec![
            ("mic".to_owned(), AudioDeviceKind::Input, false),
            ("headset".to_owned(), AudioDeviceKind::Input, true),
            ("headset".to_owned(), AudioDeviceKind::Output, true),
        ]
    );
    let blank = vec![(" ".to_owned(), "Nameless".to_owned(), true, false)];
    assert!(matches!(endpoint_devices(&blank, None, None), Err(AudioDeviceError::InvalidDevice(_))));
}

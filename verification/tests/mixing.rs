use obs_rs::buffer::AudioBuffer;
use obs_rs::error::AudioError;
use obs_rs::mixer::{allocate_source_id, peak_milli_from_scaled, AudioMixerCore, SourceState};
use obs_rs::monitor::AudioMonitorTap;
use obs_rs::timestamp::Timestamp;
use obs_rs::types::{AudioFormat, AudioMonitorTapId, AudioSourceId};

fn format() -> AudioFormat {
    AudioFormat::new(48_000, 2).expect("valid audio format")
}

fn buffer(values: &[f32]) -> AudioBuffer<f32> {
    AudioBuffer::new(format(), Timestamp::zero(), values.to_vec()).expect("valid buffer")
}

fn silence(frames: usize) -> AudioBuffer<f32> {
    AudioBuffer::silence(format(), Timestamp::zero(), frames, 0.0).expect("silence")
}

#[test]
fn mixer_rejects_duplicate_and_unknown_inputs() {
    let mut mixer: AudioMixerCore<u32> = AudioMixerCore::new(format());
    let source = mixer.add_source().expect("source");
    let input = buffer(&[0.1, 0.2]);
    let output = silence(1);

    assert_eq!(
        mixer.validate(&output, &[(source, &input), (source, &input)]),
        Err(AudioError::DuplicateInput(source))
    );
    assert_eq!(
        mixer.validate(&output, &[(AudioSourceId(99), &input)]),
        Err(AudioError::UnknownSource(AudioSourceId(99)))
    );
}

#[test]
fn mixer_validation_checks_formats_and_frame_counts_in_order() {
    let mut mixer: AudioMixerCore<u32> = AudioMixerCore::new(format());
    let first = mixer.add_source().expect("first");
    let second = mixer.add_source().expect("second");
    let mono = AudioFormat::new(48_000, 1).expect("mono");
    let mono_input = AudioBuffer::new(mono, Timestamp::zero(), vec![0.5_f32]).expect("mono input");
    let long_input = buffer(&[0.1, 0.2, 0.3, 0.4]);
    let input = buffer(&[0.1, 0.2]);
    let output = silence(1);

    assert_eq!(mixer.validate(&output, &[(first, &input), (second, &input)]), Ok(()));
    assert_eq!(mixer.validate(&output, &[]), Ok(()));
    assert_eq!(
        mixer.validate(&output, &[(first, &mono_input)]),
        Err(AudioError::FormatMismatch { expected: format(), actual: mono })
    );
    assert_eq!(
        mixer.validate(&output, &[(first, &input), (second, &long_input)]),
        Err(AudioError::FrameCountMismatch { expected: 1, actual: 2 })
    );
    let mono_output = AudioBuffer::silence(mono, Timestamp::zero(), 1, 0.0_f32).expect("mono output");
    assert_eq!(
        mixer.validate(&mono_output, &[(first, &input)]),
        Err(AudioError::FormatMismatch { expected: format(), actual: mono })
    );
}

#[test]
fn mixer_source_handles_are_never_reused() {
    let mut mixer: AudioMixerCore<u32> = AudioMixerCore::new(format());
    let first = mixer.add_source().expect("first");
    let second = mixer.add_source().expect("second");
    assert_eq!((first, second), (AudioSourceId(1), AudioSourceId(2)));
    assert_eq!(mixer.remove_source(first), Ok(()));
    assert_eq!(mixer.remove_source(first), Err(AudioError::UnknownSource(first)));
    let third = mixer.add_source().expect("third");
    assert_eq!(third, AudioSourceId(3));
    assert_eq!(mixer.source_ids(), vec![second, third]);
    assert_eq!(mixer.source_count(), 2);
    assert!(!mixer.has_source(first));
    assert_eq!(allocate_source_id(u64::MAX), Err(AudioError::SourceIdExhausted));
}

#[test]
fn mixer_keeps_mute_and_peak_per_source() {
    let mut mixer: AudioMixerCore<u32> = AudioMixerCore::new(format());
    let source = mixer.add_source().expect("source");
    assert_eq!(
        mixer.source_state(source),
        Ok(SourceState { id: source, muted: false, peak_milli: 0 })
    );
    mixer.set_muted(source, true).expect("mute");
    mixer.set_peak_milli(source, 750).expect("peak");
    assert_eq!(mixer.source_peak_milli(source), Ok(750));
    assert_eq!(
        mixer.source_state(source),
        Ok(SourceState { id: source, muted: true, peak_milli: 750 })
    );
    let missing = AudioSourceId(42);
    assert_eq!(mixer.set_muted(missing, true), Err(AudioError::UnknownSource(missing)));
    assert_eq!(mixer.source_peak_milli(missing), Err(AudioError::UnknownSource(missing)));
    assert_eq!(peak_milli_from_scaled(1_000), 1_000);
    assert_eq!(peak_milli_from_scaled(70_000), u16::MAX);
}

#[test]
fn mixer_monitor_taps_are_bounded_and_keep_the_newest_mix() {
    let mut mixer: AudioMixerCore<u32> = AudioMixerCore::new(format());
    let tap = mixer.add_monitor_tap(1).expect("tap");
    assert_eq!(tap, AudioMonitorTapId(1));
    assert!(mixer.has_monitor_taps());

    mixer.observe_all(&10);
    mixer.observe_all(&11);

    assert_eq!(mixer.monitor_dropped_buffers(tap), Ok(1));
    assert_eq!(mixer.pop_monitor_buffer(tap), Ok(Some(11)));
    assert_eq!(mixer.pop_monitor_buffer(tap), Ok(None));
    assert_eq!(mixer.add_monitor_tap(0), Err(AudioError::ZeroMonitorCapacity));
    assert!(matches!(AudioMonitorTap::<u32>::new(0), Err(AudioError::ZeroMonitorCapacity)));
}

#[test]
fn mixer_monitor_taps_observe_independently_and_can_be_removed() {
    let mut mixer: AudioMixerCore<u32> = AudioMixerCore::new(format());
    let small = mixer.add_monitor_tap(1).expect("small");
    let large = mixer.add_monitor_tap(3).expect("large");
    for snapshot in 1..=3 {
        mixer.observe_all(&snapshot);
    }
    assert_eq!(mixer.monitor_dropped_buffers(small), Ok(2));
    assert_eq!(mixer.monitor_dropped_buffers(large), Ok(0));
    assert_eq!(mixer.monitor_tap_ids(), vec![small, large]);

    let removed = mixer.remove_monitor_tap(large).expect("remove");
    assert_eq!(removed.queued_buffers(), 3);
    assert_eq!(mixer.monitor_tap_ids(), vec![small]);
    assert_eq!(
        mixer.pop_monitor_buffer(large),
        Err(AudioError::UnknownMonitorTap(large))
    );
    assert!(matches!(
        mixer.remove_monitor_tap(large),
        Err(AudioError::UnknownMonitorTap(_))
    ));
    let next = mixer.add_monitor_tap(2).expect("next");
    assert_eq!(next, AudioMonitorTapId(3));
}

#[test]
fn monitor_tap_pops_oldest_first_and_counts_drops() {
    let mut tap = AudioMonitorTap::new(2).expect("tap");
    tap.observe('a');
    tap.observe('b');
    tap.observe('c');
    assert_eq!(tap.dropped_buffers(), 1);
    assert_eq!(tap.queued_buffers(), 2);
    assert_eq!(tap.pop(), Some('b'));
    assert_eq!(tap.pop(), Some('c'));
    assert_eq!(tap.pop(), None);
}

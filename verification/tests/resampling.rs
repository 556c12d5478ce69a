use obs_rs::buffer::AudioBuffer;
use obs_rs::error::AudioError;
use obs_rs::resampler::{
    channel_source, interpolation_points, resampled_frames, sample_timestamp, AudioResampler,
    ChannelSource, FrameRef, InterpolationPoint, StreamStep, StreamingAudioResampler,
};
use obs_rs::timestamp::Timestamp;
use obs_rs::types::AudioChannelLayout::{Discrete, FivePointOne, Mono, Quad, Stereo};
use obs_rs::types::{AudioFormat, MAX_AUDIO_FRAMES};

fn point(first: usize, second: usize, fraction_micros: u32) -> InterpolationPoint {
    InterpolationPoint { first, second, fraction_micros }
}

fn step(first: FrameRef, second: FrameRef, fraction_numerator: u64) -> StreamStep {
    StreamStep { first, second, fraction_numerator }
}

fn mono(rate: u32) -> AudioFormat {
    AudioFormat::new(rate, 1).expect("mono format")
}

#[test]
fn output_frame_counts_round_to_nearest() {
    assert_eq!(resampled_frames(4, 48_000, 24_000), Ok(2));
    assert_eq!(resampled_frames(3, 44_100, 48_000), Ok(3));
    assert_eq!(resampled_frames(1, 48_000, 24_000), Ok(1));
    assert_eq!(resampled_frames(480, 48_000, 44_100), Ok(441));
    assert_eq!(
        resampled_frames(MAX_AUDIO_FRAMES, 8_000, 192_000),
        Err(AudioError::BufferTooLarge { frames: usize::MAX })
    );
}

#[test]
fn downsampling_positions_skip_whole_frames() {
    let points = interpolation_points(4, 48_000, 24_000, 2);
    assert_eq!(points, vec![point(0, 1, 0), point(2, 3, 0)]);
}

#[test]
fn upsampling_positions_carry_fractions_and_clamp_at_the_end() {
    let points = interpolation_points(2, 24_000, 48_000, 4);
    assert_eq!(
        points,
        vec![
            point(0, 1, 0),
            point(0, 1, 500_000),
            point(1, 1, 0),
            point(1, 1, 500_000),
        ]
    );
    // 44.1 kHz to 48 kHz: the third output frame falls 0.91875 input frames in.
    let points = interpolation_points(3, 44_100, 48_000, 3);
    assert_eq!(points[1], point(0, 1, 918_750));
    assert_eq!(points[2], point(1, 2, 837_500));
}

#[test]
fn resampler_maps_channels_by_speaker_role() {
    assert_eq!(channel_source(Mono, Stereo, 0), ChannelSource::Average(vec![0]));
    assert_eq!(channel_source(Mono, Stereo, 1), ChannelSource::Average(vec![0]));
    assert_eq!(channel_source(Stereo, Mono, 0), ChannelSource::AverageAll);
    assert_eq!(channel_source(Stereo, Stereo, 1), ChannelSource::Channel(1));
    assert_eq!(
        channel_source(FivePointOne, Stereo, 0),
        ChannelSource::Average(vec![0, 2, 4])
    );
    assert_eq!(
        channel_source(FivePointOne, Stereo, 1),
        ChannelSource::Average(vec![1, 2, 5])
    );
    assert_eq!(channel_source(Stereo, FivePointOne, 2), ChannelSource::Average(vec![0, 1]));
    assert_eq!(channel_source(Stereo, FivePointOne, 3), ChannelSource::Silent);
    assert_eq!(channel_source(Stereo, FivePointOne, 4), ChannelSource::Channel(0));
    assert_eq!(channel_source(Quad, FivePointOne, 4), ChannelSource::Channel(2));
    assert_eq!(channel_source(Discrete(3), Stereo, 1), ChannelSource::Channel(1));
    assert_eq!(channel_source(Stereo, Discrete(4), 3), ChannelSource::Channel(1));
}

#[test]
fn resampler_plans_whole_buffers_and_rejects_other_formats() {
    let resampler = AudioResampler::new(mono(48_000), mono(24_000)).expect("resampler");
    let input = AudioBuffer::new(mono(48_000), Timestamp::from_millis(2), vec![0.0_f32, 1.0, 0.0, -1.0])
        .expect("input");
    let plan = resampler.plan(&input).expect("plan");
    assert_eq!(plan, vec![point(0, 1, 0), point(2, 3, 0)]);

    let empty = AudioBuffer::new(mono(48_000), Timestamp::zero(), Vec::<f32>::new()).expect("empty");
    assert_eq!(resampler.plan(&empty).expect("empty plan").len(), 0);

    let wrong = AudioBuffer::new(mono(44_100), Timestamp::zero(), vec![0.0_f32]).expect("wrong");
    assert_eq!(
        resampler.plan(&wrong),
        Err(AudioError::FormatMismatch { expected: mono(48_000), actual: mono(44_100) })
    );
}

#[test]
fn stream_timestamps_follow_the_output_sample_clock() {
    assert_eq!(
        sample_timestamp(Timestamp::from_millis(2), 2, 24_000),
        Ok(Timestamp::from_nanos(2_083_333))
    );
    assert_eq!(sample_timestamp(Timestamp::from_millis(5), 0, 48_000), Ok(Timestamp::from_millis(5)));
    assert_eq!(
        sample_timestamp(Timestamp::from_nanos(u64::MAX), 1, 48_000),
        Err(AudioError::ScheduleOverflow)
    );
}

#[test]
fn streaming_downsampler_keeps_blocks_on_one_sample_clock() {
    let mut stream = StreamingAudioResampler::new(mono(48_000), mono(24_000)).expect("stream");
    let first = AudioBuffer::new(mono(48_000), Timestamp::from_millis(2), vec![0.0_f32; 4]).expect("first");
    let block = stream.plan_block(&first).expect("first block");
    assert_eq!(block.denominator, 24_000);
    assert_eq!(block.timestamp, Timestamp::from_millis(2));
    assert_eq!(
        block.steps,
        vec![
            step(FrameRef::Input(0), FrameRef::Input(1), 0),
            step(FrameRef::Input(2), FrameRef::Input(3), 0),
        ]
    );
    assert_eq!(stream.input_frames(), 4);
    assert_eq!(stream.output_frames(), 2);

    // The second block's own timestamp is ignored: the stream clock runs on.
    let second = AudioBuffer::new(mono(48_000), Timestamp::from_millis(100), vec![0.0_f32; 4])
        .expect("second");
    let block = stream.plan_block(&second).expect("second block");
    assert_eq!(block.timestamp, Timestamp::from_nanos(2_083_333));
    assert_eq!(
        block.steps,
        vec![
            step(FrameRef::Input(0), FrameRef::Input(1), 0),
            step(FrameRef::Input(2), FrameRef::Input(3), 0),
        ]
    );
    assert_eq!(stream.output_frames(), 4);
}

#[test]
fn streaming_upsampler_interpolates_across_the_block_boundary() {
    let mut stream = StreamingAudioResampler::new(mono(24_000), mono(48_000)).expect("stream");
    let first = AudioBuffer::new(mono(24_000), Timestamp::zero(), vec![0.0_f32; 2]).expect("first");
    let block = stream.plan_block(&first).expect("first block");
    assert_eq!(
        block.steps,
        vec![
            step(FrameRef::Input(0), FrameRef::Input(1), 0),
            step(FrameRef::Input(0), FrameRef::Input(1), 24_000),
        ]
    );
    let second = AudioBuffer::new(mono(24_000), Timestamp::zero(), vec![0.0_f32; 2]).expect("second");
    let block = stream.plan_block(&second).expect("second block");
    assert_eq!(
        block.steps,
        vec![
            step(FrameRef::Previous, FrameRef::Input(0), 0),
            step(FrameRef::Previous, FrameRef::Input(0), 24_000),
            step(FrameRef::Input(0), FrameRef::Input(1), 0),
            step(FrameRef::Input(0), FrameRef::Input(1), 24_000),
        ]
    );
    assert_eq!(block.timestamp, Timestamp::from_nanos(41_666));
}

#[test]
fn streaming_resampler_ignores_empty_blocks_and_rejects_other_formats() {
    let mut stream = StreamingAudioResampler::new(mono(48_000), mono(24_000)).expect("stream");
    let empty = AudioBuffer::new(mono(48_000), Timestamp::from_millis(7), Vec::<f32>::new()).expect("empty");
    let block = stream.plan_block(&empty).expect("empty block");
    assert!(block.steps.is_empty());
    assert_eq!(block.timestamp, Timestamp::from_millis(7));
    assert_eq!(stream.input_frames(), 0);

    let wrong = AudioBuffer::new(mono(44_100), Timestamp::zero(), vec![0.0_f32]).expect("wrong");
    assert!(matches!(
        stream.plan_block(&wrong),
        Err(AudioError::FormatMismatch { .. })
    ));
    assert_eq!(stream.output_frames(), 0);
}

#[test]
fn converted_buffer_takes_the_output_format_and_input_start() {
    let stereo = AudioFormat::new(24_000, 2).expect("stereo format");
    let resampler = AudioResampler::new(mono(48_000), stereo).expect("resampler");
    let input = AudioBuffer::new(mono(48_000), Timestamp::from_millis(5), vec![0.25_f32, 0.5])
        .expect("input");
    let output = resampler
        .output_buffer(&input, vec![0.25_f32, 0.25], f32::is_finite)
        .expect("output");
    assert_eq!(output.format(), stereo);
    assert_eq!(output.timestamp(), Timestamp::from_millis(5));
    assert_eq!(output.samples(), &[0.25, 0.25]);
    assert_eq!(
        resampler.output_buffer(&input, vec![f32::NAN, 0.0], f32::is_finite),
        Err(AudioError::NonFiniteSample)
    );
    assert_eq!(
        resampler.output_buffer(&input, vec![0.0_f32], f32::is_finite),
        Err(AudioError::SamplesNotInterleaved { samples: 1, channels: 2 })
    );
}

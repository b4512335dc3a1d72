use audio_io::{
    Action, AudioData, AudioReadConfig, AudioReadError, Extraction, Start, Stop, StreamSpec,
};
use std::time::Duration;

/// A source of `frames` frames with `channels` channels at 48 kHz, in which
/// every sample tells its frame and its channel.
fn source(frames: usize, channels: usize) -> Vec<f32> {
    let mut samples = Vec::with_capacity(frames * channels);
    for frame in 0..frames {
        for channel in 0..channels {
            samples.push((frame % 4096) as f32 / 4096.0 + channel as f32);
        }
    }
    samples
}

fn spec_48k() -> StreamSpec {
    StreamSpec { track_id: 0, sample_rate: 48000, time_base_denom: Some(48000) }
}

/// Does what a reader does with a decoder that hands out packets of
/// `packet_frames` frames: seeks where a seek is planned, to the packet that
/// holds the target, and feeds packets until told to stop.
fn read(
    samples: &[f32],
    channels: usize,
    packet_frames: usize,
    config: AudioReadConfig,
) -> Result<AudioData<f32>, AudioReadError> {
    let mut extraction = Extraction::new(spec_48k(), config)?;
    let total_frames = samples.len() / channels;
    let mut frame = match extraction.seek_target() {
        Some(ts) => (ts as usize).min(total_frames) / packet_frames * packet_frames,
        None => 0,
    };
    while frame < total_frames {
        let end = (frame + packet_frames).min(total_frames);
        let packet = &samples[frame * channels..end * channels];
        match extraction.on_packet(frame as u64, channels, packet)? {
            Action::Continue => frame = end,
            Action::Finish => break,
        }
    }
    Ok(extraction.finish())
}

#[test]
fn test_read_full_audio() {
    let samples = source(96000, 2);
    let data = read(&samples, 2, 1152, AudioReadConfig::default()).unwrap();
    assert_eq!(data.sample_rate, 48000);
    assert_eq!(data.num_channels, 2);
    assert_eq!(data.num_frames, 96000);
    assert_eq!(data.interleaved_samples, samples);
}

#[test]
fn test_read_audio_with_frame_range() {
    let samples = source(96000, 2);
    let config =
        AudioReadConfig { start: Start::Frame(1000), stop: Stop::Frame(5000), ..Default::default() };
    let data = read(&samples, 2, 1152, config).unwrap();
    assert_eq!(data.interleaved_samples.len(), 4000 * data.num_channels);
    assert_eq!(data.interleaved_samples[..], samples[2000..10000]);
}

#[test]
fn test_read_audio_with_time_range() {
    let samples = source(96000, 2);
    let config = AudioReadConfig {
        start: Start::Time(Duration::from_secs_f64(0.5)),
        stop: Stop::Time(Duration::from_secs_f64(1.5)),
        ..Default::default()
    };
    let data = read(&samples, 2, 1152, config).unwrap();
    let expected_frames = data.sample_rate as usize;
    assert_eq!(data.interleaved_samples.len(), expected_frames * data.num_channels);
    assert_eq!(data.interleaved_samples[..], samples[24000 * 2..72000 * 2]);
}

#[test]
fn test_read_left_channel_only() {
    let samples = source(96000, 2);
    let config = AudioReadConfig {
        start: Start::Frame(1000),
        stop: Stop::Frame(5000),
        first_channel: Some(0),
        last_channel: Some(1),
    };
    let data = read(&samples, 2, 1152, config).unwrap();
    assert_eq!(data.num_channels, 1);
    assert_eq!(data.interleaved_samples.len(), 4000);
    for k in 0..4000 {
        assert_eq!(data.interleaved_samples[k], samples[(1000 + k) * 2]);
    }
}

#[test]
fn test_read_right_channel_only() {
    let samples = source(9600, 2);
    let config =
        AudioReadConfig { first_channel: Some(1), last_channel: Some(2), ..Default::default() };
    let data = read(&samples, 2, 1000, config).unwrap();
    assert_eq!(data.num_channels, 1);
    assert_eq!(data.num_frames, 9600);
    for k in 0..9600 {
        assert_eq!(data.interleaved_samples[k], samples[k * 2 + 1]);
    }
}

#[test]
fn test_read_channel_range() {
    let config =
        AudioReadConfig { first_channel: Some(2), last_channel: Some(5), ..Default::default() };
    let samples = source(3000, 6);
    let data = read(&samples, 6, 512, config).unwrap();
    assert_eq!(data.num_channels, 3);
    assert_eq!(data.num_frames, 3000);
    for frame in 0..3000 {
        for offset in 0..3 {
            assert_eq!(data.interleaved_samples[frame * 3 + offset], samples[frame * 6 + 2 + offset]);
        }
    }
}

#[test]
fn test_combined_time_and_channel_selection() {
    let samples = source(4 * 48000, 2);
    let config = AudioReadConfig {
        start: Start::Time(Duration::from_secs(1)),
        stop: Stop::Time(Duration::from_secs(3)),
        first_channel: Some(0),
        last_channel: Some(1),
    };
    let data = read(&samples, 2, 1152, config).unwrap();
    assert_eq!(data.num_channels, 1);
    let expected_frames = data.sample_rate as usize * 2;
    assert_eq!(data.interleaved_samples.len(), expected_frames);
    for k in 0..expected_frames {
        assert_eq!(data.interleaved_samples[k], samples[(48000 + k) * 2]);
    }
}

#[test]
fn test_samples_selection() {
    let samples = source(48000, 1);
    let data1 = read(&samples, 1, 1152, AudioReadConfig::default()).unwrap();
    assert_eq!(data1.sample_rate, 48000);
    assert_eq!(data1.num_frames, 48000);
    assert_eq!(data1.num_channels, 1);

    let data2 = read(
        &samples,
        1,
        1152,
        AudioReadConfig { start: Start::Frame(1100), stop: Stop::Frame(1200), ..Default::default() },
    )
    .unwrap();
    assert_eq!(data2.sample_rate, 48000);
    assert_eq!(data2.num_frames, 100);
    assert_eq!(data2.num_channels, 1);
    assert_eq!(data1.interleaved_samples[1100..1200], data2.interleaved_samples[..]);
}

#[test]
fn test_time_selection() {
    let samples = source(48000, 1);
    let data1 = read(&samples, 1, 1152, AudioReadConfig::default()).unwrap();
    assert_eq!(data1.sample_rate, 48000);
    assert_eq!(data1.num_frames, 48000);
    assert_eq!(data1.num_channels, 1);

    let data2 = read(
        &samples,
        1,
        1152,
        AudioReadConfig {
            start: Start::Time(Duration::from_secs_f32(0.5)),
            stop: Stop::Time(Duration::from_secs_f32(0.6)),
            ..Default::default()
        },
    )
    .unwrap();
    assert_eq!(data2.sample_rate, 48000);
    assert_eq!(data2.num_frames, 4800);
    assert_eq!(data2.num_channels, 1);
    assert_eq!(data1.interleaved_samples[24000..28800], data2.interleaved_samples[..]);
}

#[test]
fn test_fail_selection() {
    let samples = source(48000, 1);
    match read(
        &samples,
        1,
        1152,
        AudioReadConfig { start: Start::Frame(100), stop: Stop::Frame(99), ..Default::default() },
    ) {
        Err(AudioReadError::EndFrameLargerThanStartFrame(_, _)) => (),
        _ => panic!(),
    }

    match read(
        &samples,
        1,
        1152,
        AudioReadConfig {
            start: Start::Time(Duration::from_secs_f32(0.6)),
            stop: Stop::Time(Duration::from_secs_f32(0.5)),
            ..Default::default()
        },
    ) {
        Err(AudioReadError::EndFrameLargerThanStartFrame(_, _)) => (),
        _ => panic!(),
    }

    match read(
        &samples,
        1,
        1152,
        AudioReadConfig { first_channel: Some(1), ..Default::default() },
    ) {
        Err(AudioReadError::InvalidStartChannel(_, _)) => (),
        _ => panic!(),
    }

    match read(&samples, 1, 1152, AudioReadConfig { last_channel: Some(2), ..Default::default() })
    {
        Err(AudioReadError::InvalidEndChannel(_, _)) => (),
        _ => panic!(),
    }
}

#[test]
fn mono_source_refuses_second_channel() {
    let samples = source(48000, 1);
    let failed =
        read(&samples, 1, 1152, AudioReadConfig { first_channel: Some(1), ..Default::default() });
    assert_eq!(failed.unwrap_err(), AudioReadError::InvalidStartChannel(1, 1));
}

#[test]
fn frame_count_does_not_depend_on_packet_size() {
    let samples = source(10000, 3);
    let config = AudioReadConfig {
        start: Start::Frame(1234),
        stop: Stop::Frame(7777),
        first_channel: Some(1),
        last_channel: None,
    };
    let whole = read(&samples, 3, 10000, config).unwrap();
    assert_eq!(whole.num_frames, 7777 - 1234);
    assert_eq!(whole.num_channels, 2);
    for packet_frames in [1usize, 7, 100, 1234, 4096, 7777] {
        let data = read(&samples, 3, packet_frames, config).unwrap();
        assert_eq!(data.num_frames, whole.num_frames);
        assert_eq!(data.interleaved_samples, whole.interleaved_samples);
    }
}

#[test]
fn seeking_does_not_change_the_result() {
    let samples = source(3 * 48000, 2);
    let config = AudioReadConfig {
        start: Start::Frame(100_000),
        stop: Stop::Frame(100_010),
        ..Default::default()
    };
    let extraction = Extraction::<f32>::new(spec_48k(), config).unwrap();
    assert_eq!(extraction.seek_target(), Some(90_000));
    let data = read(&samples, 2, 1152, config).unwrap();
    assert_eq!(data.num_frames, 10);
    assert_eq!(data.interleaved_samples[..], samples[200_000..200_020]);
}

#[test]
fn full_channel_range_is_no_filter() {
    let samples = source(5000, 4);
    let range = AudioReadConfig { start: Start::Frame(10), stop: Stop::Frame(4000), ..Default::default() };
    let plain = read(&samples, 4, 333, range).unwrap();
    let named = read(
        &samples,
        4,
        333,
        AudioReadConfig { first_channel: Some(0), last_channel: Some(4), ..range },
    )
    .unwrap();
    assert_eq!(plain.num_channels, 4);
    assert_eq!(named.num_channels, 4);
    assert_eq!(plain.interleaved_samples, named.interleaved_samples);
    assert_eq!(plain.interleaved_samples[..], samples[40..16000]);
}

#[test]
fn start_beyond_the_stream_gives_nothing() {
    let samples = source(1000, 2);
    let data = read(
        &samples,
        2,
        128,
        AudioReadConfig { start: Start::Frame(5000), ..Default::default() },
    )
    .unwrap();
    assert_eq!(data.num_frames, 0);
    assert_eq!(data.num_channels, 2);
    assert!(data.interleaved_samples.is_empty());
}

#[test]
fn end_beyond_the_stream_gives_what_is_there() {
    let samples = source(1000, 2);
    let data = read(
        &samples,
        2,
        128,
        AudioReadConfig { start: Start::Frame(900), stop: Stop::Frame(5000), ..Default::default() },
    )
    .unwrap();
    assert_eq!(data.num_frames, 100);
    assert_eq!(data.interleaved_samples[..], samples[1800..]);
}

#[test]
fn empty_range_is_accepted() {
    let samples = source(1000, 1);
    let data = read(
        &samples,
        1,
        128,
        AudioReadConfig { start: Start::Frame(100), stop: Stop::Frame(100), ..Default::default() },
    )
    .unwrap();
    assert_eq!(data.num_frames, 0);
    assert_eq!(data.num_channels, 1);
}

#[test]
fn stream_without_packets_gives_empty_result() {
    let extraction = Extraction::<f32>::new(spec_48k(), AudioReadConfig::default()).unwrap();
    let data = extraction.finish();
    assert_eq!(data.sample_rate, 48000);
    assert_eq!(data.num_channels, 0);
    assert_eq!(data.num_frames, 0);
    assert!(data.interleaved_samples.is_empty());
}

#[test]
fn end_of_range_stops_the_decoding() {
    let config = AudioReadConfig { stop: Stop::Frame(5), ..Default::default() };
    let mut extraction = Extraction::<f32>::new(spec_48k(), config).unwrap();
    assert_eq!(extraction.track_id(), 0);
    let packet = [0.0f32, 1.0, 2.0, 3.0];
    assert_eq!(extraction.on_packet(0, 1, &packet), Ok(Action::Continue));
    assert_eq!(extraction.on_packet(4, 1, &[4.0]), Ok(Action::Continue));
    assert_eq!(extraction.on_packet(5, 1, &[5.0, 6.0]), Ok(Action::Finish));
    assert_eq!(extraction.on_packet(7, 1, &[7.0]), Ok(Action::Finish));
    let data = extraction.finish();
    assert_eq!(data.interleaved_samples, vec![0.0, 1.0, 2.0, 3.0, 4.0]);
}

#[test]
fn position_is_counted_not_read_from_each_packet() {
    let config =
        AudioReadConfig { start: Start::Frame(2), stop: Stop::Frame(6), ..Default::default() };
    let mut extraction = Extraction::<f32>::new(spec_48k(), config).unwrap();
    // The second packet's timestamp is off; its frames stand at 4..8 all the same.
    extraction.on_packet(0, 1, &[0.0, 1.0, 2.0, 3.0]).unwrap();
    extraction.on_packet(1000, 1, &[4.0, 5.0, 6.0, 7.0]).unwrap();
    assert_eq!(extraction.finish().interleaved_samples, vec![2.0, 3.0, 4.0, 5.0]);
}

#[test]
fn reset_takes_the_position_from_the_next_packet() {
    let config =
        AudioReadConfig { start: Start::Frame(2), stop: Stop::Frame(12), ..Default::default() };
    let mut extraction = Extraction::<f32>::new(spec_48k(), config).unwrap();
    extraction.on_packet(0, 1, &[0.0, 1.0, 2.0, 3.0]).unwrap();
    extraction.on_reset();
    assert_eq!(extraction.on_packet(10, 1, &[10.0, 11.0, 12.0, 13.0]), Ok(Action::Finish));
    assert_eq!(extraction.finish().interleaved_samples, vec![2.0, 3.0, 10.0, 11.0]);
}

#[test]
fn timestamps_are_scaled_by_the_time_base() {
    let stream = StreamSpec { track_id: 3, sample_rate: 48000, time_base_denom: Some(1000) };
    let config =
        AudioReadConfig { start: Start::Frame(48001), stop: Stop::Frame(48003), ..Default::default() };
    let mut extraction = Extraction::<f32>::new(stream, config).unwrap();
    assert_eq!(extraction.track_id(), 3);
    // 48001 * 9 / 10 = 43200 frames, which is 900 ticks of a millisecond.
    assert_eq!(extraction.seek_target(), Some(900));
    // One second in: frame 48000.
    assert_eq!(extraction.on_packet(1000, 1, &[0.5, 1.5, 2.5, 3.5]), Ok(Action::Finish));
    assert_eq!(extraction.finish().interleaved_samples, vec![1.5, 2.5]);
}

#[test]
fn without_time_base_the_first_packet_is_frame_zero() {
    let stream = StreamSpec { track_id: 0, sample_rate: 8000, time_base_denom: None };
    let config = AudioReadConfig { start: Start::Frame(9000), ..Default::default() };
    let mut extraction = Extraction::<f32>::new(stream, config).unwrap();
    assert_eq!(extraction.seek_target(), None);
    extraction.on_packet(77, 2, &[0.0, 0.5, 1.0, 1.5]).unwrap();
    let data = extraction.finish();
    assert_eq!(data.num_channels, 2);
    assert_eq!(data.num_frames, 0);
}

#[test]
fn samples_after_the_last_whole_frame_are_left_out() {
    let mut extraction = Extraction::<f32>::new(spec_48k(), AudioReadConfig::default()).unwrap();
    extraction.on_packet(0, 2, &[0.0, 0.5, 1.0, 1.5, 2.0]).unwrap();
    let data = extraction.finish();
    assert_eq!(data.num_frames, 2);
    assert_eq!(data.interleaved_samples, vec![0.0, 0.5, 1.0, 1.5]);
}

#[test]
fn channel_fault_leaves_the_extraction_as_it_was() {
    let config = AudioReadConfig { first_channel: Some(2), ..Default::default() };
    let mut extraction = Extraction::<f32>::new(spec_48k(), config).unwrap();
    assert_eq!(
        extraction.on_packet(0, 2, &[0.0, 0.5]),
        Err(AudioReadError::InvalidStartChannel(2, 2))
    );
    assert_eq!(extraction.on_packet(0, 3, &[0.0, 0.5, 1.0]), Ok(Action::Continue));
    assert_eq!(extraction.finish().interleaved_samples, vec![1.0]);
}

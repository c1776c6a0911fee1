use utterance_stream::device::{
    fixed_buffer_size, get_microphone_by_name, get_resampler, negotiate_sample_rate,
    plan_normalization, AudioError, Normalization,
    BufferSize, DeviceProbe, Resampler, StreamConfig, SupportedBufferSize,
    SupportedStreamConfigRange,
};

fn range(channels: u16, min: u32, max: u32, buffer_size: SupportedBufferSize) -> DeviceProbe {
    DeviceProbe::Supported(SupportedStreamConfigRange {
        channels,
        min_sample_rate: min,
        max_sample_rate: max,
        buffer_size,
    })
}

fn text(found: Result<StreamConfig, AudioError>) -> String {
    match found {
        Err(AudioError::InputDeviceUnavailable(text)) => text,
        Ok(config) => panic!("a configuration was found: {:?}", config),
    }
}

#[test]
fn a_missing_device_is_unavailable() {
    assert_eq!(text(get_microphone_by_name("mic", DeviceProbe::Missing)), "mic");
}

#[test]
fn a_device_that_cannot_say_what_it_supports_is_unavailable() {
    let probe = DeviceProbe::Unavailable("device busy".to_string());
    assert_eq!(text(get_microphone_by_name("mic", probe)), "mic: 'device busy'");
}

#[test]
fn a_device_without_configurations_is_unavailable() {
    assert_eq!(
        text(get_microphone_by_name("mic", DeviceProbe::Unconfigured)),
        "mic: 'does not have any valid input configurations'"
    );
}

#[test]
fn a_device_with_three_channels_is_unavailable() {
    let probe = range(3, 8000, 48000, SupportedBufferSize::Unknown);
    assert_eq!(
        text(get_microphone_by_name("mic", probe)),
        "mic has more then two channels. Only Mono and Stereo audio is supported"
    );
}

#[test]
fn the_target_rate_is_taken_where_it_is_supported() {
    let probe = range(1, 8000, 48000, SupportedBufferSize::Unknown);
    let config = get_microphone_by_name("mic", probe).unwrap();
    assert_eq!(
        config,
        StreamConfig { channels: 1, sample_rate: 16000, buffer_size: BufferSize::Fixed(544) }
    );
}

#[test]
fn the_lowest_rate_is_taken_where_it_is_above_the_target() {
    let probe = range(2, 44100, 96000, SupportedBufferSize::Unknown);
    let config = get_microphone_by_name("mic", probe).unwrap();
    assert_eq!(
        config,
        StreamConfig { channels: 2, sample_rate: 44100, buffer_size: BufferSize::Fixed(1472) }
    );
}

#[test]
fn the_highest_rate_is_taken_where_it_is_below_the_target() {
    let probe = range(1, 8000, 11025, SupportedBufferSize::Unknown);
    let config = get_microphone_by_name("mic", probe).unwrap();
    assert_eq!(
        config,
        StreamConfig { channels: 1, sample_rate: 11025, buffer_size: BufferSize::Fixed(384) }
    );
}

#[test]
fn rates_at_the_edges_of_the_range() {
    let at = |min, max| {
        negotiate_sample_rate(&SupportedStreamConfigRange {
            channels: 1,
            min_sample_rate: min,
            max_sample_rate: max,
            buffer_size: SupportedBufferSize::Unknown,
        })
    };
    assert_eq!(at(16000, 16000), 16000);
    assert_eq!(at(16000, 48000), 16000);
    assert_eq!(at(8000, 16000), 16000);
    assert_eq!(at(16001, 48000), 16001);
    assert_eq!(at(8000, 15999), 15999);
}

#[test]
fn buffer_sizes_are_multiples_of_the_quantum() {
    assert_eq!(fixed_buffer_size(16000, &SupportedBufferSize::Unknown), 544);
    assert_eq!(fixed_buffer_size(48000, &SupportedBufferSize::Unknown), 1600);
    assert_eq!(fixed_buffer_size(44100, &SupportedBufferSize::Unknown), 1472);
    assert_eq!(fixed_buffer_size(960, &SupportedBufferSize::Unknown), 32);
    assert_eq!(fixed_buffer_size(989, &SupportedBufferSize::Unknown), 32);
    assert_eq!(fixed_buffer_size(990, &SupportedBufferSize::Unknown), 64);
}

#[test]
fn buffer_sizes_are_not_below_the_smallest() {
    assert_eq!(fixed_buffer_size(0, &SupportedBufferSize::Unknown), 32);
    assert_eq!(fixed_buffer_size(29, &SupportedBufferSize::Unknown), 32);
}

#[test]
fn buffer_sizes_are_moved_into_the_supported_range() {
    let within = SupportedBufferSize::Range { min: 32, max: 4096 };
    assert_eq!(fixed_buffer_size(16000, &within), 544);
    let above = SupportedBufferSize::Range { min: 1024, max: 4096 };
    assert_eq!(fixed_buffer_size(16000, &above), 1024);
    let below = SupportedBufferSize::Range { min: 32, max: 256 };
    assert_eq!(fixed_buffer_size(16000, &below), 256);
    let crossed = SupportedBufferSize::Range { min: 600, max: 500 };
    assert_eq!(fixed_buffer_size(16000, &crossed), 500);
}

#[test]
fn the_largest_rate_has_a_buffer_size() {
    assert_eq!(fixed_buffer_size(u32::MAX, &SupportedBufferSize::Unknown), 143165600);
}

#[test]
fn a_range_of_buffer_sizes_enters_the_configuration() {
    let probe = range(1, 8000, 48000, SupportedBufferSize::Range { min: 1024, max: 2048 });
    let config = get_microphone_by_name("mic", probe).unwrap();
    assert_eq!(config.buffer_size, BufferSize::Fixed(1024));
}

#[test]
fn no_resampler_at_the_target_rate() {
    assert_eq!(get_resampler(16000), None);
}

#[test]
fn a_resampler_from_another_rate() {
    assert_eq!(
        get_resampler(44100),
        Some(Resampler { from_rate: 44100, to_rate: 16000, channels: 1 })
    );
}

#[test]
fn one_channel_at_the_target_rate_passes_through() {
    assert_eq!(plan_normalization(1, 16000), Some(Normalization { downmix: false, resampler: None }));
}

#[test]
fn two_channels_are_averaged() {
    assert_eq!(plan_normalization(2, 16000), Some(Normalization { downmix: true, resampler: None }));
}

#[test]
fn another_rate_is_resampled() {
    let resampler = Resampler { from_rate: 48000, to_rate: 16000, channels: 1 };
    assert_eq!(
        plan_normalization(1, 48000),
        Some(Normalization { downmix: false, resampler: Some(resampler) })
    );
    assert_eq!(
        plan_normalization(2, 48000),
        Some(Normalization { downmix: true, resampler: Some(resampler) })
    );
}

#[test]
fn other_channel_counts_cannot_be_normalized() {
    assert_eq!(plan_normalization(0, 16000), None);
    assert_eq!(plan_normalization(3, 16000), None);
    assert_eq!(plan_normalization(6, 48000), None);
}

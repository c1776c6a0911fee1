use crate::whisper::SAMPLE_RATE;
use vstd::prelude::*;
use vstd::string::StringExecFns;

verus! {

/// Buffer sizes are multiples of this many frames: it suits a wide range
/// of the sizes that sound hardware lets one select.
pub const ALSA_BUFFER_QUANTUM: u32 = 32;

/// The smallest buffer size asked for.
pub const ALSA_BUFFER_MIN: u32 = 32;

/// The buffer size of a stream.
#[derive(Clone, Copy, Debug, PartialEq, Eq, Structural)]
pub enum BufferSize {
    /// Whatever the host chooses.
    Default,
    /// That many frames.
    Fixed(u32),
}

/// The buffer sizes that a device supports.
#[derive(Clone, Copy, Debug, PartialEq, Eq, Structural)]
pub enum SupportedBufferSize {
    Range { min: u32, max: u32 },
    /// The device does not say.
    Unknown,
}

/// The configuration with which a stream is opened.
#[derive(Clone, Copy, Debug, PartialEq, Eq, Structural)]
pub struct StreamConfig {
    pub channels: u16,
    pub sample_rate: u32,
    pub buffer_size: BufferSize,
}

/// A range of configurations that a device supports.
#[derive(Clone, Copy, Debug, PartialEq, Eq, Structural)]
pub struct SupportedStreamConfigRange {
    pub channels: u16,
    pub min_sample_rate: u32,
    pub max_sample_rate: u32,
    pub buffer_size: SupportedBufferSize,
}

/// What the search for an input device by its name came to.
#[derive(Debug)]
pub enum DeviceProbe {
    /// No input device has the name.
    Missing,
    /// The device could not say what it supports; the text is its error.
    Unavailable(String),
    /// The device supports no input configuration.
    Unconfigured,
    /// The first range of configurations that the device supports.
    Supported(SupportedStreamConfigRange),
}

#[derive(Debug)]
pub enum AudioError {
    InputDeviceUnavailable(String),
}

/// The sample rate to open a device at: the target rate where the device
/// supports it, else the lowest rate of the device if that is above the
/// target, else its highest rate.
pub open spec fn negotiated_rate(range: SupportedStreamConfigRange) -> u32 {
    if range.min_sample_rate <= SAMPLE_RATE <= range.max_sample_rate {
        SAMPLE_RATE as u32
    } else if range.min_sample_rate > SAMPLE_RATE {
        range.min_sample_rate
    } else {
        range.max_sample_rate
    }
}

/// The least multiple of the quantum that is not below `frames`.
pub open spec fn quantized(frames: int) -> int {
    if frames % (ALSA_BUFFER_QUANTUM as int) == 0 {
        frames
    } else {
        frames + ALSA_BUFFER_QUANTUM - frames % (ALSA_BUFFER_QUANTUM as int)
    }
}

/// The buffer size to ask for at a sample rate: a thirtieth of a second,
/// rounded up to the quantum and not below the smallest size, then moved
/// into the range that the device supports, if it names one.
pub open spec fn fixed_buffer_frames(sample_rate: u32, supported: SupportedBufferSize) -> int {
    let wanted = if quantized(sample_rate as int / 30) < ALSA_BUFFER_MIN {
        ALSA_BUFFER_MIN as int
    } else {
        quantized(sample_rate as int / 30)
    };
    match supported {
        SupportedBufferSize::Unknown => wanted,
        SupportedBufferSize::Range { min, max } => {
            let raised = if wanted < min {
                min as int
            } else {
                wanted
            };
            if raised > max {
                max as int
            } else {
                raised
            }
        },
    }
}

/// The configuration that `get_microphone_by_name` settles on for a range
/// of at most two channels.
pub open spec fn negotiated_config(range: SupportedStreamConfigRange) -> StreamConfig {
    StreamConfig {
        channels: range.channels,
        sample_rate: negotiated_rate(range),
        buffer_size: BufferSize::Fixed(
            fixed_buffer_frames(negotiated_rate(range), range.buffer_size) as u32,
        ),
    }
}

/// The text of the error for a device, by what the search came to.
pub open spec fn unavailable_text(name: Seq<char>, probe: DeviceProbe) -> Seq<char> {
    match probe {
        DeviceProbe::Missing => name,
        DeviceProbe::Unavailable(error) => name + ": '"@ + error@ + "'"@,
        DeviceProbe::Unconfigured => name
            + ": 'does not have any valid input configurations'"@,
        DeviceProbe::Supported(_) => name
            + " has more then two channels. Only Mono and Stereo audio is supported"@,
    }
}

/// The quantum is what the rounding says it is: the result is a multiple
/// of it, is not below `frames`, and is the least such number.
pub proof fn lemma_quantized_is_least(frames: int)
    requires
        frames >= 0,
    ensures
        quantized(frames) % (ALSA_BUFFER_QUANTUM as int) == 0,
        frames <= quantized(frames) < frames + ALSA_BUFFER_QUANTUM,
{
}

pub fn negotiate_sample_rate(range: &SupportedStreamConfigRange) -> (rate: u32)
    ensures
        rate == negotiated_rate(*range),
        range.min_sample_rate <= range.max_sample_rate ==> range.min_sample_rate <= rate
            <= range.max_sample_rate,
{
    let target: u32 = SAMPLE_RATE as u32;
    if range.min_sample_rate <= target && target <= range.max_sample_rate {
        target
    } else if range.min_sample_rate > target {
        range.min_sample_rate
    } else {
        range.max_sample_rate
    }
}

pub fn fixed_buffer_size(sample_rate: u32, supported: &SupportedBufferSize) -> (frames: u32)
    ensures
        frames == fixed_buffer_frames(sample_rate, *supported),
        *supported is Unknown ==> frames % ALSA_BUFFER_QUANTUM == 0 && frames >= ALSA_BUFFER_MIN
            && sample_rate / 30 <= frames < sample_rate / 30 + ALSA_BUFFER_QUANTUM
            + ALSA_BUFFER_MIN,
        *supported matches SupportedBufferSize::Range { min, max } ==> frames <= max && (min
            <= max ==> min <= frames),
{
    let period: u32 = sample_rate / 30;
    let over: u32 = period % ALSA_BUFFER_QUANTUM;
    let rounded: u32 = if over == 0 {
        period
    } else {
        period + (ALSA_BUFFER_QUANTUM - over)
    };
    let wanted: u32 = if rounded < ALSA_BUFFER_MIN {
        ALSA_BUFFER_MIN
    } else {
        rounded
    };
    match supported {
        SupportedBufferSize::Unknown => wanted,
        SupportedBufferSize::Range { min, max } => {
            let raised: u32 = if wanted < *min {
                *min
            } else {
                wanted
            };
            if raised > *max {
                *max
            } else {
                raised
            }
        },
    }
}

/// Settles the configuration of the input device `name` from what the
/// search for it came to. A device is unavailable where it is missing,
/// cannot say what it supports, supports nothing, or has more than two
/// channels; else the stream has the channels of the device, the
/// negotiated rate and a fixed buffer size.
pub fn get_microphone_by_name(name: &str, probe: DeviceProbe) -> (found: Result<
    StreamConfig,
    AudioError,
>)
    ensures
        found is Ok <==> (probe matches DeviceProbe::Supported(range) && range.channels <= 2),
        found matches Ok(config) ==> probe matches DeviceProbe::Supported(range) && config
            == negotiated_config(range),
        found matches Err(AudioError::InputDeviceUnavailable(text)) ==> text@ == unavailable_text(
            name@,
            probe,
        ),
{
    let mut text = String::from_str(name);
    match probe {
        DeviceProbe::Missing => Err(AudioError::InputDeviceUnavailable(text)),
        DeviceProbe::Unavailable(error) => {
            text.append(": '");
            text.append(error.as_str());
            text.append("'");
            Err(AudioError::InputDeviceUnavailable(text))
        },
        DeviceProbe::Unconfigured => {
            text.append(": 'does not have any valid input configurations'");
            Err(AudioError::InputDeviceUnavailable(text))
        },
        DeviceProbe::Supported(range) => {
            if range.channels > 2 {
                text.append(" has more then two channels. Only Mono and Stereo audio is supported");
                return Err(AudioError::InputDeviceUnavailable(text));
            }
            let sample_rate = negotiate_sample_rate(&range);
            let frames = fixed_buffer_size(sample_rate, &range.buffer_size);
            Ok(
                StreamConfig {
                    channels: range.channels,
                    sample_rate,
                    buffer_size: BufferSize::Fixed(frames),
                },
            )
        },
    }
}

/// The resampler that a source rate calls for.
#[derive(Clone, Copy, Debug, PartialEq, Eq, Structural)]
pub struct Resampler {
    pub from_rate: u32,
    pub to_rate: u32,
    pub channels: usize,
}

/// A resampler to the target rate, for one channel, where the source has
/// another rate; none where it has the target rate.
pub fn get_resampler(src_rate: u32) -> (resampler: Option<Resampler>)
    ensures
        resampler == if src_rate == SAMPLE_RATE {
            None
        } else {
            Some(Resampler { from_rate: src_rate, to_rate: SAMPLE_RATE as u32, channels: 1 })
        },
{
    if src_rate != SAMPLE_RATE as u32 {
        Some(Resampler { from_rate: src_rate, to_rate: SAMPLE_RATE as u32, channels: 1 })
    } else {
        None
    }
}

/// What is done to a chunk of samples before it is cut into frames.
#[derive(Clone, Copy, Debug, PartialEq, Eq, Structural)]
pub struct Normalization {
    /// The two channels of each frame are averaged into one.
    pub downmix: bool,
    /// The chunk is resampled to the target rate.
    pub resampler: Option<Resampler>,
}

impl Normalization {
    /// Nothing is done to the samples of a chunk.
    pub open spec fn passes_through(self) -> bool {
        !self.downmix && self.resampler is None
    }
}

/// What is done to the chunks of a stream of that many channels at that
/// rate: one channel is kept and two are averaged, and samples at another
/// rate than the target are resampled. So the samples of one channel at
/// the target rate pass through as they are. There is no way to
/// normalize more than two channels, or none.
pub fn plan_normalization(channels: u16, src_rate: u32) -> (plan: Option<Normalization>)
    ensures
        plan.is_some() == (channels == 1 || channels == 2),
        plan matches Some(steps) ==> steps.downmix == (channels == 2) && steps.resampler == (
        if src_rate == SAMPLE_RATE {
            None
        } else {
            Some(Resampler { from_rate: src_rate, to_rate: SAMPLE_RATE as u32, channels: 1 })
        }) && (steps.passes_through() <==> channels == 1 && src_rate == SAMPLE_RATE),
{
    if channels == 1 || channels == 2 {
        Some(Normalization { downmix: channels == 2, resampler: get_resampler(src_rate) })
    } else {
        None
    }
}

} // verus!

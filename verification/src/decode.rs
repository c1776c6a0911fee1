use vstd::prelude::*;
use vstd::string::{StrSliceExecFns, StringExecFns};

verus! {

/// The two bytes of a number below 65536, the low one first.
pub open spec fn le16(value: int) -> Seq<u8> {
    seq![(value % 256) as u8, (value / 256 % 256) as u8]
}

/// The four bytes of a number below 4294967296, the lowest first.
pub open spec fn le32(value: int) -> Seq<u8> {
    seq![
        (value % 256) as u8,
        (value / 256 % 256) as u8,
        (value / 65536 % 256) as u8,
        (value / 16777216 % 256) as u8,
    ]
}

/// The two bytes of a sample: its two's complement, the low byte first.
pub open spec fn sample_bytes(sample: i16) -> Seq<u8> {
    le16(
        if sample >= 0 {
            sample as int
        } else {
            sample + 65536
        },
    )
}

/// The bytes of the samples, one sample after the other.
pub open spec fn pcm_bytes(samples: Seq<i16>) -> Seq<u8>
    decreases samples.len(),
{
    if samples.len() == 0 {
        Seq::empty()
    } else {
        pcm_bytes(samples.drop_last()) + sample_bytes(samples.last())
    }
}

/// The 44 bytes that stand before the samples of a WAV stream of one
/// channel of signed 16-bit PCM: the RIFF chunk, the format chunk and the
/// head of the data chunk.
pub open spec fn wav_header(sample_rate: u32, data_bytes: int) -> Seq<u8> {
    seq![0x52u8, 0x49, 0x46, 0x46] + le32(36 + data_bytes) + seq![0x57u8, 0x41, 0x56, 0x45]
        + seq![0x66u8, 0x6d, 0x74, 0x20] + le32(16) + le16(1) + le16(1) + le32(
        sample_rate as int,
    ) + le32(2 * sample_rate) + le16(2) + le16(16) + seq![0x64u8, 0x61, 0x74, 0x61] + le32(
        data_bytes,
    )
}

/// The WAV stream of the samples: mono, signed 16-bit PCM.
pub open spec fn wav_stream(sample_rate: u32, samples: Seq<i16>) -> Seq<u8> {
    wav_header(sample_rate, 2 * (samples.len() as int)) + pcm_bytes(samples)
}

/// The sizes of the stream fit the four bytes that the format has for
/// them.
pub open spec fn encodable(sample_rate: u32, samples: nat) -> bool {
    2 * sample_rate <= u32::MAX && 2 * samples + 36 <= u32::MAX
}

/// `wav_io::new_header` for one channel of 16-bit integers,
/// `Writer::from_scratch_i16` and `Writer::to_bytes`: the WAV stream of
/// the samples. The writer computes the sizes in 32 bits and panics where
/// they do not fit, which is left out; for this format it reports no
/// error.
#[verifier::external_body]
fn write_wav(sample_rate: u32, samples: &Vec<i16>) -> (stream: Option<Vec<u8>>)
    requires
        encodable(sample_rate, samples@.len()),
    ensures
        stream is Some,
        stream->0@ == wav_stream(sample_rate, samples@),
{
    let header = wav_io::new_header(sample_rate, 16, false, true);
    let mut writer = wav_io::writer::Writer::new();
    writer.from_scratch_i16(&header, samples).ok()?;
    Some(writer.to_bytes())
}

/// The utterance as the WAV stream that an outside transcriber reads:
/// mono, signed 16-bit PCM at the given rate. There is none where the
/// sizes do not fit the format.
pub fn encode_utterance(sample_rate: u32, samples: &Vec<i16>) -> (stream: Option<Vec<u8>>)
    ensures
        stream.is_some() == encodable(sample_rate, samples@.len()),
        stream matches Some(bytes) ==> bytes@ == wav_stream(sample_rate, samples@),
{
    if sample_rate > u32::MAX / 2 {
        return None;
    }
    if samples.len() > ((u32::MAX - 36) / 2) as usize {
        return None;
    }
    write_wav(sample_rate, samples)
}

/// A WAV stream is its 44 bytes of header and two bytes for each sample.
pub proof fn lemma_wav_stream_len(sample_rate: u32, samples: Seq<i16>)
    ensures
        wav_stream(sample_rate, samples).len() == 44 + 2 * samples.len(),
{
    lemma_pcm_len(samples);
}

pub proof fn lemma_pcm_len(samples: Seq<i16>)
    ensures
        pcm_bytes(samples).len() == 2 * samples.len(),
    decreases samples.len(),
{
    if samples.len() > 0 {
        lemma_pcm_len(samples.drop_last());
    }
}

/// What is wrong with a run of the outside transcriber.
#[derive(Clone, Copy, Debug, PartialEq, Eq, Structural)]
pub enum TranscriptError {
    /// The run did not end in success.
    RunFailed,
    /// The output does not start with a line feed.
    MissingNewline,
    /// What follows the line feed does not start with a blank.
    MissingSpace,
}

/// The transcript in the output of the outside transcriber. The output
/// starts with a line feed; where nothing follows, nothing was heard;
/// else a blank follows, and the transcript is what stands behind it.
pub open spec fn transcript_in(output: Seq<char>) -> Result<Option<Seq<char>>, TranscriptError> {
    if output.len() == 0 || output[0] != '\n' {
        Err(TranscriptError::MissingNewline)
    } else if output.len() == 1 {
        Ok(None)
    } else if output[1] != ' ' {
        Err(TranscriptError::MissingSpace)
    } else {
        Ok(Some(output.skip(2)))
    }
}

/// Reads the transcript out of the output of the outside transcriber.
pub fn parse_transcript(output: &str) -> (transcript: Result<Option<String>, TranscriptError>)
    ensures
        match transcript_in(output@) {
            Err(error) => transcript == Err::<Option<String>, TranscriptError>(error),
            Ok(None) => transcript == Ok::<Option<String>, TranscriptError>(None),
            Ok(Some(text)) => transcript matches Ok(Some(heard)) && heard@ == text,
        },
{
    let len = output.unicode_len();
    if len == 0 || output.get_char(0) != '\n' {
        return Err(TranscriptError::MissingNewline);
    }
    if len == 1 {
        return Ok(None);
    }
    if output.get_char(1) != ' ' {
        return Err(TranscriptError::MissingSpace);
    }
    let text = String::from_str(output.substring_char(2, len));
    assert(output@.subrange(2, len as int) =~= output@.skip(2));
    Ok(Some(text))
}

/// The transcript of a run of the outside transcriber: a run that did not
/// end in success has none, whatever it put out; else it is the
/// transcript in the output.
pub open spec fn transcript_of_run(succeeded: bool, output: Seq<char>) -> Result<
    Option<Seq<char>>,
    TranscriptError,
> {
    if succeeded {
        transcript_in(output)
    } else {
        Err(TranscriptError::RunFailed)
    }
}

/// Reads the transcript of a run of the outside transcriber from how the
/// run ended and what it put out: a failed run is an error and is not
/// taken for silence.
pub fn read_run(succeeded: bool, output: &str) -> (transcript: Result<
    Option<String>,
    TranscriptError,
>)
    ensures
        match transcript_of_run(succeeded, output@) {
            Err(error) => transcript == Err::<Option<String>, TranscriptError>(error),
            Ok(None) => transcript == Ok::<Option<String>, TranscriptError>(None),
            Ok(Some(text)) => transcript matches Ok(Some(heard)) && heard@ == text,
        },
{
    if !succeeded {
        return Err(TranscriptError::RunFailed);
    }
    parse_transcript(output)
}

} // verus!

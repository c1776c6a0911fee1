use crate::utterance::{silence, silent};
use vstd::prelude::*;
use vstd::string::StrSliceExecFns;

verus! {

/// Sample rate, in hertz, of the audio handed to the transcription engine.
pub const SAMPLE_RATE: usize = 16000;

/// Silence, in samples, that precedes the audio of every utterance handed
/// to the engine, so that its first word is picked up (700 ms).
pub const WHISPER_PREPEND_SILENCE: usize = 11200;

/// Most audio, in samples, that one utterance holds after its leading
/// silence: thirty seconds in all.
pub const MAX_WHISPER_FRAME: usize = 468800;

pub struct WhisperOptions {
    /// Whether the engine translates all speech to English.
    pub translate_en: bool,
    /// The language to transcribe; "auto" has the engine detect it.
    pub language: String,
}

#[derive(Clone, Copy, Debug, PartialEq, Eq, Structural)]
pub enum WhisperSetupError {
    ModelFileNotFound,
    ModelInvalid,
}

/// How far the loading of the model came.
#[derive(Clone, Copy, Debug, PartialEq, Eq, Structural)]
pub enum ModelLoad {
    /// The path of the model is not text that the engine can be given.
    PathUnreadable,
    /// The engine refused the file.
    ContextRefused,
    /// The engine could not make a state for the model.
    StateRefused,
    /// The model is loaded.
    Ready,
}

/// The text is what the engine makes up for audio without speech: " you",
/// whatever the case of its letters.
pub open spec fn is_hallucination(text: Seq<char>) -> bool {
    &&& text.len() == 4
    &&& text[0] == ' '
    &&& (text[1] == 'y' || text[1] == 'Y')
    &&& (text[2] == 'o' || text[2] == 'O')
    &&& (text[3] == 'u' || text[3] == 'U')
}

/// The transcript for what the engine reported, for audio that was worth
/// transcribing: the text of the first segment, if there is one and it can
/// be read and is not made up.
pub open spec fn transcript_of(segments: i32, first: Option<String>) -> Option<Seq<char>> {
    if segments == 0 {
        None
    } else {
        match first {
            None => None,
            Some(text) => if is_hallucination(text@) {
                None
            } else {
                Some(text@)
            },
        }
    }
}

/// The consumer's side of the transcription: the options, and the audio
/// of the utterance that is transcribed next.
pub struct Whisper {
    translate_en: bool,
    language: String,
    buf: Vec<i16>,
    samples_in_buf: usize,
}

impl Whisper {
    /// The registered audio.
    pub closed spec fn audio(&self) -> Seq<i16> {
        self.buf@.take(self.samples_in_buf as int)
    }

    /// What the buffer holds behind the registered audio.
    pub closed spec fn spare(&self) -> Seq<i16> {
        self.buf@.skip(self.samples_in_buf as int)
    }

    pub closed spec fn language(&self) -> Seq<char> {
        self.language@
    }

    pub closed spec fn translate_en(&self) -> bool {
        self.translate_en
    }

    pub closed spec fn wf(&self) -> bool {
        &&& self.buf@.len() == WHISPER_PREPEND_SILENCE + MAX_WHISPER_FRAME
        &&& self.samples_in_buf <= self.buf@.len()
    }

    /// The audio is too short to be worth transcribing: under a second.
    pub open spec fn too_short(&self) -> bool {
        self.audio().len() < SAMPLE_RATE
    }

    /// The consumer's side for a model that was loaded with these options,
    /// with no audio registered and a buffer of silence; the error where
    /// the model was not loaded.
    pub fn with_options(load: ModelLoad, opt: WhisperOptions) -> (made: Result<
        Whisper,
        WhisperSetupError,
    >)
        ensures
            match load {
                ModelLoad::PathUnreadable => made == Err::<Whisper, WhisperSetupError>(
                    WhisperSetupError::ModelFileNotFound,
                ),
                ModelLoad::ContextRefused | ModelLoad::StateRefused => made == Err::<
                    Whisper,
                    WhisperSetupError,
                >(WhisperSetupError::ModelInvalid),
                ModelLoad::Ready => made matches Ok(whisper) && whisper.wf()
                    && whisper.audio().len() == 0 && whisper.spare() == silence(
                    (WHISPER_PREPEND_SILENCE + MAX_WHISPER_FRAME) as nat,
                ) && whisper.language() == opt.language@ && whisper.translate_en()
                    == opt.translate_en,
            },
    {
        match load {
            ModelLoad::PathUnreadable => Err(WhisperSetupError::ModelFileNotFound),
            ModelLoad::ContextRefused | ModelLoad::StateRefused => Err(
                WhisperSetupError::ModelInvalid,
            ),
            ModelLoad::Ready => Ok(
                Whisper {
                    translate_en: opt.translate_en,
                    language: opt.language,
                    buf: silent(WHISPER_PREPEND_SILENCE + MAX_WHISPER_FRAME),
                    samples_in_buf: 0,
                },
            ),
        }
    }

    pub fn language_name(&self) -> (language: &str)
        ensures
            language@ == self.language(),
    {
        self.language.as_str()
    }

    pub fn translates(&self) -> (translate_en: bool)
        ensures
            translate_en == self.translate_en(),
    {
        self.translate_en
    }

    /// Registers audio of `sample_count` samples and gives the place to
    /// write it to: what stands there when the place is given back is the
    /// registered audio.
    pub fn audio_buf(&mut self, sample_count: usize) -> (slot: &mut [i16])
        requires
            old(self).wf(),
            sample_count <= WHISPER_PREPEND_SILENCE + MAX_WHISPER_FRAME,
        ensures
            slot@.len() == sample_count,
            final(self).language() == old(self).language(),
            final(self).translate_en() == old(self).translate_en(),
            final(slot)@.len() == sample_count ==> final(self).wf() && final(self).audio()
                == final(slot)@,
    {
        self.samples_in_buf = sample_count;
        let (slot, _rest) = self.buf.as_mut_slice().split_at_mut(sample_count);
        slot
    }

    /// The registered audio, as the engine is given it.
    pub fn samples(&self) -> (audio: &[i16])
        requires
            self.wf(),
        ensures
            audio@ == self.audio(),
    {
        let (audio, _rest) = self.buf.as_slice().split_at(self.samples_in_buf);
        audio
    }

    /// Whether the registered audio is worth the engine's time.
    pub fn worth_transcribing(&self) -> (worth: bool)
        requires
            self.wf(),
        ensures
            worth == !self.too_short(),
    {
        self.samples_in_buf >= SAMPLE_RATE
    }

    /// The transcript of the registered audio, from what the engine
    /// reported for it: the number of segments, and the text of the
    /// first if it could be read. Audio that is too short has none.
    pub fn transcribe(&self, segments: i32, first: Option<String>) -> (text: Option<String>)
        requires
            self.wf(),
        ensures
            self.too_short() ==> text is None,
            !self.too_short() ==> match transcript_of(segments, first) {
                Some(transcript) => text matches Some(heard) && heard@ == transcript,
                None => text is None,
            },
    {
        if self.samples_in_buf < SAMPLE_RATE || segments == 0 {
            return None;
        }
        match first {
            None => None,
            Some(heard) => {
                if made_up(heard.as_str()) {
                    None
                } else {
                    Some(heard)
                }
            },
        }
    }
}

/// Whether the text is what the engine makes up for audio without speech.
pub fn made_up(text: &str) -> (hallucination: bool)
    ensures
        hallucination == is_hallucination(text@),
{
    if text.unicode_len() != 4 {
        return false;
    }
    let blank = text.get_char(0);
    let y = text.get_char(1);
    let o = text.get_char(2);
    let u = text.get_char(3);
    blank == ' ' && (y == 'y' || y == 'Y') && (o == 'o' || o == 'O') && (u == 'u' || u == 'U')
}

} // verus!

//! Cuts a stream of audio samples into utterances for a speech-to-text
//! engine: samples are staged and cut into frames, each frame is
//! classified as speech or not, a hysteresis state machine finds where
//! utterances start and end, and complete utterances travel through a ring
//! to the dispatcher that has them transcribed.
//!
//! The frames are classified by the caller, who hands the results in: the
//! library gives the frames that wait, `Vad::frames_with`, and takes
//! their classification, `audio_loop`.

pub mod decode;
pub mod device;
pub mod dispatch;
pub mod endpointer;
pub mod model;
pub mod replay;
pub mod ring;
pub mod utterance;
pub mod vad;
pub mod whisper;

use crate::ring::{consumer_capacity, UtteranceConsumer};
use crate::vad::{NSamples, VadActivity};
use crate::whisper::{Whisper, MAX_WHISPER_FRAME, SAMPLE_RATE, WHISPER_PREPEND_SILENCE};
use vstd::prelude::*;

verus! {

/// Most samples that an utterance has, its pre-roll among them.
pub const MAX_UTTERANCE: usize = WHISPER_PREPEND_SILENCE + MAX_WHISPER_FRAME;

/// What the dispatcher does on an event.
#[derive(Clone, Copy, Debug, PartialEq, Eq, Structural)]
pub enum Dispatch {
    /// An utterance has started; there is nothing to transcribe yet.
    Started,
    /// The utterance of that many samples is too short to transcribe.
    Discarded(NSamples),
    /// The utterance of that many samples is registered with the engine
    /// and is to be transcribed.
    Transcribe(NSamples),
}

/// The producer and the dispatcher do not agree on what the ring holds.
#[derive(Clone, Copy, Debug, PartialEq, Eq, Structural)]
pub enum DispatchError {
    /// The ring held fewer samples than the event reported.
    Desynchronized { wanted: NSamples, found: NSamples },
    /// The event reported more samples than an utterance can have.
    Oversized { wanted: NSamples },
}

/// What the dispatcher does on a `SpeechEnd` of `wanted` samples, of
/// which the ring gave `found`.
pub open spec fn settled(wanted: NSamples, found: NSamples) -> Result<Dispatch, DispatchError> {
    if found != wanted {
        Err(DispatchError::Desynchronized { wanted, found })
    } else if wanted < SAMPLE_RATE {
        Ok(Dispatch::Discarded(wanted))
    } else {
        Ok(Dispatch::Transcribe(wanted))
    }
}

/// Decides on a `SpeechEnd` of `wanted` samples, of which the ring gave
/// `found`: the two must be equal, and an utterance under a second is
/// not transcribed.
pub fn settle(wanted: NSamples, found: NSamples) -> (decision: Result<Dispatch, DispatchError>)
    ensures
        decision == settled(wanted, found),
{
    if found != wanted {
        Err(DispatchError::Desynchronized { wanted, found })
    } else if wanted < SAMPLE_RATE {
        Ok(Dispatch::Discarded(wanted))
    } else {
        Ok(Dispatch::Transcribe(wanted))
    }
}

/// Takes an event from the producer. On a `SpeechEnd(n)` exactly `n`
/// samples leave the ring and are registered with the engine; where the
/// ring has fewer, or `n` is more than an utterance can have, the two
/// sides have lost step, which is an error. On a `SpeechStart`, and for
/// an `n` that is too large, no sample leaves the ring.
pub fn dispatch(event: VadActivity, consumer: &mut UtteranceConsumer, whisper: &mut Whisper) -> (decision:
    Result<Dispatch, DispatchError>)
    requires
        old(whisper).wf(),
    ensures
        final(whisper).wf(),
        consumer_capacity(*final(consumer)) == consumer_capacity(*old(consumer)),
        final(whisper).language() == old(whisper).language(),
        final(whisper).translate_en() == old(whisper).translate_en(),
        event is SpeechStart ==> decision == Ok::<Dispatch, DispatchError>(Dispatch::Started)
            && final(whisper).audio() == old(whisper).audio() && *final(consumer) == *old(
            consumer,
        ),
        event matches VadActivity::SpeechEnd(wanted) ==> if wanted > MAX_UTTERANCE {
            decision == Err::<Dispatch, DispatchError>(DispatchError::Oversized { wanted })
                && final(whisper).audio() == old(whisper).audio() && *final(consumer) == *old(
                consumer,
            )
        } else {
            &&& final(whisper).audio().len() == wanted
            &&& exists|found: NSamples|
                found <= wanted && found <= consumer_capacity(*old(consumer)) && decision
                    == #[trigger] settled(wanted, found)
        },
{
    match event {
        VadActivity::SpeechStart => Ok(Dispatch::Started),
        VadActivity::SpeechEnd(wanted) => {
            if wanted > MAX_UTTERANCE {
                return Err(DispatchError::Oversized { wanted });
            }
            let found = consumer.pop_slice(whisper.audio_buf(wanted));
            let decision = settle(wanted, found);
            assert(decision == settled(wanted, found));
            decision
        },
    }
}

} // verus!

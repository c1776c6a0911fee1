use crate::device::{BufferSize, StreamConfig};
use crate::endpointer::{event_of, Endpointer, EndpointerConfig, EndpointerState, Phase};
use crate::model::{
    bounded, clipped, collected_after, completed_by, drained, lemma_after_concat,
    lemma_quiet_on_wire, lemma_quiet_refuses_nothing, lemma_refused_is_counted,
    lemma_utterances_are_bounded, looped, none_ends, refused_of, reported_sum, wire, VadModel,
};
use crate::ring::{
    producer_capacity, producer_room, ring_capacity, ring_samples, FrameRing, UtteranceProducer,
};
use crate::utterance::{extend, silence, silent, UtteranceBuffer};
use vstd::prelude::*;

verus! {

/// Number of samples in one classification frame: 30 ms at 16 kHz.
pub const VAD_FRAME: usize = 480;

/// A count of audio samples.
pub type NSamples = usize;

/// What the segmentation found in the audio it has looked at so far.
#[derive(Clone, Copy, Debug, PartialEq, Eq, Structural)]
pub enum VadStatus {
    /// No utterance is open.
    Silence,
    /// An utterance was opened by the last frame looked at.
    SpeechStart,
    /// An utterance is open.
    Speech,
    /// An utterance of that many samples is complete.
    SpeechEnd(NSamples),
}

/// An endpointing event, as it travels from the producer to the dispatcher.
#[derive(Clone, Copy, Debug, PartialEq, Eq, Structural)]
pub enum VadActivity {
    SpeechStart,
    SpeechEnd(NSamples),
}

/// What one frame came to.
#[derive(Debug)]
pub struct Segment {
    /// What the endpointer made of the frame.
    pub status: VadStatus,
    /// The utterance that the frame completed, if it completed one.
    pub utterance: Option<Vec<i16>>,
}

/// What a run over the staged frames came to.
#[derive(Clone, Copy, Debug, PartialEq, Eq, Structural)]
pub struct Output {
    /// Where the run stopped.
    pub status: VadStatus,
    /// Samples of the utterance that the run completed which the ring did
    /// not take; zero where it took all, and where none was completed.
    pub refused: NSamples,
    /// Frames that the run took, and so results that it used.
    pub taken: usize,
}

/// The producer side of the pipeline: it stages the samples that come in,
/// cuts them into frames, takes the classification of each frame and
/// collects the utterances. The caller classifies the frames: what a
/// classifier makes of a frame depends on the frames alone, in their
/// order, so it can be asked before the frames are taken.
pub struct Vad {
    ring: FrameRing,
    staging: usize,
    endpointer: Endpointer,
    buffer: UtteranceBuffer,
}

/// The samples for which the staging ring is made, given the buffer size
/// of the stream: two buffers, and no less than two frames.
pub open spec fn staging_samples(buffer_frames: u32) -> int {
    if buffer_frames < VAD_FRAME {
        2 * VAD_FRAME
    } else {
        2 * buffer_frames
    }
}

/// The samples for which the staging ring of a stream is made; none
/// where the stream has no fixed buffer size.
pub open spec fn staging_of(config: StreamConfig) -> int {
    match config.buffer_size {
        BufferSize::Fixed(frames) => staging_samples(frames),
        BufferSize::Default => 0,
    }
}

/// The stream has a fixed buffer size, and a staging ring can be made
/// for it.
pub open spec fn stageable(config: StreamConfig) -> bool {
    config.buffer_size is Fixed && 2 * staging_of(config) <= isize::MAX
}

impl View for Vad {
    type V = VadModel;

    open spec fn view(&self) -> VadModel {
        VadModel { staged: self.staged(), phase: self.phase(), utterance: self.utterance() }
    }
}

impl Vad {
    /// The samples that wait to make a frame, oldest first.
    pub closed spec fn staged(&self) -> Seq<i16> {
        ring_samples(self.ring)
    }

    /// Most samples that can wait.
    pub closed spec fn staging_capacity(&self) -> nat {
        ring_capacity(self.ring)
    }

    pub closed spec fn phase(&self) -> Phase {
        self.endpointer@
    }

    pub closed spec fn state(&self) -> EndpointerState {
        self.endpointer.state()
    }

    pub closed spec fn config(&self) -> EndpointerConfig {
        self.endpointer.config()
    }

    /// The utterance collected so far, its pre-roll first.
    pub closed spec fn utterance(&self) -> Seq<i16> {
        self.buffer@
    }

    pub closed spec fn parts_wf(&self) -> bool {
        &&& self.endpointer.wf()
        &&& self.buffer.wf()
        &&& self.buffer.pre_roll() == self.endpointer.config().pre_roll_samples
        &&& self.buffer.capacity() == self.endpointer.config().max_utterance_samples
        &&& self.staging == ring_capacity(self.ring)
    }

    /// The samples of `data` that are staged when it comes in: all for
    /// which there is room.
    pub open spec fn admits(&self, data: Seq<i16>) -> nat {
        if data.len() <= self.staging_capacity() - self.staged().len() {
            data.len()
        } else {
            (self.staging_capacity() - self.staged().len()) as nat
        }
    }

    pub open spec fn wf(&self) -> bool {
        &&& self.parts_wf()
        &&& self.config().valid()
        &&& self.state().wf(self.config())
        &&& self.phase() == self.state().phase()
        &&& self@.wf(self.config())
        &&& self.staged().len() <= self.staging_capacity()
    }

    /// A producer for a stream of that configuration, with the standard
    /// endpointing rules. The stream must have a fixed buffer size, for
    /// which the staging ring is made.
    pub fn try_new(config: &StreamConfig) -> (made: Result<Vad, &'static str>)
        ensures
            made is Ok <==> stageable(*config),
            made matches Ok(vad) ==> vad.wf() && vad.config() == EndpointerConfig::spec_standard()
                && vad@ == (VadModel {
                staged: Seq::empty(),
                phase: Phase::Idle,
                utterance: silence(vad.config().pre_roll_samples as nat),
            }) && vad.state() == EndpointerState::empty() && vad.staging_capacity()
                == staging_of(*config),
            made matches Err(text) ==> text@ == "config doesnt allow safe vad setup"@,
    {
        Vad::try_with(config, EndpointerConfig::standard())
    }

    /// A producer for a stream of that configuration, with endpointing
    /// rules of one's own, which must be valid.
    pub fn try_with(config: &StreamConfig, rules: EndpointerConfig) -> (made: Result<
        Vad,
        &'static str,
    >)
        ensures
            made is Ok <==> (rules.valid() && stageable(*config)),
            made matches Ok(vad) ==> vad.wf() && vad.config() == rules && vad@ == (VadModel {
                staged: Seq::empty(),
                phase: Phase::Idle,
                utterance: silence(rules.pre_roll_samples as nat),
            }) && vad.state() == EndpointerState::empty() && vad.staging_capacity()
                == staging_of(*config),
            made matches Err(text) ==> text@ == "config doesnt allow safe vad setup"@,
    {
        let frames: u32 = match config.buffer_size {
            BufferSize::Fixed(frames) => frames,
            BufferSize::Default => {
                return Err("config doesnt allow safe vad setup");
            },
        };
        let wanted: u64 = if (frames as u64) < (VAD_FRAME as u64) {
            2 * (VAD_FRAME as u64)
        } else {
            2 * (frames as u64)
        };
        if wanted > (isize::MAX as u64) / 2 {
            return Err("config doesnt allow safe vad setup");
        }
        let endpointer = match Endpointer::new(rules) {
            Some(endpointer) => endpointer,
            None => {
                return Err("config doesnt allow safe vad setup");
            },
        };
        let buffer = match UtteranceBuffer::new(
            rules.pre_roll_samples,
            rules.max_utterance_samples,
        ) {
            Some(buffer) => buffer,
            None => {
                return Err("config doesnt allow safe vad setup");
            },
        };
        let ring = FrameRing::with_capacity(wanted as usize);
        let vad = Vad { ring, staging: wanted as usize, endpointer, buffer };
        assert(vad@.utterance.take(rules.pre_roll_samples as int) =~= vad@.utterance);
        Ok(vad)
    }

    /// The rules by which utterances are found.
    pub fn rules(&self) -> (config: EndpointerConfig)
        ensures
            config == self.config(),
    {
        self.endpointer.rules()
    }

    /// Whether an utterance is open.
    pub fn is_listening(&self) -> (open: bool)
        requires
            self.wf(),
        ensures
            open == (self.phase() is Listening),
    {
        self.endpointer.is_listening()
    }

    /// Samples that wait to make a frame.
    pub fn staged_len(&self) -> (samples: usize)
        ensures
            samples == self.staged().len(),
    {
        self.ring.occupied_len()
    }

    /// Samples collected for the utterance so far, the pre-roll among
    /// them.
    pub fn collected_len(&self) -> (samples: usize)
        ensures
            samples == self.utterance().len(),
    {
        self.buffer.len()
    }

    /// Stages samples, as many as there is room for, from the first on,
    /// and returns their number: the others are dropped.
    pub fn input(&mut self, samples: &[i16]) -> (staged: usize)
        requires
            old(self).wf(),
        ensures
            final(self).wf(),
            final(self).config() == old(self).config(),
            final(self).state() == old(self).state(),
            final(self).staging_capacity() == old(self).staging_capacity(),
            staged == old(self).admits(samples@),
            final(self)@ == old(self)@.feed(samples@.take(staged as int)),
    {
        self.ring.push_slice(samples)
    }

    /// Takes the next frame out of the staged samples, if they make one.
    pub fn next_frame(&mut self) -> (frame: Option<Vec<i16>>)
        requires
            old(self).wf(),
        ensures
            final(self).wf(),
            final(self).config() == old(self).config(),
            final(self).state() == old(self).state(),
            final(self).staging_capacity() == old(self).staging_capacity(),
            frame.is_some() == old(self)@.has_frame(),
            frame matches Some(samples) ==> samples@ == old(self)@.frame() && final(self)@
                == (VadModel { staged: old(self).staged().skip(VAD_FRAME as int), ..old(self)@ }),
            frame is None ==> final(self)@ == old(self)@,
    {
        if self.ring.occupied_len() < VAD_FRAME {
            return None;
        }
        let mut frame = silent(VAD_FRAME);
        let popped = self.ring.pop_slice(&mut frame);
        assert(frame@ =~= old(self)@.frame());
        Some(frame)
    }

    /// Takes a frame and its classification: the endpointer decides, and
    /// the frame is recorded, completes an utterance, or is dropped.
    pub fn segment(&mut self, frame: &[i16], is_speech: bool) -> (segment: Segment)
        requires
            old(self).wf(),
            frame@.len() == VAD_FRAME,
        ensures
            final(self).wf(),
            final(self).config() == old(self).config(),
            final(self).staging_capacity() == old(self).staging_capacity(),
            final(self).state() == old(self).state().step(old(self).config(), is_speech),
            final(self)@ == (VadModel {
                staged: old(self).staged(),
                phase: old(self).phase().step(old(self).config(), is_speech),
                utterance: collected_after(
                    old(self).config(),
                    old(self).phase(),
                    old(self).utterance(),
                    frame@,
                    is_speech,
                ),
            }),
            segment.status == old(self).phase().verdict(old(self).config(), is_speech).status,
            match completed_by(
                old(self).config(),
                old(self).phase(),
                old(self).utterance(),
                frame@,
                is_speech,
            ) {
                Some(utterance) => segment.utterance matches Some(samples) && samples@
                    == utterance,
                None => segment.utterance is None,
            },
    {
        let verdict = self.endpointer.step(is_speech);
        let utterance = match verdict.status {
            VadStatus::SpeechEnd(_) => Some(self.buffer.take()),
            _ => if verdict.record {
                self.buffer.append(frame)
            } else {
                None
            },
        };
        proof {
            let pre_roll = self.config().pre_roll_samples as int;
            assert(self@.utterance.take(pre_roll) =~= silence(pre_roll as nat));
        }
        Segment { status: verdict.status, utterance }
    }
    /// The frames that wait to be classified once `data` has come in, in
    /// the order in which they are taken: those that the staged samples
    /// make together with the samples of `data` for which there is room.
    /// Nothing is staged by this.
    pub fn frames_with(&self, data: &[i16]) -> (frames: Vec<Vec<i16>>)
        requires
            self.wf(),
        ensures
            frames@.len() == self@.feed(data@.take(self.admits(data@) as int)).frames(),
            forall|i: int|
                0 <= i < frames@.len() ==> (#[trigger] frames@[i])@ == self@.feed(
                    data@.take(self.admits(data@) as int),
                ).frame_at(i),
    {
        let staged = self.ring.occupied_len();
        let room: usize = self.staging - staged;
        let admitted: usize = if data.len() <= room {
            data.len()
        } else {
            room
        };
        let mut samples = silent(staged);
        let copied = self.ring.peek_slice(&mut samples);
        assert(samples@ =~= self.staged());
        extend(&mut samples, data, 0, admitted);
        assert(data@.subrange(0, admitted as int) =~= data@.take(admitted as int));
        cut_frames(samples.as_slice())
    }

    /// Takes the staged frames one by one, each with its classification,
    /// as long as there are frames and results, and stops behind the
    /// first that opens or completes an utterance. `results` holds the
    /// classification of the staged frames, in their order. A complete
    /// utterance goes into the ring, as far as the ring takes it; what
    /// the ring does not take is dropped and counted. The ring takes all
    /// of an utterance for which the producer knows of room; without a
    /// complete utterance the ring is left alone.
    pub fn output_to(&mut self, final_ring: &mut UtteranceProducer, results: &[bool]) -> (output:
        Output)
        requires
            old(self).wf(),
        ensures
            final(self).wf(),
            final(self).config() == old(self).config(),
            final(self).staging_capacity() == old(self).staging_capacity(),
            drained(
                old(self).config(),
                old(self)@,
                results@,
                output.taken as nat,
                final(self)@,
                output.status,
                output.refused,
            ),
            output.status matches VadStatus::SpeechEnd(samples) ==> {
                &&& samples + output.refused <= old(self).config().pre_roll_samples + old(
                    self,
                ).config().max_utterance_samples
                &&& samples <= producer_capacity(*old(final_ring))
                &&& samples + output.refused <= producer_room(*old(final_ring))
                    ==> output.refused == 0
                &&& producer_room(*final(final_ring)) + samples >= producer_room(
                    *old(final_ring),
                )
            },
            !(output.status is SpeechEnd) ==> *final(final_ring) == *old(final_ring),
            producer_capacity(*final(final_ring)) == producer_capacity(*old(final_ring)),
    {
        let ghost config = self.config();
        let ghost before = self@;
        let mut taken: usize = 0;
        loop
            invariant
                self.wf(),
                self.config() == config,
                self.staging_capacity() == old(self).staging_capacity(),
                *final_ring == *old(final_ring),
                before == old(self)@,
                config == old(self).config(),
                taken <= results@.len(),
                before.all_quiet(config, results@.take(taken as int)),
                self@ == before.after(config, results@.take(taken as int)),
                self.staged().len() + taken * VAD_FRAME == before.staged.len(),
            decreases results@.len() - taken,
        {
            let ghost used = results@.take(taken as int);
            let ghost model = self@;
            if taken == results.len() {
                return self.rest(taken, Ghost(before), Ghost(results@));
            }
            let frame = match self.next_frame() {
                Some(frame) => frame,
                None => {
                    return self.rest(taken, Ghost(before), Ghost(results@));
                },
            };
            let is_speech = results[taken];
            let segment = self.segment(frame.as_slice(), is_speech);
            taken = taken + 1;
            proof {
                lemma_utterances_are_bounded(config, model, is_speech);
                assert(results@.take(taken as int) =~= used.push(is_speech));
                assert(results@.take(taken as int).drop_last() =~= used);
                assert(self@ == model.step(config, is_speech));
            }
            match segment.utterance {
                Some(utterance) => {
                    let event = deliver(final_ring, utterance.as_slice());
                    let output = match event {
                        VadActivity::SpeechEnd(delivered) => Output {
                            status: VadStatus::SpeechEnd(delivered),
                            refused: utterance.len() - delivered,
                            taken,
                        },
                        VadActivity::SpeechStart => Output {
                            status: VadStatus::SpeechStart,
                            refused: 0,
                            taken,
                        },
                    };
                    assert(drained(
                        config,
                        before,
                        results@,
                        output.taken as nat,
                        self@,
                        output.status,
                        output.refused,
                    ));
                    return output;
                },
                None => {
                    if let VadStatus::SpeechStart = segment.status {
                        let output = Output { status: segment.status, refused: 0, taken };
                        assert(drained(
                            config,
                            before,
                            results@,
                            output.taken as nat,
                            self@,
                            output.status,
                            output.refused,
                        ));
                        return output;
                    }
                },
            }
        }
    }

    /// What a run comes to that stops without an event.
    fn rest(&self, taken: usize, Ghost(before): Ghost<VadModel>, Ghost(results): Ghost<Seq<bool>>) -> (output:
        Output)
        requires
            self.wf(),
            taken <= results.len(),
            before.all_quiet(self.config(), results.take(taken as int)),
            self@ == before.after(self.config(), results.take(taken as int)),
            self.staged().len() + taken * VAD_FRAME == before.staged.len(),
            taken == results.len() || !self@.has_frame(),
        ensures
            output.taken == taken,
            output.refused == 0,
            !(output.status is SpeechEnd),
            drained(
                self.config(),
                before,
                results,
                taken as nat,
                self@,
                output.status,
                output.refused,
            ),
    {
        let status = if self.endpointer.is_listening() {
            VadStatus::Speech
        } else {
            VadStatus::Silence
        };
        Output { status, refused: 0, taken }
    }
}

/// Cuts samples into frames: as many whole frames as the samples make,
/// in their order; the samples behind the last whole frame make none.
pub fn cut_frames(samples: &[i16]) -> (frames: Vec<Vec<i16>>)
    ensures
        frames@.len() == samples@.len() / (VAD_FRAME as nat),
        forall|i: int|
            0 <= i < frames@.len() ==> (#[trigger] frames@[i])@ == samples@.subrange(
                i * VAD_FRAME,
                i * VAD_FRAME + VAD_FRAME,
            ),
{
    let mut frames: Vec<Vec<i16>> = Vec::new();
    let len: usize = samples.len();
    let count: usize = len / VAD_FRAME;
    let mut i: usize = 0;
    let mut from: usize = 0;
    while i < count
        invariant
            len == samples@.len(),
            i <= count,
            count == samples@.len() / (VAD_FRAME as nat),
            count * VAD_FRAME <= samples@.len(),
            from == i * VAD_FRAME,
            frames@.len() == i,
            forall|k: int|
                0 <= k < i ==> (#[trigger] frames@[k])@ == samples@.subrange(
                    k * VAD_FRAME,
                    k * VAD_FRAME + VAD_FRAME,
                ),
        decreases count - i,
    {
        assert((i + 1) * VAD_FRAME <= count * VAD_FRAME && (i + 1) * VAD_FRAME == i * VAD_FRAME
            + VAD_FRAME) by (nonlinear_arith)
            requires
                i + 1 <= count,
        ;
        let mut frame: Vec<i16> = Vec::new();
        extend(&mut frame, samples, from, from + VAD_FRAME);
        frames.push(frame);
        i = i + 1;
        from = from + VAD_FRAME;
    }
    frames
}

/// Hands a complete utterance to the dispatcher: its samples go into the
/// ring, as many as the ring takes, and the event counts those. The ring
/// never takes more than it was made for, and it takes all of an
/// utterance for which the producer knows of room.
pub fn deliver(final_ring: &mut UtteranceProducer, utterance: &[i16]) -> (event: VadActivity)
    ensures
        event matches VadActivity::SpeechEnd(delivered) && delivered <= utterance@.len()
            && delivered <= producer_capacity(*old(final_ring)) && (utterance@.len()
            <= producer_room(*old(final_ring)) ==> delivered == utterance@.len())
            && producer_room(*final(final_ring)) + delivered >= producer_room(*old(final_ring)),
        producer_capacity(*final(final_ring)) == producer_capacity(*old(final_ring)),
{
    VadActivity::SpeechEnd(final_ring.push_slice(utterance))
}

/// What a chunk of samples came to.
#[derive(Debug)]
pub struct LoopOutcome {
    /// Samples of the chunk that were staged; the others were dropped.
    pub accepted: usize,
    /// Frames that were taken, and so results that were used.
    pub taken: usize,
    /// The events for the dispatcher, in order.
    pub events: Vec<VadActivity>,
    /// Samples of complete utterances that the ring did not take: they
    /// were dropped, and no event reports them.
    pub refused: NSamples,
}

/// Feeds a chunk of normalized samples to the producer and runs it until
/// no frame is left: every event on the way is collected for the
/// dispatcher, and the samples that were dropped on the way are counted,
/// those that were not staged and those that the ring did not take.
/// `results` holds the classification of the frames that wait once the
/// chunk has come in, in their order, as `Vad::frames_with` gives them;
/// frames without a result stay staged. The ring takes all of the
/// utterances for which the producer knows of room, and is left alone
/// where no utterance is completed.
pub fn audio_loop(
    data: &[i16],
    results: &[bool],
    ring_buffer: &mut UtteranceProducer,
    vad: &mut Vad,
) -> (outcome: LoopOutcome)
    requires
        old(vad).wf(),
    ensures
        final(vad).wf(),
        final(vad).config() == old(vad).config(),
        final(vad).staging_capacity() == old(vad).staging_capacity(),
        producer_capacity(*final(ring_buffer)) == producer_capacity(*old(ring_buffer)),
        outcome.accepted == old(vad).admits(data@),
        looped(
            old(vad).config(),
            old(vad)@.feed(data@.take(outcome.accepted as int)),
            results@,
            outcome.taken as nat,
            final(vad)@,
            outcome.events@,
            outcome.refused,
        ),
        forall|i: int|
            0 <= i < outcome.events@.len() ==> bounded(
                old(vad).config(),
                #[trigger] outcome.events@[i],
            ),
        producer_room(*final(ring_buffer)) + reported_sum(outcome.events@) >= producer_room(
            *old(ring_buffer),
        ),
        reported_sum(outcome.events@) + refused_of(
            old(vad).config(),
            old(vad)@.feed(data@.take(outcome.accepted as int)),
            results@.take(outcome.taken as int),
            outcome.events@,
        ) <= producer_room(*old(ring_buffer)) ==> outcome.refused == 0,
        none_ends(outcome.events@) ==> *final(ring_buffer) == *old(ring_buffer),
{
    let ghost config = vad.config();
    let accepted = vad.input(data);
    let ghost fed = vad@;
    let mut events: Vec<VadActivity> = Vec::new();
    let mut refused: usize = 0;
    let mut taken: usize = 0;
    let total: usize = results.len();
    loop
        invariant
            total == results@.len(),
            vad.wf(),
            vad.config() == config,
            vad.staging_capacity() == old(vad).staging_capacity(),
            producer_capacity(*ring_buffer) == producer_capacity(*old(ring_buffer)),
            config == old(vad).config(),
            accepted == old(vad).admits(data@),
            fed == old(vad)@.feed(data@.take(accepted as int)),
            taken <= results@.len(),
            wire(config, fed, results@.take(taken as int), events@),
            vad@ == fed.after(config, results@.take(taken as int)),
            vad.staged().len() + taken * VAD_FRAME == fed.staged.len(),
            refused == clipped(refused_of(config, fed, results@.take(taken as int), events@)),
            forall|i: int| 0 <= i < events@.len() ==> bounded(config, #[trigger] events@[i]),
            producer_room(*ring_buffer) + reported_sum(events@) >= producer_room(
                *old(ring_buffer),
            ),
            refused_of(config, fed, results@.take(taken as int), events@) > 0 ==> reported_sum(
                events@,
            ) + refused_of(config, fed, results@.take(taken as int), events@) > producer_room(
                *old(ring_buffer),
            ),
            none_ends(events@) ==> *ring_buffer == *old(ring_buffer),
        decreases results@.len() - taken,
    {
        let ghost model = vad@;
        let ghost sent = events@;
        let ghost used = results@.take(taken as int);
        let ghost room = producer_room(*ring_buffer);
        let (_, rest) = results.split_at(taken);
        let output = vad.output_to(ring_buffer, rest);
        let status = output.status;
        let ghost run = rest@.take(output.taken as int);
        proof {
            assert(rest@ =~= results@.skip(taken as int));
            assert(output.taken <= rest@.len());
            assert(taken + output.taken <= results@.len());
            assert(results@.take(taken + output.taken) =~= used + run);
            lemma_after_concat(config, fed, used, run);
            lemma_refused_is_counted(config, fed, used, sent);
            if event_of(status) is None {
                lemma_quiet_on_wire(config, fed, used, run, sent);
                lemma_quiet_refuses_nothing(config, fed, used, run, sent);
            } else {
                lemma_quiet_on_wire(config, fed, used, run.drop_last(), sent);
                lemma_quiet_refuses_nothing(config, fed, used, run.drop_last(), sent);
                lemma_after_concat(config, fed, used, run.drop_last());
                assert((used + run).drop_last() =~= used + run.drop_last());
                assert((used + run).last() == run.last());
            }
        }
        taken = taken + output.taken;
        match status {
            VadStatus::Silence | VadStatus::Speech => {
                let outcome = LoopOutcome { accepted, taken, events, refused };
                assert(looped(
                    config,
                    fed,
                    results@,
                    outcome.taken as nat,
                    vad@,
                    outcome.events@,
                    outcome.refused,
                ));
                return outcome;
            },
            VadStatus::SpeechEnd(samples) => {
                events.push(VadActivity::SpeechEnd(samples));
                refused = if output.refused > usize::MAX - refused {
                    usize::MAX
                } else {
                    refused + output.refused
                };
                assert(events@.drop_last() =~= sent);
                assert(!none_ends(events@)) by {
                    assert(events@[events@.len() - 1] is SpeechEnd);
                }
            },
            VadStatus::SpeechStart => {
                events.push(VadActivity::SpeechStart);
                assert(events@.drop_last() =~= sent);
                assert(none_ends(sent) ==> none_ends(events@));
                assert(!none_ends(sent) ==> !none_ends(events@)) by {
                    if !none_ends(sent) {
                        let i = choose|i: int| 0 <= i < sent.len() && (#[trigger] sent[i]) is SpeechEnd;
                        assert(events@[i] == sent[i]);
                    }
                }
            },
        }
    }
}

} // verus!

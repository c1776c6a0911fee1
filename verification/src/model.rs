use crate::endpointer::{
    alternating, closing_run, event_of, events_of, fits, lemma_events_of_push,
    lemma_fits_drop_last, lemma_one_utterance_fits, lemma_phase_after_push,
    lemma_utterance_after_silence, lingering_frames, phase_after, samples_in, sent_by,
    silence_speech_silence, EndpointerConfig, Phase,
};
use crate::utterance::silence;
use crate::vad::{NSamples, VadActivity, VadStatus, VAD_FRAME};
use vstd::prelude::*;

verus! {

/// The audio that the segmentation holds: the samples that wait to make a
/// frame, the endpointing state, and the utterance collected so far, its
/// pre-roll first.
pub ghost struct VadModel {
    pub staged: Seq<i16>,
    pub phase: Phase,
    pub utterance: Seq<i16>,
}

/// Samples of the next frame for which the utterance has room.
pub open spec fn room(config: EndpointerConfig, utterance: Seq<i16>) -> int {
    config.pre_roll_samples + config.max_utterance_samples - utterance.len()
}

/// The utterance that a frame completes, if it completes one: the
/// collected one at a `SpeechEnd`, and the collected one filled up with
/// the head of the frame where the frame does not fit.
pub open spec fn completed_by(
    config: EndpointerConfig,
    phase: Phase,
    utterance: Seq<i16>,
    frame: Seq<i16>,
    is_speech: bool,
) -> Option<Seq<i16>> {
    if phase.closes(config, is_speech) {
        Some(utterance)
    } else if phase.overflows(config, is_speech) {
        Some(utterance + frame.take(room(config, utterance)))
    } else {
        None
    }
}

/// The utterance collected after a frame: the pre-roll alone at a
/// `SpeechEnd`, the pre-roll and the tail of the frame where the frame
/// did not fit, and else what was collected, with the frame if it is
/// recorded.
pub open spec fn collected_after(
    config: EndpointerConfig,
    phase: Phase,
    utterance: Seq<i16>,
    frame: Seq<i16>,
    is_speech: bool,
) -> Seq<i16> {
    if phase.closes(config, is_speech) {
        silence(config.pre_roll_samples as nat)
    } else if phase.overflows(config, is_speech) {
        silence(config.pre_roll_samples as nat) + frame.skip(room(config, utterance))
    } else if phase.records(config, is_speech) {
        utterance + frame
    } else {
        utterance
    }
}

impl VadModel {
    /// The collected utterance is the pre-roll and as many samples as the
    /// endpointer has counted.
    pub open spec fn wf(self, config: EndpointerConfig) -> bool {
        &&& self.phase.wf(config)
        &&& self.utterance.take(config.pre_roll_samples as int) == silence(
            config.pre_roll_samples as nat,
        )
        &&& match self.phase {
            Phase::Idle => self.utterance.len() == config.pre_roll_samples,
            Phase::Listening { accumulated, .. } => self.utterance.len()
                == config.pre_roll_samples + accumulated,
        }
    }

    /// The model with more samples staged.
    pub open spec fn feed(self, samples: Seq<i16>) -> VadModel {
        VadModel { staged: self.staged + samples, phase: self.phase, utterance: self.utterance }
    }

    pub open spec fn has_frame(self) -> bool {
        self.staged.len() >= VAD_FRAME
    }

    /// The frame that is classified next.
    pub open spec fn frame(self) -> Seq<i16> {
        self.staged.take(VAD_FRAME as int)
    }

    /// The number of frames that the staged samples make.
    pub open spec fn frames(self) -> nat {
        self.staged.len() / (VAD_FRAME as nat)
    }

    /// The frame that is classified after `earlier` others.
    pub open spec fn frame_at(self, earlier: int) -> Seq<i16> {
        self.staged.subrange(earlier * VAD_FRAME, earlier * VAD_FRAME + VAD_FRAME)
    }

    /// The model after its next frame was classified.
    pub open spec fn step(self, config: EndpointerConfig, is_speech: bool) -> VadModel {
        VadModel {
            staged: self.staged.skip(VAD_FRAME as int),
            phase: self.phase.step(config, is_speech),
            utterance: collected_after(
                config,
                self.phase,
                self.utterance,
                self.frame(),
                is_speech,
            ),
        }
    }

    /// The utterance that the next frame completes, if it completes one.
    pub open spec fn completes(self, config: EndpointerConfig, is_speech: bool) -> Option<
        Seq<i16>,
    > {
        completed_by(config, self.phase, self.utterance, self.frame(), is_speech)
    }

    pub open spec fn status(self, config: EndpointerConfig, is_speech: bool) -> VadStatus {
        self.phase.verdict(config, is_speech).status
    }
}

impl VadModel {
    /// The next frame gives no event and completes no utterance.
    pub open spec fn quiet(self, config: EndpointerConfig, is_speech: bool) -> bool {
        &&& self.has_frame()
        &&& event_of(self.status(config, is_speech)) is None
        &&& self.completes(config, is_speech) is None
    }

    /// The model after as many of its frames as there are classification
    /// results.
    pub open spec fn after(self, config: EndpointerConfig, results: Seq<bool>) -> VadModel
        decreases results.len(),
    {
        if results.len() == 0 {
            self
        } else {
            self.after(config, results.drop_last()).step(config, results.last())
        }
    }

    /// None of these frames gives an event or completes an utterance.
    pub open spec fn all_quiet(self, config: EndpointerConfig, results: Seq<bool>) -> bool
        decreases results.len(),
    {
        results.len() == 0 || (self.all_quiet(config, results.drop_last()) && self.after(
            config,
            results.drop_last(),
        ).quiet(config, results.last()))
    }
}

/// What `output_to` does to the model, given the classification results
/// of the staged frames, of which it takes the first `taken`. It takes
/// frames as long as they are quiet and stops behind the first that is
/// not. Where no frame is left, or no result, the status says whether an
/// utterance is open. Where a frame opened an utterance, the status is
/// `SpeechStart`. Where a frame completed an utterance, the status is
/// `SpeechEnd(n)`, with `n` the samples of it that the ring took, and
/// `refused` counts the samples of it that the ring did not take; else
/// `refused` is zero.
pub open spec fn drained(
    config: EndpointerConfig,
    before: VadModel,
    results: Seq<bool>,
    taken: nat,
    after: VadModel,
    status: VadStatus,
    refused: NSamples,
) -> bool {
    let used = results.take(taken as int);
    &&& taken <= results.len()
    &&& after == before.after(config, used)
    &&& after.staged.len() + taken * VAD_FRAME == before.staged.len()
    &&& if event_of(status) is None {
        &&& refused == 0
        &&& before.all_quiet(config, used)
        &&& taken == results.len() || !after.has_frame()
        &&& status == if after.phase is Listening {
            VadStatus::Speech
        } else {
            VadStatus::Silence
        }
    } else {
        &&& taken > 0
        &&& before.all_quiet(config, used.drop_last())
        &&& before.after(config, used.drop_last()).has_frame()
        &&& match before.after(config, used.drop_last()).completes(config, used.last()) {
            Some(utterance) => status matches VadStatus::SpeechEnd(n) && n + refused
                == utterance.len(),
            None => refused == 0 && status == VadStatus::SpeechStart && status == before.after(
                config,
                used.drop_last(),
            ).status(config, used.last()),
        }
    }
}

/// The events that go to the dispatcher for these frames, in order: a
/// `SpeechStart` for each frame that opens an utterance, and for each
/// frame that completes one a `SpeechEnd(n)`, with `n` no more than the
/// samples of the utterance.
pub open spec fn wire(
    config: EndpointerConfig,
    start: VadModel,
    results: Seq<bool>,
    events: Seq<VadActivity>,
) -> bool
    decreases results.len(),
{
    if results.len() == 0 {
        events.len() == 0
    } else {
        let before = start.after(config, results.drop_last());
        &&& before.has_frame()
        &&& match before.completes(config, results.last()) {
            Some(utterance) => {
                &&& events.len() > 0
                &&& wire(config, start, results.drop_last(), events.drop_last())
                &&& events.last() matches VadActivity::SpeechEnd(n) && n <= utterance.len()
            },
            None => match event_of(before.status(config, results.last())) {
                Some(event) => {
                    &&& events.len() > 0
                    &&& wire(config, start, results.drop_last(), events.drop_last())
                    &&& events.last() == event
                },
                None => wire(config, start, results.drop_last(), events),
            },
        }
    }
}

/// The samples that an event reports.
pub open spec fn reported(event: VadActivity) -> nat {
    match event {
        VadActivity::SpeechStart => 0,
        VadActivity::SpeechEnd(samples) => samples as nat,
    }
}

/// The samples of complete utterances that the ring did not take: for
/// each frame that completes an utterance, the samples of the utterance
/// that its event does not report.
pub open spec fn refused_of(
    config: EndpointerConfig,
    start: VadModel,
    results: Seq<bool>,
    events: Seq<VadActivity>,
) -> int
    decreases results.len(),
{
    if results.len() == 0 {
        0
    } else {
        let before = start.after(config, results.drop_last());
        match before.completes(config, results.last()) {
            Some(utterance) => refused_of(config, start, results.drop_last(), events.drop_last())
                + utterance.len() - reported(events.last()),
            None => match event_of(before.status(config, results.last())) {
                Some(_) => refused_of(config, start, results.drop_last(), events.drop_last()),
                None => refused_of(config, start, results.drop_last(), events),
            },
        }
    }
}

/// A count of samples, as far as it can be counted.
pub open spec fn clipped(samples: int) -> int {
    if samples > usize::MAX {
        usize::MAX as int
    } else {
        samples
    }
}

/// The samples that the events report, all in all.
pub open spec fn reported_sum(events: Seq<VadActivity>) -> nat
    decreases events.len(),
{
    if events.len() == 0 {
        0
    } else {
        reported_sum(events.drop_last()) + reported(events.last())
    }
}

/// None of the events completes an utterance.
pub open spec fn none_ends(events: Seq<VadActivity>) -> bool {
    forall|i: int| 0 <= i < events.len() ==> !((#[trigger] events[i]) is SpeechEnd)
}

/// What `audio_loop` does to the model, given the classification results
/// of the staged frames: it takes every frame for which there is a
/// result, `taken` in all, sends the events of all of them, and counts
/// the samples of complete utterances that the ring did not take, as far
/// as they can be counted.
pub open spec fn looped(
    config: EndpointerConfig,
    fed: VadModel,
    results: Seq<bool>,
    taken: nat,
    after: VadModel,
    events: Seq<VadActivity>,
    refused: NSamples,
) -> bool {
    let used = results.take(taken as int);
    &&& taken == if results.len() <= fed.frames() {
        results.len()
    } else {
        fed.frames()
    }
    &&& wire(config, fed, used, events)
    &&& after == fed.after(config, used)
    &&& after.staged.len() + taken * VAD_FRAME == fed.staged.len()
    &&& refused == clipped(refused_of(config, fed, used, events))
}

/// Frames taken one run after another are frames taken in one run.
pub proof fn lemma_after_concat(
    config: EndpointerConfig,
    start: VadModel,
    first: Seq<bool>,
    second: Seq<bool>,
)
    ensures
        start.after(config, first + second) == start.after(config, first).after(config, second),
    decreases second.len(),
{
    if second.len() == 0 {
        assert(first + second =~= first);
    } else {
        assert((first + second).drop_last() =~= first + second.drop_last());
        lemma_after_concat(config, start, first, second.drop_last());
    }
}

/// Quiet frames send nothing.
pub proof fn lemma_quiet_on_wire(
    config: EndpointerConfig,
    start: VadModel,
    first: Seq<bool>,
    second: Seq<bool>,
    events: Seq<VadActivity>,
)
    requires
        wire(config, start, first, events),
        start.after(config, first).all_quiet(config, second),
    ensures
        wire(config, start, first + second, events),
    decreases second.len(),
{
    if second.len() == 0 {
        assert(first + second =~= first);
    } else {
        assert((first + second).drop_last() =~= first + second.drop_last());
        lemma_quiet_on_wire(config, start, first, second.drop_last(), events);
        lemma_after_concat(config, start, first, second.drop_last());
    }
}

/// Quiet frames complete no utterance, so the ring refuses nothing of
/// them.
pub proof fn lemma_quiet_refuses_nothing(
    config: EndpointerConfig,
    start: VadModel,
    first: Seq<bool>,
    second: Seq<bool>,
    events: Seq<VadActivity>,
)
    requires
        start.after(config, first).all_quiet(config, second),
    ensures
        refused_of(config, start, first + second, events) == refused_of(
            config,
            start,
            first,
            events,
        ),
    decreases second.len(),
{
    if second.len() == 0 {
        assert(first + second =~= first);
    } else {
        assert((first + second).drop_last() =~= first + second.drop_last());
        lemma_quiet_refuses_nothing(config, start, first, second.drop_last(), events);
        lemma_after_concat(config, start, first, second.drop_last());
    }
}

/// The ring never refuses a negative number of samples.
pub proof fn lemma_refused_is_counted(
    config: EndpointerConfig,
    start: VadModel,
    results: Seq<bool>,
    events: Seq<VadActivity>,
)
    requires
        wire(config, start, results, events),
    ensures
        refused_of(config, start, results, events) >= 0,
    decreases results.len(),
{
    if results.len() > 0 {
        let before = start.after(config, results.drop_last());
        if before.completes(config, results.last()) is Some || event_of(
            before.status(config, results.last()),
        ) is Some {
            lemma_refused_is_counted(config, start, results.drop_last(), events.drop_last());
        } else {
            lemma_refused_is_counted(config, start, results.drop_last(), events);
        }
    }
}

/// The endpointing state behind the frames is the one that the rules of
/// the endpointer give for their classification results.
pub proof fn lemma_after_follows_the_rules(
    config: EndpointerConfig,
    start: VadModel,
    results: Seq<bool>,
)
    ensures
        start.after(config, results).phase == phase_after(config, start.phase, results),
    decreases results.len(),
{
    if results.len() > 0 {
        lemma_after_follows_the_rules(config, start, results.drop_last());
        lemma_phase_after_push(config, start.phase, results.drop_last(), results.last());
        assert(results.drop_last().push(results.last()) =~= results);
    }
}

/// None of these frames is recorded without fitting.
pub open spec fn all_fit(config: EndpointerConfig, start: VadModel, results: Seq<bool>) -> bool {
    forall|i: int|
        0 <= i < results.len() ==> !(#[trigger] start.after(config, results.take(i))).phase.overflows(
            config,
            results[i],
        )
}

/// As long as every recorded frame fits, the events that go to the
/// dispatcher alternate, whatever the classification results are and
/// whatever the ring takes: no two `SpeechStart` and no two `SpeechEnd`
/// follow each other, the first event is a `SpeechStart` exactly if no
/// utterance was open, and an utterance is open behind the frames exactly
/// if the last event is a `SpeechStart`.
pub proof fn lemma_wire_alternates(
    config: EndpointerConfig,
    start: VadModel,
    results: Seq<bool>,
    events: Seq<VadActivity>,
)
    requires
        wire(config, start, results, events),
        all_fit(config, start, results),
    ensures
        alternating(events),
        events.len() > 0 ==> (events[0] is SpeechStart <==> start.phase is Idle),
        start.after(config, results).phase is Listening <==> if events.len() == 0 {
            start.phase is Listening
        } else {
            events.last() is SpeechStart
        },
    decreases results.len(),
{
    if results.len() > 0 {
        let shorter = results.drop_last();
        let before = start.after(config, shorter);
        assert(shorter.take(shorter.len() as int) =~= shorter);
        assert(results.take(shorter.len() as int) =~= shorter);
        assert(!before.phase.overflows(config, results.last()));
        assert forall|i: int| 0 <= i < shorter.len() implies !(#[trigger] start.after(
            config,
            shorter.take(i),
        )).phase.overflows(config, shorter[i]) by {
            assert(shorter.take(i) =~= results.take(i));
            assert(shorter[i] == results[i]);
        }
        let sent = before.completes(config, results.last()) is Some || event_of(
            before.status(config, results.last()),
        ) is Some;
        if sent {
            let earlier = events.drop_last();
            lemma_wire_alternates(config, start, shorter, earlier);
            assert(events =~= earlier.push(events.last()));
            assert forall|i: int| 0 <= i < events.len() - 1 implies ((#[trigger] events[i])
                is SpeechStart) != (events[i + 1] is SpeechStart) by {
                if i < earlier.len() - 1 {
                    assert(events[i] == earlier[i]);
                    assert(events[i + 1] == earlier[i + 1]);
                } else {
                    assert(events[i] == earlier.last());
                }
            }
            if earlier.len() > 0 {
                assert(events[0] == earlier[0]);
            }
        } else {
            lemma_wire_alternates(config, start, shorter, events);
        }
    }
}

/// The event reports no more samples than an utterance can have.
pub open spec fn bounded(config: EndpointerConfig, event: VadActivity) -> bool {
    event matches VadActivity::SpeechEnd(samples) ==> samples <= config.pre_roll_samples
        + config.max_utterance_samples
}

/// A complete utterance is never longer than its pre-roll and the most
/// audio that the rules allow.
pub proof fn lemma_utterances_are_bounded(
    config: EndpointerConfig,
    model: VadModel,
    is_speech: bool,
)
    requires
        config.valid(),
        model.wf(config),
        model.has_frame(),
    ensures
        model.completes(config, is_speech) matches Some(utterance) ==> utterance.len()
            <= config.pre_roll_samples + config.max_utterance_samples,
{
}

/// Where a frame is recorded and does not fit, the utterance is complete
/// at exactly its pre-roll and the most audio that the rules allow; what
/// is collected next is the pre-roll and the rest of the frame; and the
/// audio of the two is the audio collected before and the frame, sample
/// for sample.
pub proof fn lemma_forced_split(config: EndpointerConfig, model: VadModel, is_speech: bool)
    requires
        config.valid(),
        model.wf(config),
        model.has_frame(),
        model.phase.overflows(config, is_speech),
    ensures
        model.completes(config, is_speech) matches Some(utterance) && utterance.len()
            == config.pre_roll_samples + config.max_utterance_samples && model.step(
            config,
            is_speech,
        ).utterance.take(config.pre_roll_samples as int) == silence(
            config.pre_roll_samples as nat,
        ) && utterance.skip(config.pre_roll_samples as int) + model.step(
            config,
            is_speech,
        ).utterance.skip(config.pre_roll_samples as int) == model.utterance.skip(
            config.pre_roll_samples as int,
        ) + model.frame(),
{
    let pre_roll = config.pre_roll_samples as int;
    let utterance = model.completes(config, is_speech)->0;
    let next = model.step(config, is_speech).utterance;
    let fit = room(config, model.utterance);
    assert(next.take(pre_roll) =~= silence(pre_roll as nat));
    assert(utterance.skip(pre_roll) =~= model.utterance.skip(pre_roll) + model.frame().take(fit));
    assert(next.skip(pre_roll) =~= model.frame().skip(fit));
    assert(utterance.skip(pre_roll) + next.skip(pre_roll) =~= model.utterance.skip(pre_roll)
        + model.frame());
}

/// A frame leaves the collected utterance as the endpointer counts it:
/// the pre-roll, and as many samples as were accumulated.
pub proof fn lemma_step_keeps_wf(config: EndpointerConfig, model: VadModel, is_speech: bool)
    requires
        config.valid(),
        model.wf(config),
        model.has_frame(),
    ensures
        model.step(config, is_speech).wf(config),
{
    let pre_roll = config.pre_roll_samples as int;
    let next = model.step(config, is_speech);
    assert(model.utterance.take(pre_roll) == silence(pre_roll as nat));
    assert(next.utterance.take(pre_roll) =~= silence(pre_roll as nat));
}

/// As long as every recorded frame fits, the events that go to the
/// dispatcher are those of the endpointer's rules, one for one: a
/// `SpeechStart` for a `SpeechStart`, and for a `SpeechEnd(n)` a
/// `SpeechEnd` of the samples of that utterance which the ring took, no
/// more than `n`.
pub proof fn lemma_wire_follows_the_rules(
    config: EndpointerConfig,
    start: VadModel,
    results: Seq<bool>,
    events: Seq<VadActivity>,
)
    requires
        config.valid(),
        start.wf(config),
        wire(config, start, results, events),
        fits(config, start.phase, results),
    ensures
        start.after(config, results).wf(config),
        events.len() == events_of(config, start.phase, results).len(),
        forall|i: int|
            0 <= i < events.len() ==> ((#[trigger] events[i]) is SpeechStart <==> events_of(
                config,
                start.phase,
                results,
            )[i] is SpeechStart) && reported(events[i]) <= reported(
                events_of(config, start.phase, results)[i],
            ),
    decreases results.len(),
{
    if results.len() > 0 {
        let shorter = results.drop_last();
        let is_speech = results.last();
        let before = start.after(config, shorter);
        let ruled = events_of(config, start.phase, results);
        let earlier = events_of(config, start.phase, shorter);
        let last = sent_by(config, before.phase, is_speech);
        lemma_fits_drop_last(config, start.phase, results);
        lemma_after_follows_the_rules(config, start, shorter);
        lemma_events_of_push(config, start.phase, shorter, is_speech);
        assert(shorter.push(is_speech) =~= results);
        assert(ruled == earlier + last);
        let sent = before.completes(config, is_speech) is Some || event_of(
            before.status(config, is_speech),
        ) is Some;
        if sent {
            lemma_wire_follows_the_rules(config, start, shorter, events.drop_last());
            lemma_step_keeps_wf(config, before, is_speech);
            assert(last.len() == 1);
            assert(events =~= events.drop_last().push(events.last()));
            assert forall|i: int| 0 <= i < events.len() implies ((#[trigger] events[i])
                is SpeechStart <==> ruled[i] is SpeechStart) && reported(events[i]) <= reported(
                ruled[i],
            ) by {
                if i < earlier.len() {
                    assert(events[i] == events.drop_last()[i]);
                    assert(ruled[i] == earlier[i]);
                } else {
                    assert(ruled[i] == last[0]);
                }
            }
        } else {
            lemma_wire_follows_the_rules(config, start, shorter, events);
            lemma_step_keeps_wf(config, before, is_speech);
            assert(ruled =~= earlier);
        }
    }
}

/// A stream of silence, speech and silence sends one utterance to the
/// dispatcher, whatever the ring takes: where no utterance is open, any
/// number of frames without speech, `speech` frames of speech and a
/// closing run of frames without speech send exactly a `SpeechStart` and
/// then a `SpeechEnd`, which reports no more than the pre-roll, the
/// speech frames and the frames that lingered, as long as all of them fit
/// into one utterance.
pub proof fn lemma_wire_of_one_utterance(
    config: EndpointerConfig,
    start: VadModel,
    lead: nat,
    speech: nat,
    silence: nat,
    events: Seq<VadActivity>,
)
    requires
        config.valid(),
        start.wf(config),
        start.phase is Idle,
        speech >= 1,
        silence >= closing_run(config),
        samples_in(speech + lingering_frames(config, 0)) <= config.max_utterance_samples,
        wire(config, start, silence_speech_silence(lead, speech, silence), events),
    ensures
        events.len() == 2,
        events[0] == VadActivity::SpeechStart,
        events[1] matches VadActivity::SpeechEnd(samples) && samples <= config.reported(
            samples_in(speech + lingering_frames(config, 0)),
        ),
        start.after(config, silence_speech_silence(lead, speech, silence)).phase is Idle,
{
    let results = silence_speech_silence(lead, speech, silence);
    lemma_one_utterance_fits(config, lead, speech, silence);
    lemma_utterance_after_silence(config, lead, speech, silence);
    lemma_wire_follows_the_rules(config, start, results, events);
    lemma_after_follows_the_rules(config, start, results);
    let ruled = events_of(config, start.phase, results);
    assert(ruled[0] == VadActivity::SpeechStart);
    assert(events[0] is SpeechStart);
    assert(!(events[1] is SpeechStart));
    assert(reported(events[1]) <= reported(ruled[1]));
}

/// Samples that are staged behind frames do not change what the frames
/// give: the frames can be taken before the samples are staged or after.
pub proof fn lemma_feed_after(
    config: EndpointerConfig,
    start: VadModel,
    samples: Seq<i16>,
    results: Seq<bool>,
)
    requires
        results.len() * VAD_FRAME <= start.staged.len(),
    ensures
        start.after(config, results).staged.len() + results.len() * VAD_FRAME
            == start.staged.len(),
        start.feed(samples).after(config, results) == start.after(config, results).feed(samples),
    decreases results.len(),
{
    if results.len() > 0 {
        let shorter = results.drop_last();
        lemma_feed_after(config, start, samples, shorter);
        let before = start.after(config, shorter);
        let more = before.feed(samples);
        assert(more.frame() =~= before.frame());
        assert(more.staged.skip(VAD_FRAME as int) =~= before.staged.skip(VAD_FRAME as int)
            + samples);
    }
}

/// The events of frames stay what they are when more samples are staged
/// behind the frames.
pub proof fn lemma_wire_feed(
    config: EndpointerConfig,
    start: VadModel,
    samples: Seq<i16>,
    results: Seq<bool>,
    events: Seq<VadActivity>,
)
    requires
        wire(config, start, results, events),
    ensures
        results.len() * VAD_FRAME <= start.staged.len(),
        wire(config, start.feed(samples), results, events),
    decreases results.len(),
{
    if results.len() > 0 {
        let shorter = results.drop_last();
        let before = start.after(config, shorter);
        let sent = before.completes(config, results.last()) is Some || event_of(
            before.status(config, results.last()),
        ) is Some;
        if sent {
            lemma_wire_feed(config, start, samples, shorter, events.drop_last());
        } else {
            lemma_wire_feed(config, start, samples, shorter, events);
        }
        lemma_feed_after(config, start, samples, shorter);
        assert(before.feed(samples).frame() =~= before.frame());
    }
}

/// The events of one run of frames and of the run behind it are the
/// events of the two runs taken as one.
pub proof fn lemma_wire_concat(
    config: EndpointerConfig,
    start: VadModel,
    first: Seq<bool>,
    second: Seq<bool>,
    sent: Seq<VadActivity>,
    then: Seq<VadActivity>,
)
    requires
        wire(config, start, first, sent),
        wire(config, start.after(config, first), second, then),
    ensures
        wire(config, start, first + second, sent + then),
    decreases second.len(),
{
    if second.len() == 0 {
        assert(first + second =~= first);
        assert(sent + then =~= sent);
    } else {
        let middle = start.after(config, first);
        let before = middle.after(config, second.drop_last());
        assert((first + second).drop_last() =~= first + second.drop_last());
        lemma_after_concat(config, start, first, second.drop_last());
        let gives = before.completes(config, second.last()) is Some || event_of(
            before.status(config, second.last()),
        ) is Some;
        if gives {
            lemma_wire_concat(config, start, first, second.drop_last(), sent, then.drop_last());
            assert((sent + then).drop_last() =~= sent + then.drop_last());
            assert((sent + then).last() == then.last());
        } else {
            lemma_wire_concat(config, start, first, second.drop_last(), sent, then);
        }
    }
}

/// What two calls of `audio_loop` send, one after the other, is what one
/// call sends for the samples of both: the events of the frames of the
/// first call, then those of the second, whose samples were staged
/// behind what the first call left.
pub proof fn lemma_wire_over_calls(
    config: EndpointerConfig,
    start: VadModel,
    first: Seq<bool>,
    samples: Seq<i16>,
    second: Seq<bool>,
    sent: Seq<VadActivity>,
    then: Seq<VadActivity>,
)
    requires
        wire(config, start, first, sent),
        wire(config, start.after(config, first).feed(samples), second, then),
    ensures
        wire(config, start.feed(samples), first + second, sent + then),
        start.feed(samples).after(config, first + second) == start.after(config, first).feed(
            samples,
        ).after(config, second),
{
    lemma_wire_feed(config, start, samples, first, sent);
    lemma_feed_after(config, start, samples, first);
    lemma_wire_concat(config, start.feed(samples), first, second, sent, then);
    lemma_after_concat(config, start.feed(samples), first, second);
}

/// The frames are classified in the order in which they were staged: the
/// samples behind the frames taken are those that were staged behind
/// them, and the frame classified next is the one that was staged after
/// as many others.
pub proof fn lemma_frames_in_order(config: EndpointerConfig, start: VadModel, results: Seq<bool>)
    requires
        results.len() * VAD_FRAME <= start.staged.len(),
    ensures
        start.after(config, results).staged == start.staged.skip(results.len() * VAD_FRAME),
        (results.len() + 1) * VAD_FRAME <= start.staged.len() ==> start.after(
            config,
            results,
        ).frame() == start.frame_at(results.len() as int),
    decreases results.len(),
{
    if results.len() > 0 {
        lemma_frames_in_order(config, start, results.drop_last());
        let before = start.after(config, results.drop_last());
        assert(before.staged.skip(VAD_FRAME as int) =~= start.staged.skip(
            results.len() * VAD_FRAME,
        ));
    }
    if (results.len() + 1) * VAD_FRAME <= start.staged.len() {
        assert(start.staged.skip(results.len() * VAD_FRAME).take(VAD_FRAME as int)
            =~= start.frame_at(results.len() as int));
    }
}

/// The parts of a sequence, one behind the other.
pub open spec fn joined<T>(parts: Seq<Seq<T>>) -> Seq<T>
    decreases parts.len(),
{
    if parts.len() == 0 {
        Seq::empty()
    } else {
        joined(parts.drop_last()) + parts.last()
    }
}

/// The model after calls of `audio_loop`, one for each chunk of samples
/// that was staged, with the results that the call used.
pub open spec fn after_calls(
    config: EndpointerConfig,
    start: VadModel,
    chunks: Seq<Seq<i16>>,
    results: Seq<Seq<bool>>,
) -> VadModel
    decreases chunks.len(),
{
    if chunks.len() == 0 {
        start
    } else {
        after_calls(config, start, chunks.drop_last(), results.drop_last()).feed(
            chunks.last(),
        ).after(config, results.last())
    }
}

/// The events of calls of `audio_loop`, call by call: each call sends
/// the events of the frames that it took, from where the calls before
/// left the model.
pub open spec fn wire_of_calls(
    config: EndpointerConfig,
    start: VadModel,
    chunks: Seq<Seq<i16>>,
    results: Seq<Seq<bool>>,
    events: Seq<Seq<VadActivity>>,
) -> bool
    decreases chunks.len(),
{
    &&& chunks.len() == results.len()
    &&& chunks.len() == events.len()
    &&& chunks.len() > 0 ==> {
        &&& wire_of_calls(
            config,
            start,
            chunks.drop_last(),
            results.drop_last(),
            events.drop_last(),
        )
        &&& wire(
            config,
            after_calls(config, start, chunks.drop_last(), results.drop_last()).feed(
                chunks.last(),
            ),
            results.last(),
            events.last(),
        )
    }
}

/// However a stream is cut into chunks, the calls of `audio_loop` send
/// what one call sends for the whole stream, and leave the model where
/// that call leaves it.
pub proof fn lemma_chunks_do_not_matter(
    config: EndpointerConfig,
    start: VadModel,
    chunks: Seq<Seq<i16>>,
    results: Seq<Seq<bool>>,
    events: Seq<Seq<VadActivity>>,
)
    requires
        wire_of_calls(config, start, chunks, results, events),
    ensures
        wire(config, start.feed(joined(chunks)), joined(results), joined(events)),
        after_calls(config, start, chunks, results) == start.feed(joined(chunks)).after(
            config,
            joined(results),
        ),
    decreases chunks.len(),
{
    if chunks.len() == 0 {
        assert(start.feed(joined(chunks)) == start) by {
            assert(start.staged + joined(chunks) =~= start.staged);
        }
    } else {
        let earlier = start.feed(joined(chunks.drop_last()));
        lemma_chunks_do_not_matter(
            config,
            start,
            chunks.drop_last(),
            results.drop_last(),
            events.drop_last(),
        );
        lemma_wire_over_calls(
            config,
            earlier,
            joined(results.drop_last()),
            chunks.last(),
            results.last(),
            joined(events.drop_last()),
            events.last(),
        );
        assert(earlier.feed(chunks.last()) == start.feed(joined(chunks))) by {
            assert((start.staged + joined(chunks.drop_last())) + chunks.last() =~= start.staged
                + joined(chunks));
        }
    }
}

/// A stream of silence, speech and silence sends one utterance to the
/// dispatcher however it is cut into chunks and whatever the ring takes:
/// where no utterance is open and the results of all the calls, one
/// behind the other, are any number of frames without speech, `speech`
/// frames of speech and a closing run of frames without speech, the
/// events of all the calls are exactly a `SpeechStart` and then a
/// `SpeechEnd`, which reports no more than the pre-roll, the speech
/// frames and the frames that lingered, as long as all of them fit into
/// one utterance.
pub proof fn lemma_one_utterance_over_calls(
    config: EndpointerConfig,
    start: VadModel,
    chunks: Seq<Seq<i16>>,
    results: Seq<Seq<bool>>,
    events: Seq<Seq<VadActivity>>,
    lead: nat,
    speech: nat,
    silence: nat,
)
    requires
        config.valid(),
        start.wf(config),
        start.phase is Idle,
        speech >= 1,
        silence >= closing_run(config),
        samples_in(speech + lingering_frames(config, 0)) <= config.max_utterance_samples,
        wire_of_calls(config, start, chunks, results, events),
        joined(results) == silence_speech_silence(lead, speech, silence),
    ensures
        joined(events).len() == 2,
        joined(events)[0] == VadActivity::SpeechStart,
        joined(events)[1] matches VadActivity::SpeechEnd(samples) && samples <= config.reported(
            samples_in(speech + lingering_frames(config, 0)),
        ),
        after_calls(config, start, chunks, results).phase is Idle,
{
    lemma_chunks_do_not_matter(config, start, chunks, results, events);
    let whole = start.feed(joined(chunks));
    assert(whole.wf(config));
    lemma_wire_of_one_utterance(config, whole, lead, speech, silence, joined(events));
}

} // verus!

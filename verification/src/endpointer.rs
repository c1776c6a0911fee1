use crate::vad::{NSamples, VadActivity, VadStatus, VAD_FRAME};
use crate::whisper::{MAX_WHISPER_FRAME, WHISPER_PREPEND_SILENCE};
use vstd::prelude::*;

verus! {

/// The constants of the endpointing rules.
#[derive(Clone, Copy, Debug)]
pub struct EndpointerConfig {
    /// Length of the run of non-speech frames that closes an utterance.
    pub end_threshold_frames: u64,
    /// Longest run of non-speech frames that is still recorded.
    pub linger_threshold_frames: u64,
    /// Samples of silence that stand before the audio of each utterance.
    pub pre_roll_samples: usize,
    /// Most samples of audio that one utterance holds after its pre-roll.
    pub max_utterance_samples: usize,
    /// Sample rate, in hertz, of the frames that are classified. It is
    /// kept with the rules for the caller. The endpointer counts frames
    /// and samples, not time, and nothing in the library reads the field:
    /// the library works at the rate `SAMPLE_RATE`, which is the value
    /// of the standard rules.
    pub target_sample_rate: u32,
}

impl EndpointerConfig {
    /// A frame fits into an empty utterance, and a full utterance with its
    /// pre-roll can be counted.
    pub open spec fn valid(self) -> bool {
        &&& VAD_FRAME <= self.max_utterance_samples
        &&& self.pre_roll_samples + self.max_utterance_samples <= usize::MAX
    }

    /// 240 ms close an utterance, 90 ms of a pause are recorded, 700 ms of
    /// pre-roll, thirty seconds in all, at 16 kHz.
    pub open spec fn spec_standard() -> EndpointerConfig {
        EndpointerConfig {
            end_threshold_frames: 8,
            linger_threshold_frames: 3,
            pre_roll_samples: WHISPER_PREPEND_SILENCE,
            max_utterance_samples: MAX_WHISPER_FRAME,
            target_sample_rate: 16000,
        }
    }

    pub fn standard() -> (config: EndpointerConfig)
        ensures
            config == Self::spec_standard(),
            config.valid(),
    {
        EndpointerConfig {
            end_threshold_frames: 8,
            linger_threshold_frames: 3,
            pre_roll_samples: WHISPER_PREPEND_SILENCE,
            max_utterance_samples: MAX_WHISPER_FRAME,
            target_sample_rate: 16000,
        }
    }

    pub fn is_valid(&self) -> (ok: bool)
        ensures
            ok == self.valid(),
    {
        VAD_FRAME <= self.max_utterance_samples && self.pre_roll_samples <= usize::MAX
            - self.max_utterance_samples
    }

    /// Samples of a complete utterance that holds `accumulated` samples of
    /// audio: the pre-roll counts.
    pub open spec fn reported(self, accumulated: nat) -> nat {
        self.pre_roll_samples as nat + accumulated
    }
}

/// The endpointing state, as the rules see it: no utterance is open, or one
/// is, with the length of the current run of non-speech frames and the
/// samples of audio recorded for it.
pub ghost enum Phase {
    Idle,
    Listening { silence_run: nat, accumulated: nat },
}

/// What the endpointer decided on one frame.
#[derive(Clone, Copy, Debug, PartialEq, Eq, Structural)]
pub struct Verdict {
    /// `SpeechStart` and `SpeechEnd` are the events of the frame; `Silence`
    /// and `Speech` say only whether an utterance is open.
    pub status: VadStatus,
    /// The frame belongs to the utterance and is appended to its buffer.
    pub record: bool,
    /// `Some(n)`: the frame does not fit. The buffer is filled up, is
    /// complete with `n` samples, and the rest of the frame opens the next
    /// segment of the same utterance.
    pub forced: Option<NSamples>,
}

impl Phase {
    pub open spec fn wf(self, config: EndpointerConfig) -> bool {
        match self {
            Phase::Idle => true,
            Phase::Listening { silence_run, accumulated } => {
                &&& silence_run == 0 || silence_run < config.end_threshold_frames
                &&& accumulated <= config.max_utterance_samples
            },
        }
    }

    /// The run of non-speech frames that the next frame ends, if it is one.
    pub open spec fn next_run(self) -> nat {
        match self {
            Phase::Idle => 0,
            Phase::Listening { silence_run, .. } => silence_run + 1,
        }
    }

    /// The next frame closes the utterance.
    pub open spec fn closes(self, config: EndpointerConfig, is_speech: bool) -> bool {
        self is Listening && !is_speech && self.next_run() >= config.end_threshold_frames
    }

    /// The next frame is recorded.
    pub open spec fn records(self, config: EndpointerConfig, is_speech: bool) -> bool {
        match self {
            Phase::Idle => is_speech,
            Phase::Listening { .. } => !self.closes(config, is_speech) && (is_speech
                || self.next_run() <= config.linger_threshold_frames),
        }
    }

    /// The next frame is recorded and does not fit.
    pub open spec fn overflows(self, config: EndpointerConfig, is_speech: bool) -> bool {
        match self {
            Phase::Idle => false,
            Phase::Listening { accumulated, .. } => self.records(config, is_speech) && accumulated
                + VAD_FRAME > config.max_utterance_samples,
        }
    }

    /// The state after one frame.
    pub open spec fn step(self, config: EndpointerConfig, is_speech: bool) -> Phase {
        match self {
            Phase::Idle => if is_speech {
                Phase::Listening { silence_run: 0, accumulated: VAD_FRAME as nat }
            } else {
                Phase::Idle
            },
            Phase::Listening { silence_run, accumulated } => if self.closes(config, is_speech) {
                Phase::Idle
            } else {
                Phase::Listening {
                    silence_run: if is_speech {
                        0
                    } else {
                        silence_run + 1
                    },
                    accumulated: if !self.records(config, is_speech) {
                        accumulated
                    } else if self.overflows(config, is_speech) {
                        (accumulated + VAD_FRAME - config.max_utterance_samples) as nat
                    } else {
                        accumulated + VAD_FRAME as nat
                    },
                }
            },
        }
    }

    /// The decision on one frame.
    pub open spec fn verdict(self, config: EndpointerConfig, is_speech: bool) -> Verdict {
        Verdict {
            status: match self {
                Phase::Idle => if is_speech {
                    VadStatus::SpeechStart
                } else {
                    VadStatus::Silence
                },
                Phase::Listening { accumulated, .. } => if self.closes(config, is_speech) {
                    VadStatus::SpeechEnd(config.reported(accumulated) as usize)
                } else {
                    VadStatus::Speech
                },
            },
            record: self.records(config, is_speech),
            forced: if self.overflows(config, is_speech) {
                Some(config.reported(config.max_utterance_samples as nat) as usize)
            } else {
                None
            },
        }
    }
}

/// The event that a status stands for, if it is one.
pub open spec fn event_of(status: VadStatus) -> Option<VadActivity> {
    match status {
        VadStatus::SpeechStart => Some(VadActivity::SpeechStart),
        VadStatus::SpeechEnd(n) => Some(VadActivity::SpeechEnd(n)),
        _ => None,
    }
}

/// The state after a sequence of classification results.
pub open spec fn phase_after(config: EndpointerConfig, start: Phase, results: Seq<bool>) -> Phase
    decreases results.len(),
{
    if results.len() == 0 {
        start
    } else {
        phase_after(config, start.step(config, results[0]), results.drop_first())
    }
}

/// The events that a sequence of classification results gives, in order.
pub open spec fn events_of(config: EndpointerConfig, start: Phase, results: Seq<bool>) -> Seq<
    VadActivity,
>
    decreases results.len(),
{
    if results.len() == 0 {
        Seq::empty()
    } else {
        let rest = events_of(config, start.step(config, results[0]), results.drop_first());
        match event_of(start.verdict(config, results[0]).status) {
            Some(event) => seq![event] + rest,
            None => rest,
        }
    }
}

/// Samples in that many frames.
pub open spec fn samples_in(frames: nat) -> nat {
    frames * (VAD_FRAME as nat)
}

/// No two neighbours in the sequence are of the same kind.
pub open spec fn alternating(events: Seq<VadActivity>) -> bool {
    forall|i: int|
        0 <= i < events.len() - 1 ==> ((#[trigger] events[i]) is SpeechStart) != (events[i
            + 1] is SpeechStart)
}

/// `speech` frames classified as speech, then `silence` frames that are not.
pub open spec fn speech_then_silence(speech: nat, silence: nat) -> Seq<bool> {
    Seq::new(speech + silence, |i: int| i < speech)
}

/// Length of the run of non-speech frames that closes an utterance: a run
/// has at least one frame.
pub open spec fn closing_run(config: EndpointerConfig) -> nat {
    if config.end_threshold_frames == 0 {
        1
    } else {
        config.end_threshold_frames as nat
    }
}

/// Number of non-speech frames that are recorded after `run` of them,
/// before the run closes the utterance.
pub open spec fn lingering_frames(config: EndpointerConfig, run: nat) -> nat {
    let last = if config.linger_threshold_frames < closing_run(config) - 1 {
        config.linger_threshold_frames as int
    } else {
        closing_run(config) - 1
    };
    if last > run {
        (last - run) as nat
    } else {
        0
    }
}

/// Whatever the classification results are, the endpointer never emits two
/// `SpeechStart` nor two `SpeechEnd` in a row, and its first event is a
/// `SpeechStart` exactly if no utterance was open.
pub proof fn lemma_events_alternate(config: EndpointerConfig, start: Phase, results: Seq<bool>)
    ensures
        alternating(events_of(config, start, results)),
        events_of(config, start, results).len() > 0 ==> (events_of(config, start, results)[0]
            is SpeechStart <==> start is Idle),
    decreases results.len(),
{
    if results.len() > 0 {
        let next = start.step(config, results[0]);
        let rest = events_of(config, next, results.drop_first());
        lemma_events_alternate(config, next, results.drop_first());
        match event_of(start.verdict(config, results[0]).status) {
            Some(event) => {
                let all = seq![event] + rest;
                assert(all == events_of(config, start, results));
                assert(all[0] == event);
                assert forall|i: int| 0 <= i < all.len() - 1 implies ((#[trigger] all[i])
                    is SpeechStart) != (all[i + 1] is SpeechStart) by {
                    assert(all[i + 1] == rest[i]);
                    if i > 0 {
                        assert(all[i] == rest[i - 1]);
                    }
                }
            },
            None => {},
        }
    }
}

/// A stream without speech gives no event and leaves no utterance open.
pub proof fn lemma_silence_is_eventless(config: EndpointerConfig, results: Seq<bool>)
    requires
        forall|i: int| 0 <= i < results.len() ==> !results[i],
    ensures
        events_of(config, Phase::Idle, results) == Seq::<VadActivity>::empty(),
        phase_after(config, Phase::Idle, results) == Phase::Idle,
    decreases results.len(),
{
    if results.len() > 0 {
        assert(!results[0]);
        let rest = results.drop_first();
        assert forall|i: int| 0 <= i < rest.len() implies !rest[i] by {
            assert(rest[i] == results[i + 1]);
        }
        lemma_silence_is_eventless(config, rest);
    }
}

/// Speech frames that fit keep the utterance open and silent: they end
/// every pause and are all recorded.
pub proof fn lemma_speech_is_recorded(
    config: EndpointerConfig,
    run: nat,
    accumulated: nat,
    speech: nat,
    silence: nat,
)
    requires
        accumulated + samples_in(speech) <= config.max_utterance_samples,
    ensures
        events_of(
            config,
            Phase::Listening { silence_run: run, accumulated },
            speech_then_silence(speech, silence),
        ) == events_of(
            config,
            Phase::Listening {
                silence_run: if speech == 0 {
                    run
                } else {
                    0
                },
                accumulated: accumulated + samples_in(speech),
            },
            speech_then_silence(0, silence),
        ),
        phase_after(
            config,
            Phase::Listening { silence_run: run, accumulated },
            speech_then_silence(speech, silence),
        ) == phase_after(
            config,
            Phase::Listening {
                silence_run: if speech == 0 {
                    run
                } else {
                    0
                },
                accumulated: accumulated + samples_in(speech),
            },
            speech_then_silence(0, silence),
        ),
    decreases speech,
{
    if speech > 0 {
        let start = Phase::Listening { silence_run: run, accumulated };
        let results = speech_then_silence(speech, silence);
        assert(results[0]);
        assert(results.drop_first() =~= speech_then_silence((speech - 1) as nat, silence));
        assert(start.step(config, true) == Phase::Listening {
            silence_run: 0,
            accumulated: accumulated + VAD_FRAME as nat,
        });
        lemma_speech_is_recorded(
            config,
            0,
            accumulated + VAD_FRAME as nat,
            (speech - 1) as nat,
            silence,
        );
    }
}

/// After `run` non-speech frames in an open utterance, the non-speech
/// frames that complete the closing run give exactly one event, the
/// `SpeechEnd`; it counts the pre-roll, what was recorded before, and the
/// frames that lingered.
pub proof fn lemma_silence_closes(
    config: EndpointerConfig,
    run: nat,
    accumulated: nat,
    silence: nat,
)
    requires
        config.valid(),
        run < closing_run(config),
        silence >= closing_run(config) - run,
        accumulated + samples_in(lingering_frames(config, run)) <= config.max_utterance_samples,
    ensures
        events_of(
            config,
            Phase::Listening { silence_run: run, accumulated },
            speech_then_silence(0, silence),
        ) == seq![
            VadActivity::SpeechEnd(
                config.reported(accumulated + samples_in(lingering_frames(config, run))) as usize,
            ),
        ],
        phase_after(
            config,
            Phase::Listening { silence_run: run, accumulated },
            speech_then_silence(0, silence),
        ) == Phase::Idle,
    decreases closing_run(config) - run,
{
    let start = Phase::Listening { silence_run: run, accumulated };
    let results = speech_then_silence(0, silence);
    let rest = results.drop_first();
    assert(!results[0]);
    assert(rest =~= speech_then_silence(0, (silence - 1) as nat));
    if start.closes(config, false) {
        lemma_silence_is_eventless(config, rest);
        assert(lingering_frames(config, run) == 0);
        let end = VadActivity::SpeechEnd(config.reported(accumulated) as usize);
        assert(events_of(config, start, results) == seq![end] + Seq::<VadActivity>::empty());
        assert(seq![end] + Seq::<VadActivity>::empty() =~= seq![end]);
    } else {
        let recorded = start.records(config, false);
        let kept = if recorded {
            accumulated + VAD_FRAME as nat
        } else {
            accumulated
        };
        assert(recorded ==> lingering_frames(config, run) == lingering_frames(config, run + 1)
            + 1);
        assert(!recorded ==> lingering_frames(config, run) == 0 && lingering_frames(
            config,
            run + 1,
        ) == 0);
        assert(start.step(config, false) == Phase::Listening {
            silence_run: run + 1,
            accumulated: kept,
        });
        lemma_silence_closes(config, run + 1, kept, (silence - 1) as nat);
    }
}

/// From silence, `speech` frames of speech and then a closing run of
/// non-speech frames give exactly `SpeechStart` and `SpeechEnd(n)`, where
/// `n` counts the pre-roll, the speech frames and the frames that
/// lingered, as long as all of them fit into one utterance.
pub proof fn lemma_single_utterance(config: EndpointerConfig, speech: nat, silence: nat)
    requires
        config.valid(),
        speech >= 1,
        silence >= closing_run(config),
        samples_in(speech + lingering_frames(config, 0)) <= config.max_utterance_samples,
    ensures
        events_of(config, Phase::Idle, speech_then_silence(speech, silence)) == seq![
            VadActivity::SpeechStart,
            VadActivity::SpeechEnd(
                config.reported(samples_in(speech + lingering_frames(config, 0))) as usize,
            ),
        ],
        phase_after(config, Phase::Idle, speech_then_silence(speech, silence)) == Phase::Idle,
{
    let results = speech_then_silence(speech, silence);
    let opened = Phase::Listening { silence_run: 0, accumulated: VAD_FRAME as nat };
    let recorded = samples_in(speech);
    let end = VadActivity::SpeechEnd(
        config.reported(samples_in(speech + lingering_frames(config, 0))) as usize,
    );
    assert(results[0]);
    assert(results.drop_first() =~= speech_then_silence((speech - 1) as nat, silence));
    assert(Phase::Idle.step(config, true) == opened);
    lemma_speech_is_recorded(config, 0, VAD_FRAME as nat, (speech - 1) as nat, silence);
    lemma_silence_closes(config, 0, recorded, silence);
    assert(events_of(config, Phase::Idle, results) == seq![VadActivity::SpeechStart] + seq![end]);
    assert(seq![VadActivity::SpeechStart] + seq![end] =~= seq![VadActivity::SpeechStart, end]);
}

/// `lead` frames that are not speech, then `speech` frames of speech, then
/// `silence` frames that are not.
pub open spec fn silence_speech_silence(lead: nat, speech: nat, silence: nat) -> Seq<bool> {
    speech_then_silence(0, lead) + speech_then_silence(speech, silence)
}

/// Frames without speech before the first speech give no event and leave
/// everything as it was.
pub proof fn lemma_leading_silence_is_skipped(
    config: EndpointerConfig,
    lead: nat,
    rest: Seq<bool>,
)
    ensures
        events_of(config, Phase::Idle, speech_then_silence(0, lead) + rest) == events_of(
            config,
            Phase::Idle,
            rest,
        ),
        phase_after(config, Phase::Idle, speech_then_silence(0, lead) + rest) == phase_after(
            config,
            Phase::Idle,
            rest,
        ),
    decreases lead,
{
    let all = speech_then_silence(0, lead) + rest;
    if lead == 0 {
        assert(all =~= rest);
    } else {
        assert(!all[0]);
        assert(all.drop_first() =~= speech_then_silence(0, (lead - 1) as nat) + rest);
        lemma_leading_silence_is_skipped(config, (lead - 1) as nat, rest);
    }
}

/// A stream of silence, speech and silence is one utterance: from
/// silence, any number of frames without speech, `speech` frames of
/// speech and a closing run of frames without speech give exactly
/// `SpeechStart` and then `SpeechEnd(n)`, where `n` counts the pre-roll,
/// the speech frames and the frames that lingered, as long as all of them
/// fit into one utterance. Nothing is sent for the frames before the
/// speech.
pub proof fn lemma_utterance_after_silence(
    config: EndpointerConfig,
    lead: nat,
    speech: nat,
    silence: nat,
)
    requires
        config.valid(),
        speech >= 1,
        silence >= closing_run(config),
        samples_in(speech + lingering_frames(config, 0)) <= config.max_utterance_samples,
    ensures
        events_of(config, Phase::Idle, speech_then_silence(0, lead)) == Seq::<VadActivity>::empty(),
        events_of(config, Phase::Idle, silence_speech_silence(lead, speech, silence)) == seq![
            VadActivity::SpeechStart,
            VadActivity::SpeechEnd(
                config.reported(samples_in(speech + lingering_frames(config, 0))) as usize,
            ),
        ],
        phase_after(config, Phase::Idle, silence_speech_silence(lead, speech, silence))
            == Phase::Idle,
{
    lemma_silence_is_eventless(config, speech_then_silence(0, lead));
    lemma_leading_silence_is_skipped(config, lead, speech_then_silence(speech, silence));
    lemma_single_utterance(config, speech, silence);
}

/// One non-speech frame after speech does not close the utterance where
/// the closing run is longer, and the speech frame that follows ends the
/// pause.
pub proof fn lemma_pause_is_tolerated(config: EndpointerConfig, accumulated: nat)
    requires
        config.end_threshold_frames > 1,
    ensures
        ({
            let open = Phase::Listening { silence_run: 0, accumulated };
            &&& event_of(open.verdict(config, false).status) is None
            &&& open.step(config, false) == Phase::Listening { silence_run: 1, accumulated: open.step(config, false)->accumulated }
            &&& event_of(open.step(config, false).verdict(config, true).status) is None
            &&& open.step(config, false).step(config, true) matches Phase::Listening {
                silence_run,
                ..
            } && silence_run == 0
        }),
{
}

/// One more result at the end of a sequence is one more step from the
/// state behind the sequence.
pub proof fn lemma_phase_after_push(
    config: EndpointerConfig,
    start: Phase,
    results: Seq<bool>,
    is_speech: bool,
)
    ensures
        phase_after(config, start, results.push(is_speech)) == phase_after(
            config,
            start,
            results,
        ).step(config, is_speech),
    decreases results.len(),
{
    let longer = results.push(is_speech);
    if results.len() == 0 {
        assert(longer.drop_first() =~= Seq::<bool>::empty());
        assert(phase_after(config, start.step(config, is_speech), longer.drop_first())
            == start.step(config, is_speech));
    } else {
        assert(longer[0] == results[0]);
        assert(longer.drop_first() =~= results.drop_first().push(is_speech));
        lemma_phase_after_push(
            config,
            start.step(config, results[0]),
            results.drop_first(),
            is_speech,
        );
    }
}

/// The event of one frame, as a sequence of one event or of none.
pub open spec fn sent_by(config: EndpointerConfig, phase: Phase, is_speech: bool) -> Seq<
    VadActivity,
> {
    match event_of(phase.verdict(config, is_speech).status) {
        Some(event) => seq![event],
        None => Seq::empty(),
    }
}

/// One more result at the end of a sequence adds the event of that frame,
/// if it gives one.
pub proof fn lemma_events_of_push(
    config: EndpointerConfig,
    start: Phase,
    results: Seq<bool>,
    is_speech: bool,
)
    ensures
        events_of(config, start, results.push(is_speech)) == events_of(config, start, results)
            + sent_by(config, phase_after(config, start, results), is_speech),
    decreases results.len(),
{
    let longer = results.push(is_speech);
    let last = sent_by(config, phase_after(config, start, results), is_speech);
    if results.len() == 0 {
        assert(longer.drop_first() =~= Seq::<bool>::empty());
        assert(longer[0] == is_speech);
        assert(events_of(config, start.step(config, is_speech), longer.drop_first())
            == Seq::<VadActivity>::empty());
        assert(events_of(config, start, longer) =~= last);
        assert(events_of(config, start, results) + last =~= last);
    } else {
        let next = start.step(config, results[0]);
        assert(longer[0] == results[0]);
        assert(longer.drop_first() =~= results.drop_first().push(is_speech));
        lemma_events_of_push(config, next, results.drop_first(), is_speech);
        let first = sent_by(config, start, results[0]);
        let middle = events_of(config, next, results.drop_first());
        assert(events_of(config, start, results) =~= first + middle);
        assert(events_of(config, start, longer) =~= first + (middle + last));
        assert(first + (middle + last) =~= (first + middle) + last);
    }
}

/// Every frame of the sequence that is recorded fits into the utterance.
pub open spec fn fits(config: EndpointerConfig, start: Phase, results: Seq<bool>) -> bool
    decreases results.len(),
{
    results.len() == 0 || (!start.overflows(config, results[0]) && fits(
        config,
        start.step(config, results[0]),
        results.drop_first(),
    ))
}

/// Where every frame of a sequence fits, every frame but the last fits,
/// and the last fits behind them.
pub proof fn lemma_fits_drop_last(config: EndpointerConfig, start: Phase, results: Seq<bool>)
    requires
        results.len() > 0,
        fits(config, start, results),
    ensures
        fits(config, start, results.drop_last()),
        !phase_after(config, start, results.drop_last()).overflows(config, results.last()),
    decreases results.len(),
{
    if results.len() == 1 {
        assert(results.drop_last() =~= Seq::<bool>::empty());
        assert(results.last() == results[0]);
    } else {
        let rest = results.drop_first();
        lemma_fits_drop_last(config, start.step(config, results[0]), rest);
        assert(results.drop_last().drop_first() =~= rest.drop_last());
        assert(results.drop_last()[0] == results[0]);
        assert(rest.last() == results.last());
    }
}

/// Frames without speech fit wherever no utterance is open.
pub proof fn lemma_silence_fits_idle(config: EndpointerConfig, silence: nat)
    ensures
        fits(config, Phase::Idle, speech_then_silence(0, silence)),
    decreases silence,
{
    if silence > 0 {
        let results = speech_then_silence(0, silence);
        assert(!results[0]);
        assert(results.drop_first() =~= speech_then_silence(0, (silence - 1) as nat));
        lemma_silence_fits_idle(config, (silence - 1) as nat);
    }
}

/// Frames without speech fit behind `run` of them in an open utterance,
/// where the frames that linger do.
pub proof fn lemma_silence_fits(
    config: EndpointerConfig,
    run: nat,
    accumulated: nat,
    silence: nat,
)
    requires
        accumulated + samples_in(lingering_frames(config, run)) <= config.max_utterance_samples,
    ensures
        fits(
            config,
            Phase::Listening { silence_run: run, accumulated },
            speech_then_silence(0, silence),
        ),
    decreases silence,
{
    if silence > 0 {
        let start = Phase::Listening { silence_run: run, accumulated };
        let results = speech_then_silence(0, silence);
        assert(!results[0]);
        assert(results.drop_first() =~= speech_then_silence(0, (silence - 1) as nat));
        if start.closes(config, false) {
            lemma_silence_fits_idle(config, (silence - 1) as nat);
        } else {
            let recorded = start.records(config, false);
            let kept = if recorded {
                accumulated + VAD_FRAME as nat
            } else {
                accumulated
            };
            assert(recorded ==> lingering_frames(config, run) == lingering_frames(
                config,
                run + 1,
            ) + 1);
            assert(!recorded ==> lingering_frames(config, run + 1) == 0);
            assert(start.step(config, false) == Phase::Listening {
                silence_run: run + 1,
                accumulated: kept,
            });
            lemma_silence_fits(config, run + 1, kept, (silence - 1) as nat);
        }
    }
}

/// Frames of speech and the frames without speech behind them fit into
/// an open utterance, where the speech and the frames that linger do.
pub proof fn lemma_speech_fits(
    config: EndpointerConfig,
    run: nat,
    accumulated: nat,
    speech: nat,
    silence: nat,
)
    requires
        speech >= 1,
        accumulated + samples_in(speech + lingering_frames(config, 0))
            <= config.max_utterance_samples,
    ensures
        fits(
            config,
            Phase::Listening { silence_run: run, accumulated },
            speech_then_silence(speech, silence),
        ),
    decreases speech,
{
    let start = Phase::Listening { silence_run: run, accumulated };
    let results = speech_then_silence(speech, silence);
    assert(results[0]);
    assert(results.drop_first() =~= speech_then_silence((speech - 1) as nat, silence));
    assert(start.step(config, true) == Phase::Listening {
        silence_run: 0,
        accumulated: accumulated + VAD_FRAME as nat,
    });
    if speech == 1 {
        lemma_silence_fits(config, 0, accumulated + VAD_FRAME as nat, silence);
    } else {
        lemma_speech_fits(
            config,
            0,
            accumulated + VAD_FRAME as nat,
            (speech - 1) as nat,
            silence,
        );
    }
}

/// A stream of silence, speech and silence fits into one utterance where
/// its speech and the frames that linger do.
pub proof fn lemma_one_utterance_fits(
    config: EndpointerConfig,
    lead: nat,
    speech: nat,
    silence: nat,
)
    requires
        speech >= 1,
        samples_in(speech + lingering_frames(config, 0)) <= config.max_utterance_samples,
    ensures
        fits(config, Phase::Idle, silence_speech_silence(lead, speech, silence)),
    decreases lead,
{
    let results = silence_speech_silence(lead, speech, silence);
    if lead == 0 {
        let rest = speech_then_silence(speech, silence);
        assert(results =~= rest);
        assert(rest[0]);
        assert(rest.drop_first() =~= speech_then_silence((speech - 1) as nat, silence));
        if speech == 1 {
            lemma_silence_fits(config, 0, VAD_FRAME as nat, silence);
        } else {
            lemma_speech_fits(config, 0, VAD_FRAME as nat, (speech - 1) as nat, silence);
        }
    } else {
        assert(!results[0]);
        assert(results.drop_first() =~= silence_speech_silence(
            (lead - 1) as nat,
            speech,
            silence,
        ));
        lemma_one_utterance_fits(config, (lead - 1) as nat, speech, silence);
    }
}

/// The frame indices and the sample count that the endpointer keeps. The
/// indices count from a frame of the open utterance; only their distance
/// enters the rules.
#[derive(Clone, Copy, Debug)]
pub struct EndpointerState {
    pub current_frame_index: u64,
    pub last_speech_frame_index: Option<u64>,
    pub accumulated_speech_samples: usize,
}

impl EndpointerState {
    pub open spec fn empty() -> EndpointerState {
        EndpointerState {
            current_frame_index: 0,
            last_speech_frame_index: None,
            accumulated_speech_samples: 0,
        }
    }

    pub open spec fn phase(self) -> Phase {
        match self.last_speech_frame_index {
            None => Phase::Idle,
            Some(last) => Phase::Listening {
                silence_run: (self.current_frame_index - last) as nat,
                accumulated: self.accumulated_speech_samples as nat,
            },
        }
    }

    pub open spec fn wf(self, config: EndpointerConfig) -> bool {
        &&& self.phase().wf(config)
        &&& match self.last_speech_frame_index {
            None => self == Self::empty(),
            Some(last) => last <= self.current_frame_index,
        }
    }

    /// The index of the next frame of an open utterance. It is the
    /// successor of the current one; where that does not exist, both
    /// indices are first moved down by the index of the last speech frame.
    pub open spec fn next_index(self) -> u64
        recommends
            self.last_speech_frame_index is Some,
    {
        if self.current_frame_index < u64::MAX {
            (self.current_frame_index + 1) as u64
        } else {
            (self.current_frame_index - self.last_speech_frame_index->0 + 1) as u64
        }
    }

    /// The index of the last speech frame, as the next frame finds it.
    pub open spec fn carried_last(self) -> u64
        recommends
            self.last_speech_frame_index is Some,
    {
        if self.current_frame_index < u64::MAX {
            self.last_speech_frame_index->0
        } else {
            0
        }
    }

    /// The fields after one frame.
    pub open spec fn step(self, config: EndpointerConfig, is_speech: bool) -> EndpointerState {
        match self.phase().step(config, is_speech) {
            Phase::Idle => Self::empty(),
            Phase::Listening { accumulated, .. } => EndpointerState {
                current_frame_index: if self.last_speech_frame_index is Some {
                    self.next_index()
                } else {
                    self.current_frame_index
                },
                last_speech_frame_index: Some(
                    if self.last_speech_frame_index is None {
                        self.current_frame_index
                    } else if is_speech {
                        self.next_index()
                    } else {
                        self.carried_last()
                    },
                ),
                accumulated_speech_samples: accumulated as usize,
            },
        }
    }
}

/// The hysteresis state machine that finds where utterances start and end.
pub struct Endpointer {
    config: EndpointerConfig,
    state: EndpointerState,
}

impl View for Endpointer {
    type V = Phase;

    closed spec fn view(&self) -> Phase {
        self.state.phase()
    }
}

impl Endpointer {
    pub closed spec fn config(&self) -> EndpointerConfig {
        self.config
    }

    pub closed spec fn state(&self) -> EndpointerState {
        self.state
    }

    pub open spec fn wf(&self) -> bool {
        &&& self.config().valid()
        &&& self.state().wf(self.config())
        &&& self@ == self.state().phase()
    }

    /// An endpointer with no utterance open; `None` where the
    /// configuration is not valid.
    pub fn new(config: EndpointerConfig) -> (made: Option<Endpointer>)
        ensures
            made.is_some() == config.valid(),
            made matches Some(e) ==> e.wf() && e.config() == config && e.state()
                == EndpointerState::empty() && e@ == Phase::Idle,
    {
        if config.is_valid() {
            Some(
                Endpointer {
                    config,
                    state: EndpointerState {
                        current_frame_index: 0,
                        last_speech_frame_index: None,
                        accumulated_speech_samples: 0,
                    },
                },
            )
        } else {
            None
        }
    }

    /// The rules that the endpointer was made with.
    pub fn rules(&self) -> (config: EndpointerConfig)
        ensures
            config == self.config(),
    {
        self.config
    }

    pub fn current_frame_index(&self) -> (index: u64)
        ensures
            index == self.state().current_frame_index,
    {
        self.state.current_frame_index
    }

    pub fn last_speech_frame_index(&self) -> (index: Option<u64>)
        ensures
            index == self.state().last_speech_frame_index,
    {
        self.state.last_speech_frame_index
    }

    pub fn accumulated_speech_samples(&self) -> (samples: usize)
        ensures
            samples == self.state().accumulated_speech_samples,
    {
        self.state.accumulated_speech_samples
    }

    pub fn is_listening(&self) -> (open: bool)
        ensures
            open == self.state().last_speech_frame_index.is_some(),
            self.wf() ==> open == (self@ is Listening),
    {
        self.state.last_speech_frame_index.is_some()
    }

    /// Takes the classification of the next frame.
    pub fn step(&mut self, is_speech: bool) -> (verdict: Verdict)
        requires
            old(self).wf(),
        ensures
            final(self).wf(),
            final(self).config() == old(self).config(),
            final(self)@ == old(self)@.step(old(self).config(), is_speech),
            final(self).state() == old(self).state().step(old(self).config(), is_speech),
            verdict == old(self)@.verdict(old(self).config(), is_speech),
    {
        let frame: usize = VAD_FRAME;
        match self.state.last_speech_frame_index {
            None => {
                if !is_speech {
                    return Verdict { status: VadStatus::Silence, record: false, forced: None };
                }
                self.state.last_speech_frame_index = Some(self.state.current_frame_index);
                self.state.accumulated_speech_samples = frame;
                Verdict { status: VadStatus::SpeechStart, record: true, forced: None }
            },
            Some(last) => {
                let (current, last) = if self.state.current_frame_index < u64::MAX {
                    (self.state.current_frame_index + 1, last)
                } else {
                    (self.state.current_frame_index - last + 1, 0)
                };
                let silence_run: u64 = current - last;
                if !is_speech && silence_run >= self.config.end_threshold_frames {
                    let reported: usize = self.config.pre_roll_samples
                        + self.state.accumulated_speech_samples;
                    self.state = EndpointerState {
                        current_frame_index: 0,
                        last_speech_frame_index: None,
                        accumulated_speech_samples: 0,
                    };
                    return Verdict {
                        status: VadStatus::SpeechEnd(reported),
                        record: false,
                        forced: None,
                    };
                }
                self.state.current_frame_index = current;
                self.state.last_speech_frame_index = Some(
                    if is_speech {
                        current
                    } else {
                        last
                    },
                );
                if !(is_speech || silence_run <= self.config.linger_threshold_frames) {
                    return Verdict { status: VadStatus::Speech, record: false, forced: None };
                }
                let room: usize = self.config.max_utterance_samples
                    - self.state.accumulated_speech_samples;
                if frame > room {
                    self.state.accumulated_speech_samples = frame - room;
                    Verdict {
                        status: VadStatus::Speech,
                        record: true,
                        forced: Some(
                            self.config.pre_roll_samples + self.config.max_utterance_samples,
                        ),
                    }
                } else {
                    self.state.accumulated_speech_samples = self.state.accumulated_speech_samples
                        + frame;
                    Verdict { status: VadStatus::Speech, record: true, forced: None }
                }
            },
        }
    }
}

} // verus!

use utterance_stream::device::{BufferSize, StreamConfig};
use utterance_stream::dispatch::{dispatch, Dispatch, DispatchError};
use utterance_stream::endpointer::EndpointerConfig;
use utterance_stream::ring::utterance_ring;
use earshot::{VoiceActivityDetector, VoiceActivityModel, VoiceActivityProfile};
use utterance_stream::vad::{
    audio_loop, cut_frames, deliver, Output, Vad, VadActivity, VadStatus, VAD_FRAME,
};
use utterance_stream::whisper::{ModelLoad, Whisper, WhisperOptions};

fn stream(buffer_size: BufferSize) -> StreamConfig {
    StreamConfig { channels: 1, sample_rate: 16000, buffer_size }
}

fn producer() -> Vad {
    Vad::try_new(&stream(BufferSize::Fixed(544))).expect("the stream has a fixed buffer size")
}

fn small_rules(max_utterance_samples: usize) -> EndpointerConfig {
    EndpointerConfig {
        end_threshold_frames: 8,
        linger_threshold_frames: 3,
        pre_roll_samples: 4,
        max_utterance_samples,
        target_sample_rate: 16000,
    }
}

fn whisper() -> Whisper {
    let options = WhisperOptions { translate_en: false, language: "en".to_string() };
    Whisper::with_options(ModelLoad::Ready, options).expect("the model is loaded")
}

/// The stub classifier: a frame is speech where it holds a sample that is
/// not zero.
fn loud(frames: &[Vec<i16>]) -> Vec<bool> {
    frames.iter().map(|frame| frame.iter().any(|sample| *sample != 0)).collect()
}

/// Silence, a tone and silence, by their lengths in samples.
fn tone_between_silence(lead: usize, tone: usize, tail: usize) -> Vec<i16> {
    let mut stream: Vec<i16> = vec![0; lead];
    stream.extend((0..tone).map(|i| if i % 2 == 0 { 8000i16 } else { -8000 }));
    stream.extend(vec![0i16; tail]);
    stream
}

fn ramp(from: i16) -> Vec<i16> {
    (0..VAD_FRAME as i16).map(|i| from + i).collect()
}

#[test]
fn frames_have_480_samples() {
    assert_eq!(VAD_FRAME, 480);
}

#[test]
fn a_stream_without_a_fixed_buffer_size_is_refused() {
    match Vad::try_new(&stream(BufferSize::Default)) {
        Err(text) => assert_eq!(text, "config doesnt allow safe vad setup"),
        Ok(_) => panic!("a producer was made"),
    }
}

#[test]
fn rules_that_are_not_valid_are_refused() {
    match Vad::try_with(&stream(BufferSize::Fixed(544)), small_rules(100)) {
        Err(text) => assert_eq!(text, "config doesnt allow safe vad setup"),
        Ok(_) => panic!("a producer was made"),
    }
}

#[test]
fn the_staging_ring_takes_two_buffers() {
    let mut vad = producer();
    let samples = vec![1i16; 2000];
    assert_eq!(vad.input(&samples), 2 * 544);
    assert_eq!(vad.input(&samples), 0);
}

#[test]
fn the_staging_ring_takes_no_less_than_two_frames() {
    let mut vad = Vad::try_new(&stream(BufferSize::Fixed(32))).unwrap();
    let samples = vec![1i16; 2000];
    assert_eq!(vad.input(&samples), 960);
}

#[test]
fn staged_samples_come_out_as_frames_in_order() {
    let mut vad = producer();
    let samples: Vec<i16> = (0..1000).collect();
    assert_eq!(vad.input(&samples), 1000);
    assert_eq!(vad.next_frame(), Some((0..480).collect::<Vec<i16>>()));
    assert_eq!(vad.next_frame(), Some((480..960).collect::<Vec<i16>>()));
    assert_eq!(vad.next_frame(), None);
    // 40 samples are still staged
    let more: Vec<i16> = (1000..1440).collect();
    assert_eq!(vad.input(&more), 440);
    assert_eq!(vad.next_frame(), Some((960..1440).collect::<Vec<i16>>()));
    assert_eq!(vad.next_frame(), None);
}

#[test]
fn fewer_samples_than_a_frame_stay_staged() {
    let mut vad = producer();
    assert_eq!(vad.input(&vec![5i16; 479]), 479);
    assert_eq!(vad.next_frame(), None);
    assert_eq!(vad.input(&[6]), 1);
    let mut frame = vec![5i16; 479];
    frame.push(6);
    assert_eq!(vad.next_frame(), Some(frame));
}

#[test]
fn a_silent_frame_in_silence_is_dropped() {
    let mut vad = producer();
    let segment = vad.segment(&ramp(1), false);
    assert_eq!(segment.status, VadStatus::Silence);
    assert_eq!(segment.utterance, None);
}

#[test]
fn an_utterance_holds_pre_roll_speech_and_linger() {
    let mut vad = Vad::try_with(&stream(BufferSize::Fixed(544)), small_rules(48000)).unwrap();
    let segment = vad.segment(&ramp(100), true);
    assert_eq!(segment.status, VadStatus::SpeechStart);
    assert_eq!(segment.utterance, None);
    let segment = vad.segment(&ramp(200), true);
    assert_eq!(segment.status, VadStatus::Speech);
    assert_eq!(segment.utterance, None);
    for run in 1..8 {
        let segment = vad.segment(&ramp(1000 * run), false);
        assert_eq!(segment.status, VadStatus::Speech);
        assert_eq!(segment.utterance, None);
    }
    let segment = vad.segment(&ramp(9000), false);
    assert_eq!(segment.status, VadStatus::SpeechEnd(4 + 5 * 480));
    let mut expected = vec![0i16; 4];
    expected.extend(ramp(100));
    expected.extend(ramp(200));
    expected.extend(ramp(1000));
    expected.extend(ramp(2000));
    expected.extend(ramp(3000));
    assert_eq!(segment.utterance, Some(expected));
    // the next utterance starts from the pre-roll again
    let segment = vad.segment(&ramp(7), true);
    assert_eq!(segment.status, VadStatus::SpeechStart);
    let mut results = Vec::new();
    for _ in 0..8 {
        results.push(vad.segment(&ramp(0), false));
    }
    let last = results.pop().unwrap();
    assert_eq!(last.status, VadStatus::SpeechEnd(4 + 4 * 480));
    let mut expected = vec![0i16; 4];
    expected.extend(ramp(7));
    expected.extend(ramp(0));
    expected.extend(ramp(0));
    expected.extend(ramp(0));
    assert_eq!(last.utterance, Some(expected));
}

#[test]
fn an_utterance_that_is_full_is_split() {
    let mut vad = Vad::try_with(&stream(BufferSize::Fixed(544)), small_rules(1000)).unwrap();
    assert_eq!(vad.segment(&ramp(0), true).status, VadStatus::SpeechStart);
    assert_eq!(vad.segment(&ramp(1000), true).utterance, None);
    let segment = vad.segment(&ramp(2000), true);
    assert_eq!(segment.status, VadStatus::Speech);
    let completed = segment.utterance.expect("the third frame does not fit");
    // complete at exactly the pre-roll and the capacity
    assert_eq!(completed.len(), 4 + 1000);
    let mut expected = vec![0i16; 4];
    expected.extend(ramp(0));
    expected.extend(ramp(1000));
    expected.extend((2000..2040).collect::<Vec<i16>>());
    assert_eq!(completed, expected);
    // the rest of the frame opens the next segment, behind a new pre-roll
    let mut results = Vec::new();
    for _ in 0..8 {
        results.push(vad.segment(&ramp(-1000), false));
    }
    assert_eq!(results[0].utterance, None);
    // the second frame of the pause does not fit either: 440 + 480 + 480
    let second = results[1].utterance.as_ref().expect("the frame does not fit");
    let mut expected = vec![0i16; 4];
    expected.extend((2040..2480).collect::<Vec<i16>>());
    expected.extend(ramp(-1000));
    expected.extend((-1000..-920).collect::<Vec<i16>>());
    assert_eq!(second, &expected);
    let last = results.pop().unwrap();
    assert_eq!(last.status, VadStatus::SpeechEnd(4 + 400 + 480));
    let mut expected = vec![0i16; 4];
    expected.extend((-920..-520).collect::<Vec<i16>>());
    expected.extend(ramp(-1000));
    assert_eq!(last.utterance, Some(expected));
    // the samples of all frames are in the three utterances: none is lost
    assert_eq!(1000 + 1000 + 400 + 480, 6 * 480);
}

#[test]
fn silent_frames_leave_the_producer_silent() {
    let mut vad = producer();
    let (mut ring, mut consumer) = utterance_ring(1000).unwrap();
    assert_eq!(vad.input(&vec![3i16; 1000]), 1000);
    assert_eq!(
        vad.output_to(&mut ring, &[false, false]),
        Output { status: VadStatus::Silence, refused: 0, taken: 2 }
    );
    assert!(!vad.is_listening());
    // both frames were taken, and 40 samples stay staged
    assert_eq!(vad.staged_len(), 40);
    assert_eq!(vad.next_frame(), None);
    // nothing went into the ring
    let mut whisper = whisper();
    assert_eq!(
        dispatch(VadActivity::SpeechEnd(1), &mut consumer, &mut whisper),
        Err(DispatchError::Desynchronized { wanted: 1, found: 0 })
    );
}

#[test]
fn a_run_stops_behind_the_frame_that_opens_an_utterance() {
    let mut vad = producer();
    let (mut ring, _consumer) = utterance_ring(1000).unwrap();
    assert_eq!(vad.input(&vec![3i16; 1000]), 1000);
    assert_eq!(
        vad.output_to(&mut ring, &[true, false]),
        Output { status: VadStatus::SpeechStart, refused: 0, taken: 1 }
    );
    assert_eq!(vad.staged_len(), 520);
    assert_eq!(
        vad.output_to(&mut ring, &[false]),
        Output { status: VadStatus::Speech, refused: 0, taken: 1 }
    );
    assert_eq!(vad.staged_len(), 40);
}

#[test]
fn a_run_takes_no_frame_without_a_result() {
    let mut vad = producer();
    let (mut ring, _consumer) = utterance_ring(1000).unwrap();
    assert_eq!(vad.input(&vec![3i16; 1000]), 1000);
    assert_eq!(
        vad.output_to(&mut ring, &[]),
        Output { status: VadStatus::Silence, refused: 0, taken: 0 }
    );
    assert_eq!(vad.staged_len(), 1000);
    assert_eq!(
        vad.output_to(&mut ring, &[false]),
        Output { status: VadStatus::Silence, refused: 0, taken: 1 }
    );
    assert_eq!(vad.staged_len(), 520);
    // more results than frames: the frames decide
    assert_eq!(
        vad.output_to(&mut ring, &[false, false, false]),
        Output { status: VadStatus::Silence, refused: 0, taken: 1 }
    );
    assert_eq!(vad.staged_len(), 40);
}

#[test]
fn a_run_stops_behind_the_frame_that_completes_an_utterance() {
    let mut vad = Vad::try_with(&stream(BufferSize::Fixed(4800)), small_rules(48000)).unwrap();
    let (mut ring, mut consumer) = utterance_ring(10000).unwrap();
    let mut samples = Vec::new();
    for frame in 0..12 {
        samples.extend(ramp(100 * frame));
    }
    assert_eq!(vad.input(&samples), 12 * 480);
    let mut results = vec![true, true];
    results.extend(vec![false; 10]);
    assert_eq!(
        vad.output_to(&mut ring, &results),
        Output { status: VadStatus::SpeechStart, refused: 0, taken: 1 }
    );
    // two frames of speech and three that linger, behind the pre-roll
    assert_eq!(
        vad.output_to(&mut ring, &results[1..]),
        Output { status: VadStatus::SpeechEnd(4 + 5 * 480), refused: 0, taken: 9 }
    );
    assert_eq!(
        vad.output_to(&mut ring, &results[10..]),
        Output { status: VadStatus::Silence, refused: 0, taken: 2 }
    );
    let mut whisper = whisper();
    assert_eq!(
        dispatch(VadActivity::SpeechEnd(4 + 5 * 480), &mut consumer, &mut whisper),
        Ok(Dispatch::Discarded(4 + 5 * 480))
    );
    let mut expected = vec![0i16; 4];
    expected.extend(&samples[..5 * 480]);
    assert_eq!(whisper.samples(), &expected[..]);
}

#[test]
fn frames_are_cut_in_order() {
    let samples: Vec<i16> = (0..1000).collect();
    let frames = cut_frames(&samples);
    assert_eq!(frames, vec![(0..480).collect::<Vec<i16>>(), (480..960).collect::<Vec<i16>>()]);
    assert_eq!(cut_frames(&samples[..479]), Vec::<Vec<i16>>::new());
    assert_eq!(cut_frames(&samples[..480]).len(), 1);
    assert_eq!(cut_frames(&[]), Vec::<Vec<i16>>::new());
}

#[test]
fn the_frames_that_wait_are_those_that_are_taken() {
    let mut vad = producer();
    let first: Vec<i16> = (0..500).collect();
    assert_eq!(vad.frames_with(&first), vec![(0..480).collect::<Vec<i16>>()]);
    // nothing was staged by asking
    assert_eq!(vad.staged_len(), 0);
    assert_eq!(vad.input(&first), 500);
    assert_eq!(vad.frames_with(&[]), vec![(0..480).collect::<Vec<i16>>()]);
    assert_eq!(vad.next_frame(), Some((0..480).collect::<Vec<i16>>()));
    // 20 samples wait; the next chunk completes their frame
    let second: Vec<i16> = (500..1500).collect();
    let frames = vad.frames_with(&second);
    assert_eq!(
        frames,
        vec![(480..960).collect::<Vec<i16>>(), (960..1440).collect::<Vec<i16>>()]
    );
    assert_eq!(vad.input(&second), 1000);
    assert_eq!(vad.next_frame(), Some(frames[0].clone()));
    assert_eq!(vad.next_frame(), Some(frames[1].clone()));
    assert_eq!(vad.next_frame(), None);
}

#[test]
fn the_frames_that_wait_leave_out_what_has_no_room() {
    let mut vad = producer();
    assert_eq!(vad.input(&vec![1i16; 900]), 900);
    // the ring has room for 188 samples more, so the chunk makes no third frame
    let chunk = vec![2i16; 600];
    let frames = vad.frames_with(&chunk);
    assert_eq!(frames.len(), 2);
    assert_eq!(frames[0], vec![1i16; 480]);
    let mut second = vec![1i16; 420];
    second.extend(vec![2i16; 60]);
    assert_eq!(frames[1], second);
    assert_eq!(vad.input(&chunk), 188);
    assert_eq!(vad.next_frame(), Some(frames[0].clone()));
    assert_eq!(vad.next_frame(), Some(frames[1].clone()));
    assert_eq!(vad.next_frame(), None);
}

#[test]
fn a_chunk_of_silence_gives_no_event() {
    let mut vad = producer();
    let (mut ring, _consumer) = utterance_ring(1000).unwrap();
    for _ in 0..100 {
        let chunk = vec![0i16; 533];
        let results = loud(&vad.frames_with(&chunk));
        let outcome = audio_loop(&chunk, &results, &mut ring, &mut vad);
        assert_eq!(outcome.accepted, 533);
        assert_eq!(outcome.taken, results.len());
        assert_eq!(outcome.events, vec![]);
        assert_eq!(outcome.refused, 0);
        assert!(vad.staged_len() < 480);
    }
}

#[test]
fn a_chunk_that_is_too_long_is_cut() {
    let mut vad = producer();
    let (mut ring, _consumer) = utterance_ring(1000).unwrap();
    let chunk = vec![0i16; 5000];
    let results = loud(&vad.frames_with(&chunk));
    assert_eq!(results, vec![false, false]);
    let outcome = audio_loop(&chunk, &results, &mut ring, &mut vad);
    assert_eq!(outcome.accepted, 1088);
    assert_eq!(outcome.taken, 2);
    assert_eq!(outcome.events, vec![]);
    // 1088 samples are two frames and 128 samples
    assert_eq!(vad.input(&vec![0i16; 5000]), 1088 - 128);
}

#[test]
fn frames_without_a_result_stay_staged() {
    let mut vad = producer();
    let (mut ring, _consumer) = utterance_ring(1000).unwrap();
    let outcome = audio_loop(&vec![5i16; 1000], &[true], &mut ring, &mut vad);
    assert_eq!(outcome.accepted, 1000);
    assert_eq!(outcome.taken, 1);
    assert_eq!(outcome.events, vec![VadActivity::SpeechStart]);
    assert_eq!(vad.staged_len(), 520);
    // more results than frames: the frames decide
    let outcome = audio_loop(&[], &[true, true, true], &mut ring, &mut vad);
    assert_eq!(outcome.accepted, 0);
    assert_eq!(outcome.taken, 1);
    assert_eq!(outcome.events, vec![]);
    assert_eq!(vad.staged_len(), 40);
}

#[test]
fn no_ring_without_capacity() {
    assert!(utterance_ring(0).is_none());
}

#[test]
fn delivered_samples_reach_the_dispatcher() {
    let (mut producer, mut consumer) = utterance_ring(40000).unwrap();
    let mut whisper = whisper();
    let utterance: Vec<i16> = (0..20000).map(|i| (i % 3000) as i16).collect();
    let event = deliver(&mut producer, &utterance);
    assert_eq!(event, VadActivity::SpeechEnd(20000));
    assert_eq!(dispatch(event, &mut consumer, &mut whisper), Ok(Dispatch::Transcribe(20000)));
    assert_eq!(whisper.samples(), &utterance[..]);
    assert!(whisper.worth_transcribing());
}

#[test]
fn a_full_ring_takes_part_of_an_utterance() {
    let (mut producer, mut consumer) = utterance_ring(100).unwrap();
    let mut whisper = whisper();
    let utterance: Vec<i16> = (0..150).collect();
    let event = deliver(&mut producer, &utterance);
    // the event counts what the ring took, so the two sides stay in step
    assert_eq!(event, VadActivity::SpeechEnd(100));
    assert_eq!(deliver(&mut producer, &utterance), VadActivity::SpeechEnd(0));
    assert_eq!(dispatch(event, &mut consumer, &mut whisper), Ok(Dispatch::Discarded(100)));
    assert_eq!(whisper.samples(), &utterance[..100]);
    assert!(!whisper.worth_transcribing());
}

#[test]
fn a_ring_that_holds_too_little_is_an_error() {
    let (mut producer, mut consumer) = utterance_ring(100).unwrap();
    let mut whisper = whisper();
    assert_eq!(deliver(&mut producer, &[1, 2, 3]), VadActivity::SpeechEnd(3));
    assert_eq!(
        dispatch(VadActivity::SpeechEnd(5), &mut consumer, &mut whisper),
        Err(DispatchError::Desynchronized { wanted: 5, found: 3 })
    );
}

#[test]
fn an_utterance_that_is_too_long_is_an_error() {
    let (_producer, mut consumer) = utterance_ring(100).unwrap();
    let mut whisper = whisper();
    assert_eq!(
        dispatch(VadActivity::SpeechEnd(480001), &mut consumer, &mut whisper),
        Err(DispatchError::Oversized { wanted: 480001 })
    );
}

#[test]
fn the_start_of_speech_needs_no_samples() {
    let (_producer, mut consumer) = utterance_ring(100).unwrap();
    let mut whisper = whisper();
    assert_eq!(
        dispatch(VadActivity::SpeechStart, &mut consumer, &mut whisper),
        Ok(Dispatch::Started)
    );
    assert_eq!(whisper.samples(), &[] as &[i16]);
}

#[test]
fn utterances_leave_the_ring_in_order() {
    let (mut producer, mut consumer) = utterance_ring(100).unwrap();
    let mut whisper = whisper();
    let first = deliver(&mut producer, &[1, 2, 3]);
    let second = deliver(&mut producer, &[4, 5]);
    assert_eq!(dispatch(first, &mut consumer, &mut whisper), Ok(Dispatch::Discarded(3)));
    assert_eq!(whisper.samples(), &[1, 2, 3]);
    assert_eq!(dispatch(second, &mut consumer, &mut whisper), Ok(Dispatch::Discarded(2)));
    assert_eq!(whisper.samples(), &[4, 5]);
}

/// A stream of two seconds of silence, one second of a tone and half a
/// second of silence, classified by a stub that takes every frame with a
/// sample of the tone for speech, and fed chunk by chunk.
#[test]
fn a_tone_between_silence_is_one_utterance() {
    let stream = tone_between_silence(32000, 16000, 8000);
    let mut vad = producer();
    let (mut producer, mut consumer) = utterance_ring(2 * 468800).unwrap();
    let mut whisper = whisper();
    let mut events = Vec::new();
    let mut transcribed = Vec::new();
    let mut fed = 0;
    for chunk in stream.chunks(533) {
        let results = loud(&vad.frames_with(chunk));
        let outcome = audio_loop(chunk, &results, &mut producer, &mut vad);
        assert_eq!(outcome.accepted, chunk.len());
        assert_eq!(outcome.taken, results.len());
        assert_eq!(outcome.refused, 0);
        fed += chunk.len();
        if fed <= 31680 {
            // nothing is sent during the silence before the tone
            assert_eq!(outcome.events, vec![]);
        }
        for event in outcome.events {
            events.push(event);
            if let Ok(Dispatch::Transcribe(_)) = dispatch(event, &mut consumer, &mut whisper) {
                transcribed.push(whisper.samples().to_vec());
            }
        }
    }
    // the tone touches 34 frames, and three frames linger
    let samples = 11200 + (34 + 3) * 480;
    assert_eq!(events, vec![VadActivity::SpeechStart, VadActivity::SpeechEnd(samples)]);
    assert_eq!(transcribed.len(), 1);
    let mut expected = vec![0i16; 11200];
    expected.extend(&stream[66 * 480..(66 + 37) * 480]);
    assert_eq!(transcribed[0], expected);
    // the pre-roll and a second of audio, and no more than the linger and a frame at each end
    assert!(samples >= 11200 + 16000 && samples <= 11200 + 16000 + 5 * 480);
}

/// The same stream gives the same events however it is cut into chunks.
#[test]
fn the_chunking_does_not_change_the_events() {
    let stream = tone_between_silence(32000, 16000, 8000);
    for size in [1, 7, 160, 479, 480, 481, 533, 960] {
        let mut vad = producer();
        let (mut producer, _consumer) = utterance_ring(2 * 468800).unwrap();
        let mut events = Vec::new();
        for chunk in stream.chunks(size) {
            let results = loud(&vad.frames_with(chunk));
            let outcome = audio_loop(chunk, &results, &mut producer, &mut vad);
            assert_eq!(outcome.accepted, chunk.len());
            events.extend(outcome.events);
        }
        assert_eq!(
            events,
            vec![VadActivity::SpeechStart, VadActivity::SpeechEnd(11200 + 37 * 480)]
        );
    }
}

#[test]
fn staged_samples_keep_their_order_around_the_ring() {
    let mut vad = producer();
    let mut next: i16 = 0;
    let mut expected: i16 = 0;
    for _ in 0..200 {
        let chunk: Vec<i16> = (0..533).map(|i| next.wrapping_add(i)).collect();
        next = next.wrapping_add(533);
        assert_eq!(vad.input(&chunk), 533);
        while let Some(frame) = vad.next_frame() {
            let wanted: Vec<i16> = (0..480).map(|i| expected.wrapping_add(i)).collect();
            assert_eq!(frame, wanted);
            expected = expected.wrapping_add(480);
        }
        assert!(vad.staged_len() < 480);
    }
    assert_eq!(vad.staged_len(), 200 * 533 % 480);
}

#[test]
fn a_producer_tells_what_it_holds() {
    let mut vad = Vad::try_with(&stream(BufferSize::Fixed(544)), small_rules(48000)).unwrap();
    assert_eq!(vad.rules().pre_roll_samples, 4);
    assert_eq!(vad.rules().max_utterance_samples, 48000);
    assert!(!vad.is_listening());
    assert_eq!(vad.staged_len(), 0);
    assert_eq!(vad.collected_len(), 4);
    assert_eq!(vad.input(&[1, 2, 3]), 3);
    assert_eq!(vad.staged_len(), 3);
    vad.segment(&ramp(0), true);
    assert!(vad.is_listening());
    assert_eq!(vad.collected_len(), 4 + 480);
    vad.segment(&ramp(0), false);
    assert_eq!(vad.collected_len(), 4 + 960);
    assert_eq!(producer().rules().pre_roll_samples, 11200);
}

/// Whatever a detector makes of the audio, the events start with a
/// `SpeechStart` and alternate, every utterance is its pre-roll and whole
/// frames, and the dispatcher finds every sample that an event reports.
#[test]
fn a_detector_and_the_dispatcher_stay_in_step() {
    let mut detector = VoiceActivityDetector::new_with_model(
        VoiceActivityModel::ES_ALPHA,
        VoiceActivityProfile::VERY_AGGRESSIVE,
    );
    let mut vad = producer();
    let (mut producer, mut consumer) = utterance_ring(2 * 480000).unwrap();
    let mut whisper = whisper();
    let mut seed: u32 = 7;
    let mut stream: Vec<i16> = Vec::new();
    for burst in 0..6 {
        for i in 0..16000 {
            seed = seed.wrapping_mul(1664525).wrapping_add(1013904223);
            let noise = ((seed >> 16) as i16) / 4;
            let tone = if (i / 40) % 2 == 0 { 6000 } else { -6000 };
            stream.push(if burst % 2 == 0 { 0 } else { noise / 2 + tone });
        }
    }
    let mut events = Vec::new();
    for chunk in stream.chunks(533) {
        let results: Vec<bool> = vad
            .frames_with(chunk)
            .iter()
            .map(|frame| detector.predict_16khz(frame).unwrap())
            .collect();
        let outcome = audio_loop(chunk, &results, &mut producer, &mut vad);
        assert_eq!(outcome.accepted, chunk.len());
        assert_eq!(outcome.taken, results.len());
        assert_eq!(outcome.refused, 0);
        events.extend(outcome.events);
    }
    assert!(vad.staged_len() < 480);
    assert!(events.len() >= 2);
    for (i, event) in events.iter().enumerate() {
        match event {
            VadActivity::SpeechStart => assert_eq!(i % 2, 0),
            VadActivity::SpeechEnd(samples) => {
                assert_eq!(i % 2, 1);
                assert!(*samples >= 11200 + 480 && *samples <= 480000);
                assert_eq!((samples - 11200) % 480, 0);
            }
        }
        match dispatch(*event, &mut consumer, &mut whisper) {
            Ok(Dispatch::Started) => assert_eq!(*event, VadActivity::SpeechStart),
            Ok(Dispatch::Discarded(samples)) => {
                assert_eq!(*event, VadActivity::SpeechEnd(samples));
                assert!(samples < 16000);
            }
            Ok(Dispatch::Transcribe(samples)) => {
                assert_eq!(*event, VadActivity::SpeechEnd(samples));
                assert!(samples >= 16000);
                assert_eq!(whisper.samples().len(), samples);
                assert_eq!(&whisper.samples()[..11200], &vec![0i16; 11200][..]);
            }
            Err(error) => panic!("the two sides lost step: {:?}", error),
        }
    }
    assert_eq!(vad.is_listening(), events.len() % 2 == 1);
}

#[test]
fn no_ring_for_more_samples_than_can_be_addressed() {
    assert!(utterance_ring(usize::MAX).is_none());
    assert!(utterance_ring(isize::MAX as usize / 2 + 1).is_none());
}

#[test]
fn a_ring_takes_what_it_was_made_for() {
    let (mut producer, mut consumer) = utterance_ring(7).unwrap();
    let mut whisper = whisper();
    let utterance: Vec<i16> = (1..=9).collect();
    let event = deliver(&mut producer, &utterance);
    assert_eq!(event, VadActivity::SpeechEnd(7));
    assert_eq!(dispatch(event, &mut consumer, &mut whisper), Ok(Dispatch::Discarded(7)));
    assert_eq!(whisper.samples(), &[1, 2, 3, 4, 5, 6, 7]);
    // the ring is empty again and takes as much once more
    assert_eq!(deliver(&mut producer, &utterance), VadActivity::SpeechEnd(7));
}

/// A ring that is too small for an utterance takes part of it, and what
/// it does not take is counted.
#[test]
fn samples_that_the_ring_refuses_are_counted() {
    let stream = tone_between_silence(960, 4800, 4800);
    let mut vad = producer();
    let (mut producer, mut consumer) = utterance_ring(1000).unwrap();
    let mut whisper = whisper();
    let mut events = Vec::new();
    let mut refused = 0;
    for chunk in stream.chunks(533) {
        let results = loud(&vad.frames_with(chunk));
        let outcome = audio_loop(chunk, &results, &mut producer, &mut vad);
        refused += outcome.refused;
        events.extend(outcome.events);
    }
    // ten frames of tone and three that linger, of which the ring takes 1000 samples
    assert_eq!(events, vec![VadActivity::SpeechStart, VadActivity::SpeechEnd(1000)]);
    assert_eq!(refused, 11200 + 13 * 480 - 1000);
    assert_eq!(dispatch(events[1], &mut consumer, &mut whisper), Ok(Dispatch::Discarded(1000)));
    assert_eq!(whisper.samples(), &vec![0i16; 1000][..]);
}

/// A ring with room for an utterance takes all of it.
#[test]
fn a_ring_with_room_refuses_nothing() {
    let stream = tone_between_silence(960, 4800, 4800);
    let mut vad = producer();
    let (mut producer, mut consumer) = utterance_ring(11200 + 13 * 480).unwrap();
    let mut whisper = whisper();
    let mut events = Vec::new();
    for chunk in stream.chunks(533) {
        let results = loud(&vad.frames_with(chunk));
        let outcome = audio_loop(chunk, &results, &mut producer, &mut vad);
        assert_eq!(outcome.refused, 0);
        events.extend(outcome.events);
    }
    assert_eq!(
        events,
        vec![VadActivity::SpeechStart, VadActivity::SpeechEnd(11200 + 13 * 480)]
    );
    assert_eq!(
        dispatch(events[1], &mut consumer, &mut whisper),
        Ok(Dispatch::Transcribe(11200 + 13 * 480))
    );
}

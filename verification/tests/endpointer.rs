use utterance_stream::endpointer::{Endpointer, EndpointerConfig, Verdict};
use utterance_stream::vad::{VadActivity, VadStatus};

fn standard() -> Endpointer {
    Endpointer::new(EndpointerConfig::standard()).expect("the standard rules are valid")
}

fn small(max_utterance_samples: usize) -> Endpointer {
    Endpointer::new(EndpointerConfig {
        end_threshold_frames: 8,
        linger_threshold_frames: 3,
        pre_roll_samples: 10,
        max_utterance_samples,
        target_sample_rate: 16000,
    })
    .expect("the rules are valid")
}

fn events(endpointer: &mut Endpointer, results: &[bool]) -> Vec<VadActivity> {
    let mut events = Vec::new();
    for is_speech in results {
        match endpointer.step(*is_speech).status {
            VadStatus::SpeechStart => events.push(VadActivity::SpeechStart),
            VadStatus::SpeechEnd(n) => events.push(VadActivity::SpeechEnd(n)),
            VadStatus::Silence | VadStatus::Speech => {}
        }
    }
    events
}

#[test]
fn standard_rules() {
    let config = EndpointerConfig::standard();
    assert_eq!(config.end_threshold_frames, 8);
    assert_eq!(config.linger_threshold_frames, 3);
    assert_eq!(config.pre_roll_samples, 11200);
    assert_eq!(config.max_utterance_samples, 468800);
    assert_eq!(config.target_sample_rate, 16000);
    assert!(config.is_valid());
}

#[test]
fn rules_without_room_for_a_frame_are_refused() {
    let config = EndpointerConfig {
        end_threshold_frames: 8,
        linger_threshold_frames: 3,
        pre_roll_samples: 0,
        max_utterance_samples: 479,
        target_sample_rate: 16000,
    };
    assert!(!config.is_valid());
    assert!(Endpointer::new(config).is_none());
}

#[test]
fn rules_that_cannot_be_counted_are_refused() {
    let config = EndpointerConfig {
        end_threshold_frames: 8,
        linger_threshold_frames: 3,
        pre_roll_samples: 1,
        max_utterance_samples: usize::MAX,
        target_sample_rate: 16000,
    };
    assert!(!config.is_valid());
    assert!(Endpointer::new(config).is_none());
}

#[test]
fn a_new_endpointer_is_idle() {
    let endpointer = standard();
    assert!(!endpointer.is_listening());
    assert_eq!(endpointer.current_frame_index(), 0);
    assert_eq!(endpointer.last_speech_frame_index(), None);
    assert_eq!(endpointer.accumulated_speech_samples(), 0);
}

#[test]
fn silence_gives_no_event() {
    let mut endpointer = standard();
    for _ in 0..1000 {
        let verdict = endpointer.step(false);
        assert_eq!(verdict, Verdict { status: VadStatus::Silence, record: false, forced: None });
    }
    assert!(!endpointer.is_listening());
    assert_eq!(endpointer.current_frame_index(), 0);
}

#[test]
fn speech_opens_an_utterance() {
    let mut endpointer = standard();
    let verdict = endpointer.step(true);
    assert_eq!(verdict, Verdict { status: VadStatus::SpeechStart, record: true, forced: None });
    assert!(endpointer.is_listening());
    assert_eq!(endpointer.current_frame_index(), 0);
    assert_eq!(endpointer.last_speech_frame_index(), Some(0));
    assert_eq!(endpointer.accumulated_speech_samples(), 480);
}

#[test]
fn speech_moves_the_last_speech_frame() {
    let mut endpointer = standard();
    endpointer.step(true);
    let verdict = endpointer.step(true);
    assert_eq!(verdict, Verdict { status: VadStatus::Speech, record: true, forced: None });
    assert_eq!(endpointer.current_frame_index(), 1);
    assert_eq!(endpointer.last_speech_frame_index(), Some(1));
    assert_eq!(endpointer.accumulated_speech_samples(), 960);
    endpointer.step(false);
    assert_eq!(endpointer.current_frame_index(), 2);
    assert_eq!(endpointer.last_speech_frame_index(), Some(1));
}

#[test]
fn one_utterance_counts_pre_roll_speech_and_linger() {
    let mut endpointer = standard();
    let mut results = vec![true; 5];
    results.extend(vec![false; 8]);
    let events = events(&mut endpointer, &results);
    assert_eq!(
        events,
        vec![VadActivity::SpeechStart, VadActivity::SpeechEnd(11200 + (5 + 3) * 480)]
    );
    assert!(!endpointer.is_listening());
    assert_eq!(endpointer.current_frame_index(), 0);
    assert_eq!(endpointer.last_speech_frame_index(), None);
    assert_eq!(endpointer.accumulated_speech_samples(), 0);
}

#[test]
fn more_silence_after_the_end_gives_nothing_more() {
    let mut endpointer = standard();
    let mut results = vec![true; 1];
    results.extend(vec![false; 40]);
    let events = events(&mut endpointer, &results);
    assert_eq!(events, vec![VadActivity::SpeechStart, VadActivity::SpeechEnd(11200 + 4 * 480)]);
}

#[test]
fn a_pause_is_recorded_then_skipped_then_closes() {
    let mut endpointer = standard();
    endpointer.step(true);
    for run in 1..=7usize {
        let verdict = endpointer.step(false);
        assert_eq!(verdict.status, VadStatus::Speech);
        assert_eq!(verdict.record, run <= 3);
        assert_eq!(verdict.forced, None);
        assert_eq!(endpointer.accumulated_speech_samples(), 480 * (1 + run.min(3)));
    }
    let verdict = endpointer.step(false);
    assert_eq!(
        verdict,
        Verdict { status: VadStatus::SpeechEnd(11200 + 4 * 480), record: false, forced: None }
    );
}

#[test]
fn a_single_silent_frame_does_not_end_the_utterance() {
    let mut endpointer = standard();
    let events = events(&mut endpointer, &[true, true, false, true, true]);
    assert_eq!(events, vec![VadActivity::SpeechStart]);
    assert!(endpointer.is_listening());
    assert_eq!(endpointer.accumulated_speech_samples(), 5 * 480);
    assert_eq!(endpointer.last_speech_frame_index(), Some(4));
}

#[test]
fn nine_silent_frames_end_the_utterance() {
    let mut endpointer = standard();
    let mut results = vec![true; 3];
    results.extend(vec![false; 9]);
    let events = events(&mut endpointer, &results);
    assert_eq!(events, vec![VadActivity::SpeechStart, VadActivity::SpeechEnd(11200 + 6 * 480)]);
    assert!(!endpointer.is_listening());
}

#[test]
fn seven_silent_frames_do_not_end_the_utterance() {
    let mut endpointer = standard();
    let mut results = vec![true; 3];
    results.extend(vec![false; 7]);
    let events = events(&mut endpointer, &results);
    assert_eq!(events, vec![VadActivity::SpeechStart]);
    assert!(endpointer.is_listening());
}

#[test]
fn speech_in_the_dead_zone_is_recorded_again() {
    let mut endpointer = standard();
    let events = events(&mut endpointer, &[true, false, false, false, false, false, true]);
    assert_eq!(events, vec![VadActivity::SpeechStart]);
    // the first frame, three frames of linger, and the last one
    assert_eq!(endpointer.accumulated_speech_samples(), 5 * 480);
    assert_eq!(endpointer.current_frame_index(), 6);
    assert_eq!(endpointer.last_speech_frame_index(), Some(6));
}

#[test]
fn events_alternate() {
    let mut endpointer = standard();
    let mut results = Vec::new();
    let mut seed: u32 = 12345;
    for _ in 0..5000 {
        seed = seed.wrapping_mul(1103515245).wrapping_add(12345);
        // long runs of either kind
        results.push((seed >> 16) % 16 < 5);
        seed = seed.wrapping_mul(1103515245).wrapping_add(12345);
        if (seed >> 16) % 4 == 0 {
            let last = *results.last().unwrap();
            for _ in 0..10 {
                results.push(!last);
            }
        }
    }
    let events = events(&mut endpointer, &results);
    assert!(events.len() > 2);
    assert_eq!(events[0], VadActivity::SpeechStart);
    for pair in events.windows(2) {
        assert_ne!(
            matches!(pair[0], VadActivity::SpeechStart),
            matches!(pair[1], VadActivity::SpeechStart)
        );
    }
}

#[test]
fn a_frame_that_does_not_fit_forces_a_segment() {
    let mut endpointer = small(1000);
    assert_eq!(endpointer.step(true).status, VadStatus::SpeechStart);
    assert_eq!(
        endpointer.step(true),
        Verdict { status: VadStatus::Speech, record: true, forced: None }
    );
    assert_eq!(endpointer.accumulated_speech_samples(), 960);
    // 40 samples fit; the segment is complete at 10 + 1000, and 440 are carried over
    assert_eq!(
        endpointer.step(true),
        Verdict { status: VadStatus::Speech, record: true, forced: Some(1010) }
    );
    assert_eq!(endpointer.accumulated_speech_samples(), 440);
    assert!(endpointer.is_listening());
    assert_eq!(endpointer.current_frame_index(), 2);
    assert_eq!(endpointer.last_speech_frame_index(), Some(2));
}

#[test]
fn a_frame_that_fills_the_utterance_forces_nothing() {
    let mut endpointer = small(960);
    endpointer.step(true);
    assert_eq!(
        endpointer.step(true),
        Verdict { status: VadStatus::Speech, record: true, forced: None }
    );
    assert_eq!(endpointer.accumulated_speech_samples(), 960);
    assert_eq!(
        endpointer.step(true),
        Verdict { status: VadStatus::Speech, record: true, forced: Some(970) }
    );
    assert_eq!(endpointer.accumulated_speech_samples(), 480);
}

#[test]
fn a_forced_segment_is_followed_by_the_end_of_the_rest() {
    let mut endpointer = small(2000);
    let mut results = vec![true; 5];
    results.extend(vec![false; 8]);
    let events = events(&mut endpointer, &results);
    // 400 samples of the fifth frame are carried over; three frames linger
    assert_eq!(
        events,
        vec![VadActivity::SpeechStart, VadActivity::SpeechEnd(10 + 400 + 3 * 480)]
    );
}

#[test]
fn a_closing_run_of_zero_frames_closes_on_the_first_silent_frame() {
    let mut endpointer = Endpointer::new(EndpointerConfig {
        end_threshold_frames: 0,
        linger_threshold_frames: 3,
        pre_roll_samples: 0,
        max_utterance_samples: 4800,
        target_sample_rate: 16000,
    })
    .unwrap();
    let events = events(&mut endpointer, &[true, true, false, false]);
    assert_eq!(events, vec![VadActivity::SpeechStart, VadActivity::SpeechEnd(960)]);
}

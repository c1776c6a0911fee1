use utterance_stream::utterance::UtteranceBuffer;

#[test]
fn a_new_buffer_holds_its_pre_roll() {
    let buffer = UtteranceBuffer::new(3, 10).unwrap();
    assert_eq!(buffer.len(), 3);
    assert_eq!(buffer.audio_len(), 0);
    assert_eq!(buffer.as_slice(), &[0, 0, 0]);
}

#[test]
fn a_buffer_that_cannot_be_counted_is_refused() {
    assert!(UtteranceBuffer::new(1, usize::MAX).is_none());
    assert!(UtteranceBuffer::new(usize::MAX, 1).is_none());
}

#[test]
fn a_frame_that_fits_is_appended() {
    let mut buffer = UtteranceBuffer::new(2, 5).unwrap();
    assert_eq!(buffer.append(&[1, 2, 3]), None);
    assert_eq!(buffer.as_slice(), &[0, 0, 1, 2, 3]);
    assert_eq!(buffer.append(&[4, 5]), None);
    assert_eq!(buffer.as_slice(), &[0, 0, 1, 2, 3, 4, 5]);
    assert_eq!(buffer.len(), 7);
    assert_eq!(buffer.audio_len(), 5);
}

#[test]
fn a_frame_that_does_not_fit_splits_the_utterance() {
    let mut buffer = UtteranceBuffer::new(2, 5).unwrap();
    assert_eq!(buffer.append(&[1, 2, 3]), None);
    let completed = buffer.append(&[4, 5, 6, 7]).unwrap();
    assert_eq!(completed, vec![0, 0, 1, 2, 3, 4, 5]);
    assert_eq!(buffer.as_slice(), &[0, 0, 6, 7]);
    // no sample is lost: 3 + 4 == 5 + 2
    assert_eq!(completed.len() - 2 + buffer.audio_len(), 3 + 4);
}

#[test]
fn a_full_buffer_hands_over_and_keeps_the_whole_frame() {
    let mut buffer = UtteranceBuffer::new(1, 3).unwrap();
    assert_eq!(buffer.append(&[7, 8, 9]), None);
    let completed = buffer.append(&[1, 2]).unwrap();
    assert_eq!(completed, vec![0, 7, 8, 9]);
    assert_eq!(buffer.as_slice(), &[0, 1, 2]);
}

#[test]
fn an_empty_frame_changes_nothing() {
    let mut buffer = UtteranceBuffer::new(1, 3).unwrap();
    assert_eq!(buffer.append(&[7, 8, 9]), None);
    assert_eq!(buffer.append(&[]), None);
    assert_eq!(buffer.as_slice(), &[0, 7, 8, 9]);
}

#[test]
fn take_hands_the_utterance_over() {
    let mut buffer = UtteranceBuffer::new(2, 5).unwrap();
    buffer.append(&[1, 2, 3]);
    assert_eq!(buffer.take(), vec![0, 0, 1, 2, 3]);
    assert_eq!(buffer.as_slice(), &[0, 0]);
    assert_eq!(buffer.append(&[9]), None);
    assert_eq!(buffer.as_slice(), &[0, 0, 9]);
}

#[test]
fn reset_drops_the_audio() {
    let mut buffer = UtteranceBuffer::new(2, 5).unwrap();
    buffer.append(&[1, 2, 3]);
    buffer.reset();
    assert_eq!(buffer.as_slice(), &[0, 0]);
    assert_eq!(buffer.audio_len(), 0);
}

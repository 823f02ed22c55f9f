use audio_server::reader::{Buffer, BufferInfo};
use audio_server::stream::{Pull, SamplesStream};

fn buffer(start: u64, samples: Vec<i16>) -> Buffer<i16> {
    let end = start + samples.len() as u64;
    Buffer { samples, sound_id: 4, info: BufferInfo { start, end } }
}

#[test]
fn pulls_samples_then_hands_back_the_buffer() {
    let mut s: SamplesStream<i16> = SamplesStream::new(2, 8, false);
    assert!(matches!(s.next_sample(), Pull::Exhausted(None)));
    assert!(s.receive(buffer(0, vec![1, 2, 3])).is_none());
    assert!(matches!(s.next_sample(), Pull::Sample(1)));
    assert!(matches!(s.next_sample(), Pull::Sample(2)));
    assert!(matches!(s.next_sample(), Pull::Sample(3)));
    match s.next_sample() {
        Pull::Exhausted(Some(b)) => {
            assert_eq!(b.samples, vec![1, 2, 3]);
            assert_eq!(b.sound_id, 4);
        }
        _ => panic!("expected the spent buffer"),
    }
    assert!(matches!(s.next_sample(), Pull::Exhausted(None)));
}

#[test]
fn remaining_frames_counts_from_cursor() {
    let mut s: SamplesStream<i16> = SamplesStream::new(2, 8, false);
    assert_eq!(s.channels(), 2);
    assert_eq!(s.remaining_frames(), Some(4));
    s.receive(buffer(4, vec![5, 6, 7, 8]));
    assert_eq!(s.remaining_frames(), Some(2));
    assert!(matches!(s.next_sample(), Pull::Sample(5)));
    assert!(matches!(s.next_sample(), Pull::Sample(6)));
    assert_eq!(s.remaining_frames(), Some(1));
}

#[test]
fn looped_stream_has_no_end() {
    let s: SamplesStream<i16> = SamplesStream::new(1, 8, true);
    assert_eq!(s.remaining_frames(), None);
}

#[test]
fn receive_hands_back_the_held_buffer() {
    let mut s: SamplesStream<i16> = SamplesStream::new(1, 8, false);
    s.receive(buffer(0, vec![1]));
    let old = s.receive(buffer(1, vec![2]));
    assert_eq!(old.unwrap().samples, vec![1]);
    assert!(matches!(s.next_sample(), Pull::Sample(2)));
}

#[test]
fn remaining_frames_stays_at_zero_after_the_end() {
    // 44 stereo frames; the last buffer is empty, at 88..88.
    let mut s: SamplesStream<i16> = SamplesStream::new(2, 88, false);
    s.receive(buffer(84, vec![1, 2, 3, 4]));
    for _ in 0..4 {
        assert!(matches!(s.next_sample(), Pull::Sample(_)));
    }
    assert_eq!(s.remaining_frames(), Some(0));
    assert!(matches!(s.next_sample(), Pull::Exhausted(Some(_))));
    assert_eq!(s.remaining_frames(), Some(0));
    s.receive(buffer(88, vec![]));
    assert_eq!(s.remaining_frames(), Some(0));
    assert!(matches!(s.next_sample(), Pull::Exhausted(Some(_))));
    assert_eq!(s.remaining_frames(), Some(0));
    assert!(matches!(s.next_sample(), Pull::Exhausted(None)));
    assert_eq!(s.remaining_frames(), Some(0));
}

#[test]
fn release_hands_back_the_buffer_and_keeps_the_position() {
    let mut s: SamplesStream<i16> = SamplesStream::new(1, 10, false);
    s.receive(buffer(2, vec![7, 8, 9]));
    assert!(matches!(s.next_sample(), Pull::Sample(7)));
    assert_eq!(s.remaining_frames(), Some(7));
    let b = s.release().unwrap();
    assert_eq!(b.samples, vec![7, 8, 9]);
    assert_eq!(s.remaining_frames(), Some(7));
    assert!(s.release().is_none());
}

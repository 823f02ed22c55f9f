use audio_server::dbap::{
    blurred_distance_2, dbap_speakers, dbap_weight, distance_squared, speaker_is_in_proximity,
    speakers_in_proximity, DbapSpeaker, Point, DISTANCE_BLUR_MM, FULL_WEIGHT,
};

#[test]
fn distances() {
    let a = Point { x: 0, y: 0 };
    let b = Point { x: 3000, y: -4000 };
    assert_eq!(distance_squared(a, b), 25_000_000);
    assert_eq!(blurred_distance_2(a, a), (DISTANCE_BLUR_MM * DISTANCE_BLUR_MM) as u128);
    let far = Point { x: i32::MIN, y: i32::MIN };
    let other = Point { x: i32::MAX, y: i32::MAX };
    assert_eq!(distance_squared(far, other), 2 * (u32::MAX as u128) * (u32::MAX as u128));
}

#[test]
fn weights_follow_installations() {
    assert_eq!(dbap_weight(&vec![1, 2], &vec![3, 2]), FULL_WEIGHT);
    assert_eq!(dbap_weight(&vec![1, 2], &vec![3, 4]), 0);
    assert_eq!(dbap_weight(&vec![], &vec![3]), 0);
}

#[test]
fn speaker_at_sound_position_is_loudest_input() {
    let sound = vec![1];
    let p = Point { x: 100, y: 100 };
    let speakers = vec![(p, vec![1]), (Point { x: 1100, y: 100 }, vec![1]), (Point { x: 100, y: 1100 }, vec![2])];
    let r = dbap_speakers(p, &sound, &speakers);
    assert_eq!(r[0], DbapSpeaker { distance_2: 10_000, weight: 1000 });
    assert_eq!(r[1], DbapSpeaker { distance_2: 1_010_000, weight: 1000 });
    assert_eq!(r[2], DbapSpeaker { distance_2: 1_010_000, weight: 0 });
}

#[test]
fn proximity() {
    let p = Point { x: 0, y: 0 };
    assert!(speaker_is_in_proximity(p, Point { x: 7000, y: 0 }));
    assert!(!speaker_is_in_proximity(p, Point { x: 7000, y: 1 }));
    let speakers = vec![Point { x: 10_000, y: 0 }, Point { x: 1, y: 1 }, Point { x: 0, y: -7000 }];
    assert_eq!(speakers_in_proximity(p, &speakers), vec![1, 2]);
}

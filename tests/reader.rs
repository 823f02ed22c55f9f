use audio_server::reader::{
    is_supported, Action, Delivery, FillJob, Message, Model, Play, Reply, SampleFormat, Segment,
    NUM_BUFFERS,
};

/// Decodes a fill job the way a file whose sample `i` holds the value `i` would.
fn fill(model: &mut Model, job: FillJob<u64>) -> Delivery<u64> {
    let FillJob { sound_id, mut storage, segments } = job;
    for seg in segments.iter() {
        for k in 0..seg.count {
            storage.push(seg.start + k);
        }
    }
    model.filled(sound_id, storage)
}

/// Runs the chain of fills that a start asks for; returns the delivered buffers' samples.
fn start_all(model: &mut Model, id: u64, play: Play) -> Vec<(Vec<u64>, u64, u64, bool)> {
    let mut out = Vec::new();
    let mut next = Action::Fill(model.start(id, play));
    while let Action::Fill(job) = next {
        let d = fill(model, job);
        let b = d.buffer.expect("a pending fill delivers a buffer");
        out.push((b.samples, b.info.start, b.info.end, d.close));
        next = d.next;
    }
    out
}

#[test]
fn looped_wav_scenario() {
    // 2 channels, 44 frames, start at frame 50: 50 mod 44 = 6, sample 12.
    let mut model = Model::new(64);
    let play = Play { len_samples: 88, channels: 2, start_frame: 50, looped: true };
    let job: FillJob<u64> = model.start(7, play);
    assert_eq!(
        job.segments,
        vec![Segment { start: 12, count: 76 }, Segment { start: 0, count: 52 }]
    );
    let d = fill(&mut model, job);
    let b = d.buffer.unwrap();
    assert_eq!(b.info.start, 12);
    assert_eq!(b.info.end, 12 + 64 * 2);
    assert_eq!(b.samples.len(), 128);
    assert_eq!(b.samples[0], 12);
    assert_eq!(b.samples[75], 87);
    assert_eq!(b.samples[76], 0);
    assert!(!d.close);
}

#[test]
fn start_frame_wraps_around_duration() {
    for (start_frame, expected) in [(0u64, 0u64), (43, 86), (44, 0), (50, 12), (44 * 1000 + 3, 6)] {
        let mut model = Model::new(4);
        let play = Play { len_samples: 88, channels: 2, start_frame, looped: false };
        let job: FillJob<u64> = model.start(1, play);
        assert_eq!(job.segments[0].start, expected);
    }
}

#[test]
fn unlooped_file_delivers_every_sample_once() {
    // 10 frames of 1 channel, 4 frames per buffer: 4 + 4 + 2.
    let mut model = Model::new(4);
    let play = Play { len_samples: 10, channels: 1, start_frame: 0, looped: false };
    let out = start_all(&mut model, 3, play);
    let lens: Vec<usize> = out.iter().map(|b| b.0.len()).collect();
    assert_eq!(lens, vec![4, 4, 2]);
    let all: Vec<u64> = out.iter().flat_map(|b| b.0.clone()).collect();
    assert_eq!(all, (0..10).collect::<Vec<u64>>());
    assert_eq!(out[2].1, 8);
    assert_eq!(out[2].2, 10);
    assert!(out[2].3);
    assert!(!out[1].3);
    assert!(!model.is_playing(3));
}

#[test]
fn unlooped_file_of_whole_buffers_ends_with_an_empty_one() {
    let mut model = Model::new(2);
    let play = Play { len_samples: 8, channels: 2, start_frame: 0, looped: false };
    let out = start_all(&mut model, 3, play);
    let lens: Vec<usize> = out.iter().map(|b| b.0.len()).collect();
    assert_eq!(lens, vec![4, 4, 0]);
    assert!(out[2].3);
}

#[test]
fn looped_file_never_ends_and_stops_allocating() {
    let mut model = Model::new(3);
    let play = Play { len_samples: 10, channels: 2, start_frame: 0, looped: true };
    let out = start_all(&mut model, 9, play);
    assert_eq!(out.len(), NUM_BUFFERS as usize);
    assert!(out.iter().all(|b| b.0.len() == 6 && !b.3));
    let mut samples: Vec<u64> = out.iter().flat_map(|b| b.0.clone()).collect();
    for (storage, _, _, _) in out {
        match model.processed(9, storage) {
            Action::Fill(job) => {
                let d = fill(&mut model, job);
                assert!(!d.close);
                assert!(matches!(d.next, Action::Idle));
                samples.extend(d.buffer.unwrap().samples);
            }
            Action::Idle => panic!("a returned buffer of a looped sound is refilled"),
        }
    }
    assert_eq!(samples.len(), 32 * 6);
    for (i, s) in samples.iter().enumerate() {
        assert_eq!(*s, (i as u64) % 10);
    }
}

#[test]
fn returned_storage_is_reused() {
    let mut model = Model::new(8);
    let play = Play { len_samples: 1000, channels: 1, start_frame: 0, looped: true };
    let out = start_all(&mut model, 5, play);
    let storage = out.into_iter().next().unwrap().0;
    let ptr = storage.as_ptr();
    let job = match model.processed(5, storage) {
        Action::Fill(job) => job,
        Action::Idle => panic!("expected a fill"),
    };
    assert_eq!(job.storage.as_ptr(), ptr);
    assert!(job.storage.is_empty());
    let d = fill(&mut model, job);
    let b = d.buffer.unwrap();
    assert_eq!(b.samples.as_ptr(), ptr);
    assert_eq!(b.info.start, 128);
    assert_eq!(b.samples[0], 128);
}

#[test]
fn look_ahead_keeps_its_depth() {
    let mut model = Model::new(2);
    let play = Play { len_samples: 100, channels: 1, start_frame: 0, looped: true };
    let mut held: Vec<Vec<u64>> = start_all(&mut model, 1, play).into_iter().map(|b| b.0).collect();
    assert_eq!(held.len(), 16);
    for _ in 0..40 {
        let storage = held.remove(0);
        let job = match model.processed(1, storage) {
            Action::Fill(job) => job,
            Action::Idle => panic!("expected a fill"),
        };
        let d = fill(&mut model, job);
        assert!(matches!(d.next, Action::Idle));
        held.push(d.buffer.unwrap().samples);
        assert_eq!(held.len(), 16);
    }
}

#[test]
fn stopped_sound_drops_returned_storage() {
    let mut model = Model::new(2);
    let play = Play { len_samples: 100, channels: 1, start_frame: 0, looped: true };
    let out = start_all(&mut model, 1, play);
    assert!(model.stop(1));
    assert!(!model.stop(1));
    let storage = out.into_iter().next().unwrap().0;
    assert!(matches!(model.processed(1, storage), Action::Idle));
    let d = model.filled(1, vec![1u64, 2]);
    assert!(d.buffer.is_none());
    assert!(!d.close);
}

#[test]
fn short_decode_keeps_a_looped_sound_playing() {
    let mut model = Model::new(4);
    let play = Play { len_samples: 100, channels: 1, start_frame: 0, looped: true };
    let job: FillJob<u64> = model.start(2, play);
    let d: Delivery<u64> = model.filled(job.sound_id, Vec::new());
    assert!(!d.close);
    let b = d.buffer.unwrap();
    assert_eq!(b.samples.len(), 0);
    assert_eq!((b.info.start, b.info.end), (0, 0));
    assert!(model.is_playing(2));
    match d.next {
        Action::Fill(job) => assert_eq!(job.segments, vec![Segment { start: 4, count: 4 }]),
        Action::Idle => panic!("the sound goes on"),
    }
}

#[test]
fn extra_decoded_samples_are_dropped() {
    let mut model = Model::new(2);
    let play = Play { len_samples: 100, channels: 1, start_frame: 0, looped: false };
    let _job: FillJob<u64> = model.start(2, play);
    let d = model.filled(2, vec![1u64, 2, 3, 4, 5]);
    let b = d.buffer.unwrap();
    assert_eq!(b.samples, vec![1, 2]);
    assert_eq!((b.info.start, b.info.end), (0, 2));
}

#[test]
fn empty_file_ends_at_once() {
    let mut model = Model::new(4);
    let play = Play { len_samples: 0, channels: 2, start_frame: 9, looped: true };
    let out = start_all(&mut model, 4, play);
    assert_eq!(out.len(), 1);
    assert!(out[0].0.is_empty());
    assert!(out[0].3);
}

#[test]
fn handle_dispatches_messages() {
    let mut model = Model::new(4);
    let play = Play { len_samples: 40, channels: 1, start_frame: 0, looped: false };
    match model.handle(Message::<u64>::Play(1, play)) {
        Reply::Act(Action::Fill(job)) => assert_eq!(job.segments, vec![Segment { start: 0, count: 4 }]),
        _ => panic!("expected a fill"),
    }
    let silent = Play { len_samples: 40, channels: 0, start_frame: 0, looped: false };
    assert!(matches!(model.handle(Message::<u64>::Play(2, silent)), Reply::Act(Action::Idle)));
    assert!(matches!(model.handle(Message::<u64>::ProcessedBuffer(1, vec![])), Reply::Act(Action::Idle)));
    assert!(matches!(model.handle(Message::<u64>::End(1)), Reply::Ended(true)));
    assert!(matches!(model.handle(Message::<u64>::End(1)), Reply::Ended(false)));
    assert!(matches!(model.handle(Message::<u64>::Exit), Reply::Exit));
}

#[test]
fn supported_encodings() {
    assert!(is_supported(SampleFormat::Float, 32));
    assert!(!is_supported(SampleFormat::Float, 16));
    assert!(is_supported(SampleFormat::Int, 8));
    assert!(is_supported(SampleFormat::Int, 16));
    assert!(is_supported(SampleFormat::Int, 32));
    assert!(!is_supported(SampleFormat::Int, 24));
}

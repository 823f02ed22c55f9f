use audio_server::dbap::Point;
use audio_server::soundscape::{
    next_tick, ActiveSound, Envelope, Kind, Message, Model, Movement, Reply, Request, Source, Speaker, Tick,
    UpdateFn,
};

fn source(min_interval_ms: u64, max_active: u32, duration_ms: u64, movement: Movement) -> Source {
    Source {
        kind: Kind::Wav { looped: true },
        installations: vec![1],
        spread: 500,
        milliradians: 0,
        min_interval_ms,
        max_active,
        envelope: Envelope { duration_ms, attack_ms: 0, release_ms: 0 },
        movement,
    }
}

fn tick(model: &mut Model, since_last_tick_ms: u64, playback_duration_ms: u64) {
    model.tick(Tick { since_last_tick_ms, playback_duration_ms });
}

#[test]
fn spawns_once_per_interval() {
    let mut model = Model::new(100);
    let fixed = Movement::Fixed(Point { x: 1000, y: 2000 });
    model.insert_source(1, source(100, 4, 10_000, fixed));
    tick(&mut model, 16, 16);
    assert_eq!(model.active_sounds().len(), 1);
    let a = model.active_sounds()[0];
    assert_eq!(a.sound_id, 100);
    assert_eq!(a.source_id, 1);
    assert_eq!(a.point, Point { x: 1000, y: 2000 });
    let reqs = model.take_requests();
    assert_eq!(reqs[0], Request::Spawn { sound_id: 100, source_id: 1, point: Point { x: 1000, y: 2000 }, amplitude: 1000 });
    tick(&mut model, 16, 32);
    assert_eq!(model.active_sounds().len(), 1);
    let reqs = model.take_requests();
    assert!(reqs.iter().all(|r| !matches!(r, Request::Spawn { .. })));
    tick(&mut model, 84, 116);
    assert_eq!(model.active_sounds().len(), 2);
    assert_eq!(model.active_sounds()[1].sound_id, 101);
}

#[test]
fn spawning_respects_the_instance_limit() {
    let mut model = Model::new(0);
    model.insert_source(1, source(0, 2, 10_000, Movement::Fixed(Point { x: 0, y: 0 })));
    for t in 1..6u64 {
        tick(&mut model, 16, 16 * t);
    }
    assert_eq!(model.active_sounds().len(), 2);
}

#[test]
fn removing_a_source_retires_its_sounds() {
    let mut model = Model::new(0);
    let fixed = Movement::Fixed(Point { x: 0, y: 0 });
    model.insert_source(1, source(0, 3, 10_000, fixed));
    model.insert_source(2, source(0, 3, 10_000, fixed));
    tick(&mut model, 16, 16);
    tick(&mut model, 16, 32);
    assert_eq!(model.active_sounds().len(), 4);
    model.take_requests();
    let reply = model.handle(Message::Update(UpdateFn::RemoveSource(1)));
    assert_eq!(reply, Reply::Found(true));
    assert!(model.active_sounds().iter().all(|a| a.source_id == 2));
    assert_eq!(model.active_sounds().len(), 2);
    let stops: Vec<Request> = model.take_requests();
    assert_eq!(stops, vec![Request::Stop { sound_id: 0 }, Request::Stop { sound_id: 2 }]);
    assert!(model.source(1).is_none());
    assert_eq!(model.handle(Message::Update(UpdateFn::RemoveSource(1))), Reply::Found(false));
}

#[test]
fn sounds_move_and_retire() {
    let mut model = Model::new(0);
    let linear = Movement::Linear { from: Point { x: 0, y: 0 }, dx: 1000, dy: -500 };
    model.insert_source(1, source(1_000_000, 1, 100, linear));
    tick(&mut model, 16, 16);
    tick(&mut model, 50, 66);
    let a: ActiveSound = model.active_sounds()[0];
    assert_eq!(a.age_ms, 50);
    assert_eq!(a.point, Point { x: 50, y: -25 });
    model.take_requests();
    tick(&mut model, 50, 116);
    assert!(model.active_sounds().is_empty());
    assert_eq!(model.take_requests(), vec![Request::Stop { sound_id: 0 }]);
}

#[test]
fn envelope_shapes_amplitude() {
    let mut model = Model::new(0);
    let mut s = source(1_000_000, 1, 1000, Movement::Fixed(Point { x: 0, y: 0 }));
    s.envelope = Envelope { duration_ms: 1000, attack_ms: 200, release_ms: 400 };
    model.insert_source(1, s);
    tick(&mut model, 16, 16);
    assert_eq!(model.active_sounds()[0].amplitude, 0);
    tick(&mut model, 50, 66);
    assert_eq!(model.active_sounds()[0].amplitude, 250);
    tick(&mut model, 250, 316);
    assert_eq!(model.active_sounds()[0].amplitude, 1000);
    tick(&mut model, 600, 916);
    assert_eq!(model.active_sounds()[0].amplitude, 250);
}

#[test]
fn speaker_updates_report_missing_ids() {
    let mut model = Model::new(0);
    let sp = Speaker { point: Point { x: 1, y: 2 }, installations: vec![3] };
    assert!(model.insert_speaker(5, sp.clone()).is_none());
    assert!(model.insert_speaker(5, sp.clone()).is_some());
    let moved = Speaker { point: Point { x: 9, y: 9 }, installations: vec![3] };
    assert!(model.update_speaker(5, moved));
    assert_eq!(model.speaker(5).unwrap().point, Point { x: 9, y: 9 });
    assert!(!model.update_speaker(6, sp.clone()));
    assert_eq!(model.handle(Message::Update(UpdateFn::UpdateSpeaker(6, sp.clone()))), Reply::Found(false));
    assert!(model.remove_speaker(5).is_some());
    assert!(model.remove_speaker(5).is_none());
    assert!(!model.update_source(1, source(0, 1, 1, Movement::Fixed(Point { x: 0, y: 0 }))));
}

#[test]
fn play_and_pause_reach_every_sound() {
    let mut model = Model::new(7);
    model.insert_source(1, source(0, 2, 10_000, Movement::Fixed(Point { x: 0, y: 0 })));
    tick(&mut model, 16, 16);
    model.take_requests();
    assert_eq!(model.handle(Message::Pause), Reply::Done);
    assert_eq!(model.handle(Message::Play), Reply::Done);
    assert_eq!(
        model.take_requests(),
        vec![Request::Pause { sound_id: 7 }, Request::Play { sound_id: 7 }]
    );
    assert_eq!(model.handle(Message::Exit), Reply::Exit);
}

#[test]
fn ticks_only_while_playing() {
    assert_eq!(next_tick(false, 16, 100), (100, None));
    assert_eq!(
        next_tick(true, 16, 100),
        (116, Some(Tick { since_last_tick_ms: 16, playback_duration_ms: 116 }))
    );
    assert_eq!(next_tick(true, 5, u64::MAX - 1).0, u64::MAX);
}

#[test]
fn removed_speaker_and_source_are_gone() {
    let mut model = Model::new(0);
    model.insert_speaker(1, Speaker { point: Point { x: 0, y: 0 }, installations: vec![] });
    model.insert_source(2, source(0, 1, 10, Movement::Fixed(Point { x: 0, y: 0 })));
    assert_eq!(model.handle(Message::Update(UpdateFn::RemoveSpeaker(1))), Reply::Found(true));
    assert!(model.speaker(1).is_none());
    assert_eq!(model.handle(Message::Update(UpdateFn::RemoveSource(2))), Reply::Found(true));
    assert!(model.source(2).is_none());
}

//! The state of the soundscape scheduler: the sources and speakers it knows of, and the sounds
//! it has spawned and still moves.
//!
//! The scheduler handles one message at a time. Updates change the sources and speakers; a tick
//! spawns, moves, shapes and retires sounds. Whatever the output stream must do is queued as
//! `Request`s, which the caller takes with `take_requests`.
use vstd::prelude::*;
use crate::dbap::Point;
use crate::table::{Table, has_key, key_index, inserted, replaced, removed, unique_keys};
use std::collections::HashMap;

verus! {

broadcast use vstd::std_specs::hash::group_hash_axioms;

/// Full amplitude, in thousandths.
pub const FULL_AMPLITUDE: u32 = 1000;

/// How a sound moves over its lifetime.
#[derive(Clone, Copy, Debug, PartialEq, Eq, Structural)]
pub enum Movement {
    /// The sound stays at a point.
    Fixed(Point),
    /// The sound starts at `from` and moves by `dx` and `dy` millimetres per second.
    Linear { from: Point, dx: i32, dy: i32 },
}

/// The amplitude shape of a sound: a ramp up over `attack_ms`, a ramp down over the last
/// `release_ms`, and an end after `duration_ms`.
#[derive(Clone, Copy, Debug, PartialEq, Eq, Structural)]
pub struct Envelope {
    pub duration_ms: u64,
    pub attack_ms: u64,
    pub release_ms: u64,
}

/// What a sound is played from.
#[derive(Clone, Copy, Debug, PartialEq, Eq, Structural)]
pub enum Kind {
    /// A file, looped or not.
    Wav { looped: bool },
    /// A live input.
    Realtime,
}

/// A speaker as the soundscape sees it.
#[derive(Clone, Debug)]
pub struct Speaker {
    /// The position of the speaker, in millimetres.
    pub point: Point,
    /// The installations that the speaker serves.
    pub installations: Vec<u32>,
}

/// A source of sounds as the soundscape sees it, with the policy by which it spawns them.
#[derive(Clone, Debug)]
pub struct Source {
    pub kind: Kind,
    /// The installations that its sounds play in.
    pub installations: Vec<u32>,
    /// The spread of its channels around the sound's position, in millimetres.
    pub spread: u32,
    /// The angle over which its channels fan out, in milliradians.
    pub milliradians: u32,
    /// A sound is spawned at most once in this many milliseconds.
    pub min_interval_ms: u64,
    /// The largest number of its sounds that play at once.
    pub max_active: u32,
    pub envelope: Envelope,
    pub movement: Movement,
}

/// A sound spawned by the soundscape and still playing.
#[derive(Clone, Copy, Debug, PartialEq, Eq, Structural)]
pub struct ActiveSound {
    pub sound_id: u64,
    pub source_id: u64,
    /// The current position, in millimetres.
    pub point: Point,
    /// The direction the sound faces, in milliradians.
    pub direction: u32,
    /// The playback time elapsed since it was spawned.
    pub age_ms: u64,
    /// The current amplitude, in thousandths of full amplitude.
    pub amplitude: u32,
    pub movement: Movement,
    pub envelope: Envelope,
}

/// A step of the scheduler's clock.
#[derive(Clone, Copy, Debug, PartialEq, Eq, Structural)]
pub struct Tick {
    /// The time since the previous tick.
    pub since_last_tick_ms: u64,
    /// The total time over which the soundscape has played; it does not grow while paused.
    pub playback_duration_ms: u64,
}

/// A request to the output stream.
#[derive(Clone, Copy, Debug, PartialEq, Eq, Structural)]
pub enum Request {
    Spawn { sound_id: u64, source_id: u64, point: Point, amplitude: u32 },
    Update { sound_id: u64, point: Point, amplitude: u32 },
    Stop { sound_id: u64 },
    Play { sound_id: u64 },
    Pause { sound_id: u64 },
}

/// An update of the scheduler's sources and speakers.
#[derive(Debug)]
pub enum UpdateFn {
    InsertSpeaker(u64, Speaker),
    UpdateSpeaker(u64, Speaker),
    RemoveSpeaker(u64),
    InsertSource(u64, Source),
    UpdateSource(u64, Source),
    RemoveSource(u64),
}

/// The messages handled by the scheduler.
#[derive(Debug)]
pub enum Message {
    Update(UpdateFn),
    Tick(Tick),
    Play,
    Pause,
    Exit,
}

/// The scheduler's answer to a message.
#[derive(Clone, Copy, Debug, PartialEq, Eq, Structural)]
pub enum Reply {
    /// An update was applied; whether the speaker or source it names was there before.
    Found(bool),
    /// A tick, play or pause was applied.
    Done,
    /// The scheduler stops.
    Exit,
}

/// The tick that the ticker sends after `since_last_tick_ms` more milliseconds, with the
/// playback time so far: none while paused, when playback time does not grow either.
pub open spec fn next_tick_spec(playing: bool, since_last_tick_ms: u64, playback_duration_ms: u64) -> (
    u64,
    Option<Tick>,
) {
    if !playing {
        (playback_duration_ms, None)
    } else {
        let total = if playback_duration_ms + since_last_tick_ms > u64::MAX {
            u64::MAX
        } else {
            (playback_duration_ms + since_last_tick_ms) as u64
        };
        (total, Some(Tick { since_last_tick_ms, playback_duration_ms: total }))
    }
}

/// The ticker's step: the new playback time and the tick to send, if any.
pub fn next_tick(playing: bool, since_last_tick_ms: u64, playback_duration_ms: u64) -> (r: (
    u64,
    Option<Tick>,
))
    ensures
        r == next_tick_spec(playing, since_last_tick_ms, playback_duration_ms),
{
    if !playing {
        return (playback_duration_ms, None);
    }
    let total: u64 = if playback_duration_ms > u64::MAX - since_last_tick_ms {
        u64::MAX
    } else {
        playback_duration_ms + since_last_tick_ms
    };
    (total, Some(Tick { since_last_tick_ms, playback_duration_ms: total }))
}

/// `x` clamped to the range of `i32`.
pub open spec fn clamp_i32(x: int) -> i32 {
    if x < i32::MIN {
        i32::MIN
    } else if x > i32::MAX {
        i32::MAX
    } else {
        x as i32
    }
}

/// A coordinate `p` moved at `v` millimetres per second for `t` milliseconds; the distance is
/// rounded toward zero, and the result clamped.
pub open spec fn axis_at(p: i32, v: i32, t: u64) -> i32 {
    let prod = v * t;
    let d = if prod >= 0 {
        prod / 1000
    } else {
        -((-prod) / 1000)
    };
    clamp_i32(p + d)
}

/// Where a sound that moves by `m` is after `age` milliseconds.
pub open spec fn position_at(m: Movement, age: u64) -> Point {
    match m {
        Movement::Fixed(p) => p,
        Movement::Linear { from, dx, dy } => Point {
            x: axis_at(from.x, dx, age),
            y: axis_at(from.y, dy, age),
        },
    }
}

/// The amplitude, in thousandths, of a sound shaped by `e` after `age` milliseconds.
pub open spec fn envelope_at(e: Envelope, age: u64) -> int {
    if age >= e.duration_ms {
        0
    } else if age < e.attack_ms {
        1000 * age / (e.attack_ms as int)
    } else if e.duration_ms - age < e.release_ms {
        1000 * (e.duration_ms - age) / (e.release_ms as int)
    } else {
        1000
    }
}

/// Whether a sound was spawned from source `id`.
pub open spec fn from_source(id: u64) -> spec_fn(ActiveSound) -> bool {
    |a: ActiveSound| a.source_id == id
}

/// Whether a sound was spawned from another source than `id`.
pub open spec fn not_from_source(id: u64) -> spec_fn(ActiveSound) -> bool {
    |a: ActiveSound| a.source_id != id
}

/// The number of active sounds spawned from source `id`.
pub open spec fn count_from(active: Seq<ActiveSound>, id: u64) -> nat {
    active.filter(from_source(id)).len()
}

/// The requests that stop each of `s`, in order.
pub open spec fn stop_requests(s: Seq<ActiveSound>) -> Seq<Request> {
    s.map_values(|a: ActiveSound| stop_request(a))
}

/// Whether source `id` spawns a sound at time `now`: it has fewer sounds than its limit and did
/// not spawn one within its interval.
pub open spec fn spawn_due(
    id: u64,
    src: Source,
    active: Seq<ActiveSound>,
    last: Map<u64, u64>,
    now: u64,
) -> bool {
    &&& count_from(active, id) < src.max_active
    &&& (last.contains_key(id) ==> last[id] + src.min_interval_ms <= now)
}

/// The sound spawned from source `id` with sound id `sound_id`.
pub open spec fn spawned_sound(sound_id: u64, id: u64, src: Source) -> ActiveSound {
    ActiveSound {
        sound_id,
        source_id: id,
        point: position_at(src.movement, 0),
        direction: src.milliradians,
        age_ms: 0,
        amplitude: envelope_at(src.envelope, 0) as u32,
        movement: src.movement,
        envelope: src.envelope,
    }
}

/// The sounds spawned at time `now` by the sources `srcs`, in order, numbered from `next_id`, with
/// the times of last spawn after it and the next free sound id.
pub open spec fn spawn_phase(
    srcs: Seq<(u64, Source)>,
    active: Seq<ActiveSound>,
    last: Map<u64, u64>,
    now: u64,
    next_id: u64,
) -> (Seq<ActiveSound>, Map<u64, u64>, u64)
    decreases srcs.len(),
{
    if srcs.len() == 0 {
        (Seq::empty(), last, next_id)
    } else {
        let (sp, l, n) = spawn_phase(srcs.drop_last(), active, last, now, next_id);
        let (id, src) = srcs.last();
        if n < u64::MAX && spawn_due(id, src, active, l, now) {
            (sp.push(spawned_sound(n, id, src)), l.insert(id, now), (n + 1) as u64)
        } else {
            (sp, l, n)
        }
    }
}

/// `a` after `dt` more milliseconds of playback.
pub open spec fn advance_sound(a: ActiveSound, dt: u64) -> ActiveSound {
    let age = if a.age_ms + dt > u64::MAX {
        u64::MAX
    } else {
        (a.age_ms + dt) as u64
    };
    ActiveSound {
        age_ms: age,
        point: position_at(a.movement, age),
        amplitude: envelope_at(a.envelope, age) as u32,
        ..a
    }
}

/// Whether `a` still plays.
pub open spec fn alive(a: ActiveSound) -> bool {
    a.age_ms < a.envelope.duration_ms
}

/// The request that reports `a` to the output stream after a tick: its new state, or its end.
pub open spec fn status_request(a: ActiveSound) -> Request {
    if alive(a) {
        Request::Update { sound_id: a.sound_id, point: a.point, amplitude: a.amplitude }
    } else {
        Request::Stop { sound_id: a.sound_id }
    }
}

/// The request that spawns `a` on the output stream.
pub open spec fn spawn_request(a: ActiveSound) -> Request {
    Request::Spawn {
        sound_id: a.sound_id,
        source_id: a.source_id,
        point: a.point,
        amplitude: a.amplitude,
    }
}

/// The request that stops `a`.
pub open spec fn stop_request(a: ActiveSound) -> Request {
    Request::Stop { sound_id: a.sound_id }
}

/// Every sound of `s` after `dt` more milliseconds of playback.
pub open spec fn advance_all(s: Seq<ActiveSound>, dt: u64) -> Seq<ActiveSound> {
    s.map_values(|a: ActiveSound| advance_sound(a, dt))
}

/// Whether a sound still plays.
pub open spec fn is_alive() -> spec_fn(ActiveSound) -> bool {
    |a: ActiveSound| alive(a)
}

/// The requests that spawn each of `s`, in order.
pub open spec fn spawn_requests(s: Seq<ActiveSound>) -> Seq<Request> {
    s.map_values(|a: ActiveSound| spawn_request(a))
}

/// The requests that report each of `s` after a tick, in order.
pub open spec fn status_requests(s: Seq<ActiveSound>) -> Seq<Request> {
    s.map_values(|a: ActiveSound| status_request(a))
}

/// A coordinate `p` moved at `v` millimetres per second for `t` milliseconds.
fn move_axis(p: i32, v: i32, t: u64) -> (r: i32)
    ensures
        r == axis_at(p, v, t),
{
    assert(-0x8000_0000 * 0x1_0000_0000_0000_0000 <= v * t <= 0x8000_0000 * 0x1_0000_0000_0000_0000)
        by (nonlinear_arith)
        requires
            -0x8000_0000 <= v <= 0x7FFF_FFFF,
            0 <= t <= 0xFFFF_FFFF_FFFF_FFFF,
    ;
    let prod: i128 = v as i128 * t as i128;
    let d: i128 = if prod >= 0 {
        ((prod as u128) / 1000) as i128
    } else {
        -((((-prod) as u128) / 1000) as i128)
    };
    let x: i128 = p as i128 + d;
    if x < i32::MIN as i128 {
        i32::MIN
    } else if x > i32::MAX as i128 {
        i32::MAX
    } else {
        x as i32
    }
}

/// Where a sound that moves by `m` is after `age` milliseconds.
fn position(m: Movement, age: u64) -> (r: Point)
    ensures
        r == position_at(m, age),
{
    match m {
        Movement::Fixed(p) => p,
        Movement::Linear { from, dx, dy } => Point {
            x: move_axis(from.x, dx, age),
            y: move_axis(from.y, dy, age),
        },
    }
}

/// The amplitude, in thousandths, of a sound shaped by `e` after `age` milliseconds.
fn amplitude(e: Envelope, age: u64) -> (r: u32)
    ensures
        r == envelope_at(e, age),
        r <= FULL_AMPLITUDE,
{
    if age >= e.duration_ms {
        0
    } else if age < e.attack_ms {
        assert(1000 * age / (e.attack_ms as int) <= 1000) by (nonlinear_arith)
            requires
                0 <= age < e.attack_ms,
        ;
        ((1000u128 * age as u128) / e.attack_ms as u128) as u32
    } else if e.duration_ms - age < e.release_ms {
        let left: u64 = e.duration_ms - age;
        assert(1000 * left / (e.release_ms as int) <= 1000) by (nonlinear_arith)
            requires
                0 <= left < e.release_ms,
        ;
        ((1000u128 * left as u128) / e.release_ms as u128) as u32
    } else {
        FULL_AMPLITUDE
    }
}

/// `a` after `dt` more milliseconds of playback.
fn advance(a: ActiveSound, dt: u64) -> (r: ActiveSound)
    ensures
        r == advance_sound(a, dt),
{
    let age: u64 = if a.age_ms > u64::MAX - dt {
        u64::MAX
    } else {
        a.age_ms + dt
    };
    ActiveSound { age_ms: age, point: position(a.movement, age), amplitude: amplitude(a.envelope, age), ..a }
}

/// The state of the scheduler.
#[derive(Debug)]
pub struct Model {
    sources: Table<Source>,
    speakers: Table<Speaker>,
    active_sounds: Vec<ActiveSound>,
    last_spawn: HashMap<u64, u64>,
    next_sound_id: u64,
    requests: Vec<Request>,
}

impl Model {
    /// The sources, in order of insertion.
    pub closed spec fn sources_spec(&self) -> Seq<(u64, Source)> {
        self.sources.entries()
    }

    /// The speakers, in order of insertion.
    pub closed spec fn speakers_spec(&self) -> Seq<(u64, Speaker)> {
        self.speakers.entries()
    }

    /// The active sounds, oldest first.
    pub closed spec fn active_spec(&self) -> Seq<ActiveSound> {
        self.active_sounds@
    }

    /// The time at which each source last spawned a sound.
    pub closed spec fn last_spawn_spec(&self) -> Map<u64, u64> {
        self.last_spawn@
    }

    /// The id that the next spawned sound gets.
    pub closed spec fn next_id_spec(&self) -> u64 {
        self.next_sound_id
    }

    /// The requests queued for the output stream.
    pub closed spec fn requests_spec(&self) -> Seq<Request> {
        self.requests@
    }

    /// No two sources, and no two speakers, share an id.
    pub open spec fn wf(&self) -> bool {
        &&& unique_keys(self.sources_spec())
        &&& unique_keys(self.speakers_spec())
    }

    /// A scheduler with no sources, speakers or sounds, whose first spawned sound gets id
    /// `first_sound_id`.
    pub fn new(first_sound_id: u64) -> (r: Model)
        ensures
            r.wf(),
            r.sources_spec() == Seq::<(u64, Source)>::empty(),
            r.speakers_spec() == Seq::<(u64, Speaker)>::empty(),
            r.active_spec() == Seq::<ActiveSound>::empty(),
            r.last_spawn_spec() == Map::<u64, u64>::empty(),
            r.next_id_spec() == first_sound_id,
            r.requests_spec() == Seq::<Request>::empty(),
    {
        Model {
            sources: Table::new(),
            speakers: Table::new(),
            active_sounds: Vec::new(),
            last_spawn: HashMap::new(),
            next_sound_id: first_sound_id,
            requests: Vec::new(),
        }
    }

    /// Inserts a speaker, returning the one it replaces.
    pub fn insert_speaker(&mut self, id: u64, speaker: Speaker) -> (r: Option<Speaker>)
        requires
            old(self).wf(),
        ensures
            final(self).wf(),
            r is Some <==> has_key(old(self).speakers_spec(), id),
            r is None ==> final(self).speakers_spec() == old(self).speakers_spec().push(
                (id, speaker),
            ),
            r matches Some(o) ==> {
                let i = key_index(old(self).speakers_spec(), id);
                &&& o == old(self).speakers_spec()[i].1
                &&& final(self).speakers_spec() == old(self).speakers_spec().update(i, (id, speaker))
            },
            final(self).sources_spec() == old(self).sources_spec(),
            final(self).active_spec() == old(self).active_spec(),
            final(self).last_spawn_spec() == old(self).last_spawn_spec(),
            final(self).next_id_spec() == old(self).next_id_spec(),
            final(self).requests_spec() == old(self).requests_spec(),
    {
        self.speakers.insert(id, speaker)
    }

    /// Replaces the speaker `id`. Returns `false` if there is no such speaker.
    pub fn update_speaker(&mut self, id: u64, speaker: Speaker) -> (r: bool)
        requires
            old(self).wf(),
        ensures
            final(self).wf(),
            r == has_key(old(self).speakers_spec(), id),
            !r ==> final(self).speakers_spec() == old(self).speakers_spec(),
            r ==> {
                let i = key_index(old(self).speakers_spec(), id);
                &&& final(self).speakers_spec() == old(self).speakers_spec().update(i, (id, speaker))
            },
            final(self).sources_spec() == old(self).sources_spec(),
            final(self).active_spec() == old(self).active_spec(),
            final(self).last_spawn_spec() == old(self).last_spawn_spec(),
            final(self).next_id_spec() == old(self).next_id_spec(),
            final(self).requests_spec() == old(self).requests_spec(),
    {
        self.speakers.replace(id, speaker)
    }

    /// Removes the speaker `id`, returning it.
    pub fn remove_speaker(&mut self, id: u64) -> (r: Option<Speaker>)
        requires
            old(self).wf(),
        ensures
            final(self).wf(),
            !has_key(final(self).speakers_spec(), id),
            r is Some <==> has_key(old(self).speakers_spec(), id),
            r is None ==> final(self).speakers_spec() == old(self).speakers_spec(),
            r matches Some(o) ==> {
                let i = key_index(old(self).speakers_spec(), id);
                &&& o == old(self).speakers_spec()[i].1
                &&& final(self).speakers_spec() == old(self).speakers_spec().remove(i)
            },
            final(self).sources_spec() == old(self).sources_spec(),
            final(self).active_spec() == old(self).active_spec(),
            final(self).last_spawn_spec() == old(self).last_spawn_spec(),
            final(self).next_id_spec() == old(self).next_id_spec(),
            final(self).requests_spec() == old(self).requests_spec(),
    {
        self.speakers.remove(id)
    }

    /// Inserts a source, returning the one it replaces; the new source has not spawned yet.
    pub fn insert_source(&mut self, id: u64, source: Source) -> (r: Option<Source>)
        requires
            old(self).wf(),
        ensures
            final(self).wf(),
            r is Some <==> has_key(old(self).sources_spec(), id),
            r is None ==> final(self).sources_spec() == old(self).sources_spec().push(
                (id, source),
            ),
            r matches Some(o) ==> {
                let i = key_index(old(self).sources_spec(), id);
                &&& o == old(self).sources_spec()[i].1
                &&& final(self).sources_spec() == old(self).sources_spec().update(i, (id, source))
            },
            final(self).last_spawn_spec() == old(self).last_spawn_spec().remove(id),
            final(self).speakers_spec() == old(self).speakers_spec(),
            final(self).active_spec() == old(self).active_spec(),
            final(self).next_id_spec() == old(self).next_id_spec(),
            final(self).requests_spec() == old(self).requests_spec(),
    {
        self.last_spawn.remove(&id);
        self.sources.insert(id, source)
    }

    /// Replaces the source `id`, keeping the time of its last spawn. Returns `false` if there is
    /// no such source.
    pub fn update_source(&mut self, id: u64, source: Source) -> (r: bool)
        requires
            old(self).wf(),
        ensures
            final(self).wf(),
            r == has_key(old(self).sources_spec(), id),
            !r ==> final(self).sources_spec() == old(self).sources_spec(),
            r ==> {
                let i = key_index(old(self).sources_spec(), id);
                &&& final(self).sources_spec() == old(self).sources_spec().update(i, (id, source))
            },
            final(self).speakers_spec() == old(self).speakers_spec(),
            final(self).active_spec() == old(self).active_spec(),
            final(self).last_spawn_spec() == old(self).last_spawn_spec(),
            final(self).next_id_spec() == old(self).next_id_spec(),
            final(self).requests_spec() == old(self).requests_spec(),
    {
        self.sources.replace(id, source)
    }

    /// Removes the source `id`, returning it, and retires every active sound spawned from it:
    /// each is dropped and a stop request for it is queued.
    pub fn remove_source(&mut self, id: u64) -> (r: Option<Source>)
        requires
            old(self).wf(),
        ensures
            final(self).wf(),
            !has_key(final(self).sources_spec(), id),
            r is Some <==> has_key(old(self).sources_spec(), id),
            r is None ==> final(self).sources_spec() == old(self).sources_spec(),
            r matches Some(o) ==> {
                let i = key_index(old(self).sources_spec(), id);
                &&& o == old(self).sources_spec()[i].1
                &&& final(self).sources_spec() == old(self).sources_spec().remove(i)
            },
            final(self).active_spec() == old(self).active_spec().filter(not_from_source(id)),
            final(self).requests_spec() == old(self).requests_spec() + stop_requests(
                old(self).active_spec().filter(from_source(id)),
            ),
            final(self).last_spawn_spec() == old(self).last_spawn_spec().remove(id),
            final(self).speakers_spec() == old(self).speakers_spec(),
            final(self).next_id_spec() == old(self).next_id_spec(),
    {
        let ghost old_active = self.active_sounds@;
        let ghost old_requests = self.requests@;
        let mut kept: Vec<ActiveSound> = Vec::new();
        let mut i: usize = 0;
        while i < self.active_sounds.len()
            invariant
                self.sources == old(self).sources,
                self.speakers == old(self).speakers,
                self.last_spawn == old(self).last_spawn,
                self.next_sound_id == old(self).next_sound_id,
                self.active_sounds@ == old_active,
                i <= old_active.len(),
                kept@ == old_active.take(i as int).filter(not_from_source(id)),
                self.requests@ == old_requests + stop_requests(old_active.take(i as int).filter(from_source(id))),
            decreases old_active.len() - i,
        {
            let a = self.active_sounds[i];
            proof {
                assert(old_active.take(i + 1) =~= old_active.take(i as int).push(a));
                assert(not_from_source(id)(a) == (a.source_id != id));
                assert(from_source(id)(a) == (a.source_id == id));
                old_active.take(i as int).lemma_filter_push(a, not_from_source(id));
                old_active.take(i as int).lemma_filter_push(a, from_source(id));
            }
            if a.source_id != id {
                kept.push(a);
            } else {
                self.requests.push(Request::Stop { sound_id: a.sound_id });
                assert(stop_requests(old_active.take(i + 1).filter(from_source(id))) =~= stop_requests(
                    old_active.take(i as int).filter(from_source(id)),
                ).push(stop_request(a)));
            }
            i = i + 1;
        }
        assert(old_active.take(old_active.len() as int) =~= old_active);
        self.active_sounds = kept;
        self.last_spawn.remove(&id);
        self.sources.remove(id)
    }

    /// The number of active sounds spawned from source `id`.
    fn count_active_from(&self, id: u64) -> (r: usize)
        ensures
            r == count_from(self.active_spec(), id),
    {
        let mut n: usize = 0;
        let mut i: usize = 0;
        while i < self.active_sounds.len()
            invariant
                i <= self.active_sounds@.len(),
                n == self.active_sounds@.take(i as int).filter(from_source(id)).len(),
                n <= i,
            decreases self.active_sounds@.len() - i,
        {
            let a = self.active_sounds[i];
            proof {
                assert(self.active_sounds@.take(i + 1) =~= self.active_sounds@.take(i as int).push(a));
                assert(from_source(id)(a) == (a.source_id == id));
                self.active_sounds@.take(i as int).lemma_filter_push(a, from_source(id));
            }
            if a.source_id == id {
                n = n + 1;
            }
            i = i + 1;
        }
        assert(self.active_sounds@.take(self.active_sounds@.len() as int) =~= self.active_sounds@);
        n
    }

    /// Steps the soundscape forward: each source that is due spawns one sound, in the order of
    /// the sources; then every sound ages by the time since the last tick, moves, takes the
    /// amplitude of its envelope, and is retired once its duration has passed. Spawn requests
    /// are queued for the new sounds, then an update or a stop request for every sound.
    pub fn tick(&mut self, tick: Tick)
        requires
            old(self).wf(),
        ensures
            final(self).wf(),
            ({
                let (sp, l, n) = spawn_phase(
                    old(self).sources_spec(),
                    old(self).active_spec(),
                    old(self).last_spawn_spec(),
                    tick.playback_duration_ms,
                    old(self).next_id_spec(),
                );
                let all = advance_all(old(self).active_spec(), tick.since_last_tick_ms) + sp;
                &&& final(self).active_spec() == all.filter(is_alive())
                &&& final(self).requests_spec() == old(self).requests_spec() + spawn_requests(sp)
                    + status_requests(all)
                &&& final(self).last_spawn_spec() == l
                &&& final(self).next_id_spec() == n
            }),
            final(self).sources_spec() == old(self).sources_spec(),
            final(self).speakers_spec() == old(self).speakers_spec(),
    {
        let now = tick.playback_duration_ms;
        let dt = tick.since_last_tick_ms;
        let ghost srcs = self.sources.entries();
        let ghost old_active = self.active_sounds@;
        let ghost old_last = self.last_spawn@;
        let ghost old_next = self.next_sound_id;
        let ghost old_requests = self.requests@;
        let mut spawned: Vec<ActiveSound> = Vec::new();
        let mut i: usize = 0;
        while i < self.sources.len()
            invariant
                self.sources == old(self).sources,
                self.speakers == old(self).speakers,
                self.active_sounds == old(self).active_sounds,
                self.active_sounds@ == old_active,
                self.requests == old(self).requests,
                self.requests@ == old_requests,
                srcs == self.sources.entries(),
                i <= srcs.len(),
                (spawned@, self.last_spawn@, self.next_sound_id) == spawn_phase(
                    srcs.take(i as int),
                    old_active,
                    old_last,
                    now,
                    old_next,
                ),
            decreases srcs.len() - i,
        {
            let entry = self.sources.at(i);
            let id = entry.0;
            proof {
                assert(srcs.take(i + 1).drop_last() =~= srcs.take(i as int));
                assert(srcs.take(i + 1).last() == srcs[i as int]);
                assert(self.active_sounds@ == old_active);
            }
            let count = self.count_active_from(id);
            let interval_passed = match self.last_spawn.get(&id) {
                None => true,
                Some(l) => (*l as u128) + (entry.1.min_interval_ms as u128) <= now as u128,
            };
            if self.next_sound_id < u64::MAX && (count as u64) < (entry.1.max_active as u64)
                && interval_passed {
                let src = &entry.1;
                let sound = ActiveSound {
                    sound_id: self.next_sound_id,
                    source_id: id,
                    point: position(src.movement, 0),
                    direction: src.milliradians,
                    age_ms: 0,
                    amplitude: amplitude(src.envelope, 0),
                    movement: src.movement,
                    envelope: src.envelope,
                };
                assert(sound == spawned_sound(self.next_sound_id, id, entry.1));
                spawned.push(sound);
                self.last_spawn.insert(id, now);
                self.next_sound_id = self.next_sound_id + 1;
            }
            i = i + 1;
        }
        assert(srcs.take(srcs.len() as int) =~= srcs);
        let ghost sp = spawned@;
        let ghost last_after = self.last_spawn;
        let ghost next_after = self.next_sound_id;
        let mut j: usize = 0;
        while j < spawned.len()
            invariant
                self.sources == old(self).sources,
                self.speakers == old(self).speakers,
                self.active_sounds@ == old_active,
                self.last_spawn == last_after,
                self.next_sound_id == next_after,
                spawned@ == sp,
                j <= sp.len(),
                self.requests@ == old_requests + spawn_requests(sp.take(j as int)),
            decreases sp.len() - j,
        {
            let a = spawned[j];
            self.requests.push(Request::Spawn {
                sound_id: a.sound_id,
                source_id: a.source_id,
                point: a.point,
                amplitude: a.amplitude,
            });
            assert(spawn_requests(sp.take(j + 1)) =~= spawn_requests(sp.take(j as int)).push(
                spawn_request(a),
            ));
            j = j + 1;
        }
        assert(sp.take(sp.len() as int) =~= sp);
        let ghost all = advance_all(old_active, dt) + sp;
        let mut all_v: Vec<ActiveSound> = Vec::new();
        let mut m: usize = 0;
        while m < self.active_sounds.len()
            invariant
                self.sources == old(self).sources,
                self.speakers == old(self).speakers,
                self.active_sounds@ == old_active,
                self.last_spawn == last_after,
                self.next_sound_id == next_after,
                self.requests@ == old_requests + spawn_requests(sp),
                m <= old_active.len(),
                all_v@ == advance_all(old_active, dt).take(m as int),
            decreases old_active.len() - m,
        {
            let a = advance(self.active_sounds[m], dt);
            all_v.push(a);
            assert(advance_all(old_active, dt).take(m + 1) =~= advance_all(old_active, dt).take(
                m as int,
            ).push(a));
            m = m + 1;
        }
        assert(advance_all(old_active, dt).take(m as int) =~= advance_all(old_active, dt));
        all_v.append(&mut spawned);
        assert(all_v@ =~= all);
        let ghost before = self.requests@;
        let mut kept: Vec<ActiveSound> = Vec::new();
        let mut k: usize = 0;
        while k < all_v.len()
            invariant
                self.sources == old(self).sources,
                self.speakers == old(self).speakers,
                self.last_spawn == last_after,
                self.next_sound_id == next_after,
                all_v@ == all,
                k <= all.len(),
                kept@ == all.take(k as int).filter(is_alive()),
                self.requests@ == before + status_requests(all.take(k as int)),
            decreases all.len() - k,
        {
            let a = all_v[k];
            proof {
                assert(all.take(k + 1) =~= all.take(k as int).push(a));
                assert(is_alive()(a) == alive(a));
                all.take(k as int).lemma_filter_push(a, is_alive());
                assert(status_requests(all.take(k + 1)) =~= status_requests(all.take(k as int)).push(
                    status_request(a),
                ));
            }
            if a.age_ms < a.envelope.duration_ms {
                kept.push(a);
                self.requests.push(Request::Update {
                    sound_id: a.sound_id,
                    point: a.point,
                    amplitude: a.amplitude,
                });
            } else {
                self.requests.push(Request::Stop { sound_id: a.sound_id });
            }
            k = k + 1;
        }
        assert(all.take(all.len() as int) =~= all);
        self.active_sounds = kept;
    }

    /// Queues a play request for every active sound.
    pub fn play_all(&mut self)
        ensures
            final(self).requests_spec() == old(self).requests_spec() + old(
                self,
            ).active_spec().map_values(|a: ActiveSound| Request::Play { sound_id: a.sound_id }),
            final(self).sources_spec() == old(self).sources_spec(),
            final(self).speakers_spec() == old(self).speakers_spec(),
            final(self).active_spec() == old(self).active_spec(),
            final(self).last_spawn_spec() == old(self).last_spawn_spec(),
            final(self).next_id_spec() == old(self).next_id_spec(),
            final(self).wf() == old(self).wf(),
    {
        let ghost old_requests = self.requests@;
        let mut i: usize = 0;
        while i < self.active_sounds.len()
            invariant
                self.sources == old(self).sources,
                self.speakers == old(self).speakers,
                self.last_spawn == old(self).last_spawn,
                self.next_sound_id == old(self).next_sound_id,
                self.active_sounds == old(self).active_sounds,
                i <= self.active_sounds@.len(),
                self.requests@ == old_requests + self.active_sounds@.take(i as int).map_values(
                    |a: ActiveSound| Request::Play { sound_id: a.sound_id },
                ),
            decreases self.active_sounds@.len() - i,
        {
            let sound_id = self.active_sounds[i].sound_id;
            self.requests.push(Request::Play { sound_id });
            assert(self.active_sounds@.take(i + 1).map_values(
                |a: ActiveSound| Request::Play { sound_id: a.sound_id },
            ) =~= self.active_sounds@.take(i as int).map_values(
                |a: ActiveSound| Request::Play { sound_id: a.sound_id },
            ).push(Request::Play { sound_id }));
            i = i + 1;
        }
        assert(self.active_sounds@.take(self.active_sounds@.len() as int) =~= self.active_sounds@);
    }

    /// Queues a pause request for every active sound.
    pub fn pause_all(&mut self)
        ensures
            final(self).requests_spec() == old(self).requests_spec() + old(
                self,
            ).active_spec().map_values(|a: ActiveSound| Request::Pause { sound_id: a.sound_id }),
            final(self).sources_spec() == old(self).sources_spec(),
            final(self).speakers_spec() == old(self).speakers_spec(),
            final(self).active_spec() == old(self).active_spec(),
            final(self).last_spawn_spec() == old(self).last_spawn_spec(),
            final(self).next_id_spec() == old(self).next_id_spec(),
            final(self).wf() == old(self).wf(),
    {
        let ghost old_requests = self.requests@;
        let mut i: usize = 0;
        while i < self.active_sounds.len()
            invariant
                self.sources == old(self).sources,
                self.speakers == old(self).speakers,
                self.last_spawn == old(self).last_spawn,
                self.next_sound_id == old(self).next_sound_id,
                self.active_sounds == old(self).active_sounds,
                i <= self.active_sounds@.len(),
                self.requests@ == old_requests + self.active_sounds@.take(i as int).map_values(
                    |a: ActiveSound| Request::Pause { sound_id: a.sound_id },
                ),
            decreases self.active_sounds@.len() - i,
        {
            let sound_id = self.active_sounds[i].sound_id;
            self.requests.push(Request::Pause { sound_id });
            assert(self.active_sounds@.take(i + 1).map_values(
                |a: ActiveSound| Request::Pause { sound_id: a.sound_id },
            ) =~= self.active_sounds@.take(i as int).map_values(
                |a: ActiveSound| Request::Pause { sound_id: a.sound_id },
            ).push(Request::Pause { sound_id }));
            i = i + 1;
        }
        assert(self.active_sounds@.take(self.active_sounds@.len() as int) =~= self.active_sounds@);
    }

    /// Whether `self` and `other` have the same sounds, spawn times, next id and queue.
    pub open spec fn same_sounds(&self, other: &Model) -> bool {
        &&& self.active_spec() == other.active_spec()
        &&& self.last_spawn_spec() == other.last_spawn_spec()
        &&& self.next_id_spec() == other.next_id_spec()
        &&& self.requests_spec() == other.requests_spec()
    }

    /// Handles one message; an update of a speaker or source that is not there is a no-op that
    /// answers `Found(false)`.
    pub fn handle(&mut self, msg: Message) -> (r: Reply)
        requires
            old(self).wf(),
        ensures
            final(self).wf(),
            match msg {
                Message::Update(UpdateFn::InsertSpeaker(id, sp)) => {
                    &&& r == Reply::Found(has_key(old(self).speakers_spec(), id))
                    &&& final(self).speakers_spec() == inserted(old(self).speakers_spec(), id, sp)
                    &&& final(self).sources_spec() == old(self).sources_spec()
                    &&& final(self).same_sounds(old(self))
                },
                Message::Update(UpdateFn::UpdateSpeaker(id, sp)) => {
                    &&& r == Reply::Found(has_key(old(self).speakers_spec(), id))
                    &&& final(self).speakers_spec() == replaced(old(self).speakers_spec(), id, sp)
                    &&& final(self).sources_spec() == old(self).sources_spec()
                    &&& final(self).same_sounds(old(self))
                },
                Message::Update(UpdateFn::RemoveSpeaker(id)) => {
                    &&& r == Reply::Found(has_key(old(self).speakers_spec(), id))
                    &&& final(self).speakers_spec() == removed(old(self).speakers_spec(), id)
                    &&& !has_key(final(self).speakers_spec(), id)
                    &&& final(self).sources_spec() == old(self).sources_spec()
                    &&& final(self).same_sounds(old(self))
                },
                Message::Update(UpdateFn::InsertSource(id, src)) => {
                    &&& r == Reply::Found(has_key(old(self).sources_spec(), id))
                    &&& final(self).sources_spec() == inserted(old(self).sources_spec(), id, src)
                    &&& final(self).speakers_spec() == old(self).speakers_spec()
                    &&& final(self).active_spec() == old(self).active_spec()
                    &&& final(self).last_spawn_spec() == old(self).last_spawn_spec().remove(id)
                    &&& final(self).next_id_spec() == old(self).next_id_spec()
                    &&& final(self).requests_spec() == old(self).requests_spec()
                },
                Message::Update(UpdateFn::UpdateSource(id, src)) => {
                    &&& r == Reply::Found(has_key(old(self).sources_spec(), id))
                    &&& final(self).sources_spec() == replaced(old(self).sources_spec(), id, src)
                    &&& final(self).speakers_spec() == old(self).speakers_spec()
                    &&& final(self).same_sounds(old(self))
                },
                Message::Update(UpdateFn::RemoveSource(id)) => {
                    &&& r == Reply::Found(has_key(old(self).sources_spec(), id))
                    &&& final(self).sources_spec() == removed(old(self).sources_spec(), id)
                    &&& !has_key(final(self).sources_spec(), id)
                    &&& forall|i: int|
                        0 <= i < final(self).active_spec().len() ==> (#[trigger] final(self).active_spec()[i]).source_id != id
                    &&& final(self).speakers_spec() == old(self).speakers_spec()
                    &&& final(self).active_spec() == old(self).active_spec().filter(
                        not_from_source(id),
                    )
                    &&& final(self).requests_spec() == old(self).requests_spec() + stop_requests(
                        old(self).active_spec().filter(from_source(id)),
                    )
                    &&& final(self).last_spawn_spec() == old(self).last_spawn_spec().remove(id)
                    &&& final(self).next_id_spec() == old(self).next_id_spec()
                },
                Message::Tick(t) => {
                    let (sp, l, n) = spawn_phase(
                        old(self).sources_spec(),
                        old(self).active_spec(),
                        old(self).last_spawn_spec(),
                        t.playback_duration_ms,
                        old(self).next_id_spec(),
                    );
                    let all = advance_all(old(self).active_spec(), t.since_last_tick_ms) + sp;
                    &&& r == Reply::Done
                    &&& final(self).active_spec() == all.filter(is_alive())
                    &&& final(self).requests_spec() == old(self).requests_spec() + spawn_requests(
                        sp,
                    ) + status_requests(all)
                    &&& final(self).last_spawn_spec() == l
                    &&& final(self).next_id_spec() == n
                    &&& final(self).sources_spec() == old(self).sources_spec()
                    &&& final(self).speakers_spec() == old(self).speakers_spec()
                },
                Message::Play => {
                    &&& r == Reply::Done
                    &&& final(self).requests_spec() == old(self).requests_spec() + old(
                        self,
                    ).active_spec().map_values(|a: ActiveSound| Request::Play { sound_id: a.sound_id })
                    &&& final(self).active_spec() == old(self).active_spec()
                    &&& final(self).sources_spec() == old(self).sources_spec()
                    &&& final(self).speakers_spec() == old(self).speakers_spec()
                },
                Message::Pause => {
                    &&& r == Reply::Done
                    &&& final(self).requests_spec() == old(self).requests_spec() + old(
                        self,
                    ).active_spec().map_values(|a: ActiveSound| Request::Pause { sound_id: a.sound_id })
                    &&& final(self).active_spec() == old(self).active_spec()
                    &&& final(self).sources_spec() == old(self).sources_spec()
                    &&& final(self).speakers_spec() == old(self).speakers_spec()
                },
                Message::Exit => {
                    &&& r == Reply::Exit
                    &&& final(self).sources_spec() == old(self).sources_spec()
                    &&& final(self).speakers_spec() == old(self).speakers_spec()
                    &&& final(self).same_sounds(old(self))
                },
            },
    {
        match msg {
            Message::Update(update) => match update {
                UpdateFn::InsertSpeaker(id, sp) => Reply::Found(self.insert_speaker(id, sp).is_some()),
                UpdateFn::UpdateSpeaker(id, sp) => Reply::Found(self.update_speaker(id, sp)),
                UpdateFn::RemoveSpeaker(id) => Reply::Found(self.remove_speaker(id).is_some()),
                UpdateFn::InsertSource(id, src) => Reply::Found(self.insert_source(id, src).is_some()),
                UpdateFn::UpdateSource(id, src) => Reply::Found(self.update_source(id, src)),
                UpdateFn::RemoveSource(id) => Reply::Found(self.remove_source(id).is_some()),
            },
            Message::Tick(t) => {
                self.tick(t);
                Reply::Done
            },
            Message::Play => {
                self.play_all();
                Reply::Done
            },
            Message::Pause => {
                self.pause_all();
                Reply::Done
            },
            Message::Exit => Reply::Exit,
        }
    }

    /// Takes the queued requests, oldest first.
    pub fn take_requests(&mut self) -> (r: Vec<Request>)
        ensures
            r@ == old(self).requests_spec(),
            final(self).requests_spec() == Seq::<Request>::empty(),
            final(self).sources_spec() == old(self).sources_spec(),
            final(self).speakers_spec() == old(self).speakers_spec(),
            final(self).active_spec() == old(self).active_spec(),
            final(self).last_spawn_spec() == old(self).last_spawn_spec(),
            final(self).next_id_spec() == old(self).next_id_spec(),
            final(self).wf() == old(self).wf(),
    {
        let mut taken: Vec<Request> = Vec::new();
        taken.append(&mut self.requests);
        assert(taken@ =~= old(self).requests@);
        taken
    }

    /// The active sounds, oldest first.
    pub fn active_sounds(&self) -> (r: &Vec<ActiveSound>)
        ensures
            r@ == self.active_spec(),
    {
        &self.active_sounds
    }

    /// The speaker `id`, if any.
    pub fn speaker(&self, id: u64) -> (r: Option<&Speaker>)
        requires
            self.wf(),
        ensures
            r is None <==> !has_key(self.speakers_spec(), id),
            r matches Some(v) ==> self.speakers_spec()[key_index(self.speakers_spec(), id)].1 == *v,
    {
        self.speakers.get(id)
    }

    /// The source `id`, if any.
    pub fn source(&self, id: u64) -> (r: Option<&Source>)
        requires
            self.wf(),
        ensures
            r is None <==> !has_key(self.sources_spec(), id),
            r matches Some(v) ==> self.sources_spec()[key_index(self.sources_spec(), id)].1 == *v,
    {
        self.sources.get(id)
    }
}

} // verus!

verus! {

/// A source spawns at most once per interval: one that spawned at time `t` is not due before
/// `t + min_interval_ms`, while one below its limit that has not spawned yet is due at once.
pub proof fn lemma_spawn_rate(
    id: u64,
    src: Source,
    active: Seq<ActiveSound>,
    last: Map<u64, u64>,
    now: u64,
)
    ensures
        last.contains_key(id) && now < last[id] + src.min_interval_ms ==> !spawn_due(
            id,
            src,
            active,
            last,
            now,
        ),
        !last.contains_key(id) && count_from(active, id) < src.max_active ==> spawn_due(
            id,
            src,
            active,
            last,
            now,
        ),
        count_from(active, id) >= src.max_active ==> !spawn_due(id, src, active, last, now),
{
}

/// Removing a source retires every sound spawned from it within the same step: none of the
/// sounds that remain comes from it, and a stop request is queued for each one that did.
pub proof fn lemma_remove_source_retires(active: Seq<ActiveSound>, id: u64)
    ensures
        forall|i: int|
            0 <= i < active.filter(not_from_source(id)).len() ==> (#[trigger] active.filter(
                not_from_source(id),
            )[i]).source_id != id,
        count_from(active.filter(not_from_source(id)), id) == 0,
        stop_requests(active.filter(from_source(id))).len() == count_from(active, id),
        forall|i: int|
            0 <= i < active.len() && (#[trigger] active[i]).source_id == id ==> stop_requests(
                active.filter(from_source(id)),
            ).contains(stop_request(active[i])),
{
    let kept = active.filter(not_from_source(id));
    let gone = active.filter(from_source(id));
    assert forall|i: int| 0 <= i < kept.len() implies (#[trigger] kept[i]).source_id != id by {
        active.lemma_filter_pred(not_from_source(id), i);
    }
    if kept.filter(from_source(id)).len() > 0 {
        let x = kept.filter(from_source(id))[0];
        kept.lemma_filter_pred(from_source(id), 0);
        assert(kept.filter(from_source(id)).contains(x));
        kept.lemma_filter_contains_rev(from_source(id), x);
        let k = choose|k: int| 0 <= k < kept.len() && kept[k] == x;
        assert(kept[k].source_id != id);
    }
    assert forall|i: int|
        0 <= i < active.len() && (#[trigger] active[i]).source_id == id implies stop_requests(
        gone,
    ).contains(stop_request(active[i])) by {
        assert(from_source(id)(active[i]));
        active.lemma_filter_contains(from_source(id), i);
        let k = choose|k: int| 0 <= k < gone.len() && gone[k] == active[i];
        assert(stop_requests(gone)[k] == stop_request(active[i]));
    }
}

} // verus!

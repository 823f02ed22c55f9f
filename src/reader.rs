//! The state of the worker that streams decoded samples of audio files to playing sounds.
//!
//! The worker owns, for each streaming sound, its read position within the file and the count of
//! sample buffers in circulation. It never decodes: each decision that needs samples is handed
//! out as a `FillJob` that names the file samples to decode into a given storage, and the
//! decoded storage comes back through `Model::filled`.
use vstd::prelude::*;
use vstd::arithmetic::div_mod::{
    lemma_add_mod_noop,
    lemma_mod_self_0,
    lemma_small_mod,
    lemma_mod_bound,
    lemma_mod_pos_bound,
};
use std::collections::HashMap;

verus! {

broadcast use vstd::std_specs::hash::group_hash_axioms;

/// The number of sample buffers kept in circulation for a single sound.
pub const NUM_BUFFERS: u64 = 16;

/// The half-open range of file sample indices covered by a buffer.
#[derive(Clone, Copy, Debug, PartialEq, Eq, Structural)]
pub struct BufferInfo {
    pub start: u64,
    pub end: u64,
}

/// A run of `count` consecutive file samples starting at sample index `start`.
#[derive(Clone, Copy, Debug, PartialEq, Eq, Structural)]
pub struct Segment {
    pub start: u64,
    pub count: u64,
}

/// A buffer of decoded samples handed to a sound's consumer.
///
/// When the consumer has read it, its storage goes back to the worker with
/// `Message::ProcessedBuffer` so that it is filled again.
#[derive(Debug)]
pub struct Buffer<T> {
    pub samples: Vec<T>,
    pub sound_id: u64,
    pub info: BufferInfo,
}

/// What the worker needs to know of a file in order to stream it.
#[derive(Clone, Copy, Debug, PartialEq, Eq, Structural)]
pub struct Play {
    /// The number of samples in the file, all channels together.
    pub len_samples: u32,
    /// The number of interleaved channels.
    pub channels: u16,
    /// The frame from which playback starts; it wraps around the file's duration.
    pub start_frame: u64,
    /// Whether the file plays again from its beginning when it ends.
    pub looped: bool,
}

/// A request to decode the file samples named by `segments`, in order, into `storage`.
#[derive(Debug)]
pub struct FillJob<T> {
    pub sound_id: u64,
    pub storage: Vec<T>,
    pub segments: Vec<Segment>,
}

/// The next thing the worker asks for.
#[derive(Debug)]
pub enum Action<T> {
    Fill(FillJob<T>),
    Idle,
}

/// The outcome of handing a filled storage back to the worker.
#[derive(Debug)]
pub struct Delivery<T> {
    /// The buffer to send to the sound's consumer.
    pub buffer: Option<Buffer<T>>,
    /// Whether the sound has ended: no buffer follows, and its consumer's channel closes.
    pub close: bool,
    /// What the worker asks for next.
    pub next: Action<T>,
}

/// The messages handled by the worker.
#[derive(Debug)]
pub enum Message<T> {
    /// Start streaming a sound.
    Play(u64, Play),
    /// Forget a sound.
    End(u64),
    /// A consumer is done with a buffer of the given sound and returns its storage.
    ProcessedBuffer(u64, Vec<T>),
    /// Stop the worker.
    Exit,
}

/// What the worker does in answer to a message.
#[derive(Debug)]
pub enum Reply<T> {
    Act(Action<T>),
    Ended(bool),
    Exit,
}

/// How the samples of a file are encoded.
#[derive(Clone, Copy, Debug, PartialEq, Eq, Structural)]
pub enum SampleFormat {
    Float,
    Int,
}

/// Whether samples of the given format and bit depth can be decoded: 32-bit floats, and 8, 16
/// or 32-bit signed integers.
pub open spec fn supported_spec(format: SampleFormat, bits_per_sample: u16) -> bool {
    match format {
        SampleFormat::Float => bits_per_sample == 32,
        SampleFormat::Int => bits_per_sample == 8 || bits_per_sample == 16 || bits_per_sample
            == 32,
    }
}

/// Whether samples of the given format and bit depth can be decoded.
pub fn is_supported(format: SampleFormat, bits_per_sample: u16) -> (r: bool)
    ensures
        r == supported_spec(format, bits_per_sample),
{
    match format {
        SampleFormat::Float => bits_per_sample == 32,
        SampleFormat::Int => bits_per_sample == 8 || bits_per_sample == 16 || bits_per_sample
            == 32,
    }
}

/// The streaming state of one sound.
#[derive(Clone, Copy, Debug, PartialEq, Eq, Structural)]
pub struct Sound {
    /// The number of samples in the file.
    pub len_samples: u64,
    /// The number of interleaved channels.
    pub channels: u64,
    /// Whether the file is played in a loop.
    pub looped: bool,
    /// The number of samples that a full buffer holds.
    pub buffer_len: u64,
    /// The index of the next file sample to read.
    pub position: u64,
    /// The number of storages created for this sound.
    pub allocated: u64,
    /// The number of buffers delivered and not yet returned.
    pub outstanding: u64,
    /// Whether a fill of this sound is in progress.
    pub pending: bool,
}

/// The largest number of samples in a full buffer.
pub const MAX_BUFFER_LEN: u64 = 0xFFFF_FFFF_FFFF;

impl Sound {
    pub open spec fn wf(&self) -> bool {
        &&& self.channels > 0
        &&& 0 < self.buffer_len <= MAX_BUFFER_LEN
        &&& self.len_samples <= u32::MAX
        &&& self.position <= self.len_samples
        &&& (self.wraps() ==> self.position < self.len_samples)
        &&& 1 <= self.allocated <= NUM_BUFFERS
        &&& window(*self) <= self.allocated
    }

    /// Whether reading wraps around the end of the file.
    pub open spec fn wraps(&self) -> bool {
        self.looped && self.len_samples > 0
    }
}

/// The buffers of a sound in circulation: delivered ones and the one being filled.
pub open spec fn window(s: Sound) -> int {
    s.outstanding + if s.pending { 1int } else { 0int }
}

/// The sample position at which a sound starts: the start frame wrapped around the file's
/// duration in frames.
pub open spec fn seek_position(start_frame: int, len_samples: int, channels: int) -> int {
    let frames = len_samples / channels;
    if frames == 0 {
        0
    } else {
        (start_frame % frames) * channels
    }
}

/// The number of samples that the next fill of `s` reads.
pub open spec fn request_len(s: Sound) -> int {
    if s.wraps() {
        s.buffer_len as int
    } else if s.buffer_len <= s.len_samples - s.position {
        s.buffer_len as int
    } else {
        s.len_samples - s.position
    }
}

/// The read position of `s` after `count` samples were read.
pub open spec fn advanced(s: Sound, count: int) -> int {
    if s.wraps() {
        (s.position + count) % (s.len_samples as int)
    } else {
        s.position + count
    }
}

/// The file sample indices that a fill of `count` samples from `start` reads, in order.
pub open spec fn fill_indices(start: int, count: int, len: int) -> Seq<int> {
    Seq::new(count as nat, |k: int| (start + k) % len)
}

/// The file sample indices that a list of segments names, in order.
pub open spec fn plan_indices(segs: Seq<Segment>) -> Seq<int>
    decreases segs.len(),
{
    if segs.len() == 0 {
        Seq::empty()
    } else {
        let last = segs.last();
        plan_indices(segs.drop_last()) + Seq::new(last.count as nat, |i: int| last.start + i)
    }
}

/// Whether a fill job asks for the next fill of `s`.
pub open spec fn is_fill_of<T>(job: FillJob<T>, id: u64, s: Sound) -> bool {
    &&& job.sound_id == id
    &&& job.storage@.len() == 0
    &&& plan_indices(job.segments@) == fill_indices(
        s.position as int,
        request_len(s),
        s.len_samples as int,
    )
}

/// The state of `s` after a delivered fill of `count` samples that does not end it.
pub open spec fn after_fill(s: Sound, count: int) -> Sound {
    Sound {
        position: advanced(s, count) as u64,
        outstanding: (s.outstanding + 1) as u64,
        pending: s.allocated < NUM_BUFFERS,
        allocated: if s.allocated < NUM_BUFFERS {
            (s.allocated + 1) as u64
        } else {
            s.allocated
        },
        ..s
    }
}

/// The state of `s` after one of its buffers came back and its refill began.
pub open spec fn after_return(s: Sound) -> Sound {
    Sound {
        outstanding: if s.outstanding > 0 {
            (s.outstanding - 1) as u64
        } else {
            0
        },
        pending: true,
        ..s
    }
}

proof fn lemma_wrap_step(a: int, j: int, len: int)
    requires
        0 < len,
        0 <= a,
        0 <= j,
        a % len + j < len,
    ensures
        (a + j) % len == a % len + j,
{
    lemma_mod_pos_bound(a, len);
    lemma_mod_pos_bound(j, len);
    lemma_add_mod_noop(a, j, len);
    lemma_small_mod(j as nat, len as nat);
    lemma_small_mod((a % len + j) as nat, len as nat);
}

proof fn lemma_wrap_end(a: int, j: int, len: int)
    requires
        0 < len,
        0 <= a,
        0 <= j <= len,
        a % len + j == len,
    ensures
        (a + j) % len == 0,
{
    lemma_mod_pos_bound(a, len);
    lemma_add_mod_noop(a, j, len);
    lemma_mod_self_0(len);
    lemma_small_mod(0, len as nat);
    if j < len {
        lemma_small_mod(j as nat, len as nat);
    }
}

/// The segments of a fill of `count` samples from `start`, wrapping at the end of the file.
fn fill_plan(start: u64, count: u64, len: u64) -> (segs: Vec<Segment>)
    requires
        count == 0 || start < len,
        len <= u32::MAX,
        count <= MAX_BUFFER_LEN,
    ensures
        plan_indices(segs@) == fill_indices(start as int, count as int, len as int),
        forall|i: int| 0 <= i < segs@.len() ==> #[trigger] segs@[i].count > 0,
{
    let mut segs: Vec<Segment> = Vec::new();
    if count == 0 {
        assert(plan_indices(segs@) =~= fill_indices(start as int, count as int, len as int));
        return segs;
    }
    proof {
        lemma_small_mod(start as nat, len as nat);
    }
    let mut cur: u64 = start;
    let mut done: u64 = 0;
    while done < count
        invariant
            0 < len <= u32::MAX,
            count <= MAX_BUFFER_LEN,
            start < len,
            done <= count,
            cur < len,
            cur as int == (start + done) as int % (len as int),
            plan_indices(segs@) == fill_indices(start as int, done as int, len as int),
            forall|i: int| 0 <= i < segs@.len() ==> #[trigger] segs@[i].count > 0,
        decreases count - done,
    {
        let room: u64 = len - cur;
        let take: u64 = if count - done < room {
            count - done
        } else {
            room
        };
        let seg = Segment { start: cur, count: take };
        let ghost old_segs = segs@;
        segs.push(seg);
        proof {
            assert(segs@.drop_last() =~= old_segs);
            let a = (start + done) as int;
            assert(plan_indices(segs@) =~= fill_indices(
                start as int,
                (done + take) as int,
                len as int,
            )) by {
                assert forall|k: int| 0 <= k < done + take implies #[trigger] plan_indices(
                    segs@,
                )[k] == fill_indices(start as int, (done + take) as int, len as int)[k] by {
                    if k >= done {
                        lemma_wrap_step(a, k - done, len as int);
                        assert(start + k == a + (k - done));
                    }
                }
            }
            if cur + take == len {
                lemma_wrap_end(a, take as int, len as int);
            } else {
                lemma_wrap_step(a, take as int, len as int);
            }
        }
        done = done + take;
        cur = if cur + take == len {
            0
        } else {
            cur + take
        };
    }
    segs
}

/// The state of the worker: the streaming state of each playing sound.
pub struct Model {
    sounds: HashMap<u64, Sound>,
    frames_per_buffer: u32,
}

impl View for Model {
    type V = Map<u64, Sound>;

    closed spec fn view(&self) -> Map<u64, Sound> {
        self.sounds@
    }
}

impl Model {
    /// The number of frames that a full buffer holds.
    pub closed spec fn frames_per_buffer_spec(&self) -> int {
        self.frames_per_buffer as int
    }

    /// Buffers hold at least one frame, and every sound is well formed, with full buffers of
    /// that many frames (see `lemma_sound_wf`).
    pub closed spec fn wf(&self) -> bool {
        &&& self.frames_per_buffer > 0
        &&& forall|id: u64| #[trigger]
            self.sounds@.contains_key(id) ==> {
                let s = self.sounds@[id];
                &&& s.wf()
                &&& s.buffer_len == self.frames_per_buffer * s.channels
            }
    }

    /// What a well-formed worker guarantees of each of its sounds.
    pub proof fn lemma_sound_wf(&self, id: u64)
        requires
            self.wf(),
        ensures
            self.frames_per_buffer_spec() > 0,
            self@.contains_key(id) ==> self@[id].wf() && self@[id].buffer_len
                == self.frames_per_buffer_spec() * self@[id].channels,
    {
    }

    /// A worker with no sounds, whose buffers hold `frames_per_buffer` frames each.
    pub fn new(frames_per_buffer: u32) -> (r: Model)
        requires
            frames_per_buffer > 0,
        ensures
            r.wf(),
            r@ == Map::<u64, Sound>::empty(),
            r.frames_per_buffer_spec() == frames_per_buffer,
    {
        Model { sounds: HashMap::new(), frames_per_buffer }
    }

    /// The number of frames that a full buffer holds.
    pub fn frames_per_buffer(&self) -> (r: u32)
        ensures
            r == self.frames_per_buffer_spec(),
    {
        self.frames_per_buffer
    }

    /// Whether the sound `id` is streaming.
    pub fn is_playing(&self, id: u64) -> (r: bool)
        requires
            self.wf(),
        ensures
            r == self@.contains_key(id),
    {
        self.sounds.contains_key(&id)
    }

    /// Starts streaming a sound from `play.start_frame` wrapped around the file's duration,
    /// replacing any sound of the same id, and asks for its first fill into a new storage.
    pub fn start<T>(&mut self, id: u64, play: Play) -> (r: FillJob<T>)
        requires
            old(self).wf(),
            play.channels > 0,
        ensures
            final(self).wf(),
            final(self).frames_per_buffer_spec() == old(self).frames_per_buffer_spec(),
            final(self)@ == old(self)@.insert(id, final(self)@[id]),
            final(self)@[id] == (Sound {
                len_samples: play.len_samples as u64,
                channels: play.channels as u64,
                looped: play.looped,
                buffer_len: (old(self).frames_per_buffer_spec() * play.channels) as u64,
                position: seek_position(
                    play.start_frame as int,
                    play.len_samples as int,
                    play.channels as int,
                ) as u64,
                allocated: 1,
                outstanding: 0,
                pending: true,
            }),
            final(self)@[id].position == seek_position(
                play.start_frame as int,
                play.len_samples as int,
                play.channels as int,
            ),
            final(self)@[id].wf(),
            final(self)@[id].buffer_len > 0,
            is_fill_of(r, id, final(self)@[id]),
    {
        let channels: u64 = play.channels as u64;
        let len: u64 = play.len_samples as u64;
        let frames: u64 = len / channels;
        let position: u64 = if frames == 0 {
            0
        } else {
            proof {
                lemma_mod_bound(play.start_frame as int, frames as int);
                assert((play.start_frame % frames) * channels <= (frames - 1) * channels)
                    by (nonlinear_arith)
                    requires
                        play.start_frame % frames <= frames - 1,
                        channels > 0,
                ;
                assert(frames * channels <= len) by (nonlinear_arith)
                    requires
                        frames == len / channels,
                        channels > 0,
                ;
                assert((frames - 1) * channels == frames * channels - channels)
                    by (nonlinear_arith);
            }
            (play.start_frame % frames) * channels
        };
        assert(self.frames_per_buffer as u64 * channels <= MAX_BUFFER_LEN) by (nonlinear_arith)
            requires
                self.frames_per_buffer <= u32::MAX,
                channels <= u16::MAX,
        ;
        let buffer_len: u64 = self.frames_per_buffer as u64 * channels;
        assert(buffer_len > 0) by (nonlinear_arith)
            requires
                buffer_len == self.frames_per_buffer as u64 * channels,
                self.frames_per_buffer > 0,
                channels > 0,
        ;
        let sound = Sound {
            len_samples: len,
            channels,
            looped: play.looped,
            buffer_len,
            position,
            allocated: 1,
            outstanding: 0,
            pending: true,
        };
        self.sounds.insert(id, sound);
        let count = request_count(&sound);
        let segments = fill_plan(position, count, len);
        FillJob { sound_id: id, storage: Vec::new(), segments }
    }

    /// Forgets the sound `id`. Returns whether it was streaming.
    pub fn stop(&mut self, id: u64) -> (r: bool)
        requires
            old(self).wf(),
        ensures
            final(self).wf(),
            final(self).frames_per_buffer_spec() == old(self).frames_per_buffer_spec(),
            final(self)@ == old(self)@.remove(id),
            r == old(self)@.contains_key(id),
    {
        let r = self.sounds.remove(&id);
        r.is_some()
    }

    /// Takes back the storage of a buffer of the sound `id` and asks for it to be filled
    /// again; a storage of an unknown sound, or one that comes while a fill is in progress,
    /// is dropped.
    pub fn processed<T>(&mut self, id: u64, storage: Vec<T>) -> (r: Action<T>)
        requires
            old(self).wf(),
        ensures
            final(self).wf(),
            final(self).frames_per_buffer_spec() == old(self).frames_per_buffer_spec(),
            ({
                let s = old(self)@[id];
                if old(self)@.contains_key(id) && !s.pending {
                    &&& final(self)@ == old(self)@.insert(id, after_return(s))
                    &&& r is Fill
                    &&& is_fill_of(r->Fill_0, id, after_return(s))
                } else {
                    &&& final(self)@ == old(self)@
                    &&& r is Idle
                }
            }),
    {
        let found = self.sounds.get(&id);
        match found {
            None => Action::Idle,
            Some(s) => {
                let s: Sound = *s;
                if s.pending {
                    return Action::Idle;
                }
                let mut storage = storage;
                storage.clear();
                let outstanding: u64 = if s.outstanding > 0 {
                    s.outstanding - 1
                } else {
                    0
                };
                let t = Sound { outstanding, pending: true, ..s };
                self.sounds.insert(id, t);
                let count = request_count(&t);
                let segments = fill_plan(t.position, count, t.len_samples);
                Action::Fill(FillJob { sound_id: id, storage, segments })
            },
        }
    }

    /// Takes a storage filled as the pending fill job of the sound `id` asked and turns it into
    /// the buffer to deliver. Samples beyond the requested count are dropped. The read position
    /// moves by the requested count, and the sound ends when that count is short of a full
    /// buffer: when its file has run out.
    pub fn filled<T>(&mut self, id: u64, storage: Vec<T>) -> (r: Delivery<T>)
        requires
            old(self).wf(),
        ensures
            final(self).wf(),
            final(self).frames_per_buffer_spec() == old(self).frames_per_buffer_spec(),
            ({
                let s = old(self)@[id];
                let count = if storage@.len() <= request_len(s) {
                    storage@.len() as int
                } else {
                    request_len(s)
                };
                if old(self)@.contains_key(id) && s.pending {
                    &&& r.buffer == Some(
                        Buffer {
                            samples: r.buffer->Some_0.samples,
                            sound_id: id,
                            info: BufferInfo {
                                start: s.position,
                                end: (s.position + count) as u64,
                            },
                        },
                    )
                    &&& r.buffer->Some_0.samples@ == storage@.take(count)
                    &&& r.close == (request_len(s) < s.buffer_len)
                    &&& (r.close ==> final(self)@ == old(self)@.remove(id) && r.next is Idle)
                    &&& (!r.close ==> {
                        &&& final(self)@ == old(self)@.insert(id, after_fill(s, request_len(s)))
                        &&& (r.next is Fill <==> s.allocated < NUM_BUFFERS)
                        &&& (r.next is Fill ==> is_fill_of(
                            r.next->Fill_0,
                            id,
                            after_fill(s, request_len(s)),
                        ))
                    })
                } else {
                    &&& final(self)@ == old(self)@
                    &&& r.buffer is None
                    &&& !r.close
                    &&& r.next is Idle
                }
            }),
    {
        let found = self.sounds.get(&id);
        let s: Sound = match found {
            None => {
                return Delivery { buffer: None, close: false, next: Action::Idle };
            },
            Some(s) => *s,
        };
        if !s.pending {
            return Delivery { buffer: None, close: false, next: Action::Idle };
        }
        let requested = request_count(&s);
        let mut samples = storage;
        if samples.len() as u64 > requested {
            samples.truncate(requested as usize);
        }
        assert(samples@ =~= storage@.take(samples@.len() as int));
        let count: u64 = samples.len() as u64;
        let info = BufferInfo { start: s.position, end: s.position + count };
        let buffer = Buffer { samples, sound_id: id, info };
        if requested < s.buffer_len {
            self.sounds.remove(&id);
            return Delivery { buffer: Some(buffer), close: true, next: Action::Idle };
        }
        let position = advance(&s, requested);
        let grow = s.allocated < NUM_BUFFERS;
        let t = Sound {
            position,
            outstanding: s.outstanding + 1,
            pending: grow,
            allocated: if grow {
                s.allocated + 1
            } else {
                s.allocated
            },
            ..s
        };
        assert(t == after_fill(s, requested as int));
        self.sounds.insert(id, t);
        if grow {
            let next_count = request_count(&t);
            let segments = fill_plan(t.position, next_count, t.len_samples);
            let job = FillJob { sound_id: id, storage: Vec::new(), segments };
            Delivery { buffer: Some(buffer), close: false, next: Action::Fill(job) }
        } else {
            Delivery { buffer: Some(buffer), close: false, next: Action::Idle }
        }
    }
    /// Handles one message: starts a sound (one without channels is ignored), forgets one,
    /// takes back a processed buffer, or exits.
    pub fn handle<T>(&mut self, msg: Message<T>) -> (r: Reply<T>)
        requires
            old(self).wf(),
        ensures
            final(self).wf(),
            final(self).frames_per_buffer_spec() == old(self).frames_per_buffer_spec(),
            match msg {
                Message::Play(id, play) => if play.channels > 0 {
                    &&& final(self)@.contains_key(id)
                    &&& final(self)@ == old(self)@.insert(id, final(self)@[id])
                    &&& final(self)@[id].position == seek_position(
                        play.start_frame as int,
                        play.len_samples as int,
                        play.channels as int,
                    )
                    &&& r is Act
                    &&& r->Act_0 is Fill
                    &&& is_fill_of(r->Act_0->Fill_0, id, final(self)@[id])
                } else {
                    final(self)@ == old(self)@ && r is Act && r->Act_0 is Idle
                },
                Message::End(id) => {
                    &&& final(self)@ == old(self)@.remove(id)
                    &&& r == Reply::<T>::Ended(old(self)@.contains_key(id))
                },
                Message::ProcessedBuffer(id, _) => {
                    let s = old(self)@[id];
                    &&& r is Act
                    &&& if old(self)@.contains_key(id) && !s.pending {
                        &&& final(self)@ == old(self)@.insert(id, after_return(s))
                        &&& is_fill_of(r->Act_0->Fill_0, id, after_return(s))
                    } else {
                        final(self)@ == old(self)@ && r->Act_0 is Idle
                    }
                },
                Message::Exit => final(self)@ == old(self)@ && r is Exit,
            },
    {
        match msg {
            Message::Play(id, play) => {
                if play.channels == 0 {
                    Reply::Act(Action::Idle)
                } else {
                    Reply::Act(Action::Fill(self.start(id, play)))
                }
            },
            Message::End(id) => Reply::Ended(self.stop(id)),
            Message::ProcessedBuffer(id, storage) => Reply::Act(self.processed(id, storage)),
            Message::Exit => Reply::Exit,
        }
    }
}

/// The number of samples that the next fill of `s` reads.
fn request_count(s: &Sound) -> (r: u64)
    requires
        s.wf(),
    ensures
        r == request_len(*s),
        r == 0 || s.position < s.len_samples,
        r <= s.buffer_len,
{
    if s.looped && s.len_samples > 0 {
        s.buffer_len
    } else if s.buffer_len <= s.len_samples - s.position {
        s.buffer_len
    } else {
        s.len_samples - s.position
    }
}

/// The read position of `s` after `count` samples of a full buffer were read.
fn advance(s: &Sound, count: u64) -> (r: u64)
    requires
        s.wf(),
        count == request_len(*s),
    ensures
        r == advanced(*s, count as int),
        r <= s.len_samples,
        s.wraps() ==> r < s.len_samples,
{
    if s.looped && s.len_samples > 0 {
        proof {
            lemma_mod_pos_bound((s.position + count) as int, s.len_samples as int);
        }
        (s.position + count) % s.len_samples
    } else {
        s.position + count
    }
}

} // verus!

verus! {

/// The sum of a sequence of integers.
pub open spec fn seq_sum(s: Seq<int>) -> int
    decreases s.len(),
{
    if s.len() == 0 {
        0
    } else {
        s[0] + seq_sum(s.drop_first())
    }
}

/// The sample counts of the buffers read from a file that is not looped, from sample `position`
/// on, in buffers of `n` samples: full buffers up to the one that reaches the end of the file.
pub open spec fn unlooped_counts(position: int, n: int, len: int) -> Seq<int>
    decreases len - position,
    when 0 < n && position <= len
{
    if len - position < n {
        seq![len - position]
    } else {
        seq![n] + unlooped_counts(position + n, n, len)
    }
}

/// Starting a sound at any frame never fails and seeks to that frame wrapped around the file's
/// duration: a frame boundary inside the file, the same for start frames one duration apart.
pub proof fn lemma_seek_wraps(start_frame: int, len: int, channels: int)
    requires
        0 <= start_frame,
        0 < channels,
        len / channels > 0,
    ensures
        seek_position(start_frame, len, channels) == (start_frame % (len / channels)) * channels,
        0 <= seek_position(start_frame, len, channels) < len,
        seek_position(start_frame, len, channels) % channels == 0,
        seek_position(start_frame + len / channels, len, channels) == seek_position(
            start_frame,
            len,
            channels,
        ),
{
    let frames = len / channels;
    let f = start_frame % frames;
    lemma_mod_pos_bound(start_frame, frames);
    vstd::arithmetic::div_mod::lemma_mod_add_multiples_vanish(start_frame, frames);
    assert(frames * channels <= len) by (nonlinear_arith)
        requires
            frames == len / channels,
            channels > 0,
    ;
    assert(0 <= f * channels < frames * channels) by (nonlinear_arith)
        requires
            0 <= f < frames,
            channels > 0,
    ;
    vstd::arithmetic::div_mod::lemma_mod_multiples_basic(f, channels);
    assert((f * channels) % channels == (channels * f) % channels) by (nonlinear_arith);
    assert(start_frame + frames == frames + start_frame);
}

/// A fill of a sound that is not looped reads the first count of `unlooped_counts`; a full one
/// leaves the rest of them to the fills that follow, and a short one is the last.
pub proof fn lemma_unlooped_fill(s: Sound)
    requires
        s.wf(),
        !s.wraps(),
    ensures
        unlooped_counts(s.position as int, s.buffer_len as int, s.len_samples as int)[0]
            == request_len(s),
        request_len(s) == s.buffer_len ==> unlooped_counts(
            advanced(s, request_len(s)),
            s.buffer_len as int,
            s.len_samples as int,
        ) == unlooped_counts(
            s.position as int,
            s.buffer_len as int,
            s.len_samples as int,
        ).drop_first(),
        request_len(s) < s.buffer_len ==> unlooped_counts(
            s.position as int,
            s.buffer_len as int,
            s.len_samples as int,
        ).len() == 1,
{
    let c = unlooped_counts(s.position as int, s.buffer_len as int, s.len_samples as int);
    if s.len_samples - s.position >= s.buffer_len {
        assert(c.drop_first() =~= unlooped_counts(
            s.position + s.buffer_len,
            s.buffer_len as int,
            s.len_samples as int,
        ));
    }
}

/// Streaming a file that is not looped from sample `position` on delivers, over all its
/// buffers, exactly the samples from `position` to the end of the file: every buffer is full
/// but the last, which is short of a full one by the exact remainder.
pub proof fn lemma_unlooped_total(position: int, n: int, len: int)
    requires
        0 < n,
        0 <= position <= len,
    ensures
        seq_sum(unlooped_counts(position, n, len)) == len - position,
        unlooped_counts(position, n, len).len() >= 1,
        unlooped_counts(position, n, len).last() == (len - position) % n,
        forall|i: int|
            0 <= i < unlooped_counts(position, n, len).len() - 1 ==> #[trigger] unlooped_counts(
                position,
                n,
                len,
            )[i] == n,
    decreases len - position,
{
    let c = unlooped_counts(position, n, len);
    if len - position < n {
        lemma_small_mod((len - position) as nat, n as nat);
        assert(c.drop_first().len() == 0);
        assert(seq_sum(c.drop_first()) == 0);
    } else {
        lemma_unlooped_total(position + n, n, len);
        let rest = unlooped_counts(position + n, n, len);
        assert(c.drop_first() =~= rest);
        assert(seq_sum(c) == n + seq_sum(rest));
        vstd::arithmetic::div_mod::lemma_mod_add_multiples_vanish(len - position - n, n);
        assert forall|i: int| 0 <= i < c.len() - 1 implies #[trigger] c[i] == n by {
            if i > 0 {
                assert(c[i] == rest[i - 1]);
            }
        }
    }
}

/// A looped sound of a file that is not empty never ends: each fill asks for a full buffer, a
/// full fill keeps the sound well formed and looped, and once all its storages exist no fill
/// creates another one.
pub proof fn lemma_looped_endless(s: Sound)
    requires
        s.wf(),
        s.wraps(),
        s.pending,
    ensures
        request_len(s) == s.buffer_len > 0,
        after_fill(s, request_len(s)).wf(),
        after_fill(s, request_len(s)).wraps(),
        after_fill(s, request_len(s)).allocated <= NUM_BUFFERS,
        s.allocated == NUM_BUFFERS ==> after_fill(s, request_len(s)).allocated == NUM_BUFFERS
            && !after_fill(s, request_len(s)).pending,
{
    lemma_mod_pos_bound(s.position + s.buffer_len, s.len_samples as int);
}

/// Returning a buffer and filling a storage keep every storage of a sound in circulation when
/// none is lost: during the first fills each full fill adds one storage, and once all of them
/// exist the look-ahead stays at its full depth.
pub proof fn lemma_window_kept(s: Sound, count: int)
    requires
        s.wf(),
        window(s) == s.allocated,
    ensures
        s.pending ==> window(after_fill(s, count)) == after_fill(s, count).allocated,
        !s.pending && s.outstanding > 0 ==> window(after_return(s)) == after_return(
            s,
        ).allocated,
        s.allocated == NUM_BUFFERS ==> after_fill(s, count).allocated == NUM_BUFFERS
            && after_return(s).allocated == NUM_BUFFERS,
        s.allocated == NUM_BUFFERS && !s.pending && s.outstanding > 0 ==> window(
            after_fill(after_return(s), count),
        ) == NUM_BUFFERS,
{
}

} // verus!

verus! {

/// The state of `s` after `k` fills that each read what was asked.
pub open spec fn full_fills(s: Sound, k: nat) -> Sound
    decreases k,
{
    if k == 0 {
        s
    } else {
        let t = full_fills(s, (k - 1) as nat);
        after_fill(t, request_len(t))
    }
}

/// A looped sound just started (one storage, being filled) has, after the chain of fills that
/// its start asks for, all its storages in circulation: after the sixteenth fill sixteen buffers
/// are delivered, no fill is pending and no further storage is created, and none of those fills
/// ends the sound.
pub proof fn lemma_start_window(s: Sound, k: nat)
    requires
        s.wf(),
        s.wraps(),
        s.allocated == 1,
        s.outstanding == 0,
        s.pending,
        k <= NUM_BUFFERS,
    ensures
        full_fills(s, k).wf(),
        full_fills(s, k).wraps(),
        full_fills(s, k).outstanding == k,
        k < NUM_BUFFERS ==> full_fills(s, k).allocated == k + 1 && full_fills(s, k).pending,
        k == NUM_BUFFERS ==> full_fills(s, k).allocated == NUM_BUFFERS && !full_fills(
            s,
            k,
        ).pending && window(full_fills(s, k)) == NUM_BUFFERS,
        k > 0 ==> request_len(full_fills(s, (k - 1) as nat)) == s.buffer_len,
    decreases k,
{
    if k > 0 {
        lemma_start_window(s, (k - 1) as nat);
        lemma_looped_endless(full_fills(s, (k - 1) as nat));
    }
}

} // verus!

verus! {

proof fn lemma_counts_shift(p: int, n: int, len: int, j: int)
    requires
        0 < n,
        0 <= p <= len,
        0 <= j < unlooped_counts(p, n, len).len(),
    ensures
        p + j * n <= len,
        unlooped_counts(p, n, len)[j] == unlooped_counts(p + j * n, n, len)[0],
    decreases j,
{
    if j > 0 {
        let c = unlooped_counts(p, n, len);
        assert(len - p >= n) by {
            if len - p < n {
                assert(c.len() == 1);
            }
        }
        assert(c.drop_first() =~= unlooped_counts(p + n, n, len));
        assert(c[j] == unlooped_counts(p + n, n, len)[j - 1]);
        lemma_counts_shift(p + n, n, len, j - 1);
        assert(p + n + (j - 1) * n == p + j * n) by (nonlinear_arith);
    } else {
        assert(p + 0 * n == p);
    }
}

/// Over the successive fills of a sound that is not looped, fill `k` starts `k` full buffers
/// into the file and reads the `k`-th count of `unlooped_counts`: run to its end, the stream
/// delivers every remaining sample of the file once, in full buffers but the last.
pub proof fn lemma_unlooped_run(s: Sound, k: nat)
    requires
        !s.wraps(),
        s.buffer_len > 0,
        s.position <= s.len_samples,
        k < unlooped_counts(s.position as int, s.buffer_len as int, s.len_samples as int).len(),
    ensures
        full_fills(s, k).position == s.position + k * s.buffer_len,
        request_len(full_fills(s, k)) == unlooped_counts(
            s.position as int,
            s.buffer_len as int,
            s.len_samples as int,
        )[k as int],
        full_fills(s, k).len_samples == s.len_samples,
        full_fills(s, k).buffer_len == s.buffer_len,
        full_fills(s, k).looped == s.looped,
    decreases k,
{
    let p = s.position as int;
    let n = s.buffer_len as int;
    let len = s.len_samples as int;
    let c = unlooped_counts(p, n, len);
    lemma_counts_shift(p, n, len, k as int);
    if k > 0 {
        lemma_unlooped_run(s, (k - 1) as nat);
        lemma_unlooped_total(p, n, len);
        let t = full_fills(s, (k - 1) as nat);
        assert(c[k - 1] == n);
        assert(t.position + n == p + k * n) by (nonlinear_arith)
            requires
                t.position == p + (k - 1) * n,
        ;
    } else {
        assert(full_fills(s, 0) == s);
        assert(k * s.buffer_len == 0) by (nonlinear_arith)
            requires
                k == 0,
        ;
    }
}

} // verus!

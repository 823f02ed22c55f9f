//! The consumer side of a streaming sound: a cursor over the buffers that the worker delivers.
//!
//! The cursor never waits. When its buffer is spent it hands the buffer out, so that its storage
//! goes back to the worker, and takes the next one with `receive` once one has arrived.
use vstd::prelude::*;
use crate::reader::Buffer;

verus! {

/// What a pull of the next sample gives.
#[derive(Debug)]
pub enum Pull<T> {
    /// The next sample.
    Sample(T),
    /// The held buffer is spent (or there was none): it is handed back, and the next sample comes
    /// once a new buffer was received.
    Exhausted(Option<Buffer<T>>),
}

/// A cursor over the decoded samples of one streaming sound.
#[derive(Debug)]
pub struct SamplesStream<T> {
    buffer: Option<Buffer<T>>,
    buffer_index: usize,
    /// The file sample index up to which the buffers handed out were read; `None` before any.
    read_to: Option<u64>,
    channels: u16,
    wav_len_samples: u64,
    wav_looped: bool,
}

impl<T: Copy> SamplesStream<T> {
    /// The buffer held by the cursor.
    pub closed spec fn held(&self) -> Option<Buffer<T>> {
        self.buffer
    }

    /// The index of the next sample in the held buffer.
    pub closed spec fn index(&self) -> int {
        self.buffer_index as int
    }

    /// The file sample index up to which the buffers handed out were read; `None` before any.
    pub closed spec fn read_to(&self) -> Option<u64> {
        self.read_to
    }

    /// The number of channels of the file.
    pub closed spec fn channels_spec(&self) -> int {
        self.channels as int
    }

    /// The number of samples of the file.
    pub closed spec fn len_spec(&self) -> int {
        self.wav_len_samples as int
    }

    /// Whether the file is looped.
    pub closed spec fn looped_spec(&self) -> bool {
        self.wav_looped
    }

    /// The frames left after the cursor: none counted for a looped file, the whole file before
    /// any buffer came, and otherwise those after the last sample read.
    pub open spec fn remaining_spec(&self) -> Option<int> {
        if self.looped_spec() {
            None
        } else {
            match self.held() {
                Some(b) => Some(
                    (self.len_spec() - read_position(b.info.start as int, self.index(), self.len_spec()))
                        / self.channels_spec(),
                ),
                None => match self.read_to() {
                    None => Some(self.len_spec() / self.channels_spec()),
                    Some(p) => Some(
                        (self.len_spec() - read_position(p as int, 0, self.len_spec()))
                            / self.channels_spec(),
                    ),
                },
            }
        }
    }

    pub open spec fn wf(&self) -> bool {
        &&& self.channels_spec() > 0
        &&& (self.read_to() matches Some(p) ==> p <= self.len_spec())
    }

    /// A cursor holding no buffer yet, over a file of `wav_len_samples` samples.
    pub fn new(channels: u16, wav_len_samples: u32, wav_looped: bool) -> (r: Self)
        requires
            channels > 0,
        ensures
            r.wf(),
            r.held() is None,
            r.read_to() is None,
            r.index() == 0,
            r.channels_spec() == channels,
            r.len_spec() == wav_len_samples,
            r.looped_spec() == wav_looped,
    {
        SamplesStream {
            buffer: None,
            buffer_index: 0,
            read_to: None,
            channels,
            wav_len_samples: wav_len_samples as u64,
            wav_looped,
        }
    }

    /// The number of channels of the file.
    pub fn channels(&self) -> (r: usize)
        ensures
            r == self.channels_spec(),
    {
        self.channels as usize
    }

    /// The number of frames left in the stream: `None` for a looped file, which never ends.
    pub fn remaining_frames(&self) -> (r: Option<u64>)
        requires
            self.wf(),
        ensures
            r matches Some(n) ==> self.remaining_spec() == Some(n as int),
            r is None ==> self.remaining_spec() is None,
    {
        if self.wav_looped {
            return None;
        }
        let channels: u64 = self.channels as u64;
        let read: u64 = match &self.buffer {
            Some(b) => read_until(b.info.start, self.buffer_index, self.wav_len_samples),
            None => match self.read_to {
                None => 0,
                Some(p) => read_until(p, 0, self.wav_len_samples),
            },
        };
        Some((self.wav_len_samples - read) / channels)
    }

    /// Pulls the next sample of the held buffer and advances the cursor; when the buffer is
    /// spent, hands it out instead.
    pub fn next_sample(&mut self) -> (r: Pull<T>)
        requires
            old(self).wf(),
        ensures
            final(self).wf(),
            old(self).remaining_spec() matches Some(a) ==> final(self).remaining_spec() matches Some(
                b,
            ) && b <= a,
            final(self).channels_spec() == old(self).channels_spec(),
            final(self).len_spec() == old(self).len_spec(),
            final(self).looped_spec() == old(self).looped_spec(),
            match old(self).held() {
                Some(b) if old(self).index() < b.samples@.len() => {
                    &&& r == Pull::Sample(b.samples@[old(self).index()])
                    &&& final(self).held() == old(self).held()
                    &&& final(self).index() == old(self).index() + 1
                },
                _ => {
                    &&& r == Pull::Exhausted(old(self).held())
                    &&& final(self).held() is None
                    &&& final(self).index() == 0
                    &&& final(self).read_to() == match old(self).held() {
                        Some(b) => Some(
                            read_position(b.info.start as int, old(self).index(), old(self).len_spec())
                                as u64,
                        ),
                        None => old(self).read_to(),
                    }
                },
            },
    {
        let index = self.buffer_index;
        let len = self.wav_len_samples;
        if let Some(b) = &self.buffer {
            if index < b.samples.len() {
                let sample = b.samples[index];
                self.buffer_index = index + 1;
                proof {
                    lemma_read_position_grows(b.info.start as int, index as int, len as int);
                    if !self.wav_looped && self.channels > 0 {
                        lemma_fewer_frames(
                            len - read_position(b.info.start as int, index + 1, len as int),
                            len - read_position(b.info.start as int, index as int, len as int),
                            self.channels as int,
                        );
                    }
                }
                return Pull::Sample(sample);
            }
        }
        let spent = self.buffer.take();
        if let Some(b) = &spent {
            self.read_to = Some(read_until(b.info.start, index, len));
            proof {
                lemma_read_position_grows(b.info.start as int, index as int, len as int);
            }
        }
        self.buffer_index = 0;
        Pull::Exhausted(spent)
    }

    /// Hands out the held buffer, if any, so that its storage goes back to the worker; the
    /// cursor keeps the position read so far.
    pub fn release(&mut self) -> (r: Option<Buffer<T>>)
        requires
            old(self).wf(),
        ensures
            final(self).wf(),
            r == old(self).held(),
            final(self).held() is None,
            final(self).index() == 0,
            final(self).remaining_spec() == old(self).remaining_spec(),
            final(self).channels_spec() == old(self).channels_spec(),
            final(self).len_spec() == old(self).len_spec(),
            final(self).looped_spec() == old(self).looped_spec(),
    {
        let index = self.buffer_index;
        let len = self.wav_len_samples;
        let spent = self.buffer.take();
        if let Some(b) = &spent {
            self.read_to = Some(read_until(b.info.start, index, len));
            proof {
                lemma_read_position_grows(b.info.start as int, index as int, len as int);
            }
        }
        self.buffer_index = 0;
        spent
    }

    /// Holds `buffer` from its first sample on; hands out the buffer held before, if any.
    pub fn receive(&mut self, buffer: Buffer<T>) -> (r: Option<Buffer<T>>)
        requires
            old(self).wf(),
        ensures
            final(self).wf(),
            final(self).channels_spec() == old(self).channels_spec(),
            final(self).len_spec() == old(self).len_spec(),
            final(self).looped_spec() == old(self).looped_spec(),
            r == old(self).held(),
            final(self).held() == Some(buffer),
            final(self).index() == 0,
    {
        let index = self.buffer_index;
        let len = self.wav_len_samples;
        let spent = self.buffer.take();
        if let Some(b) = &spent {
            self.read_to = Some(read_until(b.info.start, index, len));
            proof {
                lemma_read_position_grows(b.info.start as int, index as int, len as int);
            }
        }
        self.buffer = Some(buffer);
        self.buffer_index = 0;
        spent
    }
}

/// The file sample index read up to, `index` samples into a buffer that starts at `start`, in a
/// file of `len` samples: no further than the end of the file.
pub open spec fn read_position(start: int, index: int, len: int) -> int {
    if start + index <= len {
        start + index
    } else {
        len
    }
}

proof fn lemma_read_position_grows(start: int, index: int, len: int)
    requires
        0 <= start,
        0 <= index,
        0 <= len,
    ensures
        read_position(start, index, len) <= read_position(start, index + 1, len),
        0 <= read_position(start, index, len) <= len,
        read_position(read_position(start, index, len), 0, len) == read_position(start, index, len),
{
}

proof fn lemma_fewer_frames(x: int, y: int, d: int)
    requires
        0 <= x <= y,
        0 < d,
    ensures
        x / d <= y / d,
{
    vstd::arithmetic::div_mod::lemma_div_is_ordered(x, y, d);
}

/// The file sample index read up to, `index` samples into a buffer that starts at `start`.
fn read_until(start: u64, index: usize, len: u64) -> (r: u64)
    ensures
        r == read_position(start as int, index as int, len as int),
{
    if start <= len && index as u64 <= len - start {
        start + index as u64
    } else {
        len
    }
}

} // verus!

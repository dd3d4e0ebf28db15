//! The per-speaker ring of slots.

use vstd::prelude::*;
use crate::audio::{
    audio_slots, compressed, expanded, kept, levels, nanos_between, reconstructed, zeros,
    AudioState, SILENCE_CEILING,
};
use crate::clock::Clock;
use crate::config::{check_size, size_error, valid_size, ConfigError};

verus! {

/// What a [`Buffer`] holds, oldest slot first.
#[verifier::ext_equal]
pub struct BufferView {
    /// The last `capacity` slots written, in the order they were written; the
    /// slots of a buffer that was written less often start with `Null`.
    pub slots: Seq<AudioState>,
    /// Position in `slots` of the silence that was opened last, while it is
    /// neither closed nor overwritten. A silence that another was opened
    /// after is never closed: it lasts until its marker is overwritten.
    pub open: Option<int>,
}

impl BufferView {
    /// Number of slots.
    pub open spec fn capacity(self) -> nat {
        self.slots.len()
    }

    /// The slots are not empty and `open` points at a silence start.
    pub open spec fn wf(self) -> bool {
        &&& self.slots.len() > 0
        &&& self.open matches Some(at) ==> {
            &&& 0 <= at < self.slots.len()
            &&& self.slots[at] is Timestamp
        }
    }

    /// A buffer of `capacity` slots that was never written.
    pub open spec fn fresh(capacity: nat) -> BufferView {
        BufferView { slots: Seq::new(capacity, |i: int| AudioState::Null), open: None }
    }

    /// Where the open silence lies after `count` more slots were written.
    pub open spec fn open_after(self, count: nat) -> Option<int> {
        match self.open {
            Some(at) if at >= count => Some(at - count),
            _ => None,
        }
    }

    /// The view after `samples` were written, oldest slots dropped to make room.
    pub open spec fn push_audio(self, samples: Seq<i16>) -> BufferView {
        BufferView {
            slots: (self.slots + audio_slots(samples)).skip(samples.len() as int),
            open: self.open_after(samples.len()),
        }
    }

    /// The view after a silence that began at `now` was marked: the marker
    /// takes the place of the oldest slot and is the open silence from then on.
    pub open spec fn push_silence(self, now: u64) -> BufferView {
        BufferView {
            slots: self.slots.skip(1).push(AudioState::Timestamp(now)),
            open: Some(self.slots.len() - 1),
        }
    }

    /// The view after the open silence, if there is one, was closed at `now`:
    /// its marker gives way to the time that passed since it was set.
    pub open spec fn push_silence_end(self, now: u64) -> BufferView {
        match self.open {
            Some(at) => BufferView {
                slots: self.slots.update(
                    at,
                    AudioState::Padding(nanos_between(self.slots[at]->Timestamp_0, now) as u64),
                ),
                open: None,
            },
            None => self,
        }
    }
}

/// Fixed-capacity ring of [`AudioState`] slots for one speaker.
///
/// Every write goes over the oldest slot, so the buffer always holds the
/// newest `size` slots that were written, and a silence takes one slot however
/// long it lasts. Reads never change the buffer.
///
/// The methods that end in `_at` take the time from the caller. The others
/// read the buffer's own clock, which starts when the buffer is made; one
/// buffer should be driven by one of the two only.
pub struct Buffer {
    /// The slots, in no particular rotation.
    buf: Vec<AudioState>,
    /// The slot that is written next: the oldest.
    pos: usize,
    /// The slot of the silence that was opened last, until it is closed.
    silence_pos: Option<usize>,
    /// Number of slots.
    size: usize,
    /// The clock behind the methods that take no time.
    clock: Clock,
}

impl View for Buffer {
    type V = BufferView;

    closed spec fn view(&self) -> BufferView {
        BufferView {
            slots: self.buf@.subrange(self.pos as int, self.size as int) + self.buf@.subrange(
                0,
                self.pos as int,
            ),
            open: match self.silence_pos {
                Some(at) if self.buf@[at as int] is Timestamp => Some(
                    if at >= self.pos {
                        at - self.pos
                    } else {
                        at + self.size - self.pos
                    },
                ),
                _ => None,
            },
        }
    }
}

impl Buffer {
    #[verifier::type_invariant]
    spec fn inv(self) -> bool {
        &&& valid_size(self.size)
        &&& self.buf@.len() == self.size
        &&& self.pos < self.size
        &&& self.silence_pos matches Some(at) ==> at < self.size
    }

    /// A buffer of `size` slots, none of them written. A buffer without slots
    /// is turned down, and so is one of more than
    /// [`MAX_BUFFER_SIZE`](crate::config::MAX_BUFFER_SIZE) slots.
    pub fn new(size: usize) -> (made: Result<Buffer, ConfigError>)
        ensures
            match made {
                Ok(buffer) => valid_size(size) && buffer@ == BufferView::fresh(size as nat)
                    && buffer@.wf(),
                Err(error) => size_error(size) == Some(error),
            },
    {
        match check_size(size) {
            Ok(_) => Ok(Buffer::with_size(size)),
            Err(error) => Err(error),
        }
    }

    /// A buffer of `size` slots, none of them written.
    pub(crate) fn with_size(size: usize) -> (made: Buffer)
        requires
            valid_size(size),
        ensures
            made@ == BufferView::fresh(size as nat),
            made@.wf(),
    {
        Buffer {
            buf: vec![AudioState::Null; size],
            pos: 0,
            silence_pos: None,
            size,
            clock: Clock::start(),
        }
    }

    /// Number of slots.
    pub fn capacity(&self) -> (size: usize)
        ensures
            size == self@.capacity(),
            self@.wf(),
    {
        proof {
            use_type_invariant(self);
        }
        self.size
    }

    /// Writes `val` sample by sample, each over the oldest slot.
    pub fn push_audio(&mut self, val: &Vec<i16>)
        ensures
            final(self)@ == old(self)@.push_audio(val@),
            final(self)@.wf(),
    {
        proof {
            use_type_invariant(&*self);
        }
        let mut i: usize = 0;
        while i < val.len()
            invariant
                i <= val.len(),
                valid_size(self.size),
                self.buf@.len() == self.size,
                self.pos < self.size,
                self.silence_pos matches Some(at) ==> at < self.size,
                self@ == old(self)@.push_audio(val@.take(i as int)),
            decreases val.len() - i,
        {
            let ghost before = self@;
            self.buf[self.pos] = AudioState::Audio(val[i]);
            self.pos = if self.pos < self.size - 1 {
                self.pos + 1
            } else {
                0
            };
            assert(self@.slots =~= before.slots.skip(1).push(AudioState::Audio(val@[i as int])));
            i += 1;
        }
    }

    /// Writes `val` as [`Buffer::push_audio`] does.
    pub fn push(&mut self, val: &Vec<i16>)
        ensures
            final(self)@ == old(self)@.push_audio(val@),
            final(self)@.wf(),
    {
        self.push_audio(val)
    }

    /// Marks over the oldest slot that the speaker fell silent at `now`.
    pub fn push_silence_at(&mut self, now: u64)
        ensures
            final(self)@ == old(self)@.push_silence(now),
            final(self)@.wf(),
    {
        proof {
            use_type_invariant(&*self);
        }
        self.buf[self.pos] = AudioState::Timestamp(now);
        self.silence_pos = Some(self.pos);
        self.pos = if self.pos < self.size - 1 {
            self.pos + 1
        } else {
            0
        };
    }

    /// Marks that the speaker fell silent now, by the buffer's own clock.
    pub fn push_silence(&mut self)
        ensures
            exists|now: u64| final(self)@ == old(self)@.push_silence(now),
            final(self)@.wf(),
    {
        let now: u64 = self.clock.now();
        self.push_silence_at(now);
    }

    /// Closes the open silence at `now`: its marker becomes the time that
    /// passed since it was set, nothing where `now` lies before it. Without an
    /// open silence, or with one whose marker was overwritten since, nothing
    /// changes.
    pub fn push_silence_end_at(&mut self, now: u64)
        ensures
            final(self)@ == old(self)@.push_silence_end(now),
            final(self)@.wf(),
    {
        proof {
            use_type_invariant(&*self);
        }
        if let Some(at) = self.silence_pos {
            if let AudioState::Timestamp(since) = self.buf[at] {
                let nanos: u64 = if now >= since {
                    now - since
                } else {
                    0
                };
                self.buf[at] = AudioState::Padding(nanos);
            }
        }
        self.silence_pos = None;
    }

    /// Closes the open silence now, by the buffer's own clock.
    pub fn push_silence_end(&mut self)
        ensures
            exists|now: u64| final(self)@ == old(self)@.push_silence_end(now),
            final(self)@.wf(),
    {
        let now: u64 = self.clock.now();
        self.push_silence_end_at(now);
    }

    /// The slot at position `at`, counted from the oldest.
    fn slot_at(&self, at: usize) -> (slot: AudioState)
        requires
            at < self@.slots.len(),
        ensures
            slot == self@.slots[at as int],
    {
        proof {
            use_type_invariant(self);
        }
        let tail: usize = self.size - self.pos;
        if at < tail {
            self.buf[self.pos + at]
        } else {
            self.buf[at - tail]
        }
    }

    /// The samples in the buffer, oldest first, silences left out. The buffer
    /// stays as it is.
    pub fn pop_compressed(&self) -> (samples: Vec<i16>)
        ensures
            samples@ == compressed(self@.slots),
            self@.wf(),
    {
        proof {
            use_type_invariant(self);
        }
        let ghost slots = self@.slots;
        let mut samples: Vec<i16> = Vec::new();
        let mut at: usize = 0;
        while at < self.size
            invariant
                at <= self.size,
                self.size == slots.len(),
                slots == self@.slots,
                samples@ == compressed(slots.take(at as int)),
            decreases self.size - at,
        {
            let slot = self.slot_at(at);
            if let AudioState::Audio(value) = slot {
                samples.push(value);
            }
            proof {
                slots.lemma_filter_map_take_succ(|slot: AudioState| slot.sample(), at as int);
            }
            at += 1;
        }
        assert(slots.take(self.size as int) =~= slots);
        samples
    }

    /// One sample per slot, oldest first: the slot's own, or zero where it
    /// holds none. The buffer stays as it is.
    pub fn pop(&self) -> (samples: Vec<i16>)
        ensures
            samples@ == levels(self@.slots),
            self@.wf(),
    {
        proof {
            use_type_invariant(self);
        }
        let ghost slots = self@.slots;
        let mut samples: Vec<i16> = Vec::new();
        let mut at: usize = 0;
        while at < self.size
            invariant
                at <= self.size,
                self.size == slots.len(),
                slots == self@.slots,
                samples@ == levels(slots.take(at as int)),
            decreases self.size - at,
        {
            let slot = self.slot_at(at);
            let value: i16 = match slot {
                AudioState::Audio(value) => value,
                _ => 0,
            };
            samples.push(value);
            at += 1;
        }
        samples
    }

    /// The signal in the buffer at `now`, oldest first, every silence written
    /// out as zeros: a closed one with its length, one that was not closed
    /// with the time that passed until `now`. Silences are counted from the newest slot
    /// backwards; the first that brings their sum over [`SILENCE_CEILING`] is
    /// left out, and with it all that is older. The buffer stays as it is.
    pub fn pop_uncompressed_at(&self, now: u64) -> (samples: Vec<i16>)
        ensures
            samples@ == reconstructed(self@.slots, now),
            self@.wf(),
    {
        proof {
            use_type_invariant(self);
        }
        let ghost slots = self@.slots;
        let mut count: usize = 0;
        let mut budget: u64 = SILENCE_CEILING;
        let mut walking = true;
        assert(slots.take(self.size as int) =~= slots);
        while walking && count < self.size
            invariant
                count <= self.size,
                self.size == slots.len(),
                slots == self@.slots,
                kept(slots, now, SILENCE_CEILING as nat) == count + (if walking {
                    kept(slots.take(self.size - count), now, budget as nat)
                } else {
                    0
                }),
            decreases self.size - count + (if walking { 1int } else { 0int }),
        {
            let slot = self.slot_at(self.size - 1 - count);
            let silence: u64 = slot.silence_at(now);
            proof {
                let rest = slots.take(self.size - count);
                assert(rest.drop_last() =~= slots.take(self.size - count - 1));
            }
            if silence > budget {
                walking = false;
            } else {
                budget -= silence;
                count += 1;
            }
        }
        let start: usize = self.size - count;
        let ghost newest = slots.skip(start as int);
        let mut samples: Vec<i16> = Vec::new();
        let mut at: usize = start;
        while at < self.size
            invariant
                start <= at <= self.size,
                self.size == slots.len(),
                slots == self@.slots,
                newest == slots.skip(start as int),
                samples@ == expanded(newest.take(at - start), now),
            decreases self.size - at,
        {
            let slot = self.slot_at(at);
            let ghost before = samples@;
            match slot {
                AudioState::Audio(value) => {
                    samples.push(value);
                },
                AudioState::Null => {},
                _ => {
                    let silence: u64 = slot.silence_at(now);
                    let mut written: u64 = 0;
                    while written < silence
                        invariant
                            written <= silence,
                            samples@ == before + zeros(written as nat),
                        decreases silence - written,
                    {
                        samples.push(0);
                        written += 1;
                    }
                },
            }
            proof {
                newest.lemma_flat_map_take_append(
                    |slot: AudioState| slot.signal(now),
                    at - start,
                );
            }
            at += 1;
        }
        assert(newest.take(self.size - start) =~= newest);
        samples
    }

    /// The signal in the buffer as [`Buffer::pop_uncompressed_at`] gives it,
    /// at the time that the buffer's own clock shows.
    pub fn pop_uncompressed(&self) -> (samples: Vec<i16>)
        ensures
            exists|now: u64| samples@ == reconstructed(self@.slots, now),
            self@.wf(),
    {
        let now: u64 = self.clock.now();
        self.pop_uncompressed_at(now)
    }
}

} // verus!

//! Slots of a speaker's history and the signal they stand for.

use vstd::prelude::*;

verus! {

/// Samples per second of the reconstructed signal: two interleaved channels at
/// 48 kHz.
pub const SAMPLE_RATE: u64 = 96_000;

/// Nanoseconds per second.
pub const NANOS_PER_SECOND: u64 = 1_000_000_000;

/// Ceiling on the silence that one reconstruction materialises: 120 seconds
/// worth of samples.
pub const SILENCE_CEILING: u64 = 11_520_000;

/// One slot of a speaker's history.
///
/// Times are nanoseconds on a monotonic clock chosen by whoever drives the
/// buffer; only differences between them are ever used.
#[derive(Clone, Copy, Debug, PartialEq, Eq, Structural)]
pub enum AudioState {
    /// The instant at which the speaker fell silent, of a silence that was
    /// not closed so far.
    Timestamp(u64),
    /// A closed silence and how long it lasted, in nanoseconds.
    Padding(u64),
    /// One decoded PCM sample.
    Audio(i16),
    /// Never written.
    Null,
}

/// Number of samples that a silence of `nanos` nanoseconds stands for, rounded
/// down.
pub open spec fn samples_for(nanos: nat) -> nat {
    (nanos * SAMPLE_RATE as nat) / (NANOS_PER_SECOND as nat)
}

/// Time from `since` to `now`, zero where `since` lies after `now`.
pub open spec fn nanos_between(since: u64, now: u64) -> nat {
    if now >= since {
        (now - since) as nat
    } else {
        0
    }
}

/// `count` zero samples.
pub open spec fn zeros(count: nat) -> Seq<i16> {
    Seq::new(count, |i: int| 0i16)
}

impl AudioState {
    /// The sample that the slot holds, if it holds one.
    pub open spec fn sample(self) -> Option<i16> {
        match self {
            AudioState::Audio(value) => Some(value),
            _ => None,
        }
    }

    /// Number of zero samples that the slot stands for at `now`: a closed
    /// silence counts with its length, one that was not closed with the time
    /// since it began, any other slot with nothing.
    pub open spec fn silence(self, now: u64) -> nat {
        match self {
            AudioState::Timestamp(since) => samples_for(nanos_between(since, now)),
            AudioState::Padding(nanos) => samples_for(nanos as nat),
            _ => 0,
        }
    }

    /// The stretch of signal that the slot stands for at `now`.
    pub open spec fn signal(self, now: u64) -> Seq<i16> {
        match self {
            AudioState::Audio(value) => seq![value],
            _ => zeros(self.silence(now)),
        }
    }

    /// The slot's sample, or zero where it holds none.
    pub open spec fn level(self) -> i16 {
        match self {
            AudioState::Audio(value) => value,
            _ => 0,
        }
    }
}

/// `samples`, each in a slot of its own.
pub open spec fn audio_slots(samples: Seq<i16>) -> Seq<AudioState> {
    samples.map_values(|sample: i16| AudioState::Audio(sample))
}

/// The samples among `slots`, in order; markers and unwritten slots are left
/// out.
pub open spec fn compressed(slots: Seq<AudioState>) -> Seq<i16> {
    slots.filter_map(|slot: AudioState| slot.sample())
}

/// One sample per slot, in order: the slot's own, or zero.
pub open spec fn levels(slots: Seq<AudioState>) -> Seq<i16> {
    slots.map_values(|slot: AudioState| slot.level())
}

/// The signal of `slots` at `now`, every silence written out as zeros.
pub open spec fn expanded(slots: Seq<AudioState>, now: u64) -> Seq<i16> {
    slots.flat_map(|slot: AudioState| slot.signal(now))
}

/// Zero samples that `slots` stand for at `now`, all silences together.
pub open spec fn silence_total(slots: Seq<AudioState>, now: u64) -> nat
    decreases slots.len(),
{
    if slots.len() == 0 {
        0
    } else {
        silence_total(slots.drop_last(), now) + slots.last().silence(now)
    }
}

/// How many of the newest `slots` a reconstruction keeps when `budget` zero
/// samples may still be written: it walks from the newest slot towards the
/// oldest and stops in front of the first silence that no longer fits.
pub open spec fn kept(slots: Seq<AudioState>, now: u64, budget: nat) -> nat
    decreases slots.len(),
{
    if slots.len() == 0 {
        0
    } else {
        let silence = slots.last().silence(now);
        if silence > budget {
            0
        } else {
            1 + kept(slots.drop_last(), now, (budget - silence) as nat)
        }
    }
}

/// The signal reconstructed from `slots` at `now`: the expansion of the newest
/// slots, as many as [`kept`] allows under [`SILENCE_CEILING`].
pub open spec fn reconstructed(slots: Seq<AudioState>, now: u64) -> Seq<i16> {
    let count = kept(slots, now, SILENCE_CEILING as nat);
    expanded(slots.skip(slots.len() - count), now)
}

impl AudioState {
    /// Computes [`AudioState::silence`].
    pub fn silence_at(&self, now: u64) -> (count: u64)
        ensures
            count == self.silence(now),
    {
        match self {
            AudioState::Timestamp(since) => {
                let nanos: u64 = if now >= *since {
                    now - *since
                } else {
                    0
                };
                silence_samples(nanos)
            },
            AudioState::Padding(nanos) => silence_samples(*nanos),
            _ => 0,
        }
    }
}

/// Computes [`samples_for`].
pub fn silence_samples(nanos: u64) -> (count: u64)
    ensures
        count == samples_for(nanos as nat),
{
    assert(nanos * 96_000 <= u64::MAX * 96_000) by (nonlinear_arith);
    let wide: u128 = nanos as u128 * SAMPLE_RATE as u128;
    let count: u128 = wide / NANOS_PER_SECOND as u128;
    count as u64
}

} // verus!

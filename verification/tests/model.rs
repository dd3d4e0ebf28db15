use voice_recorder::audio::{AudioState, SILENCE_CEILING};
use voice_recorder::buffer::Buffer;

/// The history of a buffer, written down the slow way: the slots in the order
/// they were written, the oldest dropped for every slot that comes in.
struct History {
    slots: Vec<AudioState>,
    open: Option<usize>,
}

impl History {
    fn new(size: usize) -> History {
        History { slots: vec![AudioState::Null; size], open: None }
    }

    fn write(&mut self, slot: AudioState) {
        self.slots.remove(0);
        self.slots.push(slot);
        self.open = match self.open {
            Some(at) if at > 0 => Some(at - 1),
            _ => None,
        };
    }

    fn push_audio(&mut self, samples: &[i16]) {
        for sample in samples {
            self.write(AudioState::Audio(*sample));
        }
    }

    fn push_silence(&mut self, now: u64) {
        self.write(AudioState::Timestamp(now));
        self.open = Some(self.slots.len() - 1);
    }

    fn push_silence_end(&mut self, now: u64) {
        if let Some(at) = self.open {
            if let AudioState::Timestamp(since) = self.slots[at] {
                self.slots[at] = AudioState::Padding(now.saturating_sub(since));
            }
        }
        self.open = None;
    }

    fn compressed(&self) -> Vec<i16> {
        self.slots
            .iter()
            .filter_map(|slot| match slot {
                AudioState::Audio(sample) => Some(*sample),
                _ => None,
            })
            .collect()
    }

    fn levels(&self) -> Vec<i16> {
        self.slots
            .iter()
            .map(|slot| match slot {
                AudioState::Audio(sample) => *sample,
                _ => 0,
            })
            .collect()
    }

    fn reconstructed(&self, now: u64) -> Vec<i16> {
        let mut silence: u128 = 0;
        let mut chunks: Vec<Vec<i16>> = Vec::new();
        for slot in self.slots.iter().rev() {
            let nanos = match slot {
                AudioState::Audio(sample) => {
                    chunks.push(vec![*sample]);
                    continue;
                },
                AudioState::Null => continue,
                AudioState::Padding(nanos) => *nanos,
                AudioState::Timestamp(since) => now.saturating_sub(*since),
            };
            let padding = u128::from(nanos) * 96_000 / 1_000_000_000;
            silence += padding;
            if silence > u128::from(SILENCE_CEILING) {
                break;
            }
            chunks.push(vec![0; padding as usize]);
        }
        chunks.reverse();
        chunks.concat()
    }
}

/// A small generator of numbers that look random and are the same on every
/// run.
struct Dice(u64);

impl Dice {
    fn roll(&mut self, sides: u64) -> u64 {
        self.0 = self.0.wrapping_mul(6_364_136_223_846_793_005).wrapping_add(1_442_695_040_888_963_407);
        (self.0 >> 33) % sides
    }
}

fn run(seed: u64, size: usize, steps: usize, longest_silence: u64) {
    let mut dice = Dice(seed);
    let mut buffer = Buffer::new(size).ok().unwrap();
    let mut history = History::new(size);
    let mut now: u64 = 0;
    let mut step: usize = 0;
    while step < steps {
        now += dice.roll(longest_silence);
        match dice.roll(6) {
            0 | 1 | 2 => {
                let count = dice.roll(2 * size as u64 + 2) as usize;
                let samples: Vec<i16> = (0..count).map(|_| dice.roll(65_536) as u16 as i16).collect();
                buffer.push_audio(&samples);
                history.push_audio(&samples);
            },
            3 => {
                buffer.push_silence_at(now);
                history.push_silence(now);
            },
            4 => {
                buffer.push_silence_end_at(now);
                history.push_silence_end(now);
            },
            _ => {
                let earlier = now.saturating_sub(dice.roll(longest_silence));
                buffer.push_silence_end_at(earlier);
                history.push_silence_end(earlier);
            },
        }
        assert_eq!(buffer.pop_compressed(), history.compressed(), "seed {} step {}", seed, step);
        assert_eq!(buffer.pop(), history.levels(), "seed {} step {}", seed, step);
        let later = now + dice.roll(longest_silence);
        assert!(buffer.pop_uncompressed_at(later) == history.reconstructed(later), "seed {} step {}", seed, step);
        step += 1;
    }
}

#[test]
fn buffer_agrees_with_its_history_on_short_silences() {
    let mut seed: u64 = 1;
    while seed <= 40 {
        run(seed, 1 + (seed as usize % 7), 200, 2_000_000);
        seed += 1;
    }
}

#[test]
fn buffer_agrees_with_its_history_around_the_ceiling() {
    let mut seed: u64 = 100;
    while seed < 104 {
        run(seed, 3 + (seed as usize % 4), 12, 70_000_000_000);
        seed += 1;
    }
}

#[test]
fn buffer_agrees_with_its_history_when_larger_than_its_frames() {
    run(7, 512, 300, 500_000);
}

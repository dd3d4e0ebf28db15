//! The buffers of one voice session, one per source.

use vstd::prelude::*;
use std::collections::HashMap;
use crate::audio::{compressed, reconstructed};
use crate::buffer::{Buffer, BufferView};
use crate::config::{check_size, size_error, valid_size, ConfigError};
use crate::export::{be_bytes, get_bytes, EncodeJob, ExportMode};
use crate::users::UserMap;

verus! {

broadcast use vstd::std_specs::hash::group_hash_axioms;

/// What a [`BufferSet`] holds.
#[verifier::ext_equal]
pub struct BufferSetView {
    /// The buffer of every source that was heard, or fell silent, since the
    /// set was made or last cleared.
    pub buffers: Map<u32, BufferView>,
    /// Slots of each buffer.
    pub capacity: nat,
}

impl BufferSetView {
    /// Every buffer is well formed and has the set's capacity.
    pub open spec fn wf(self) -> bool {
        &&& self.capacity > 0
        &&& forall|ssrc: u32| #[trigger]
            self.buffers.contains_key(ssrc) ==> self.buffers[ssrc].wf()
                && self.buffers[ssrc].capacity() == self.capacity
    }

    /// A set without buffers.
    pub open spec fn fresh(capacity: nat) -> BufferSetView {
        BufferSetView { buffers: Map::empty(), capacity }
    }

    /// The buffer of `ssrc`; an unwritten one where the source has none yet.
    pub open spec fn buffer_of(self, ssrc: u32) -> BufferView {
        if self.buffers.contains_key(ssrc) {
            self.buffers[ssrc]
        } else {
            BufferView::fresh(self.capacity)
        }
    }

    /// The set after `frame` was written to the buffer of `ssrc`.
    pub open spec fn push_audio(self, ssrc: u32, frame: Seq<i16>) -> BufferSetView {
        BufferSetView {
            buffers: self.buffers.insert(ssrc, self.buffer_of(ssrc).push_audio(frame)),
            ..self
        }
    }

    /// The set after a silence that began at `now` was marked in the buffer
    /// of `ssrc`.
    pub open spec fn push_silence(self, ssrc: u32, now: u64) -> BufferSetView {
        BufferSetView {
            buffers: self.buffers.insert(ssrc, self.buffer_of(ssrc).push_silence(now)),
            ..self
        }
    }

    /// The set after the open silence of `ssrc` was closed at `now`. A source
    /// without a buffer has no silence to close and stays without one.
    pub open spec fn push_silence_end(self, ssrc: u32, now: u64) -> BufferSetView {
        if self.buffers.contains_key(ssrc) {
            BufferSetView {
                buffers: self.buffers.insert(ssrc, self.buffers[ssrc].push_silence_end(now)),
                ..self
            }
        } else {
            self
        }
    }

    /// The set without the buffers of `sources`.
    pub open spec fn evict(self, sources: Set<u32>) -> BufferSetView {
        BufferSetView { buffers: self.buffers.remove_keys(sources), ..self }
    }

    /// The set without any buffer.
    pub open spec fn clear(self) -> BufferSetView {
        BufferSetView { buffers: Map::empty(), ..self }
    }

    /// The signal that an export in `mode` at `now` takes from the buffer of
    /// `ssrc`.
    pub open spec fn signal(self, ssrc: u32, mode: ExportMode, now: u64) -> Seq<i16> {
        match mode {
            ExportMode::Compressed => compressed(self.buffers[ssrc].slots),
            ExportMode::Reconstructed => reconstructed(self.buffers[ssrc].slots, now),
        }
    }

    /// Whether an export covers `ssrc`: the source has a buffer, `users` knows
    /// who speaks on it, and `names` knows what the speaker is called.
    pub open spec fn attributable(
        self,
        users: Map<u32, u64>,
        names: Map<u64, String>,
        ssrc: u32,
    ) -> bool {
        &&& self.buffers.contains_key(ssrc)
        &&& users.contains_key(ssrc)
        &&& names.contains_key(users[ssrc])
    }

    /// Whether `job` is what an export in `mode` at `now` asks for a source
    /// that it covers.
    pub open spec fn asks_for(
        self,
        users: Map<u32, u64>,
        names: Map<u64, String>,
        job: EncodeJob,
        mode: ExportMode,
        now: u64,
    ) -> bool {
        &&& self.attributable(users, names, job.ssrc)
        &&& job.user_id == users[job.ssrc]
        &&& job.name@ == names[job.user_id]@
        &&& job.pcm@ == be_bytes(self.signal(job.ssrc, mode, now))
    }

    /// Whether `jobs` are what an export in `mode` at `now` asks for: one job
    /// for every source that it covers, none for any other.
    pub open spec fn plans(
        self,
        users: Map<u32, u64>,
        names: Map<u64, String>,
        jobs: Seq<EncodeJob>,
        mode: ExportMode,
        now: u64,
    ) -> bool {
        &&& job_sources(jobs).no_duplicates()
        &&& forall|ssrc: u32|
            job_sources(jobs).contains(ssrc) <==> self.attributable(users, names, ssrc)
        &&& forall|at: int|
            0 <= at < jobs.len() ==> self.asks_for(users, names, #[trigger] jobs[at], mode, now)
    }
}

/// The sources of `jobs`, in order.
pub open spec fn job_sources(jobs: Seq<EncodeJob>) -> Seq<u32> {
    jobs.map_values(|job: EncodeJob| job.ssrc)
}

/// The sources among the first `count` of `sources`.
pub open spec fn first_sources(sources: Seq<u32>, count: int) -> Set<u32> {
    Set::new(|ssrc: u32| exists|at: int| 0 <= at < count && sources[at] == ssrc)
}

/// The buffers of one voice session: one per source, each made when the
/// source is first heard of, all of the same capacity.
pub struct BufferSet {
    buffers: HashMap<u32, Buffer>,
    size: usize,
}

impl View for BufferSet {
    type V = BufferSetView;

    closed spec fn view(&self) -> BufferSetView {
        BufferSetView {
            buffers: self.buffers@.map_values(|buffer: Buffer| buffer@),
            capacity: self.size as nat,
        }
    }
}

/// Every buffer of `buffers` is well formed and has `size` slots.
spec fn all_sized(buffers: Map<u32, Buffer>, size: usize) -> bool {
    forall|ssrc: u32| #[trigger]
        buffers.contains_key(ssrc) ==> buffers[ssrc]@.wf() && buffers[ssrc]@.capacity() == size
}

impl BufferSet {
    #[verifier::type_invariant]
    spec fn inv(self) -> bool {
        &&& valid_size(self.size)
        &&& all_sized(self.buffers@, self.size)
    }

    /// A set whose buffers will have `size` slots each. A size that no buffer
    /// can have is turned down.
    pub fn new(size: usize) -> (made: Result<BufferSet, ConfigError>)
        ensures
            match made {
                Ok(set) => valid_size(size) && set@ == BufferSetView::fresh(size as nat)
                    && set@.wf(),
                Err(error) => size_error(size) == Some(error),
            },
    {
        match check_size(size) {
            Ok(_) => Ok(BufferSet::with_size(size)),
            Err(error) => Err(error),
        }
    }

    /// A set whose buffers will have `size` slots each.
    pub(crate) fn with_size(size: usize) -> (made: BufferSet)
        requires
            valid_size(size),
        ensures
            made@ == BufferSetView::fresh(size as nat),
            made@.wf(),
    {
        BufferSet { buffers: HashMap::new(), size }
    }

    /// Slots of each buffer.
    pub fn capacity(&self) -> (size: usize)
        ensures
            size == self@.capacity,
            self@.wf(),
    {
        proof {
            use_type_invariant(self);
        }
        self.size
    }

    /// Hands out the map of buffers and leaves an empty one in its place, so
    /// that the set is well formed at every moment while the map is worked
    /// on. [`BufferSet::put`] brings the map back.
    fn take(&mut self) -> (buffers: HashMap<u32, Buffer>)
        ensures
            buffers == old(self).buffers,
            all_sized(buffers@, old(self).size),
            final(self).size == old(self).size,
            valid_size(final(self).size),
            final(self).buffers@ == Map::<u32, Buffer>::empty(),
    {
        proof {
            use_type_invariant(&*self);
        }
        let mut buffers: HashMap<u32, Buffer> = HashMap::new();
        std::mem::swap(&mut self.buffers, &mut buffers);
        buffers
    }

    /// Puts `buffers` in the place of the map of buffers.
    fn put(&mut self, buffers: HashMap<u32, Buffer>)
        requires
            all_sized(buffers@, old(self).size),
        ensures
            final(self).buffers == buffers,
            final(self).size == old(self).size,
    {
        proof {
            use_type_invariant(&*self);
        }
        let mut buffers = buffers;
        std::mem::swap(&mut self.buffers, &mut buffers);
    }

    /// Writes `frame` to the buffer of `ssrc`, which is made if this is the
    /// first that is heard of the source.
    pub fn push_audio(&mut self, ssrc: u32, frame: &Vec<i16>)
        ensures
            final(self)@ == old(self)@.push_audio(ssrc, frame@),
            final(self)@.wf(),
    {
        let mut buffers = self.take();
        let mut buffer = match buffers.remove(&ssrc) {
            Some(buffer) => buffer,
            None => Buffer::with_size(self.size),
        };
        buffer.push_audio(frame);
        buffers.insert(ssrc, buffer);
        self.put(buffers);
    }

    /// Marks in the buffer of `ssrc` that the source fell silent at `now`. The
    /// buffer is made if this is the first that is heard of the source.
    pub fn push_silence_at(&mut self, ssrc: u32, now: u64)
        ensures
            final(self)@ == old(self)@.push_silence(ssrc, now),
            final(self)@.wf(),
    {
        let mut buffers = self.take();
        let mut buffer = match buffers.remove(&ssrc) {
            Some(buffer) => buffer,
            None => Buffer::with_size(self.size),
        };
        buffer.push_silence_at(now);
        buffers.insert(ssrc, buffer);
        self.put(buffers);
    }

    /// Closes the open silence of `ssrc` at `now`. Nothing changes for a
    /// source without a buffer.
    pub fn push_silence_end_at(&mut self, ssrc: u32, now: u64)
        ensures
            final(self)@ == old(self)@.push_silence_end(ssrc, now),
            final(self)@.wf(),
    {
        let mut buffers = self.take();
        if let Some(mut buffer) = buffers.remove(&ssrc) {
            buffer.push_silence_end_at(now);
            buffers.insert(ssrc, buffer);
        }
        self.put(buffers);
    }

    /// Drops the buffers of `sources`. A source without a buffer is passed
    /// over.
    pub fn evict(&mut self, sources: &Vec<u32>)
        ensures
            final(self)@ == old(self)@.evict(sources@.to_set()),
            final(self)@.wf(),
    {
        let mut buffers = self.take();
        let ghost held = buffers@;
        let mut at: usize = 0;
        while at < sources.len()
            invariant
                at <= sources.len(),
                all_sized(held, self.size),
                buffers@ == held.remove_keys(first_sources(sources@, at as int)),
            decreases sources.len() - at,
        {
            buffers.remove(&sources[at]);
            at += 1;
        }
        self.put(buffers);
    }

    /// Drops every buffer.
    pub fn clear(&mut self)
        ensures
            final(self)@ == old(self)@.clear(),
            final(self)@.wf(),
    {
        let mut buffers = self.take();
        buffers.clear();
        self.put(buffers);
    }

    /// The buffer of `ssrc`, if the source has one.
    pub fn get(&self, ssrc: u32) -> (found: Option<&Buffer>)
        ensures
            match found {
                Some(buffer) => self@.buffers.contains_key(ssrc) && buffer@ == self@.buffers[ssrc],
                None => !self@.buffers.contains_key(ssrc),
            },
            self@.wf(),
    {
        proof {
            use_type_invariant(self);
        }
        self.buffers.get(&ssrc)
    }

    /// Number of sources that have a buffer.
    pub fn len(&self) -> (count: usize)
        ensures
            count == self@.buffers.dom().len(),
            self@.wf(),
    {
        proof {
            use_type_invariant(self);
            assert(self@.buffers.dom() =~= self.buffers@.dom());
        }
        self.buffers.len()
    }

    /// Plans an export in `mode` at `now`: one job for every source that has
    /// a buffer, a speaker known to `users` and a name for that speaker in
    /// `names`, with the speaker, the name and the signal of the buffer as raw
    /// bytes. Any other source is passed over without a trace. No buffer is
    /// changed.
    pub fn plan_export(
        &self,
        users: &UserMap,
        names: &HashMap<u64, String>,
        mode: ExportMode,
        now: u64,
    ) -> (jobs: Vec<EncodeJob>)
        ensures
            self@.plans(users@, names@, jobs@, mode, now),
            self@.wf(),
    {
        proof {
            use_type_invariant(self);
        }
        let mut jobs: Vec<EncodeJob> = Vec::new();
        for ssrc in it: self.buffers.keys()
            invariant
                it.seq().no_duplicates(),
                it.seq().unref().to_set() == self.buffers@.dom(),
                job_sources(jobs@).no_duplicates(),
                forall|s: u32|
                    job_sources(jobs@).contains(s) <==> (self@.attributable(users@, names@, s)
                        && exists|at: int| 0 <= at < it.index() && *it.seq()[at] == s),
                forall|at: int|
                    0 <= at < jobs@.len() ==> self@.asks_for(
                        users@,
                        names@,
                        #[trigger] jobs@[at],
                        mode,
                        now,
                    ),
        {
            let ghost before = jobs@;
            let ghost seen = it.index();
            if let Some(buffer) = self.buffers.get(ssrc) {
                if let Some(user_id) = users.lookup(*ssrc) {
                    if let Some(name) = names.get(&user_id) {
                        let samples = match mode {
                            ExportMode::Compressed => buffer.pop_compressed(),
                            ExportMode::Reconstructed => buffer.pop_uncompressed_at(now),
                        };
                        let job = EncodeJob {
                            ssrc: *ssrc,
                            user_id,
                            name: name.clone(),
                            pcm: get_bytes(&samples),
                        };
                        jobs.push(job);
                        proof {
                            // A source that has its job already came earlier in
                            // the walk, and no key comes twice.
                            if job_sources(before).contains(*ssrc) {
                                let at = choose|at: int| 0 <= at < seen && *it.seq()[at] == *ssrc;
                                assert(it.seq()[at] == it.seq()[seen]);
                            }
                            assert(job_sources(jobs@) =~= job_sources(before).push(*ssrc));
                        }
                    }
                }
            }
            proof {
                assert forall|s: u32|
                    job_sources(jobs@).contains(s) <==> (self@.attributable(users@, names@, s)
                        && exists|at: int| 0 <= at < seen + 1 && *it.seq()[at] == s) by {
                    if job_sources(jobs@).contains(s) {
                        let at = choose|at: int|
                            0 <= at < job_sources(jobs@).len() && job_sources(jobs@)[at] == s;
                        if at < before.len() {
                            assert(job_sources(before).contains(s));
                        }
                    }
                    if self@.attributable(users@, names@, s) && exists|at: int|
                        0 <= at < seen + 1 && *it.seq()[at] == s {
                        let at = choose|at: int| 0 <= at < seen + 1 && *it.seq()[at] == s;
                        if at < seen {
                            assert(job_sources(before).contains(s));
                            let planned = choose|i: int|
                                0 <= i < job_sources(before).len() && job_sources(before)[i] == s;
                            assert(job_sources(jobs@)[planned] == s);
                        } else {
                            assert(job_sources(jobs@)[jobs@.len() - 1] == s);
                        }
                    }
                }
            }
        }
        jobs
    }
}

} // verus!

//! The state of one voice session.

use vstd::prelude::*;
use std::collections::HashMap;
use crate::buffer_set::{BufferSet, BufferSetView};
use crate::config::{check_size, size_error, valid_size, ConfigError};
use crate::export::{EncodeJob, ExportMode};
use crate::users::{sources_of, UserMap};

verus! {

/// What a [`Lobby`] holds.
#[verifier::ext_equal]
pub struct LobbyView {
    /// The buffers of the session.
    pub buffers: BufferSetView,
    /// Who speaks on which source.
    pub users: Map<u32, u64>,
}

impl LobbyView {
    /// The buffers are well formed.
    pub open spec fn wf(self) -> bool {
        self.buffers.wf()
    }

    /// A session in which nothing happened yet.
    pub open spec fn fresh(capacity: nat) -> LobbyView {
        LobbyView { buffers: BufferSetView::fresh(capacity), users: Map::empty() }
    }

    /// The session after `frame` arrived from `ssrc`.
    pub open spec fn on_audio(self, ssrc: u32, frame: Seq<i16>) -> LobbyView {
        LobbyView { buffers: self.buffers.push_audio(ssrc, frame), ..self }
    }

    /// The session after `ssrc` fell silent at `now`.
    pub open spec fn on_silence_start(self, ssrc: u32, now: u64) -> LobbyView {
        LobbyView { buffers: self.buffers.push_silence(ssrc, now), ..self }
    }

    /// The session after `ssrc` spoke up again at `now`.
    pub open spec fn on_silence_end(self, ssrc: u32, now: u64) -> LobbyView {
        LobbyView { buffers: self.buffers.push_silence_end(ssrc, now), ..self }
    }

    /// The session after `ssrc` was confirmed to be `user_id`.
    pub open spec fn on_identity(self, ssrc: u32, user_id: u64) -> LobbyView {
        LobbyView { users: self.users.insert(ssrc, user_id), ..self }
    }

    /// The session after `user_id` left: the buffers of all the sources that
    /// `user_id` holds are gone. Who holds which source is left as it was.
    pub open spec fn on_speaker_disconnect(self, user_id: u64) -> LobbyView {
        LobbyView { buffers: self.buffers.evict(sources_of(self.users, user_id)), ..self }
    }

    /// The session after its history was cleared.
    pub open spec fn clear(self) -> LobbyView {
        LobbyView { buffers: self.buffers.clear(), ..self }
    }
}

/// The state of one voice session: a buffer for every source that was heard
/// and the registry of who speaks on which source.
///
/// The two halves never read each other when the session changes, so a caller
/// that wants to guard them apart can hold a [`BufferSet`] and a [`UserMap`]
/// side by side instead.
pub struct Lobby {
    buffers: BufferSet,
    users: UserMap,
}

impl View for Lobby {
    type V = LobbyView;

    closed spec fn view(&self) -> LobbyView {
        LobbyView { buffers: self.buffers@, users: self.users@ }
    }
}

impl Lobby {
    /// A session whose buffers will have `size` slots each. A size that no
    /// buffer can have is turned down.
    pub fn new(size: usize) -> (made: Result<Lobby, ConfigError>)
        ensures
            match made {
                Ok(lobby) => valid_size(size) && lobby@ == LobbyView::fresh(size as nat)
                    && lobby@.wf(),
                Err(error) => size_error(size) == Some(error),
            },
    {
        match check_size(size) {
            Ok(_) => Ok(Lobby::with_size(size)),
            Err(error) => Err(error),
        }
    }

    /// A session whose buffers will have `size` slots each.
    pub(crate) fn with_size(size: usize) -> (made: Lobby)
        requires
            valid_size(size),
        ensures
            made@ == LobbyView::fresh(size as nat),
            made@.wf(),
    {
        Lobby { buffers: BufferSet::with_size(size), users: UserMap::new() }
    }

    /// The buffers of the session.
    pub fn buffers(&self) -> (buffers: &BufferSet)
        ensures
            buffers@ == self@.buffers,
    {
        &self.buffers
    }

    /// The registry of the session.
    pub fn users(&self) -> (users: &UserMap)
        ensures
            users@ == self@.users,
    {
        &self.users
    }

    /// A frame of audio arrived from `ssrc`.
    pub fn on_audio(&mut self, ssrc: u32, frame: &Vec<i16>)
        ensures
            final(self)@ == old(self)@.on_audio(ssrc, frame@),
            final(self)@.wf(),
    {
        self.buffers.push_audio(ssrc, frame);
    }

    /// `ssrc` fell silent at `now`.
    pub fn on_silence_start(&mut self, ssrc: u32, now: u64)
        ensures
            final(self)@ == old(self)@.on_silence_start(ssrc, now),
            final(self)@.wf(),
    {
        self.buffers.push_silence_at(ssrc, now);
    }

    /// `ssrc` spoke up again at `now`.
    pub fn on_silence_end(&mut self, ssrc: u32, now: u64)
        ensures
            final(self)@ == old(self)@.on_silence_end(ssrc, now),
            final(self)@.wf(),
    {
        self.buffers.push_silence_end_at(ssrc, now);
    }

    /// `ssrc` was confirmed to be `user_id`.
    pub fn on_identity(&mut self, ssrc: u32, user_id: u64)
        ensures
            final(self)@ == old(self)@.on_identity(ssrc, user_id),
    {
        self.users.update_ssrc(&ssrc, &user_id);
    }

    /// `user_id` left the session: the buffers of all the sources that
    /// `user_id` holds are dropped. Returns those sources, each once.
    pub fn on_speaker_disconnect(&mut self, user_id: u64) -> (sources: Vec<u32>)
        ensures
            final(self)@ == old(self)@.on_speaker_disconnect(user_id),
            final(self)@.wf(),
            sources@.no_duplicates(),
            sources@.to_set() == sources_of(old(self)@.users, user_id),
    {
        let sources = self.users.evict_all_for(user_id);
        self.buffers.evict(&sources);
        sources
    }

    /// Clears the history of the session: every buffer is dropped, the
    /// registry stays.
    pub fn clear(&mut self)
        ensures
            final(self)@ == old(self)@.clear(),
            final(self)@.wf(),
    {
        self.buffers.clear();
    }

    /// Plans an export of the session in `mode` at `now`, as
    /// [`BufferSet::plan_export`] does with the session's registry and the
    /// speakers' `names`. The session stays as it is.
    pub fn export(&self, names: &HashMap<u64, String>, mode: ExportMode, now: u64) -> (jobs: Vec<
        EncodeJob,
    >)
        ensures
            self@.buffers.plans(self@.users, names@, jobs@, mode, now),
            self@.wf(),
    {
        self.buffers.plan_export(&self.users, names, mode, now)
    }
}

} // verus!

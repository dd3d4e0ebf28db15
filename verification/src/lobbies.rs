//! The voice sessions that are under way.

use vstd::prelude::*;
use std::collections::HashMap;
use crate::config::{check_size, size_error, valid_size, ConfigError};
use crate::export::{EncodeJob, ExportMode};
use crate::lobby::{Lobby, LobbyView};
use crate::users::sources_of;

verus! {

broadcast use vstd::std_specs::hash::group_hash_axioms;

/// What [`Lobbies`] holds.
#[verifier::ext_equal]
pub struct LobbiesView {
    /// The state of every session that is under way.
    pub lobbies: Map<u64, LobbyView>,
    /// Slots of each buffer of a session that begins.
    pub capacity: nat,
}

impl LobbiesView {
    /// Every session is well formed and has buffers of the registry's
    /// capacity.
    pub open spec fn wf(self) -> bool {
        &&& self.capacity > 0
        &&& forall|id: u64| #[trigger]
            self.lobbies.contains_key(id) ==> self.lobbies[id].wf()
                && self.lobbies[id].buffers.capacity == self.capacity
    }

    /// No session is under way.
    pub open spec fn fresh(capacity: nat) -> LobbiesView {
        LobbiesView { lobbies: Map::empty(), capacity }
    }

    /// The sessions after `id` was asked for: a session that is under way
    /// stays as it is, any other begins.
    pub open spec fn get_or_create(self, id: u64) -> LobbiesView {
        if self.lobbies.contains_key(id) {
            self
        } else {
            LobbiesView { lobbies: self.lobbies.insert(id, LobbyView::fresh(self.capacity)), ..self }
        }
    }

    /// The sessions without `id`.
    pub open spec fn remove(self, id: u64) -> LobbiesView {
        LobbiesView { lobbies: self.lobbies.remove(id), ..self }
    }

    /// The sessions with `next` as the state of `id`, if `id` is under way.
    pub open spec fn with_lobby(self, id: u64, next: LobbyView) -> LobbiesView {
        if self.lobbies.contains_key(id) {
            LobbiesView { lobbies: self.lobbies.insert(id, next), ..self }
        } else {
            self
        }
    }
}

/// The voice sessions that are under way, each under the identifier of the
/// group that holds it.
pub struct Lobbies {
    lobbies: HashMap<u64, Lobby>,
    size: usize,
}

impl View for Lobbies {
    type V = LobbiesView;

    closed spec fn view(&self) -> LobbiesView {
        LobbiesView {
            lobbies: self.lobbies@.map_values(|lobby: Lobby| lobby@),
            capacity: self.size as nat,
        }
    }
}

/// Every session of `lobbies` is well formed and has buffers of `size` slots.
spec fn all_sized(lobbies: Map<u64, Lobby>, size: usize) -> bool {
    forall|id: u64| #[trigger]
        lobbies.contains_key(id) ==> lobbies[id]@.wf() && lobbies[id]@.buffers.capacity == size
}

impl Lobbies {
    #[verifier::type_invariant]
    spec fn inv(self) -> bool {
        &&& valid_size(self.size)
        &&& all_sized(self.lobbies@, self.size)
    }

    /// A registry without sessions; the buffers of the sessions that begin
    /// in it will have `size` slots each. A size that no buffer can have is
    /// turned down.
    pub fn new(size: usize) -> (made: Result<Lobbies, ConfigError>)
        ensures
            match made {
                Ok(lobbies) => valid_size(size) && lobbies@ == LobbiesView::fresh(size as nat)
                    && lobbies@.wf(),
                Err(error) => size_error(size) == Some(error),
            },
    {
        match check_size(size) {
            Ok(_) => Ok(Lobbies { lobbies: HashMap::new(), size }),
            Err(error) => Err(error),
        }
    }

    /// Hands out the map of sessions and leaves an empty one in its place, so
    /// that the registry is well formed at every moment while the map is
    /// worked on. [`Lobbies::put`] brings the map back.
    fn take(&mut self) -> (lobbies: HashMap<u64, Lobby>)
        ensures
            lobbies == old(self).lobbies,
            all_sized(lobbies@, old(self).size),
            final(self).size == old(self).size,
            valid_size(final(self).size),
    {
        proof {
            use_type_invariant(&*self);
        }
        let mut lobbies: HashMap<u64, Lobby> = HashMap::new();
        std::mem::swap(&mut self.lobbies, &mut lobbies);
        lobbies
    }

    /// Puts `lobbies` in the place of the map of sessions.
    fn put(&mut self, lobbies: HashMap<u64, Lobby>)
        requires
            all_sized(lobbies@, old(self).size),
        ensures
            final(self).lobbies == lobbies,
            final(self).size == old(self).size,
            final(self)@.wf(),
    {
        proof {
            use_type_invariant(&*self);
        }
        let mut lobbies = lobbies;
        std::mem::swap(&mut self.lobbies, &mut lobbies);
        proof {
            use_type_invariant(&*self);
        }
    }

    /// Whether session `id` is under way.
    pub fn contains(&self, id: u64) -> (found: bool)
        ensures
            found == self@.lobbies.contains_key(id),
            self@.wf(),
    {
        proof {
            use_type_invariant(self);
        }
        self.lobbies.contains_key(&id)
    }

    /// The state of session `id`, if it is under way.
    pub fn get(&self, id: u64) -> (found: Option<&Lobby>)
        ensures
            match found {
                Some(lobby) => self@.lobbies.contains_key(id) && lobby@ == self@.lobbies[id],
                None => !self@.lobbies.contains_key(id),
            },
            self@.wf(),
    {
        proof {
            use_type_invariant(self);
        }
        self.lobbies.get(&id)
    }

    /// Makes sure that session `id` is under way: it begins, with nothing in
    /// it, unless it is under way already, and then it stays as it is.
    /// Returns whether it began.
    pub fn get_or_create(&mut self, id: u64) -> (began: bool)
        ensures
            final(self)@ == old(self)@.get_or_create(id),
            final(self)@.wf(),
            began == !old(self)@.lobbies.contains_key(id),
            final(self)@.lobbies.contains_key(id),
    {
        let mut lobbies = self.take();
        let began = !lobbies.contains_key(&id);
        if began {
            lobbies.insert(id, Lobby::with_size(self.size));
        }
        self.put(lobbies);
        began
    }

    /// Ends session `id` and hands out its state; `None` where no such
    /// session is under way.
    pub fn remove(&mut self, id: u64) -> (ended: Option<Lobby>)
        ensures
            final(self)@ == old(self)@.remove(id),
            final(self)@.wf(),
            match ended {
                Some(lobby) => old(self)@.lobbies.contains_key(id) && lobby@ == old(self)@.lobbies[id],
                None => !old(self)@.lobbies.contains_key(id),
            },
    {
        let mut lobbies = self.take();
        let ended = lobbies.remove(&id);
        self.put(lobbies);
        ended
    }

    /// A frame of audio arrived from `ssrc` in session `id`.
    /// Returns whether session `id` is under way; nothing changes where it is
    /// not.
    pub fn on_audio(&mut self, id: u64, ssrc: u32, frame: &Vec<i16>) -> (found: bool)
        ensures
            found == old(self)@.lobbies.contains_key(id),
            final(self)@ == old(self)@.with_lobby(id, old(self)@.lobbies[id].on_audio(ssrc, frame@)),
            final(self)@.wf(),
    {
        let mut lobbies = self.take();
        let found = match lobbies.remove(&id) {
            Some(mut lobby) => {
                lobby.on_audio(ssrc, frame);
                lobbies.insert(id, lobby);
                true
            },
            None => false,
        };
        self.put(lobbies);
        found
    }

    /// `ssrc` fell silent at `now` in session `id`.
    /// Returns whether session `id` is under way; nothing changes where it is
    /// not.
    pub fn on_silence_start(&mut self, id: u64, ssrc: u32, now: u64) -> (found: bool)
        ensures
            found == old(self)@.lobbies.contains_key(id),
            final(self)@ == old(self)@.with_lobby(id, old(self)@.lobbies[id].on_silence_start(ssrc, now)),
            final(self)@.wf(),
    {
        let mut lobbies = self.take();
        let found = match lobbies.remove(&id) {
            Some(mut lobby) => {
                lobby.on_silence_start(ssrc, now);
                lobbies.insert(id, lobby);
                true
            },
            None => false,
        };
        self.put(lobbies);
        found
    }

    /// `ssrc` spoke up again at `now` in session `id`.
    /// Returns whether session `id` is under way; nothing changes where it is
    /// not.
    pub fn on_silence_end(&mut self, id: u64, ssrc: u32, now: u64) -> (found: bool)
        ensures
            found == old(self)@.lobbies.contains_key(id),
            final(self)@ == old(self)@.with_lobby(id, old(self)@.lobbies[id].on_silence_end(ssrc, now)),
            final(self)@.wf(),
    {
        let mut lobbies = self.take();
        let found = match lobbies.remove(&id) {
            Some(mut lobby) => {
                lobby.on_silence_end(ssrc, now);
                lobbies.insert(id, lobby);
                true
            },
            None => false,
        };
        self.put(lobbies);
        found
    }

    /// `ssrc` was confirmed to be `user_id` in session `id`.
    /// Returns whether session `id` is under way; nothing changes where it is
    /// not.
    pub fn on_identity(&mut self, id: u64, ssrc: u32, user_id: u64) -> (found: bool)
        ensures
            found == old(self)@.lobbies.contains_key(id),
            final(self)@ == old(self)@.with_lobby(id, old(self)@.lobbies[id].on_identity(ssrc, user_id)),
            final(self)@.wf(),
    {
        let mut lobbies = self.take();
        let found = match lobbies.remove(&id) {
            Some(mut lobby) => {
                lobby.on_identity(ssrc, user_id);
                lobbies.insert(id, lobby);
                true
            },
            None => false,
        };
        self.put(lobbies);
        found
    }

    /// `user_id` left session `id`: the buffers of all the sources that
    /// `user_id` holds there are dropped. Returns those sources, each once;
    /// `None`, and nothing changes, where session `id` is not under way.
    pub fn on_speaker_disconnect(&mut self, id: u64, user_id: u64) -> (sources: Option<Vec<u32>>)
        ensures
            final(self)@ == old(self)@.with_lobby(
                id,
                old(self)@.lobbies[id].on_speaker_disconnect(user_id),
            ),
            final(self)@.wf(),
            match sources {
                Some(sources) => {
                    &&& old(self)@.lobbies.contains_key(id)
                    &&& sources@.no_duplicates()
                    &&& sources@.to_set() == sources_of(old(self)@.lobbies[id].users, user_id)
                },
                None => !old(self)@.lobbies.contains_key(id),
            },
    {
        let mut lobbies = self.take();
        let sources = match lobbies.remove(&id) {
            Some(mut lobby) => {
                let sources = lobby.on_speaker_disconnect(user_id);
                lobbies.insert(id, lobby);
                Some(sources)
            },
            None => None,
        };
        self.put(lobbies);
        sources
    }

    /// Clears the history of session `id`: every buffer is dropped, the
    /// session and its registry stay. Returns whether session `id` is under
    /// way; nothing changes where it is not.
    pub fn clear_buffers(&mut self, id: u64) -> (found: bool)
        ensures
            found == old(self)@.lobbies.contains_key(id),
            final(self)@ == old(self)@.with_lobby(id, old(self)@.lobbies[id].clear()),
            final(self)@.wf(),
    {
        let mut lobbies = self.take();
        let found = match lobbies.remove(&id) {
            Some(mut lobby) => {
                lobby.clear();
                lobbies.insert(id, lobby);
                true
            },
            None => false,
        };
        self.put(lobbies);
        found
    }

    /// Plans an export of session `id` in `mode` at `now`, as
    /// [`Lobby::export`] does; `None` where session `id` is not under way.
    /// No session changes.
    pub fn export(
        &self,
        id: u64,
        names: &HashMap<u64, String>,
        mode: ExportMode,
        now: u64,
    ) -> (jobs: Option<Vec<EncodeJob>>)
        ensures
            match jobs {
                Some(jobs) => {
                    &&& self@.lobbies.contains_key(id)
                    &&& self@.lobbies[id].buffers.plans(
                        self@.lobbies[id].users,
                        names@,
                        jobs@,
                        mode,
                        now,
                    )
                },
                None => !self@.lobbies.contains_key(id),
            },
            self@.wf(),
    {
        proof {
            use_type_invariant(self);
        }
        match self.lobbies.get(&id) {
            Some(lobby) => Some(lobby.export(names, mode, now)),
            None => None,
        }
    }
}

} // verus!

//! Who speaks on which source.

use vstd::prelude::*;
use std::collections::HashMap;

verus! {

broadcast use vstd::std_specs::hash::group_hash_axioms;

/// The sources that `map` gives to `user_id`.
pub open spec fn sources_of(map: Map<u32, u64>, user_id: u64) -> Set<u32> {
    Set::new(|ssrc: u32| map.contains_key(ssrc) && map[ssrc] == user_id)
}

/// Maps each transient source identifier to the stable identity of the person
/// who speaks on it.
///
/// The registry keeps no index from identity to source: one identity may hold
/// several sources at a time, and finding them is a scan.
pub struct UserMap {
    ssrc_to_usr_map: HashMap<u32, u64>,
}

impl View for UserMap {
    type V = Map<u32, u64>;

    closed spec fn view(&self) -> Map<u32, u64> {
        self.ssrc_to_usr_map@
    }
}

impl UserMap {
    /// A registry that knows no source.
    pub fn new() -> (made: UserMap)
        ensures
            made@ == Map::<u32, u64>::empty(),
    {
        UserMap { ssrc_to_usr_map: HashMap::new() }
    }

    /// Records that `user_id` speaks on `ssrc`, whoever spoke on it before and
    /// whatever other sources `user_id` holds.
    pub fn update_ssrc(&mut self, ssrc: &u32, user_id: &u64)
        ensures
            final(self)@ == old(self)@.insert(*ssrc, *user_id),
    {
        self.ssrc_to_usr_map.insert(*ssrc, *user_id);
    }

    /// Who speaks on `ssrc`, if anyone is known to.
    pub fn lookup(&self, ssrc: u32) -> (found: Option<u64>)
        ensures
            found == if self@.contains_key(ssrc) {
                Some(self@[ssrc])
            } else {
                None
            },
    {
        match self.ssrc_to_usr_map.get(&ssrc) {
            Some(user_id) => Some(*user_id),
            None => None,
        }
    }

    /// Every source that `user_id` holds, each once, in no particular order.
    /// The registry stays as it is.
    pub fn evict_all_for(&self, user_id: u64) -> (sources: Vec<u32>)
        ensures
            sources@.no_duplicates(),
            sources@.to_set() == sources_of(self@, user_id),
    {
        let mut sources: Vec<u32> = Vec::new();
        for ssrc in it: self.ssrc_to_usr_map.keys()
            invariant
                it.seq().no_duplicates(),
                it.seq().unref().to_set() == self@.dom(),
                sources@.no_duplicates(),
                forall|s: u32|
                    sources@.contains(s) <==> (self@.contains_key(s) && self@[s] == user_id
                        && exists|at: int| 0 <= at < it.index() && *it.seq()[at] == s),
        {
            let ghost before = sources@;
            let ghost seen = it.index();
            let held = self.ssrc_to_usr_map.get(ssrc);
            if let Some(owner) = held {
                if *owner == user_id {
                    sources.push(*ssrc);
                }
            }
            proof {
                assert forall|s: u32|
                    sources@.contains(s) <==> (self@.contains_key(s) && self@[s] == user_id
                        && exists|at: int| 0 <= at < seen + 1 && *it.seq()[at] == s) by {
                    if sources@.contains(s) {
                        let at = choose|at: int| 0 <= at < sources@.len() && sources@[at] == s;
                        if at < before.len() {
                            assert(before.contains(s));
                        }
                    }
                    if self@.contains_key(s) && self@[s] == user_id && exists|at: int|
                        0 <= at < seen + 1 && *it.seq()[at] == s {
                        let at = choose|at: int| 0 <= at < seen + 1 && *it.seq()[at] == s;
                        if at < seen {
                            let held_at = choose|i: int| 0 <= i < before.len() && before[i] == s;
                            assert(sources@[held_at] == s);
                        } else {
                            assert(sources@[sources@.len() - 1] == s);
                        }
                    }
                }
            }
        }
        sources
    }
}

} // verus!

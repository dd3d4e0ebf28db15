//! What the commands of the service decide before anything is sent or joined.

use vstd::prelude::*;
use vstd::string::*;

verus! {

/// A command that a member can give.
#[derive(Clone, Copy, Debug, PartialEq, Eq, Structural)]
pub enum Command {
    /// Join the member's voice channel and start to listen.
    Join,
    /// Leave the voice channel and forget what was heard.
    Leave,
    /// Export what was heard.
    Dump,
    /// Forget what was heard and keep listening.
    Clear,
    /// Any other name.
    NotImplemented,
}

/// The command that goes by `name`.
pub open spec fn command_of(name: Seq<char>) -> Command {
    if name == "join"@ {
        Command::Join
    } else if name == "leave"@ {
        Command::Leave
    } else if name == "dump"@ {
        Command::Dump
    } else if name == "clear"@ {
        Command::Clear
    } else {
        Command::NotImplemented
    }
}

/// Tells which command `name` stands for.
pub fn command_named(name: &str) -> (command: Command)
    ensures
        command == command_of(name@),
{
    let given = String::from_str(name);
    if given == String::from_str("join") {
        Command::Join
    } else if given == String::from_str("leave") {
        Command::Leave
    } else if given == String::from_str("dump") {
        Command::Dump
    } else if given == String::from_str("clear") {
        Command::Clear
    } else {
        Command::NotImplemented
    }
}

/// What a request to join comes to.
#[derive(Clone, Copy, Debug, PartialEq, Eq, Structural)]
pub enum JoinPlan {
    /// The member who asked is in no voice channel.
    MemberNotInVoice,
    /// The service is in the member's channel already.
    AlreadyThere,
    /// Join this channel.
    Connect(u64),
}

/// Decides a request to join from the voice channel of the member who asked
/// and the one that the service is in.
pub fn join(member_channel: Option<u64>, own_channel: Option<u64>) -> (plan: JoinPlan)
    ensures
        plan == match member_channel {
            None => JoinPlan::MemberNotInVoice,
            Some(channel) => if own_channel == Some(channel) {
                JoinPlan::AlreadyThere
            } else {
                JoinPlan::Connect(channel)
            },
        },
{
    match member_channel {
        None => JoinPlan::MemberNotInVoice,
        Some(channel) => {
            if let Some(current) = own_channel {
                if current == channel {
                    return JoinPlan::AlreadyThere;
                }
            }
            JoinPlan::Connect(channel)
        },
    }
}

/// What a request to leave comes to.
#[derive(Clone, Copy, Debug, PartialEq, Eq, Structural)]
pub enum LeavePlan {
    /// The service is in no voice channel.
    NotInVoice,
    /// The member who asked is not in the channel of the service.
    MemberElsewhere,
    /// Leave this channel.
    Disconnect(u64),
}

/// Decides a request to leave from the voice state of the service, if it has
/// one, with the channel that the state names, and from the voice channel of
/// the member who asked. Only a member in the channel of the service can send
/// it away.
pub fn leave(own_state: Option<Option<u64>>, member_channel: Option<u64>) -> (plan: LeavePlan)
    ensures
        plan == match own_state {
            None => LeavePlan::NotInVoice,
            Some(current) => match member_channel {
                Some(channel) if current == Some(channel) => LeavePlan::Disconnect(channel),
                _ => LeavePlan::MemberElsewhere,
            },
        },
{
    match own_state {
        None => LeavePlan::NotInVoice,
        Some(current) => match (current, member_channel) {
            (Some(own), Some(channel)) => {
                if own == channel {
                    LeavePlan::Disconnect(channel)
                } else {
                    LeavePlan::MemberElsewhere
                }
            },
            _ => LeavePlan::MemberElsewhere,
        },
    }
}

/// A channel of a group and who is in it.
pub struct Channel {
    /// The channel's identifier.
    pub id: u64,
    /// Whether it is a voice channel.
    pub voice: bool,
    /// Its members.
    pub members: Vec<u64>,
}

impl Channel {
    /// Whether this is a voice channel with `user_id` in it.
    pub open spec fn holds(self, user_id: u64) -> bool {
        self.voice && self.members@.contains(user_id)
    }
}

/// Finds the voice channel that `user_id` is in: the first of `channels` that
/// is a voice channel and has `user_id` among its members.
pub fn find_user_voice_channel(channels: &Vec<Channel>, user_id: u64) -> (found: Option<u64>)
    ensures
        match found {
            Some(id) => exists|at: int|
                {
                    &&& 0 <= at < channels@.len()
                    &&& #[trigger] channels@[at].holds(user_id)
                    &&& channels@[at].id == id
                    &&& forall|before: int| 0 <= before < at ==> !(#[trigger] channels@[before]).holds(user_id)
                },
            None => forall|at: int| 0 <= at < channels@.len() ==> !(#[trigger] channels@[at]).holds(user_id),
        },
{
    let mut at: usize = 0;
    while at < channels.len()
        invariant
            at <= channels.len(),
            forall|before: int| 0 <= before < at ==> !(#[trigger] channels@[before]).holds(user_id),
        decreases channels.len() - at,
    {
        let channel = &channels[at];
        if channel.voice && is_member(&channel.members, user_id) {
            assert(channels@[at as int].holds(user_id));
            return Some(channel.id);
        }
        at += 1;
    }
    None
}

/// Whether `user_id` is among `members`.
fn is_member(members: &Vec<u64>, user_id: u64) -> (found: bool)
    ensures
        found == members@.contains(user_id),
{
    let mut seat: usize = 0;
    while seat < members.len()
        invariant
            seat <= members.len(),
            forall|seen: int| 0 <= seen < seat ==> members@[seen] != user_id,
        decreases members.len() - seat,
    {
        if members[seat] == user_id {
            return true;
        }
        seat += 1;
    }
    false
}

} // verus!

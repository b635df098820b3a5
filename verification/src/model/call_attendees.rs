//! Input:
//!  - user_joined event
//!  - user_left event
//! Output:
//!  - stores map of SSRC -> user
use vstd::prelude::*;

use std::collections::HashMap;

use crate::api::api_types::UserJoinData;
use crate::model::types::{Ssrc, UserId};

verus! {

broadcast use vstd::std_specs::hash::group_hash_axioms;

/// The user a stream belongs to, if known.
pub open spec fn user_of(map: Map<Ssrc, UserId>, ssrc: Ssrc) -> Option<UserId> {
    if map.contains_key(ssrc) {
        Some(map[ssrc])
    } else {
        None
    }
}

/// The streams' users after a user joins on stream `ssrc` (it is now
/// theirs) or leaves it (it is no longer anyone's).
pub open spec fn attendees_after(map: Map<Ssrc, UserId>, ssrc: Ssrc, data: UserJoinData) -> Map<
    Ssrc,
    UserId,
> {
    if data.joined {
        map.insert(ssrc, data.user_id)
    } else {
        map.remove(ssrc)
    }
}

/// A lookup right after a join on a stream finds the user who joined; right
/// after a leave, it finds no one; every other stream keeps its user.
pub proof fn lemma_lookup_after_event(
    map: Map<Ssrc, UserId>,
    ssrc: Ssrc,
    data: UserJoinData,
    query: Ssrc,
)
    ensures
        user_of(attendees_after(map, ssrc, data), query) == if query == ssrc {
            if data.joined {
                Some(data.user_id)
            } else {
                None
            }
        } else {
            user_of(map, query)
        },
{
}

pub struct CallAttendees {
    pub attendees: HashMap<Ssrc, UserId>,
}

impl CallAttendees {
    pub fn new() -> (c: CallAttendees)
        ensures
            c.attendees@ == Map::<Ssrc, UserId>::empty(),
    {
        CallAttendees { attendees: HashMap::new() }
    }

    /// A user joined (the stream `ssrc` is now theirs) or left (the stream
    /// is no longer anyone's).
    pub fn apply(&mut self, ssrc: Ssrc, data: &UserJoinData)
        ensures
            final(self).attendees@ == attendees_after(old(self).attendees@, ssrc, *data),
    {
        if data.joined {
            self.attendees.insert(ssrc, data.user_id);
        } else {
            self.attendees.remove(&ssrc);
        }
    }

    /// The user whose stream is `ssrc`, if any.
    pub fn get_user_id_from_ssrc(&self, ssrc: Ssrc) -> (user: Option<UserId>)
        ensures
            user == user_of(self.attendees@, ssrc),
    {
        match self.attendees.get(&ssrc) {
            Some(user_id) => Some(*user_id),
            None => None,
        }
    }
}

} // verus!

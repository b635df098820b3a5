//! Who in the channel is speaking, and who has gone idle.
//!
//! Input:
//!  - user_id_starts_talking event
//!  - user_id_stops_talking event
//! Output:
//!  - emits events when:
//!    - all users stop talking
//!    - anyone then starts talking
//!  - after a user has been silent for N seconds
//!
//! Times are spans on the monitor's own clock, counted from when it started.
use vstd::prelude::*;

use std::collections::{HashMap, HashSet, VecDeque};

use crate::api::api_types::VoiceChannelEvent;
use crate::events::audio::VoiceActivityData;
use crate::model::types::UserId;
use crate::songbird_client::voice_activity::{idle_check_fires, is_channel_event};
use crate::time::Duration;

verus! {

broadcast use vstd::std_specs::hash::group_hash_axioms;

pub struct VoiceActivity {
    /// For each user heard from: whether they were last speaking, and when.
    pub last_time_by_user: HashMap<UserId, (bool, Duration)>,
    /// Pending idle checks, in the order they fall due: (when it falls due,
    /// user, the time of the activity that queued it).
    pub silence_list: VecDeque<(Duration, UserId, Duration)>,
    pub speaking_users: HashSet<UserId>,
    pub user_silence_timeout: Duration,
}

/// What one voice activity event makes the monitor send: an event for the
/// API, and a (user, idle) notice for the audio workers.
pub struct ActivityOutput {
    pub api_event: Option<VoiceChannelEvent>,
    pub silent_user_event: Option<(UserId, bool)>,
}

/// How many checks at the front of `list` have fallen due at `now`.
pub open spec fn due_count(list: Seq<(Duration, UserId, Duration)>, now: Duration) -> nat
    decreases list.len(),
{
    if list.len() == 0 {
        0
    } else if list[0].0.nanos > now.nanos {
        0
    } else {
        1 + due_count(list.drop_first(), now)
    }
}

/// The idle notices that the checks in `checks` send: one for each check
/// whose user has stayed silent since it was queued.
pub open spec fn idle_notices(
    last_time_by_user: Map<UserId, (bool, Duration)>,
    checks: Seq<(Duration, UserId, Duration)>,
) -> Seq<(UserId, bool)>
    decreases checks.len(),
{
    if checks.len() == 0 {
        Seq::empty()
    } else {
        let rest = idle_notices(last_time_by_user, checks.drop_last());
        let (_, user_id, last_time) = checks.last();
        if idle_check_fires(last_time_by_user, user_id, last_time) {
            rest.push((user_id, true))
        } else {
            rest
        }
    }
}

proof fn lemma_due_count_bound(list: Seq<(Duration, UserId, Duration)>, now: Duration)
    ensures
        due_count(list, now) <= list.len(),
    decreases list.len(),
{
    if list.len() > 0 {
        lemma_due_count_bound(list.drop_first(), now);
    }
}

impl VoiceActivity {
    pub fn new(user_silence_timeout: Duration) -> (v: VoiceActivity)
        ensures
            v.last_time_by_user@ == Map::<UserId, (bool, Duration)>::empty(),
            v.silence_list@ == Seq::<(Duration, UserId, Duration)>::empty(),
            v.speaking_users@ == Set::<UserId>::empty(),
            v.user_silence_timeout == user_silence_timeout,
    {
        VoiceActivity {
            last_time_by_user: HashMap::new(),
            silence_list: VecDeque::new(),
            speaking_users: HashSet::new(),
            user_silence_timeout,
        }
    }

    /// When the next idle check falls due, if any is pending.
    pub fn next_deadline(&self) -> (d: Option<Duration>)
        ensures
            self.silence_list@.len() == 0 ==> d.is_none(),
            self.silence_list@.len() > 0 ==> d == Some(self.silence_list@[0].0),
    {
        if self.silence_list.len() == 0 {
            None
        } else {
            Some(self.silence_list[0].0)
        }
    }

    /// Records that a user started or stopped speaking at `now`, and queues
    /// an idle check for it.  Announces a non-silent channel when the first
    /// user starts speaking, and a silent one when the last speaking user
    /// stops.  A user who stops speaking is reported to the audio workers
    /// as silent (not yet idle).
    pub fn handle_activity(&mut self, activity: &VoiceActivityData, now: Duration) -> (out: ActivityOutput)
        requires
            now.nanos + old(self).user_silence_timeout.nanos <= u128::MAX,
        ensures
            final(self).last_time_by_user@ == old(self).last_time_by_user@.insert(
                activity.user_id,
                (activity.speaking, now),
            ),
            final(self).silence_list@ == old(self).silence_list@.push(
                (
                    Duration { nanos: (now.nanos + old(self).user_silence_timeout.nanos) as u128 },
                    activity.user_id,
                    now,
                ),
            ),
            final(self).user_silence_timeout == old(self).user_silence_timeout,
            activity.speaking ==> {
                &&& final(self).speaking_users@ == old(self).speaking_users@.insert(activity.user_id)
                &&& old(self).speaking_users@.is_empty() ==> is_channel_event(out.api_event, false)
                &&& !old(self).speaking_users@.is_empty() ==> out.api_event.is_none()
                &&& out.silent_user_event.is_none()
            },
            !activity.speaking ==> {
                &&& final(self).speaking_users@ == old(self).speaking_users@.remove(activity.user_id)
                &&& !old(self).speaking_users@.is_empty() && final(self).speaking_users@.is_empty()
                    ==> is_channel_event(out.api_event, true)
                &&& !(!old(self).speaking_users@.is_empty() && final(self).speaking_users@.is_empty())
                    ==> out.api_event.is_none()
                &&& out.silent_user_event == Some((activity.user_id, false))
            },
    {
        // store the last time we heard from this user.  If the user
        // has not spoken again at the end of this interval, then
        // we will send a silent user event
        self.last_time_by_user.insert(activity.user_id, (activity.speaking, now));
        self.silence_list.push_back((now.plus(self.user_silence_timeout), activity.user_id, now));

        // track the list of users speaking in the channel, and
        // send an event when the list goes from empty to non-empty
        // or from non-empty to empty
        let api_event = if activity.speaking {
            let was_empty = self.speaking_users.is_empty();
            self.speaking_users.insert(activity.user_id);
            if was_empty {
                Some(VoiceChannelEvent::SilentChannel(false))
            } else {
                None
            }
        } else {
            let was_someone_speaking = !self.speaking_users.is_empty();
            self.speaking_users.remove(&activity.user_id);
            if was_someone_speaking && self.speaking_users.is_empty() {
                Some(VoiceChannelEvent::SilentChannel(true))
            } else {
                None
            }
        };

        // forward on silent user events.  These will be used
        // to eagerly kick off transcriptions.
        let silent_user_event = if !activity.speaking {
            Some((activity.user_id, false))
        } else {
            None
        };
        ActivityOutput { api_event, silent_user_event }
    }

    /// Runs every idle check that has fallen due at `now`, in order, and
    /// returns the idle notices for users who stayed silent since.
    pub fn process_due_timeouts(&mut self, now: Duration) -> (notices: Vec<(UserId, bool)>)
        ensures
            final(self).silence_list@ == old(self).silence_list@.skip(
                due_count(old(self).silence_list@, now) as int,
            ),
            notices@ == idle_notices(
                old(self).last_time_by_user@,
                old(self).silence_list@.take(due_count(old(self).silence_list@, now) as int),
            ),
            final(self).last_time_by_user@ == old(self).last_time_by_user@,
            final(self).speaking_users@ == old(self).speaking_users@,
            final(self).user_silence_timeout == old(self).user_silence_timeout,
    {
        let ghost list = self.silence_list@;
        let ghost map = self.last_time_by_user@;
        let ghost total = due_count(list, now);
        proof {
            lemma_due_count_bound(list, now);
        }
        let mut notices: Vec<(UserId, bool)> = Vec::new();
        let mut done: usize = 0;
        let queued = self.silence_list.len();
        loop
            invariant
                queued == list.len(),
                done <= total,
                total == due_count(list, now),
                total <= list.len(),
                self.silence_list@ == list.skip(done as int),
                due_count(list.skip(done as int), now) == total - done,
                notices@ == idle_notices(map, list.take(done as int)),
                self.last_time_by_user@ == map,
                self.speaking_users@ == old(self).speaking_users@,
                self.user_silence_timeout == old(self).user_silence_timeout,
            ensures
                done == total,
                self.silence_list@ == list.skip(total as int),
                notices@ == idle_notices(map, list.take(total as int)),
                self.last_time_by_user@ == map,
                self.speaking_users@ == old(self).speaking_users@,
                self.user_silence_timeout == old(self).user_silence_timeout,
            decreases total - done,
        {
            if self.silence_list.len() == 0 {
                break;
            }
            let (silence_timeout, user_id, last_time) = self.silence_list[0];
            if silence_timeout.nanos > now.nanos {
                break;
            }
            proof {
                assert(self.silence_list@[0].0.nanos <= now.nanos);
                assert(due_count(self.silence_list@, now) == 1 + due_count(self.silence_list@.drop_first(), now));
                assert(list.skip(done as int).drop_first() =~= list.skip(done + 1));
                assert(list.take(done + 1).drop_last() =~= list.take(done as int));
                assert(list.take(done + 1).last() == list[done as int]);
            }
            self.silence_list.pop_front();
            // is the current most recent speaking time the same as last_time?
            // if so, then the user has been silent the whole time
            match self.last_time_by_user.get(&user_id) {
                Some(entry) => {
                    let (speaking, last_time_actual) = *entry;
                    if !speaking && last_time.nanos == last_time_actual.nanos {
                        // user has been silent the whole time
                        notices.push((user_id, true));
                    }
                },
                None => {},
            }
            done = done + 1;
        }
        notices
    }
}

} // verus!

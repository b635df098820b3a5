//! Who in the channel is speaking, and who has gone idle.
//!
//! Input:
//!  - user starts talking
//!  - user stops talking
//! Output:
//!  - events when all users stop talking, and when anyone then starts
//!  - an idle event after a user has been silent for the silence timeout
//!
//! Times are spans on the monitor's own clock, counted from when it started.
use vstd::prelude::*;

use std::collections::{HashMap, HashSet, VecDeque};

use crate::api::api_types::VoiceChannelEvent;
use crate::audio::events::{UserAudioEvent, UserAudioEventType};
use crate::model::types::UserId;
use crate::time::Duration;

verus! {

broadcast use vstd::std_specs::hash::group_hash_axioms;

/// The set of users speaking right now.
pub struct SpeakingUsers {
    pub speaking_users: HashSet<UserId>,
}

/// The event that reports whether the channel is silent.
pub open spec fn is_channel_event(e: Option<VoiceChannelEvent>, is_silent: bool) -> bool {
    e matches Some(VoiceChannelEvent::SilentChannel(s)) && s == is_silent
}

impl SpeakingUsers {
    pub fn new() -> (s: SpeakingUsers)
        ensures
            s.speaking_users@ == Set::<UserId>::empty(),
    {
        SpeakingUsers { speaking_users: HashSet::new() }
    }

    /// Marks a user as speaking.  When no one was speaking before,
    /// announces that the channel is no longer silent.
    pub fn add(&mut self, user_id: UserId) -> (event: Option<VoiceChannelEvent>)
        ensures
            final(self).speaking_users@ == old(self).speaking_users@.insert(user_id),
            old(self).speaking_users@.is_empty() ==> is_channel_event(event, false),
            !old(self).speaking_users@.is_empty() ==> event.is_none(),
    {
        let was_empty = self.speaking_users.is_empty();
        self.speaking_users.insert(user_id);
        if was_empty {
            Some(self.announce(false))
        } else {
            None
        }
    }

    /// Marks a user as no longer speaking.  When this leaves no one
    /// speaking where someone was, announces that the channel is silent.
    pub fn remove(&mut self, user_id: &UserId) -> (event: Option<VoiceChannelEvent>)
        ensures
            final(self).speaking_users@ == old(self).speaking_users@.remove(*user_id),
            !old(self).speaking_users@.is_empty() && final(self).speaking_users@.is_empty()
                ==> is_channel_event(event, true),
            !(!old(self).speaking_users@.is_empty() && final(self).speaking_users@.is_empty())
                ==> event.is_none(),
    {
        let was_someone_speaking = !self.speaking_users.is_empty();
        self.speaking_users.remove(user_id);
        if was_someone_speaking && self.speaking_users.is_empty() {
            Some(self.announce(true))
        } else {
            None
        }
    }

    /// The event that tells whether the channel is silent.
    pub fn announce(&self, is_silent: bool) -> (event: VoiceChannelEvent)
        ensures
            event == VoiceChannelEvent::SilentChannel(is_silent),
    {
        VoiceChannelEvent::SilentChannel(is_silent)
    }
}

/// What one step of the monitor sends: an event for the API, an event for
/// the user's audio worker, or both.
pub struct VoiceActivityOutput {
    pub api_event: Option<VoiceChannelEvent>,
    pub user_event: Option<UserAudioEvent>,
}

pub struct VoiceActivity {
    /// For each user heard from: whether they were last speaking, and when.
    pub last_time_by_user: HashMap<UserId, (bool, Duration)>,
    /// Pending idle checks, in the order they fall due: (when it falls due,
    /// user, the time they went silent).
    pub silence_list: VecDeque<(Duration, UserId, Duration)>,
    pub speaking_users: SpeakingUsers,
    pub user_silence_timeout: Duration,
}

/// True when an idle check for `user_id`, queued when they went silent at
/// `silent_since`, finds that they have stayed silent since.
pub open spec fn idle_check_fires(
    last_time_by_user: Map<UserId, (bool, Duration)>,
    user_id: UserId,
    silent_since: Duration,
) -> bool {
    last_time_by_user.contains_key(user_id) && last_time_by_user[user_id] == (false, silent_since)
}

/// A user who speaks again before an idle check for an earlier silence
/// falls due is not reported idle by that check.
pub proof fn lemma_speaking_cancels_idle(
    last_time_by_user: Map<UserId, (bool, Duration)>,
    user_id: UserId,
    silent_since: Duration,
    now: Duration,
)
    ensures
        !idle_check_fires(last_time_by_user.insert(user_id, (true, now)), user_id, silent_since),
{
}

/// A user who goes silent is reported idle by the check that this silence
/// queued, as long as they neither speak nor go silent again before it falls
/// due; what other users do meanwhile does not matter.
pub proof fn lemma_silence_then_idle(
    last_time_by_user: Map<UserId, (bool, Duration)>,
    user_id: UserId,
    silent_since: Duration,
    other_user: UserId,
    other_activity: (bool, Duration),
)
    requires
        other_user != user_id,
    ensures
        idle_check_fires(last_time_by_user.insert(user_id, (false, silent_since)), user_id, silent_since),
        idle_check_fires(
            last_time_by_user.insert(user_id, (false, silent_since)).insert(other_user, other_activity),
            user_id,
            silent_since,
        ),
{
    let m = last_time_by_user.insert(user_id, (false, silent_since));
    assert(m.insert(other_user, other_activity)[user_id] == m[user_id]);
}

/// When a user goes silent again, a check queued for an earlier silence of
/// theirs no longer reports them idle: only the latest silence counts.
pub proof fn lemma_later_silence_supersedes(
    last_time_by_user: Map<UserId, (bool, Duration)>,
    user_id: UserId,
    earlier: Duration,
    later: Duration,
)
    requires
        earlier != later,
    ensures
        !idle_check_fires(last_time_by_user.insert(user_id, (false, later)), user_id, earlier),
{
}

impl VoiceActivity {
    pub fn new(user_silence_timeout: Duration) -> (v: VoiceActivity)
        ensures
            v.last_time_by_user@ == Map::<UserId, (bool, Duration)>::empty(),
            v.silence_list@ == Seq::<(Duration, UserId, Duration)>::empty(),
            v.speaking_users.speaking_users@ == Set::<UserId>::empty(),
            v.user_silence_timeout == user_silence_timeout,
    {
        VoiceActivity {
            last_time_by_user: HashMap::new(),
            silence_list: VecDeque::new(),
            speaking_users: SpeakingUsers::new(),
            user_silence_timeout,
        }
    }

    /// When the next idle check falls due, if any is pending.
    pub fn next_deadline(&self) -> (d: Option<Duration>)
        ensures
            self.silence_list@.len() == 0 ==> d.is_none(),
            self.silence_list@.len() > 0 ==> d == Some(self.silence_list@[0].0),
    {
        if self.silence_list.len() == 0 {
            None
        } else {
            Some(self.silence_list[0].0)
        }
    }

    /// Sends an idle event if the user of the oldest pending check has
    /// been silent for the whole silence timeout.
    pub fn process_next_idle_timeout(&mut self) -> (event: Option<UserAudioEvent>)
        requires
            old(self).silence_list@.len() > 0,
        ensures
            final(self).silence_list@ == old(self).silence_list@.drop_first(),
            final(self).last_time_by_user@ == old(self).last_time_by_user@,
            final(self).speaking_users.speaking_users@ == old(self).speaking_users.speaking_users@,
            final(self).user_silence_timeout == old(self).user_silence_timeout,
            ({
                let (_, user_id, last_time) = old(self).silence_list@[0];
                if idle_check_fires(old(self).last_time_by_user@, user_id, last_time) {
                    event == Some(UserAudioEvent { event_type: UserAudioEventType::Idle, user_id })
                } else {
                    event.is_none()
                }
            }),
    {
        let ghost first = self.silence_list@[0];
        let (_, user_id, last_time) = match self.silence_list.pop_front() {
            Some(entry) => entry,
            None => {
                return None;
            },
        };
        assert(self.silence_list@ =~= old(self).silence_list@.drop_first());
        // is the current most recent speaking time the same as last_time?
        // if so, then the user has been silent the whole time
        match self.last_time_by_user.get(&user_id) {
            Some(entry) => {
                let (speaking, last_time_actual) = *entry;
                if !speaking && last_time.nanos == last_time_actual.nanos {
                    // user has been silent the whole time
                    Some(UserAudioEvent { event_type: UserAudioEventType::Idle, user_id })
                } else {
                    None
                }
            },
            None => None,
        }
    }

    /// Handle a user speaking.  This will send a "non-silent channel"
    /// event if no one was speaking before.
    pub fn handle_user_speaking(&mut self, user_id: &UserId, now: Duration) -> (event: Option<
        VoiceChannelEvent,
    >)
        ensures
            final(self).speaking_users.speaking_users@ == old(
                self,
            ).speaking_users.speaking_users@.insert(*user_id),
            old(self).speaking_users.speaking_users@.is_empty() ==> is_channel_event(event, false),
            !old(self).speaking_users.speaking_users@.is_empty() ==> event.is_none(),
            final(self).last_time_by_user@ == old(self).last_time_by_user@.insert(*user_id, (true, now)),
            final(self).silence_list@ == old(self).silence_list@,
            final(self).user_silence_timeout == old(self).user_silence_timeout,
    {
        let event = self.speaking_users.add(*user_id);

        // mark the time the user was last heard from.  This will
        // prevent the user idle event from being triggered.
        self.last_time_by_user.insert(*user_id, (true, now));
        event
    }

    /// Handle a user becoming silent.  This will send a "silent channel"
    /// event if this was the last user speaking.  It will also set a timer
    /// to fire an "idle user" event, should it remain silent for
    /// self.user_silence_timeout.  The user-silent event is forwarded to
    /// the user's audio worker.
    pub fn handle_user_silent(&mut self, user_id: &UserId, now: Duration) -> (out: VoiceActivityOutput)
        requires
            now.nanos + old(self).user_silence_timeout.nanos <= u128::MAX,
        ensures
            final(self).speaking_users.speaking_users@ == old(
                self,
            ).speaking_users.speaking_users@.remove(*user_id),
            !old(self).speaking_users.speaking_users@.is_empty()
                && final(self).speaking_users.speaking_users@.is_empty() ==> is_channel_event(
                out.api_event,
                true,
            ),
            !(!old(self).speaking_users.speaking_users@.is_empty()
                && final(self).speaking_users.speaking_users@.is_empty()) ==> out.api_event.is_none(),
            final(self).last_time_by_user@ == old(self).last_time_by_user@.insert(*user_id, (false, now)),
            final(self).silence_list@ == old(self).silence_list@.push(
                (Duration { nanos: (now.nanos + old(self).user_silence_timeout.nanos) as u128 }, *user_id, now),
            ),
            out.user_event == Some(UserAudioEvent { user_id: *user_id, event_type: UserAudioEventType::Silent }),
            final(self).user_silence_timeout == old(self).user_silence_timeout,
    {
        let api_event = self.speaking_users.remove(user_id);

        // store the last time we heard from this user.  If the user
        // has not spoken again at the end of this interval, then
        // we will send a silent user event
        self.last_time_by_user.insert(*user_id, (false, now));
        self.silence_list.push_back((now.plus(self.user_silence_timeout), *user_id, now));

        // forward user-silent event to the main audio listener
        VoiceActivityOutput {
            api_event,
            user_event: Some(UserAudioEvent { user_id: *user_id, event_type: UserAudioEventType::Silent }),
        }
    }

    /// Handles a voice activity event from the driver: speaking and silent
    /// events go to their handlers; any other event is ignored.
    pub fn handle_voice_activity(&mut self, activity: &UserAudioEvent, now: Duration) -> (out:
        VoiceActivityOutput)
        requires
            now.nanos + old(self).user_silence_timeout.nanos <= u128::MAX,
        ensures
            activity.event_type == UserAudioEventType::Idle ==> {
                &&& out.api_event.is_none()
                &&& out.user_event.is_none()
                &&& final(self).last_time_by_user@ == old(self).last_time_by_user@
                &&& final(self).silence_list@ == old(self).silence_list@
                &&& final(self).speaking_users.speaking_users@ == old(self).speaking_users.speaking_users@
            },
            activity.event_type == UserAudioEventType::Speaking ==> {
                &&& out.user_event.is_none()
                &&& final(self).last_time_by_user@ == old(self).last_time_by_user@.insert(
                    activity.user_id,
                    (true, now),
                )
                &&& final(self).speaking_users.speaking_users@ == old(
                    self,
                ).speaking_users.speaking_users@.insert(activity.user_id)
                &&& final(self).silence_list@ == old(self).silence_list@
                &&& (old(self).speaking_users.speaking_users@.is_empty() <==> is_channel_event(
                    out.api_event,
                    false,
                ))
                &&& !old(self).speaking_users.speaking_users@.is_empty() ==> out.api_event.is_none()
            },
            activity.event_type == UserAudioEventType::Silent ==> {
                &&& out.user_event == Some(
                    UserAudioEvent { user_id: activity.user_id, event_type: UserAudioEventType::Silent },
                )
                &&& final(self).last_time_by_user@ == old(self).last_time_by_user@.insert(
                    activity.user_id,
                    (false, now),
                )
                &&& final(self).speaking_users.speaking_users@ == old(
                    self,
                ).speaking_users.speaking_users@.remove(activity.user_id)
                &&& final(self).silence_list@ == old(self).silence_list@.push(
                    (
                        Duration { nanos: (now.nanos + old(self).user_silence_timeout.nanos) as u128 },
                        activity.user_id,
                        now,
                    ),
                )
                &&& (!old(self).speaking_users.speaking_users@.is_empty()
                    && final(self).speaking_users.speaking_users@.is_empty() <==> is_channel_event(
                    out.api_event,
                    true,
                ))
                &&& !(!old(self).speaking_users.speaking_users@.is_empty()
                    && final(self).speaking_users.speaking_users@.is_empty()) ==> out.api_event.is_none()
            },
            final(self).user_silence_timeout == old(self).user_silence_timeout,
    {
        match activity.event_type {
            UserAudioEventType::Speaking => {
                let api_event = self.handle_user_speaking(&activity.user_id, now);
                VoiceActivityOutput { api_event, user_event: None }
            },
            UserAudioEventType::Silent => self.handle_user_silent(&activity.user_id, now),
            UserAudioEventType::Idle => VoiceActivityOutput { api_event: None, user_event: None },
        }
    }
}

} // verus!

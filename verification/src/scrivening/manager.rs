//! Which users have an audio worker, and when a worker is dropped: each
//! user heard from gets one, and it is dropped once the user has had no
//! activity for `DISCARD_USER_AUDIO_AFTER_SECS`.
//!
//! Times are spans on the manager's own monotonic clock.
use vstd::prelude::*;

use crate::model::constants::DISCARD_USER_AUDIO_AFTER_SECS;
use crate::model::types::UserId;
use crate::time::{Duration, NANOS_PER_SEC};

verus! {

/// True when activity at `last` is recent at `now`: less than the discard
/// period has passed (none has, when `now` reads earlier than `last`).
pub open spec fn is_recent(last: Duration, now: Duration) -> bool {
    now.nanos < last.nanos || now.nanos - last.nanos < DISCARD_USER_AUDIO_AFTER_SECS * NANOS_PER_SEC
}

/// Where `user_id`'s entry is, if it has one.
pub open spec fn position_of(entries: Seq<(UserId, Duration)>, user_id: UserId) -> Option<int>
    decreases entries.len(),
{
    if entries.len() == 0 {
        None
    } else if entries.last().0 == user_id {
        Some(entries.len() - 1)
    } else {
        position_of(entries.drop_last(), user_id)
    }
}

/// The entries whose activity is recent at `now`, in order.
pub open spec fn recent_entries(entries: Seq<(UserId, Duration)>, now: Duration) -> Seq<
    (UserId, Duration),
>
    decreases entries.len(),
{
    if entries.len() == 0 {
        Seq::empty()
    } else {
        let rest = recent_entries(entries.drop_last(), now);
        if is_recent(entries.last().1, now) {
            rest.push(entries.last())
        } else {
            rest
        }
    }
}

/// The users whose activity is no longer recent at `now`, in order.
pub open spec fn stale_users(entries: Seq<(UserId, Duration)>, now: Duration) -> Seq<UserId>
    decreases entries.len(),
{
    if entries.len() == 0 {
        Seq::empty()
    } else {
        let rest = stale_users(entries.drop_last(), now);
        if is_recent(entries.last().1, now) {
            rest
        } else {
            rest.push(entries.last().0)
        }
    }
}

/// No user has two entries.
pub open spec fn users_unique(entries: Seq<(UserId, Duration)>) -> bool {
    forall|i: int, j: int|
        0 <= i < j < entries.len() ==> (#[trigger] entries[i]).0 != (#[trigger] entries[j]).0
}

proof fn lemma_position_of(entries: Seq<(UserId, Duration)>, user_id: UserId)
    ensures
        position_of(entries, user_id) matches Some(i) ==> 0 <= i < entries.len() && entries[i].0
            == user_id,
        position_of(entries, user_id).is_none() ==> forall|i: int|
            0 <= i < entries.len() ==> (#[trigger] entries[i]).0 != user_id,
    decreases entries.len(),
{
    if entries.len() > 0 && entries.last().0 != user_id {
        let init = entries.drop_last();
        lemma_position_of(init, user_id);
        assert forall|i: int| 0 <= i < init.len() implies #[trigger] entries[i] == init[i] by {}
    }
}

proof fn lemma_recent_entries_unique(entries: Seq<(UserId, Duration)>, now: Duration)
    requires
        users_unique(entries),
    ensures
        users_unique(recent_entries(entries, now)),
        forall|k: int|
            0 <= k < recent_entries(entries, now).len() ==> exists|i: int|
                0 <= i < entries.len() && entries[i] == #[trigger] recent_entries(entries, now)[k],
    decreases entries.len(),
{
    if entries.len() > 0 {
        let init = entries.drop_last();
        assert(users_unique(init)) by {
            assert forall|i: int, j: int| 0 <= i < j < init.len() implies (#[trigger] init[i]).0 != (
            #[trigger] init[j]).0 by {
                assert(init[i] == entries[i] && init[j] == entries[j]);
            }
        }
        lemma_recent_entries_unique(init, now);
        let rest = recent_entries(init, now);
        let all = recent_entries(entries, now);
        assert forall|k: int| 0 <= k < all.len() implies exists|i: int|
            0 <= i < entries.len() && entries[i] == #[trigger] all[k] by {
            if k < rest.len() {
                let i = choose|i: int| 0 <= i < init.len() && init[i] == rest[k];
                assert(entries[i] == init[i]);
            } else {
                assert(entries[entries.len() - 1] == all[k]);
            }
        }
        if is_recent(entries.last().1, now) {
            assert forall|a: int, b: int| 0 <= a < b < all.len() implies (#[trigger] all[a]).0 != (
            #[trigger] all[b]).0 by {
                if b == all.len() - 1 {
                    let i = choose|i: int| 0 <= i < init.len() && init[i] == rest[a];
                    assert(entries[i] == init[i]);
                    assert(all[a] == rest[a]);
                } else {
                    assert(all[a] == rest[a] && all[b] == rest[b]);
                }
            }
        }
    }
}

proof fn lemma_recent_members(entries: Seq<(UserId, Duration)>, now: Duration)
    ensures
        forall|i: int|
            0 <= i < entries.len() && is_recent((#[trigger] entries[i]).1, now) ==> recent_entries(
                entries,
                now,
            ).contains(entries[i]),
    decreases entries.len(),
{
    if entries.len() > 0 {
        let init = entries.drop_last();
        lemma_recent_members(init, now);
        let rest = recent_entries(init, now);
        let all = recent_entries(entries, now);
        assert forall|i: int|
            0 <= i < entries.len() && is_recent((#[trigger] entries[i]).1, now) implies all.contains(
            entries[i]) by {
            if i < init.len() {
                assert(init[i] == entries[i]);
                let k = choose|k: int| 0 <= k < rest.len() && rest[k] == init[i];
                assert(all[k] == rest[k]);
            } else {
                assert(all[all.len() - 1] == entries[i]);
            }
        }
    }
}

/// A user just heard from keeps their worker: right after their activity
/// is recorded at `now`, dropping stale workers at `now` keeps theirs.
pub proof fn lemma_just_heard_is_kept(entries: Seq<(UserId, Duration)>, user_id: UserId, now: Duration)
    ensures
        ({
            let after = match position_of(entries, user_id) {
                Some(i) => entries.update(i, (user_id, now)),
                None => entries.push((user_id, now)),
            };
            recent_entries(after, now).contains((user_id, now))
        }),
{
    lemma_position_of(entries, user_id);
    let after = match position_of(entries, user_id) {
        Some(i) => entries.update(i, (user_id, now)),
        None => entries.push((user_id, now)),
    };
    lemma_recent_members(after, now);
    match position_of(entries, user_id) {
        Some(i) => {
            assert(after[i] == (user_id, now));
        },
        None => {
            assert(after[after.len() - 1] == (user_id, now));
        },
    }
}

/// Dropping stale workers splits the users in two: those kept, all with
/// recent activity, and those dropped; none is lost.
pub proof fn lemma_discard_splits_users(entries: Seq<(UserId, Duration)>, now: Duration)
    ensures
        recent_entries(entries, now).len() + stale_users(entries, now).len() == entries.len(),
        forall|k: int|
            0 <= k < recent_entries(entries, now).len() ==> is_recent(
                (#[trigger] recent_entries(entries, now)[k]).1,
                now,
            ),
    decreases entries.len(),
{
    if entries.len() > 0 {
        let init = entries.drop_last();
        lemma_discard_splits_users(init, now);
        let rest = recent_entries(init, now);
        let all = recent_entries(entries, now);
        assert forall|k: int| 0 <= k < all.len() implies is_recent((#[trigger] all[k]).1, now) by {
            if k < rest.len() {
                assert(all[k] == rest[k]);
            }
        }
    }
}

/// The users who have a worker, each with the time of their last activity.
pub struct UserActivity {
    entries: Vec<(UserId, Duration)>,
}

impl View for UserActivity {
    type V = Seq<(UserId, Duration)>;

    closed spec fn view(&self) -> Seq<(UserId, Duration)> {
        self.entries@
    }
}

impl UserActivity {
    /// No user has two entries.
    pub closed spec fn wf(&self) -> bool {
        users_unique(self.entries@)
    }

    pub fn new() -> (a: UserActivity)
        ensures
            a.wf(),
            a@ == Seq::<(UserId, Duration)>::empty(),
    {
        UserActivity { entries: Vec::new() }
    }

    /// Records activity from a user at `now`.  Returns true when the user
    /// had no worker, so that one must be started for them.
    pub fn record_activity(&mut self, user_id: UserId, now: Duration) -> (is_new: bool)
        requires
            old(self).wf(),
        ensures
            final(self).wf(),
            is_new == position_of(old(self)@, user_id).is_none(),
            position_of(old(self)@, user_id) matches Some(i) ==> final(self)@ == old(self)@.update(
                i,
                (user_id, now),
            ),
            position_of(old(self)@, user_id).is_none() ==> final(self)@ == old(self)@.push(
                (user_id, now),
            ),
    {
        proof {
            lemma_position_of(self.entries@, user_id);
        }
        let n = self.entries.len();
        let mut k = n;
        assert(self.entries@.take(n as int) =~= self.entries@);
        while k > 0 && self.entries[k - 1].0 != user_id
            invariant
                k <= n == self.entries@.len(),
                self.entries@ == old(self).entries@,
                position_of(self.entries@, user_id) == position_of(self.entries@.take(k as int), user_id),
            decreases k,
        {
            proof {
                let t = self.entries@.take(k as int);
                assert(t.drop_last() =~= self.entries@.take(k - 1));
                assert(t.last() == self.entries@[k - 1]);
            }
            k = k - 1;
        }
        if k == 0 {
            proof {
                assert(self.entries@.take(0) =~= Seq::<(UserId, Duration)>::empty());
            }
            self.entries.push((user_id, now));
            proof {
                let s = self.entries@;
                assert forall|i: int, j: int| 0 <= i < j < s.len() implies (#[trigger] s[i]).0 != (
                #[trigger] s[j]).0 by {
                    if j == s.len() - 1 {
                        assert(s[i] == old(self).entries@[i]);
                    } else {
                        assert(s[i] == old(self).entries@[i] && s[j] == old(self).entries@[j]);
                    }
                }
            }
            true
        } else {
            proof {
                let t = self.entries@.take(k as int);
                assert(t.last() == self.entries@[k - 1]);
            }
            self.entries.set(k - 1, (user_id, now));
            proof {
                let s = self.entries@;
                assert forall|i: int, j: int| 0 <= i < j < s.len() implies (#[trigger] s[i]).0 != (
                #[trigger] s[j]).0 by {
                    assert(s[i].0 == old(self).entries@[i].0 && s[j].0 == old(self).entries@[j].0);
                }
            }
            false
        }
    }

    /// Drops the entries of users with no recent activity at `now`, and
    /// returns those users, so that their workers can be dropped.
    pub fn discard_stale(&mut self, now: Duration) -> (discarded: Vec<UserId>)
        requires
            old(self).wf(),
        ensures
            final(self).wf(),
            final(self)@ == recent_entries(old(self)@, now),
            discarded@ == stale_users(old(self)@, now),
    {
        let mut kept: Vec<(UserId, Duration)> = Vec::new();
        let mut discarded: Vec<UserId> = Vec::new();
        let n = self.entries.len();
        for i in 0..n
            invariant
                n == self.entries@.len(),
                kept@ == recent_entries(self.entries@.take(i as int), now),
                discarded@ == stale_users(self.entries@.take(i as int), now),
        {
            proof {
                let t = self.entries@.take(i + 1);
                assert(t.drop_last() =~= self.entries@.take(i as int));
                assert(t.last() == self.entries@[i as int]);
            }
            let (user_id, last) = self.entries[i];
            let recent = now.nanos < last.nanos || now.nanos - last.nanos
                < (DISCARD_USER_AUDIO_AFTER_SECS as u128) * NANOS_PER_SEC;
            if recent {
                kept.push((user_id, last));
            } else {
                discarded.push(user_id);
            }
        }
        proof {
            assert(self.entries@.take(n as int) =~= self.entries@);
            lemma_recent_entries_unique(self.entries@, now);
        }
        self.entries = kept;
        discarded
    }
}

} // verus!

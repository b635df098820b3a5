//! The transcript of a call: the most recent finalized messages, from
//! oldest to newest, and their text.
use vstd::prelude::*;

use crate::api::api_types::{segments_text, MessageView, TranscribedMessage, UserId};

verus! {

/// The text of a message: the texts of its segments, in order.
pub open spec fn message_text(m: MessageView) -> Seq<char> {
    segments_text(m.segments)
}

/// Texts joined with single spaces between them.
pub open spec fn joined(texts: Seq<Seq<char>>) -> Seq<char>
    decreases texts.len(),
{
    if texts.len() == 0 {
        Seq::empty()
    } else if texts.len() == 1 {
        texts[0]
    } else {
        joined(texts.drop_last()) + seq![' '] + texts.last()
    }
}

/// The texts of the messages, in order.
pub open spec fn texts_of(messages: Seq<MessageView>) -> Seq<Seq<char>>
    decreases messages.len(),
{
    if messages.len() == 0 {
        Seq::empty()
    } else {
        texts_of(messages.drop_last()).push(message_text(messages.last()))
    }
}

/// The messages of one user, in order.
pub open spec fn messages_of_user(messages: Seq<MessageView>, user_id: UserId) -> Seq<MessageView>
    decreases messages.len(),
{
    if messages.len() == 0 {
        Seq::empty()
    } else {
        let rest = messages_of_user(messages.drop_last(), user_id);
        if messages.last().user_id == user_id {
            rest.push(messages.last())
        } else {
            rest
        }
    }
}

/// Messages in order of their start times.
pub open spec fn in_time_order(messages: Seq<MessageView>) -> bool {
    forall|i: int, j: int|
        0 <= i <= j < messages.len() ==> (#[trigger] messages[i]).start_timestamp.nanos
            <= (#[trigger] messages[j]).start_timestamp.nanos
}

/// Where a message that starts at `start_nanos` goes among `messages`:
/// after the last one that starts no later than it.
pub open spec fn insert_position(messages: Seq<MessageView>, start_nanos: u128) -> int
    decreases messages.len(),
{
    if messages.len() == 0 {
        0
    } else if messages.last().start_timestamp.nanos <= start_nanos {
        messages.len() as int
    } else {
        insert_position(messages.drop_last(), start_nanos)
    }
}

/// `messages` with `m` put in its place in time.
pub open spec fn inserted(messages: Seq<MessageView>, m: MessageView) -> Seq<MessageView> {
    let k = insert_position(messages, m.start_timestamp.nanos);
    messages.take(k) + seq![m] + messages.skip(k)
}

/// What a transcript of at most `num_messages` messages holds after `m`
/// arrives: `m` in its place in time, and the oldest message dropped when
/// there are more than `num_messages`.
pub open spec fn after_adding(messages: Seq<MessageView>, m: MessageView, num_messages: nat) -> Seq<
    MessageView,
> {
    let all = inserted(messages, m);
    if all.len() > num_messages {
        all.drop_first()
    } else {
        all
    }
}

/// A message that starts no earlier than any the transcript holds becomes
/// its newest: it comes last, so its text ends the transcript's text; the
/// transcript then holds one more message, or as many as it keeps.
pub proof fn lemma_newest_message_last(messages: Seq<MessageView>, m: MessageView, num_messages: nat)
    requires
        in_time_order(messages),
        messages.len() <= num_messages,
        num_messages > 0,
        forall|i: int|
            0 <= i < messages.len() ==> (#[trigger] messages[i]).start_timestamp.nanos
                <= m.start_timestamp.nanos,
    ensures
        after_adding(messages, m, num_messages).last() == m,
        after_adding(messages, m, num_messages).len() == if messages.len() < num_messages {
            messages.len() + 1
        } else {
            num_messages
        },
        texts_of(after_adding(messages, m, num_messages)).last() == message_text(m),
{
    if messages.len() > 0 {
        assert(messages[messages.len() - 1] == messages.last());
    }
    assert(insert_position(messages, m.start_timestamp.nanos) == messages.len());
    assert(messages.skip(messages.len() as int) =~= Seq::<MessageView>::empty());
    assert(messages.take(messages.len() as int) =~= messages);
    let all = after_adding(messages, m, num_messages);
    assert(all.len() > 0);
    assert(texts_of(all).last() == message_text(all.last()));
}

/// Finalized messages, oldest first, of which the transcript keeps the
/// `num_messages` most recent.
pub struct Transcript {
    messages: Vec<TranscribedMessage>,
    num_messages: usize,
}

impl View for Transcript {
    type V = Seq<MessageView>;

    closed spec fn view(&self) -> Seq<MessageView> {
        self.messages@.map_values(|m: TranscribedMessage| m@)
    }
}

proof fn lemma_insert_position_bounds(messages: Seq<MessageView>, start_nanos: u128)
    ensures
        0 <= insert_position(messages, start_nanos) <= messages.len(),
        forall|i: int|
            insert_position(messages, start_nanos) <= i < messages.len() ==> start_nanos
                < (#[trigger] messages[i]).start_timestamp.nanos,
        insert_position(messages, start_nanos) > 0 ==> messages[insert_position(messages, start_nanos)
            - 1].start_timestamp.nanos <= start_nanos,
    decreases messages.len(),
{
    if messages.len() > 0 && !(messages.last().start_timestamp.nanos <= start_nanos) {
        let rest = messages.drop_last();
        lemma_insert_position_bounds(rest, start_nanos);
        assert forall|i: int|
            insert_position(messages, start_nanos) <= i < messages.len() implies start_nanos
            < (#[trigger] messages[i]).start_timestamp.nanos by {
            if i < rest.len() {
                assert(messages[i] == rest[i]);
            }
        }
    }
}

proof fn lemma_inserted_in_time_order(messages: Seq<MessageView>, m: MessageView)
    requires
        in_time_order(messages),
    ensures
        in_time_order(inserted(messages, m)),
        inserted(messages, m).len() == messages.len() + 1,
{
    let k = insert_position(messages, m.start_timestamp.nanos);
    lemma_insert_position_bounds(messages, m.start_timestamp.nanos);
    let all = inserted(messages, m);
    assert(all.len() == messages.len() + 1);
    assert forall|i: int| 0 <= i < all.len() implies #[trigger] all[i] == (if i < k {
        messages[i]
    } else if i == k {
        m
    } else {
        messages[i - 1]
    }) by {}
    assert forall|i: int, j: int|
        0 <= i <= j < all.len() implies (#[trigger] all[i]).start_timestamp.nanos
        <= (#[trigger] all[j]).start_timestamp.nanos by {
        if j == k && i < k {
            assert(messages[i].start_timestamp.nanos <= messages[k - 1].start_timestamp.nanos);
        } else if i == k && j > k {
            assert(m.start_timestamp.nanos < messages[j - 1].start_timestamp.nanos);
        }
    }
}

impl Transcript {
    /// The transcript keeps no more than this many messages.
    pub closed spec fn capacity(&self) -> nat {
        self.num_messages as nat
    }

    /// The messages are in time order and no more than the capacity.
    pub closed spec fn wf(&self) -> bool {
        &&& in_time_order(self@)
        &&& self@.len() <= self.capacity()
    }

    /// An empty transcript that keeps the `num_messages` most recent
    /// messages.
    pub fn new(num_messages: usize) -> (t: Self)
        ensures
            t.wf(),
            t@ == Seq::<MessageView>::empty(),
            t.capacity() == num_messages,
    {
        let t = Transcript { messages: Vec::new(), num_messages };
        assert(t@ =~= Seq::<MessageView>::empty());
        t
    }

    /// Adds a finalized message in its place in time; when that makes more
    /// than the capacity, the oldest message is dropped.
    pub fn add(&mut self, message: TranscribedMessage)
        requires
            old(self).wf(),
        ensures
            final(self).wf(),
            final(self).capacity() == old(self).capacity(),
            final(self)@ == after_adding(old(self)@, message@, old(self).capacity()),
    {
        let ghost before = self@;
        let ghost m = message@;
        let start = message.start_timestamp.nanos;
        let mut k = self.messages.len();
        assert(before.take(k as int) =~= before);
        while k > 0 && self.messages[k - 1].start_timestamp.nanos > start
            invariant
                k <= self.messages@.len(),
                before == self@,
                insert_position(before, start) == insert_position(before.take(k as int), start),
            decreases k,
        {
            proof {
                let t = before.take(k as int);
                assert(t.drop_last() =~= before.take(k - 1));
                assert(t.last() == self.messages@[k - 1]@);
            }
            k = k - 1;
        }
        proof {
            if k > 0 {
                let t = before.take(k as int);
                assert(t.last() == self.messages@[k - 1]@);
                assert(insert_position(t, start) == k);
            } else {
                assert(before.take(0) =~= Seq::<MessageView>::empty());
            }
        }
        self.messages.insert(k, message);
        assert(self@ =~= inserted(before, m));
        proof {
            lemma_inserted_in_time_order(before, m);
        }
        if self.messages.len() > self.num_messages {
            // remove the oldest message
            self.messages.remove(0);
            assert(self@ =~= inserted(before, m).drop_first());
        }
    }

    /// The text of the transcript, from oldest to newest message, joined
    /// with spaces.
    pub fn get_latest_text(&self) -> (text: String)
        ensures
            text@ == joined(texts_of(self@)),
    {
        let mut text = String::new();
        let n = self.messages.len();
        for i in 0..n
            invariant
                n == self@.len(),
                text@ == joined(texts_of(self@.take(i as int))),
        {
            proof {
                let t = self@.take(i + 1);
                assert(t.drop_last() =~= self@.take(i as int));
                assert(t.last() == self.messages@[i as int]@);
                assert(texts_of(t).drop_last() =~= texts_of(self@.take(i as int)));
            }
            if i > 0 {
                text.append(" ");
                proof {
                    reveal_strlit(" ");
                }
            }
            let message_text = self.messages[i].all_text();
            text.append(message_text.as_str());
        }
        assert(self@.take(n as int) =~= self@);
        text
    }

    /// The text of one user's messages, from oldest to newest, joined with
    /// spaces.
    pub fn get_latest_text_for_user(&self, user_id: UserId) -> (text: String)
        ensures
            text@ == joined(texts_of(messages_of_user(self@, user_id))),
    {
        let mut text = String::new();
        let mut any = false;
        let n = self.messages.len();
        for i in 0..n
            invariant
                n == self@.len(),
                text@ == joined(texts_of(messages_of_user(self@.take(i as int), user_id))),
                any == (messages_of_user(self@.take(i as int), user_id).len() > 0),
        {
            proof {
                let t = self@.take(i + 1);
                assert(t.drop_last() =~= self@.take(i as int));
                assert(t.last() == self.messages@[i as int]@);
            }
            if self.messages[i].user_id == user_id {
                if any {
                    text.append(" ");
                    proof {
                        reveal_strlit(" ");
                    }
                }
                let message_text = self.messages[i].all_text();
                text.append(message_text.as_str());
                any = true;
                proof {
                    let u = messages_of_user(self@.take(i + 1), user_id);
                    assert(u.drop_last() =~= messages_of_user(self@.take(i as int), user_id));
                    assert(texts_of(u).drop_last() =~= texts_of(u.drop_last()));
                }
            }
        }
        assert(self@.take(n as int) =~= self@);
        text
    }
}

} // verus!

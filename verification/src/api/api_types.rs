//! The events that the library reports to its user, and the transcripts
//! they carry.
use vstd::prelude::*;

use crate::model::types::{WhisperToken, WhisperTokenProbabilityPercentage};
use crate::time::{Duration, SystemTime, NANOS_PER_MILLI};

verus! {

/// Sent when a user joins or leaves.
#[derive(Clone, Copy, Debug, PartialEq, Eq, Structural, PartialOrd, Ord, Hash)]
pub struct UserJoinData {
    pub user_id: u64,
    pub joined: bool,
}

#[derive(Debug, PartialEq, Eq, PartialOrd, Ord, Hash)]
pub struct TokenWithProbability {
    pub probability: WhisperTokenProbabilityPercentage,
    pub token_id: WhisperToken,
    pub token_text: String,
}

#[derive(Debug, PartialEq, Eq, PartialOrd, Ord, Hash)]
pub struct TextSegment {
    /// When the audio for this segment started.
    /// Time is relative to when the Message was received.
    pub start_offset_ms: u32,
    /// When the audio for this segment ended.
    /// Time is relative to when the Message was received.
    pub end_offset_ms: u32,
    pub tokens_with_probability: Vec<TokenWithProbability>,
}

#[derive(Debug, PartialEq, Eq, PartialOrd, Ord, Hash)]
pub struct TranscribedMessage {
    /// absolute time this message was received,
    /// as reported by the Discord server
    /// (NOT the local machine time)
    pub start_timestamp: SystemTime,
    /// Discord user id of the speaker
    pub user_id: u64,
    /// One or more text segments extracted from the audio.
    pub segments: Vec<TextSegment>,
    /// conversion metric: total time of source audio which lead to this
    /// message
    pub audio_duration: Duration,
    /// total time spent converting this audio to text
    pub processing_time: Duration,
}

#[derive(Clone, Debug, PartialEq, Eq, PartialOrd, Ord, Hash)]
pub struct ConnectData {
    /// ID of the voice channel being joined, if it is known.
    pub channel_id: Option<u64>,
    /// ID of the target voice channel's parent guild.
    pub guild_id: u64,
    /// Unique string describing this session for validation/authentication
    /// purposes.
    pub session_id: String,
    /// The domain name of Discord's voice/TURN server.
    pub server: String,
}

#[derive(Clone, Copy, Debug, PartialEq, Eq, Structural, PartialOrd, Ord, Hash)]
pub enum DisconnectKind {
    /// The voice driver failed to connect to the server.
    Connect,
    /// The voice driver failed to reconnect to the server.
    Reconnect,
    /// The voice connection was terminated mid-session by either the user
    /// or Discord.
    Runtime,
    /// Some value we didn't expect.
    Unknown,
}

/// The reason that a voice connection failed.
#[derive(Clone, Copy, Debug, PartialEq, Eq, Structural, PartialOrd, Ord, Hash)]
pub enum DisconnectReason {
    /// This (re)connection attempt was dropped due to another request.
    AttemptDiscarded,
    /// Songbird had an internal error.
    Internal,
    /// A host-specific I/O error caused the fault.
    Io,
    /// Songbird and Discord disagreed on the protocol used to establish a
    /// voice connection.
    ProtocolViolation,
    /// A voice connection was not established in the specified time.
    TimedOut,
    /// The Websocket connection was closed by Discord.
    WsClosed(Option<u32>),
    /// Unexpected value
    Unknown,
}

#[derive(Clone, Debug, PartialEq, Eq, PartialOrd, Ord, Hash)]
pub struct DisconnectData {
    /// The location that a voice connection was terminated.
    pub kind: DisconnectKind,
    /// The cause of any connection failure.  If `None`, then this
    /// disconnect was requested by the user in some way.
    pub reason: Option<DisconnectReason>,
    /// ID of the voice channel being joined, if it is known.
    pub channel_id: Option<u64>,
    /// ID of the target voice channel's parent guild.
    pub guild_id: u64,
    /// Unique string describing this session.
    pub session_id: String,
}

#[derive(Debug, PartialEq, Eq, PartialOrd, Ord, Hash)]
pub enum VoiceChannelEvent {
    UserJoin(UserJoinData),
    TranscribedMessage(TranscribedMessage),
    Connect(ConnectData),
    Reconnect(ConnectData),
    Disconnect(DisconnectData),
    SilentChannel(bool),
}

pub type UserId = crate::model::types::UserId;

// ---------------------------------------------------------------------
// Mathematical views of transcripts

pub struct TokenView {
    pub probability: u32,
    pub token_id: i32,
    pub token_text: Seq<char>,
}

pub struct SegmentView {
    pub start_offset_ms: u32,
    pub end_offset_ms: u32,
    pub tokens: Seq<TokenView>,
}

pub struct MessageView {
    pub start_timestamp: SystemTime,
    pub user_id: u64,
    pub segments: Seq<SegmentView>,
    pub audio_duration: Duration,
    pub processing_time: Duration,
}

impl View for TokenWithProbability {
    type V = TokenView;

    open spec fn view(&self) -> TokenView {
        TokenView {
            probability: self.probability,
            token_id: self.token_id,
            token_text: self.token_text@,
        }
    }
}

impl View for TextSegment {
    type V = SegmentView;

    open spec fn view(&self) -> SegmentView {
        SegmentView {
            start_offset_ms: self.start_offset_ms,
            end_offset_ms: self.end_offset_ms,
            tokens: self.tokens_with_probability@.map_values(|t: TokenWithProbability| t@),
        }
    }
}

impl View for TranscribedMessage {
    type V = MessageView;

    open spec fn view(&self) -> MessageView {
        MessageView {
            start_timestamp: self.start_timestamp,
            user_id: self.user_id,
            segments: self.segments@.map_values(|s: TextSegment| s@),
            audio_duration: self.audio_duration,
            processing_time: self.processing_time,
        }
    }
}

/// The view of an optional message.
pub open spec fn opt_message_view(m: Option<TranscribedMessage>) -> Option<MessageView> {
    match m {
        Some(m) => Some(m@),
        None => None,
    }
}

/// The text of a run of tokens: their texts, concatenated in order.
pub open spec fn tokens_text(tokens: Seq<TokenView>) -> Seq<char>
    decreases tokens.len(),
{
    if tokens.len() == 0 {
        Seq::empty()
    } else {
        tokens_text(tokens.drop_last()) + tokens.last().token_text
    }
}

/// The text of a run of segments: their texts, concatenated in order.
pub open spec fn segments_text(segments: Seq<SegmentView>) -> Seq<char>
    decreases segments.len(),
{
    if segments.len() == 0 {
        Seq::empty()
    } else {
        segments_text(segments.drop_last()) + tokens_text(segments.last().tokens)
    }
}

/// The token ids of a run of segments, in order.
pub open spec fn segments_token_ids(segments: Seq<SegmentView>) -> Seq<i32>
    decreases segments.len(),
{
    if segments.len() == 0 {
        Seq::empty()
    } else {
        segments_token_ids(segments.drop_last()) + segments.last().tokens.map_values(
            |t: TokenView| t.token_id,
        )
    }
}

// ---------------------------------------------------------------------
// Splitting a transcript in time

/// The wall-clock time at which a segment of `message` ends.
pub open spec fn segment_end_time(message: MessageView, segment: SegmentView) -> int {
    message.start_timestamp.nanos + segment.end_offset_ms * NANOS_PER_MILLI
}

/// True when the segment ends before `end_time`.
pub open spec fn ends_before(message: MessageView, end_time: SystemTime, segment: SegmentView) -> bool {
    segment_end_time(message, segment) < end_time.nanos
}

/// The segments (in order) that end before `end_time`.
pub open spec fn segments_ending_before(
    message: MessageView,
    end_time: SystemTime,
    segments: Seq<SegmentView>,
) -> Seq<SegmentView>
    decreases segments.len(),
{
    if segments.len() == 0 {
        Seq::empty()
    } else {
        let rest = segments_ending_before(message, end_time, segments.drop_last());
        if ends_before(message, end_time, segments.last()) {
            rest.push(segments.last())
        } else {
            rest
        }
    }
}

/// The segments (in order) that end at or after `end_time`.
pub open spec fn segments_ending_at_or_after(
    message: MessageView,
    end_time: SystemTime,
    segments: Seq<SegmentView>,
) -> Seq<SegmentView>
    decreases segments.len(),
{
    if segments.len() == 0 {
        Seq::empty()
    } else {
        let rest = segments_ending_at_or_after(message, end_time, segments.drop_last());
        if ends_before(message, end_time, segments.last()) {
            rest
        } else {
            rest.push(segments.last())
        }
    }
}

/// The latest end offset among `segments`, in milliseconds (0 for none).
pub open spec fn max_end_offset_ms(segments: Seq<SegmentView>) -> u32
    decreases segments.len(),
{
    if segments.len() == 0 {
        0
    } else {
        let rest = max_end_offset_ms(segments.drop_last());
        if rest < segments.last().end_offset_ms {
            segments.last().end_offset_ms
        } else {
            rest
        }
    }
}

/// A segment moved `shift_ms` earlier.
pub open spec fn shift_segment(segment: SegmentView, shift_ms: u32) -> SegmentView {
    SegmentView {
        start_offset_ms: (segment.start_offset_ms - shift_ms) as u32,
        end_offset_ms: (segment.end_offset_ms - shift_ms) as u32,
        tokens: segment.tokens,
    }
}

/// The length of the first half of a split, in milliseconds.
pub open spec fn first_half_ms(message: MessageView, end_time: SystemTime) -> u32 {
    max_end_offset_ms(segments_ending_before(message, end_time, message.segments))
}

/// The first half of `message` split at `end_time`: the segments that end
/// before `end_time`, covering audio up to the latest of their ends.
pub open spec fn split_first_half(message: MessageView, end_time: SystemTime) -> Option<MessageView> {
    let first = segments_ending_before(message, end_time, message.segments);
    if first.len() == 0 {
        None
    } else {
        Some(
            MessageView {
                start_timestamp: message.start_timestamp,
                user_id: message.user_id,
                segments: first,
                audio_duration: Duration {
                    nanos: (max_end_offset_ms(first) * NANOS_PER_MILLI) as u128,
                },
                processing_time: message.processing_time,
            },
        )
    }
}

/// The second half of `message` split at `end_time`: the segments that
/// end at or after `end_time`, moved to start where the first half ends.
pub open spec fn split_second_half(message: MessageView, end_time: SystemTime) -> Option<
    MessageView,
> {
    let second = segments_ending_at_or_after(message, end_time, message.segments);
    let shift = first_half_ms(message, end_time);
    if second.len() == 0 {
        None
    } else {
        Some(
            MessageView {
                start_timestamp: SystemTime {
                    nanos: (message.start_timestamp.nanos + shift * NANOS_PER_MILLI) as u128,
                },
                user_id: message.user_id,
                segments: second.map_values(|s: SegmentView| shift_segment(s, shift)),
                audio_duration: Duration {
                    nanos: (message.audio_duration.nanos - shift * NANOS_PER_MILLI) as u128,
                },
                processing_time: Duration { nanos: NANOS_PER_MILLI },
            },
        )
    }
}

/// The inputs on which splitting neither overflows a time nor moves a
/// segment before the start of the second half.
pub open spec fn split_is_defined(message: MessageView, end_time: SystemTime) -> bool {
    let shift = first_half_ms(message, end_time);
    &&& forall|i: int|
        0 <= i < message.segments.len() ==> segment_end_time(message, #[trigger] message.segments[i])
            <= u128::MAX
    &&& forall|i: int|
        0 <= i < message.segments.len() && !ends_before(message, end_time, #[trigger] message.segments[i])
            ==> shift <= message.segments[i].start_offset_ms
    &&& shift * NANOS_PER_MILLI <= message.audio_duration.nanos
}

// ---------------------------------------------------------------------
// Executable operations

impl Clone for TokenWithProbability {
    fn clone(&self) -> (r: Self)
        ensures
            r@ == self@,
    {
        TokenWithProbability {
            probability: self.probability,
            token_id: self.token_id,
            token_text: self.token_text.clone(),
        }
    }
}

impl Clone for TextSegment {
    fn clone(&self) -> (r: Self)
        ensures
            r@ == self@,
    {
        let mut tokens: Vec<TokenWithProbability> = Vec::new();
        let n = self.tokens_with_probability.len();
        for i in 0..n
            invariant
                n == self.tokens_with_probability@.len(),
                tokens@.len() == i,
                forall|j: int| 0 <= j < i ==> #[trigger] tokens@[j]@ == self.tokens_with_probability@[j]@,
        {
            tokens.push(self.tokens_with_probability[i].clone());
        }
        let r = TextSegment {
            start_offset_ms: self.start_offset_ms,
            end_offset_ms: self.end_offset_ms,
            tokens_with_probability: tokens,
        };
        assert(r@.tokens =~= self@.tokens);
        r
    }
}

impl Clone for TranscribedMessage {
    fn clone(&self) -> (r: Self)
        ensures
            r@ == self@,
    {
        let mut segments: Vec<TextSegment> = Vec::new();
        let n = self.segments.len();
        for i in 0..n
            invariant
                n == self.segments@.len(),
                segments@.len() == i,
                forall|j: int| 0 <= j < i ==> #[trigger] segments@[j]@ == self.segments@[j]@,
        {
            segments.push(self.segments[i].clone());
        }
        let r = TranscribedMessage {
            start_timestamp: self.start_timestamp,
            user_id: self.user_id,
            segments,
            audio_duration: self.audio_duration,
            processing_time: self.processing_time,
        };
        assert(r@.segments =~= self@.segments);
        r
    }
}

impl TextSegment {
    /// All the token texts of this segment, concatenated.
    pub fn text(&self) -> (text: String)
        ensures
            text@ == tokens_text(self@.tokens),
    {
        let mut text = String::new();
        let n = self.tokens_with_probability.len();
        for i in 0..n
            invariant
                n == self.tokens_with_probability@.len(),
                text@ == tokens_text(self@.tokens.take(i as int)),
        {
            proof {
                assert(self@.tokens.take(i + 1).drop_last() =~= self@.tokens.take(i as int));
            }
            text.append(self.tokens_with_probability[i].token_text.as_str());
        }
        assert(self@.tokens.take(n as int) =~= self@.tokens);
        text
    }
}

impl TranscribedMessage {
    /// True when the message holds no segments.
    pub fn is_empty(&self) -> (b: bool)
        ensures
            b == (self@.segments.len() == 0),
    {
        self.segments.len() == 0
    }

    /// The text of all segments, concatenated in order.
    pub fn all_text(&self) -> (text: String)
        ensures
            text@ == segments_text(self@.segments),
    {
        let mut text = String::new();
        let n = self.segments.len();
        for i in 0..n
            invariant
                n == self@.segments.len(),
                text@ == segments_text(self@.segments.take(i as int)),
        {
            proof {
                assert(self@.segments.take(i + 1).drop_last() =~= self@.segments.take(i as int));
                assert(self@.segments[i as int] == self.segments@[i as int]@);
            }
            let segment_text = self.segments[i].text();
            text.append(segment_text.as_str());
        }
        assert(self@.segments.take(n as int) =~= self@.segments);
        text
    }

    /// The ids of all tokens of all segments, in order.
    pub fn token_ids(&self) -> (ids: Vec<WhisperToken>)
        ensures
            ids@ == segments_token_ids(self@.segments),
    {
        let mut ids: Vec<WhisperToken> = Vec::new();
        let n = self.segments.len();
        for i in 0..n
            invariant
                n == self@.segments.len(),
                ids@ == segments_token_ids(self@.segments.take(i as int)),
        {
            let segment = &self.segments[i];
            let m = segment.tokens_with_probability.len();
            let ghost before = ids@;
            for j in 0..m
                invariant
                    m == segment@.tokens.len(),
                    ids@ == before + segment@.tokens.take(j as int).map_values(|t: TokenView| t.token_id),
            {
                ids.push(segment.tokens_with_probability[j].token_id);
                proof {
                    assert(segment@.tokens.take(j + 1).map_values(|t: TokenView| t.token_id)
                        =~= segment@.tokens.take(j as int).map_values(|t: TokenView| t.token_id).push(
                        segment.tokens_with_probability@[j as int].token_id));
                }
            }
            proof {
                assert(self@.segments.take(i + 1).drop_last() =~= self@.segments.take(i as int));
                assert(segment@.tokens.take(m as int) =~= segment@.tokens);
                assert(self@.segments[i as int] == segment@);
            }
        }
        assert(self@.segments.take(n as int) =~= self@.segments);
        ids
    }

    /// Splits the TranscribedMessage into two separate messages.
    /// The first message will contain all segments that end before the
    /// given end_time.  The second message will contain all segments that
    /// end at or after the given end_time.
    ///
    /// If there are no segments that end before the given end_time, the
    /// first message will be None.  If there are no segments that end
    /// after the given end_time, the second message will be None.
    ///
    /// If there are no segments in the provided message at all, both
    /// messages will be None.
    pub fn split_at_end_time(message: &TranscribedMessage, end_time: SystemTime) -> (r: (
        Option<Self>,
        Option<Self>,
    ))
        requires
            split_is_defined(message@, end_time),
        ensures
            opt_message_view(r.0) == split_first_half(message@, end_time),
            opt_message_view(r.1) == split_second_half(message@, end_time),
    {
        let ghost mv = message@;
        let mut first_segments: Vec<TextSegment> = Vec::new();
        let mut second_segments: Vec<TextSegment> = Vec::new();
        let mut first_max_ms: u32 = 0;
        let n = message.segments.len();
        for i in 0..n
            invariant
                n == mv.segments.len(),
                mv == message@,
                split_is_defined(mv, end_time),
                first_segments@.map_values(|s: TextSegment| s@) =~= segments_ending_before(
                    mv,
                    end_time,
                    mv.segments.take(i as int),
                ),
                second_segments@.map_values(|s: TextSegment| s@) =~= segments_ending_at_or_after(
                    mv,
                    end_time,
                    mv.segments.take(i as int),
                ),
                first_max_ms == max_end_offset_ms(
                    segments_ending_before(mv, end_time, mv.segments.take(i as int)),
                ),
        {
            let segment = &message.segments[i];
            proof {
                assert(mv.segments.take(i + 1).drop_last() =~= mv.segments.take(i as int));
                assert(mv.segments.take(i + 1).last() == segment@);
                assert(segment_end_time(mv, mv.segments[i as int]) <= u128::MAX);
            }
            let seg_end = message.start_timestamp.plus(
                Duration::from_millis(segment.end_offset_ms as u64),
            );
            if seg_end.nanos < end_time.nanos {
                let copy = segment.clone();
                proof {
                    let rest = segments_ending_before(mv, end_time, mv.segments.take(i as int));
                    assert(rest.push(segment@).drop_last() =~= rest);
                }
                if first_max_ms < copy.end_offset_ms {
                    first_max_ms = copy.end_offset_ms;
                }
                first_segments.push(copy);
            } else {
                second_segments.push(segment.clone());
            }
        }
        proof {
            assert(mv.segments.take(n as int) =~= mv.segments);
        }
        assert(first_max_ms == first_half_ms(mv, end_time));
        proof {
            lemma_ending_by_max(mv, end_time, mv.segments);
        }

        let first_duration = Duration::from_millis(first_max_ms as u64);
        let first = if first_segments.len() == 0 {
            None
        } else {
            let m = TranscribedMessage {
                segments: first_segments,
                start_timestamp: message.start_timestamp,
                user_id: message.user_id,
                audio_duration: first_duration,
                processing_time: message.processing_time,
            };
            assert(m@ == split_first_half(mv, end_time).unwrap());
            Some(m)
        };

        let second = if second_segments.len() == 0 {
            None
        } else {
            let ghost unshifted = second_segments@.map_values(|s: TextSegment| s@);
            proof {
                lemma_ending_after_start_bound(mv, end_time, mv.segments);
            }
            let mut shifted: Vec<TextSegment> = Vec::new();
            let m2 = second_segments.len();
            let mut k: usize = 0;
            while k < m2
                invariant
                    m2 == unshifted.len(),
                    unshifted =~= segments_ending_at_or_after(mv, end_time, mv.segments),
                    forall|j: int| 0 <= j < unshifted.len() ==> first_max_ms <= #[trigger] unshifted[j].start_offset_ms,
                    forall|j: int| 0 <= j < unshifted.len() ==> first_max_ms <= #[trigger] unshifted[j].end_offset_ms,
                    second_segments@.map_values(|s: TextSegment| s@) == unshifted,
                    k <= m2,
                    shifted@.len() == k,
                    forall|j: int| 0 <= j < k ==> #[trigger] shifted@[j]@ == shift_segment(unshifted[j], first_max_ms),
                decreases m2 - k,
            {
                let mut segment = second_segments[k].clone();
                assert(second_segments@.map_values(|s: TextSegment| s@)[k as int] == second_segments@[k as int]@);
                assert(segment@ == unshifted[k as int]);
                assert(first_max_ms <= unshifted[k as int].start_offset_ms);
                assert(first_max_ms <= unshifted[k as int].end_offset_ms);
                segment.start_offset_ms = segment.start_offset_ms - first_max_ms;
                segment.end_offset_ms = segment.end_offset_ms - first_max_ms;
                shifted.push(segment);
                k = k + 1;
            }
            let m = TranscribedMessage {
                segments: shifted,
                start_timestamp: message.start_timestamp.plus(first_duration),
                user_id: message.user_id,
                audio_duration: message.audio_duration.minus(first_duration),
                processing_time: Duration::from_millis(1),
            };
            assert(m@.segments =~= unshifted.map_values(|s: SegmentView| shift_segment(s, first_max_ms)));
            Some(m)
        };
        (first, second)
    }
}

/// True when `split_at_end_time` can split `message` at `end_time`: no
/// segment's end overflows the clock, no segment of the second half starts
/// before the end of the first half, and the first half is no longer than
/// the message's audio.
pub fn can_split_at_end_time(message: &TranscribedMessage, end_time: SystemTime) -> (b: bool)
    ensures
        b == split_is_defined(message@, end_time),
{
    let ghost mv = message@;
    let n = message.segments.len();
    let mut first_max_ms: u32 = 0;
    let mut i: usize = 0;
    while i < n
        invariant
            n == mv.segments.len(),
            mv == message@,
            i <= n,
            first_max_ms == max_end_offset_ms(segments_ending_before(mv, end_time, mv.segments.take(i as int))),
            forall|j: int| 0 <= j < i ==> segment_end_time(mv, #[trigger] mv.segments[j]) <= u128::MAX,
        decreases n - i,
    {
        let segment = &message.segments[i];
        proof {
            assert(mv.segments.take(i + 1).drop_last() =~= mv.segments.take(i as int));
            assert(mv.segments[i as int] == segment@);
        }
        let end_ms = segment.end_offset_ms as u128 * NANOS_PER_MILLI;
        if message.start_timestamp.nanos > u128::MAX - end_ms {
            return false;
        }
        if message.start_timestamp.nanos + end_ms < end_time.nanos {
            proof {
                let rest = segments_ending_before(mv, end_time, mv.segments.take(i as int));
                assert(rest.push(segment@).drop_last() =~= rest);
            }
            if first_max_ms < segment.end_offset_ms {
                first_max_ms = segment.end_offset_ms;
            }
        }
        i = i + 1;
    }
    assert(mv.segments.take(n as int) =~= mv.segments);
    if first_max_ms as u128 * NANOS_PER_MILLI > message.audio_duration.nanos {
        return false;
    }
    let mut k: usize = 0;
    while k < n
        invariant
            n == mv.segments.len(),
            mv == message@,
            k <= n,
            first_max_ms == first_half_ms(mv, end_time),
            forall|j: int| 0 <= j < n ==> segment_end_time(mv, #[trigger] mv.segments[j]) <= u128::MAX,
            forall|j: int|
                0 <= j < k && !ends_before(mv, end_time, #[trigger] mv.segments[j])
                    ==> first_max_ms <= mv.segments[j].start_offset_ms,
        decreases n - k,
    {
        let segment = &message.segments[k];
        assert(mv.segments[k as int] == segment@);
        let end_ms = segment.end_offset_ms as u128 * NANOS_PER_MILLI;
        if message.start_timestamp.nanos + end_ms >= end_time.nanos
            && segment.start_offset_ms < first_max_ms {
            return false;
        }
        k = k + 1;
    }
    true
}

/// The first half of a split is no longer than the message's audio.
pub proof fn lemma_first_half_within_audio(message: MessageView, end_time: SystemTime)
    requires
        split_is_defined(message, end_time),
    ensures
        split_first_half(message, end_time) matches Some(first) ==> first.audio_duration.nanos
            <= message.audio_duration.nanos,
{
}

/// Splitting loses no segment and repeats none: each segment goes to the
/// half its end time decides, so the two halves hold as many segments as
/// the message.
pub proof fn lemma_split_keeps_every_segment(
    message: MessageView,
    end_time: SystemTime,
    segments: Seq<SegmentView>,
)
    ensures
        segments_ending_before(message, end_time, segments).len() + segments_ending_at_or_after(
            message,
            end_time,
            segments,
        ).len() == segments.len(),
        forall|i: int|
            0 <= i < segments.len() ==> (ends_before(message, end_time, #[trigger] segments[i])
                ==> segments_ending_before(message, end_time, segments).contains(segments[i])),
        forall|i: int|
            0 <= i < segments.len() ==> (!ends_before(message, end_time, #[trigger] segments[i])
                ==> segments_ending_at_or_after(message, end_time, segments).contains(segments[i])),
    decreases segments.len(),
{
    if segments.len() > 0 {
        let init = segments.drop_last();
        lemma_split_keeps_every_segment(message, end_time, init);
        let before = segments_ending_before(message, end_time, segments);
        let after = segments_ending_at_or_after(message, end_time, segments);
        let before0 = segments_ending_before(message, end_time, init);
        let after0 = segments_ending_at_or_after(message, end_time, init);
        assert forall|i: int|
            0 <= i < segments.len() && ends_before(message, end_time, #[trigger] segments[i]) implies before.contains(
            segments[i]) by {
            if i < init.len() {
                assert(init[i] == segments[i]);
                let k = choose|k: int| 0 <= k < before0.len() && before0[k] == init[i];
                assert(before[k] == before0[k]);
            } else {
                assert(before[before.len() - 1] == segments.last());
            }
        }
        assert forall|i: int|
            0 <= i < segments.len() && !ends_before(message, end_time, #[trigger] segments[i]) implies after.contains(
            segments[i]) by {
            if i < init.len() {
                assert(init[i] == segments[i]);
                let k = choose|k: int| 0 <= k < after0.len() && after0[k] == init[i];
                assert(after[k] == after0[k]);
            } else {
                assert(after[after.len() - 1] == segments.last());
            }
        }
    }
}

/// The first half of a split holds only segments that end before the split
/// time.
pub proof fn lemma_first_half_ends_before(message: MessageView, end_time: SystemTime)
    ensures
        split_first_half(message, end_time) matches Some(first) ==> forall|j: int|
            0 <= j < first.segments.len() ==> ends_before(
                message,
                end_time,
                #[trigger] first.segments[j],
            ),
{
    lemma_ending_before_members(message, end_time, message.segments);
}

proof fn lemma_ending_before_members(
    message: MessageView,
    end_time: SystemTime,
    segments: Seq<SegmentView>,
)
    ensures
        forall|j: int|
            0 <= j < segments_ending_before(message, end_time, segments).len() ==> ends_before(
                message,
                end_time,
                #[trigger] segments_ending_before(message, end_time, segments)[j],
            ),
    decreases segments.len(),
{
    if segments.len() > 0 {
        let init = segments.drop_last();
        lemma_ending_before_members(message, end_time, init);
        let rest = segments_ending_before(message, end_time, init);
        let all = segments_ending_before(message, end_time, segments);
        assert forall|j: int| 0 <= j < all.len() implies ends_before(message, end_time, #[trigger] all[j]) by {
            if j < rest.len() {
                assert(all[j] == rest[j]);
            }
        }
    }
}

/// The test that picks the segments of a first half: ending before `end_time`.
pub open spec fn ends_before_pred(message: MessageView, end_time: SystemTime) -> spec_fn(
    SegmentView,
) -> bool {
    |s: SegmentView| ends_before(message, end_time, s)
}

/// The test that picks the segments of a second half: ending at or after
/// `end_time`.
pub open spec fn ends_at_or_after_pred(message: MessageView, end_time: SystemTime) -> spec_fn(
    SegmentView,
) -> bool {
    |s: SegmentView| !ends_before(message, end_time, s)
}

proof fn lemma_ending_before_is_filter(
    message: MessageView,
    end_time: SystemTime,
    segments: Seq<SegmentView>,
)
    ensures
        segments_ending_before(message, end_time, segments) == segments.filter(
            ends_before_pred(message, end_time),
        ),
    decreases segments.len(),
{
    reveal(Seq::filter);
    if segments.len() > 0 {
        lemma_ending_before_is_filter(message, end_time, segments.drop_last());
    }
}

proof fn lemma_ending_after_is_filter(
    message: MessageView,
    end_time: SystemTime,
    segments: Seq<SegmentView>,
)
    ensures
        segments_ending_at_or_after(message, end_time, segments) == segments.filter(
            ends_at_or_after_pred(message, end_time),
        ),
    decreases segments.len(),
{
    reveal(Seq::filter);
    if segments.len() > 0 {
        lemma_ending_after_is_filter(message, end_time, segments.drop_last());
    }
}

/// Splitting keeps the order of the segments: the first half holds the
/// message's segments that end before `end_time`, in the message's order;
/// the second half holds those that end at or after it, in the message's
/// order, each moved earlier by the first half's length.
pub proof fn lemma_split_keeps_segment_order(message: MessageView, end_time: SystemTime)
    ensures
        split_first_half(message, end_time) matches Some(first) ==> first.segments
            == message.segments.filter(ends_before_pred(message, end_time)),
        split_second_half(message, end_time) matches Some(second) ==> {
            let kept = message.segments.filter(ends_at_or_after_pred(message, end_time));
            &&& second.segments.len() == kept.len()
            &&& forall|j: int|
                0 <= j < kept.len() ==> #[trigger] second.segments[j] == shift_segment(
                    kept[j],
                    first_half_ms(message, end_time),
                )
        },
        split_is_defined(message, end_time) ==> (split_second_half(message, end_time) matches Some(
            second,
        ) ==> forall|j: int|
            0 <= j < second.segments.len() ==> {
                let kept = message.segments.filter(ends_at_or_after_pred(message, end_time));
                &&& (#[trigger] second.segments[j]).start_offset_ms + first_half_ms(message, end_time)
                    == kept[j].start_offset_ms
                &&& second.segments[j].end_offset_ms + first_half_ms(message, end_time)
                    == kept[j].end_offset_ms
                &&& second.segments[j].tokens == kept[j].tokens
            }),
{
    lemma_ending_before_is_filter(message, end_time, message.segments);
    lemma_ending_after_is_filter(message, end_time, message.segments);
    if split_is_defined(message, end_time) {
        lemma_ending_after_start_bound(message, end_time, message.segments);
    }
}

proof fn lemma_max_end_bounds(segments: Seq<SegmentView>)
    ensures
        forall|i: int|
            0 <= i < segments.len() ==> (#[trigger] segments[i]).end_offset_ms <= max_end_offset_ms(
                segments,
            ),
        segments.len() > 0 ==> exists|i: int|
            0 <= i < segments.len() && (#[trigger] segments[i]).end_offset_ms == max_end_offset_ms(
                segments,
            ),
    decreases segments.len(),
{
    if segments.len() > 0 {
        let init = segments.drop_last();
        lemma_max_end_bounds(init);
        assert forall|i: int| 0 <= i < segments.len() implies (#[trigger] segments[i]).end_offset_ms
            <= max_end_offset_ms(segments) by {
            if i < init.len() {
                assert(segments[i] == init[i]);
            }
        }
        if init.len() > 0 && !(max_end_offset_ms(init) < segments.last().end_offset_ms) {
            let k = choose|k: int| 0 <= k < init.len() && (#[trigger] init[k]).end_offset_ms
                == max_end_offset_ms(init);
            assert(segments[k] == init[k]);
        } else {
            assert(segments[segments.len() - 1] == segments.last());
        }
    }
}

/// The first half lasts until the latest end among its segments: no
/// segment of it ends after its audio, and one ends exactly there.
pub proof fn lemma_first_half_lasts_to_latest_end(message: MessageView, end_time: SystemTime)
    ensures
        split_first_half(message, end_time) matches Some(first) ==> {
            &&& forall|j: int|
                0 <= j < first.segments.len() ==> (#[trigger] first.segments[j]).end_offset_ms
                    * NANOS_PER_MILLI <= first.audio_duration.nanos
            &&& exists|j: int|
                0 <= j < first.segments.len() && (#[trigger] first.segments[j]).end_offset_ms
                    * NANOS_PER_MILLI == first.audio_duration.nanos
        },
{
    let first = segments_ending_before(message, end_time, message.segments);
    lemma_max_end_bounds(first);
    if first.len() > 0 {
        let f = split_first_half(message, end_time).unwrap();
        assert forall|j: int| 0 <= j < f.segments.len() implies (#[trigger] f.segments[j]).end_offset_ms
            * NANOS_PER_MILLI <= f.audio_duration.nanos by {
            assert(first[j].end_offset_ms <= max_end_offset_ms(first));
        }
        let k = choose|k: int| 0 <= k < first.len() && (#[trigger] first[k]).end_offset_ms
            == max_end_offset_ms(first);
        assert(f.segments[k].end_offset_ms * NANOS_PER_MILLI == f.audio_duration.nanos);
    }
}

/// The second half of a split begins where the first half ends, and the
/// two halves together last as long as the message: when both halves
/// exist, they are contiguous and their durations add up to the message's.
pub proof fn lemma_split_halves_cover_audio(message: MessageView, end_time: SystemTime)
    requires
        split_is_defined(message, end_time),
    ensures
        split_second_half(message, end_time) matches Some(second) ==> {
            &&& second.start_timestamp.nanos == message.start_timestamp.nanos + first_half_ms(
                message,
                end_time,
            ) * NANOS_PER_MILLI
            &&& first_half_ms(message, end_time) * NANOS_PER_MILLI + second.audio_duration.nanos
                == message.audio_duration.nanos
        },
        split_first_half(message, end_time) matches Some(first) ==> first.audio_duration.nanos
            == first_half_ms(message, end_time) * NANOS_PER_MILLI,
        split_first_half(message, end_time) matches Some(first) ==> split_second_half(
            message,
            end_time,
        ) matches Some(second) ==> {
            &&& first.audio_duration.nanos + second.audio_duration.nanos == message.audio_duration.nanos
            &&& second.start_timestamp.nanos == first.start_timestamp.nanos + first.audio_duration.nanos
        },
{
    let segs = message.segments;
    let shift = first_half_ms(message, end_time);
    lemma_ending_by_max(message, end_time, segs);
    if shift != 0 {
        let k = choose|k: int|
            0 <= k < segs.len() && ends_before(message, end_time, segs[k]) && segs[k].end_offset_ms
                == shift;
        assert(segment_end_time(message, segs[k]) <= u128::MAX);
    }
}

/// The shape of a transcript as Whisper produces it: each segment ends no
/// earlier than it starts, each starts no earlier than the one before it
/// ends, none ends past the audio, and the end of the audio is a valid time.
pub open spec fn segments_in_order(message: MessageView) -> bool {
    &&& forall|i: int|
        0 <= i < message.segments.len() ==> (#[trigger] message.segments[i]).start_offset_ms
            <= message.segments[i].end_offset_ms
    &&& forall|i: int, j: int|
        0 <= i < j < message.segments.len() ==> (#[trigger] message.segments[i]).end_offset_ms
            <= (#[trigger] message.segments[j]).start_offset_ms
    &&& forall|i: int|
        0 <= i < message.segments.len() ==> (#[trigger] message.segments[i]).end_offset_ms
            * NANOS_PER_MILLI <= message.audio_duration.nanos
    &&& message.start_timestamp.nanos + message.audio_duration.nanos <= u128::MAX
}

/// A transcript whose segments are in order can be split at any time.
pub proof fn lemma_ordered_splits_anywhere(message: MessageView, end_time: SystemTime)
    requires
        segments_in_order(message),
    ensures
        split_is_defined(message, end_time),
{
    let segs = message.segments;
    lemma_ending_by_max(message, end_time, segs);
    let shift = first_half_ms(message, end_time);
    assert forall|i: int| 0 <= i < segs.len() implies segment_end_time(message, #[trigger] segs[i])
        <= u128::MAX by {
        assert(segs[i].end_offset_ms * NANOS_PER_MILLI <= message.audio_duration.nanos);
    }
    if shift != 0 {
        let k = choose|k: int|
            0 <= k < segs.len() && ends_before(message, end_time, segs[k]) && segs[k].end_offset_ms
                == shift;
        assert(segs[k].end_offset_ms * NANOS_PER_MILLI <= message.audio_duration.nanos);
        assert forall|j: int|
            0 <= j < segs.len() && !ends_before(message, end_time, #[trigger] segs[j]) implies shift
            <= segs[j].start_offset_ms by {
            if j < k {
                assert(segs[j].end_offset_ms <= segs[k].start_offset_ms);
                assert(segs[k].start_offset_ms <= segs[k].end_offset_ms);
                assert(segs[k].end_offset_ms * NANOS_PER_MILLI < segs[j].end_offset_ms * NANOS_PER_MILLI);
            } else if j > k {
                assert(segs[k].end_offset_ms <= segs[j].start_offset_ms);
            }
        }
    }
}

/// Every segment that ends at or after `end_time` starts and ends no earlier than
/// the latest end among the segments that end before `end_time` (given the
/// start bound that `split_is_defined` demands).
proof fn lemma_ending_after_start_bound(
    message: MessageView,
    end_time: SystemTime,
    segments: Seq<SegmentView>,
)
    requires
        segments == message.segments,
        split_is_defined(message, end_time),
    ensures
        forall|j: int|
            0 <= j < segments_ending_at_or_after(message, end_time, segments).len() ==> first_half_ms(
                message,
                end_time,
            ) <= #[trigger] segments_ending_at_or_after(message, end_time, segments)[j].start_offset_ms,
        forall|j: int|
            0 <= j < segments_ending_at_or_after(message, end_time, segments).len() ==> first_half_ms(
                message,
                end_time,
            ) <= #[trigger] segments_ending_at_or_after(message, end_time, segments)[j].end_offset_ms,
{
    let shift = first_half_ms(message, end_time);
    lemma_ending_after_members(message, end_time, segments);
    lemma_ending_by_max(message, end_time, segments);
    assert forall|j: int|
        0 <= j < segments_ending_at_or_after(message, end_time, segments).len() implies shift
        <= #[trigger] segments_ending_at_or_after(message, end_time, segments)[j].start_offset_ms
        && shift <= segments_ending_at_or_after(message, end_time, segments)[j].end_offset_ms by {
        let s = segments_ending_at_or_after(message, end_time, segments)[j];
        let i = choose|i: int| 0 <= i < segments.len() && segments[i] == s;
        assert(!ends_before(message, end_time, segments[i]));
    }
}

/// Each segment that ends at or after `end_time` is one of the input segments,
/// and does not end before `end_time`.
proof fn lemma_ending_after_members(
    message: MessageView,
    end_time: SystemTime,
    segments: Seq<SegmentView>,
)
    ensures
        forall|j: int|
            0 <= j < segments_ending_at_or_after(message, end_time, segments).len() ==> exists|i: int|
                0 <= i < segments.len() && segments[i] == #[trigger] segments_ending_at_or_after(
                    message,
                    end_time,
                    segments,
                )[j],
        forall|j: int|
            0 <= j < segments_ending_at_or_after(message, end_time, segments).len() ==> !ends_before(
                message,
                end_time,
                #[trigger] segments_ending_at_or_after(message, end_time, segments)[j],
            ),
    decreases segments.len(),
{
    if segments.len() > 0 {
        let init = segments.drop_last();
        lemma_ending_after_members(message, end_time, init);
        let rest = segments_ending_at_or_after(message, end_time, init);
        let all = segments_ending_at_or_after(message, end_time, segments);
        assert forall|j: int| 0 <= j < all.len() implies exists|i: int|
            0 <= i < segments.len() && segments[i] == #[trigger] all[j] by {
            if j < rest.len() {
                let i = choose|i: int| 0 <= i < init.len() && init[i] == rest[j];
                assert(segments[i] == all[j]);
            } else {
                assert(segments[segments.len() - 1] == all[j]);
            }
        }
    }
}

/// Every segment that ends at or after `end_time`, among `segments`, ends later
/// than the latest end among those that end before it.
proof fn lemma_ending_by_max(message: MessageView, end_time: SystemTime, segments: Seq<SegmentView>)
    ensures
        forall|i: int|
            0 <= i < segments.len() && !ends_before(message, end_time, #[trigger] segments[i])
                ==> max_end_offset_ms(segments_ending_before(message, end_time, segments))
                <= segments[i].end_offset_ms,
        max_end_offset_ms(segments_ending_before(message, end_time, segments)) == 0 || exists|i: int|
            0 <= i < segments.len() && ends_before(message, end_time, segments[i])
                && segments[i].end_offset_ms == max_end_offset_ms(
                segments_ending_before(message, end_time, segments),
            ),
    decreases segments.len(),
{
    if segments.len() > 0 {
        let init = segments.drop_last();
        lemma_ending_by_max(message, end_time, init);
        let m0 = max_end_offset_ms(segments_ending_before(message, end_time, init));
        let m = max_end_offset_ms(segments_ending_before(message, end_time, segments));
        if ends_before(message, end_time, segments.last()) {
            assert(segments_ending_before(message, end_time, segments).drop_last() =~= segments_ending_before(
                message,
                end_time,
                init,
            ));
        }
        if m != 0 {
            if m == m0 {
                let k = choose|k: int|
                    0 <= k < init.len() && ends_before(message, end_time, init[k])
                        && init[k].end_offset_ms == m0;
                assert(segments[k] == init[k]);
            } else {
                assert(ends_before(message, end_time, segments.last()));
                assert(segments[segments.len() - 1] == segments.last());
            }
        }
        assert forall|i: int|
            0 <= i < segments.len() && !ends_before(message, end_time, #[trigger] segments[i]) implies m
            <= segments[i].end_offset_ms by {
            // a segment that ends at or after end_time ends later than any that ends before it
            if m != 0 {
                let k = choose|k: int|
                    0 <= k < segments.len() && ends_before(message, end_time, segments[k])
                        && segments[k].end_offset_ms == m;
                assert(segments[k].end_offset_ms * NANOS_PER_MILLI < segments[i].end_offset_ms
                    * NANOS_PER_MILLI);
            }
        }
    }
}

} // verus!

//! The decisions of the worker that owns one user's audio: when a
//! transcription is requested, what a strategy is told, and what is
//! published.
use vstd::prelude::*;

use std::collections::VecDeque;

use crate::api::api_types::{
    segments_token_ids, MessageView, SegmentView, TextSegment, TokenView, TranscribedMessage,
    VoiceChannelEvent,
};
use crate::audio::audio_buffer::{
    audio_after_discard, discard_is_defined, index_of, interval_is_silent, samples_duration,
    start_after_discard, AudioBuffer,
};
use crate::audio::events::{DiscordAudioData, TranscriptionRequest};
use crate::model::constants::{TOKENS_TO_KEEP, USER_SILENCE_TIMEOUT_MS, WHISPER_AUDIO_BUFFER_SIZE};
use crate::model::types::{UserId, WhisperToken};
use crate::strategies::strategy_trait::WorkerContext;
use crate::time::{Duration, NANOS_PER_MILLI};

verus! {

/// if we have this many tokens in a single segment, we'll assume the
/// AI is hallucinating and ignore it
pub const OUTRAGEOUSLY_MANY_TOKENS: usize = 100;

// ---------------------------------------------------------------------
// Recent tokens

/// The last `n` elements of `s` (all of them when there are fewer).
pub open spec fn keep_last(s: Seq<i32>, n: nat) -> Seq<i32> {
    if s.len() <= n {
        s
    } else {
        s.subrange(s.len() - n, s.len() as int)
    }
}

/// The most recent tokens, at most `TOKENS_TO_KEEP` of them.
pub struct BoundedTokenBuffer {
    tokens: VecDeque<WhisperToken>,
}

impl View for BoundedTokenBuffer {
    type V = Seq<WhisperToken>;

    closed spec fn view(&self) -> Seq<WhisperToken> {
        self.tokens@
    }
}

impl BoundedTokenBuffer {
    #[verifier::type_invariant]
    spec fn holds_at_most_tokens_to_keep(self) -> bool {
        self.tokens@.len() <= TOKENS_TO_KEEP
    }

    pub fn new() -> (b: BoundedTokenBuffer)
        ensures
            b@ == Seq::<WhisperToken>::empty(),
    {
        BoundedTokenBuffer { tokens: VecDeque::with_capacity(TOKENS_TO_KEEP) }
    }

    /// Adds a token, dropping the oldest when the buffer is full.
    pub fn add(&mut self, token: &WhisperToken)
        ensures
            final(self)@ == keep_last(old(self)@.push(*token), TOKENS_TO_KEEP as nat),
            final(self)@.len() <= TOKENS_TO_KEEP,
    {
        proof {
            use_type_invariant(&*self);
        }
        let ghost before = self.tokens@;
        let mut tokens = VecDeque::new();
        std::mem::swap(&mut tokens, &mut self.tokens);
        if tokens.len() == TOKENS_TO_KEEP {
            tokens.pop_front();
        }
        tokens.push_back(*token);
        assert(tokens@ =~= keep_last(before.push(*token), TOKENS_TO_KEEP as nat));
        self.tokens = tokens;
    }

    /// Adds tokens in order.
    pub fn add_all(&mut self, tokens: &[WhisperToken])
        ensures
            final(self)@ == keep_last(old(self)@ + tokens@, TOKENS_TO_KEEP as nat),
    {
        let ghost start = self@;
        proof {
            use_type_invariant(&*self);
            assert(start + tokens@.subrange(0, 0) =~= start);
        }
        let n = tokens.len();
        for i in 0..n
            invariant
                n == tokens@.len(),
                self@ == keep_last(start + tokens@.subrange(0, i as int), TOKENS_TO_KEEP as nat),
        {
            let ghost before = self@;
            self.add(&tokens[i]);
            proof {
                let s = start + tokens@.subrange(0, i as int);
                lemma_keep_last_push(s, tokens@[i as int], TOKENS_TO_KEEP as nat);
                assert(s.push(tokens@[i as int]) =~= start + tokens@.subrange(0, i + 1));
            }
        }
        assert(tokens@.subrange(0, n as int) =~= tokens@);
    }

    /// The tokens, oldest first.
    pub fn get(&self) -> (v: Vec<WhisperToken>)
        ensures
            v@ == self@,
    {
        let mut v: Vec<WhisperToken> = Vec::new();
        let n = self.tokens.len();
        for i in 0..n
            invariant
                n == self.tokens@.len(),
                v@ == self.tokens@.subrange(0, i as int),
        {
            v.push(self.tokens[i]);
            assert(v@ =~= self.tokens@.subrange(0, i + 1));
        }
        assert(self.tokens@.subrange(0, n as int) =~= self.tokens@);
        v
    }
}

/// Keeping the last `n` after each push is the same as keeping the last
/// `n` once at the end.
pub proof fn lemma_keep_last_push(s: Seq<i32>, t: i32, n: nat)
    requires
        n > 0,
    ensures
        keep_last(keep_last(s, n).push(t), n) == keep_last(s.push(t), n),
{
    assert(keep_last(keep_last(s, n).push(t), n) =~= keep_last(s.push(t), n));
}

/// Keeping the last `n` after each batch is the same as keeping the last
/// `n` once at the end: a token buffer that was handed `s`, by any run of
/// `add` and `add_all` calls, and is then handed `t`, holds the last `n`
/// of `s + t`.  So whatever calls filled it, it holds the newest `n`
/// tokens of all it was given, oldest first.
pub proof fn lemma_keep_last_append(s: Seq<i32>, t: Seq<i32>, n: nat)
    ensures
        keep_last(keep_last(s, n) + t, n) == keep_last(s + t, n),
{
    let k = keep_last(s, n);
    let lhs = keep_last(k + t, n);
    let rhs = keep_last(s + t, n);
    lemma_keep_last_is_newest(k + t, n);
    lemma_keep_last_is_newest(s + t, n);
    lemma_keep_last_is_newest(s, n);
    assert(lhs.len() == rhs.len());
    assert forall|i: int| 0 <= i < lhs.len() implies lhs[i] == rhs[i] by {
        let j = (s + t).len() - rhs.len() + i;
        let jk = (k + t).len() - lhs.len() + i;
        if j >= s.len() {
            assert((s + t)[j] == t[j - s.len()]);
            assert((k + t)[jk] == t[jk - k.len()]);
        } else {
            assert((s + t)[j] == s[j]);
            assert((k + t)[jk] == k[jk]);
        }
    }
    assert(lhs =~= rhs);
}

/// The token buffer holds the newest tokens, in the order they came, and
/// no more than it keeps: all of them until it fills, then just the last
/// `n`; the token added last is always its last.
pub proof fn lemma_keep_last_is_newest(s: Seq<i32>, n: nat)
    ensures
        keep_last(s, n).len() == if s.len() <= n {
            s.len()
        } else {
            n
        },
        forall|i: int|
            0 <= i < keep_last(s, n).len() ==> #[trigger] keep_last(s, n)[i] == s[s.len() - keep_last(
                s,
                n,
            ).len() + i],
        n > 0 && s.len() > 0 ==> keep_last(s, n).last() == s.last(),
{
}

// ---------------------------------------------------------------------
// Judging segments

/// The number of tokens with a probability of 50% or less.
pub open spec fn low_probability_count(tokens: Seq<TokenView>) -> nat
    decreases tokens.len(),
{
    if tokens.len() == 0 {
        0
    } else {
        low_probability_count(tokens.drop_last()) + if tokens.last().probability <= 50 {
            1nat
        } else {
            0nat
        }
    }
}

/// A segment is kept when no more than half its tokens have a low
/// probability, and it has fewer than `OUTRAGEOUSLY_MANY_TOKENS` tokens.
pub open spec fn valid_segment(segment: SegmentView) -> bool {
    let low = low_probability_count(segment.tokens);
    let high = segment.tokens.len() - low;
    &&& low <= high
    &&& segment.tokens.len() < OUTRAGEOUSLY_MANY_TOKENS
}

proof fn lemma_low_count_bound(tokens: Seq<TokenView>)
    ensures
        low_probability_count(tokens) <= tokens.len(),
    decreases tokens.len(),
{
    if tokens.len() > 0 {
        lemma_low_count_bound(tokens.drop_last());
    }
}

/// Whisper is great at spoken words, but isn't great at detecting
/// when it gets audio without any spoken words.  This heuristic
/// is to notice when it's produced a transcript which is probably
/// not at all audio, then discard it.
pub fn is_valid_segment(segment: &TextSegment) -> (valid: bool)
    ensures
        valid == valid_segment(segment@),
{
    // discard the transcript if more than half the tokens in it have a
    // probability of 50 or less
    let mut low_probability_tokens: usize = 0;
    let mut high_probability_tokens: usize = 0;
    let n = segment.tokens_with_probability.len();
    for i in 0..n
        invariant
            n == segment@.tokens.len(),
            low_probability_tokens == low_probability_count(segment@.tokens.take(i as int)),
            low_probability_tokens + high_probability_tokens == i,
    {
        proof {
            assert(segment@.tokens.take(i + 1).drop_last() =~= segment@.tokens.take(i as int));
        }
        if segment.tokens_with_probability[i].probability <= 50 {
            low_probability_tokens = low_probability_tokens + 1;
        } else {
            high_probability_tokens = high_probability_tokens + 1;
        }
    }
    assert(segment@.tokens.take(n as int) =~= segment@.tokens);
    if low_probability_tokens > high_probability_tokens {
        return false;
    }
    if (low_probability_tokens + high_probability_tokens) >= OUTRAGEOUSLY_MANY_TOKENS {
        return false;
    }
    true
}

// ---------------------------------------------------------------------
// Probability histogram

/// The histogram bucket of a probability: tenths, with 100% in the top one.
pub open spec fn bucket_of(probability: u32) -> int {
    if probability / 10 == 10 {
        9
    } else {
        (probability / 10) as int
    }
}

/// The number of tokens whose probability falls in `bucket`.
pub open spec fn bucket_count(tokens: Seq<TokenView>, bucket: int) -> nat
    decreases tokens.len(),
{
    if tokens.len() == 0 {
        0
    } else {
        bucket_count(tokens.drop_last(), bucket) + if bucket_of(tokens.last().probability) == bucket {
            1nat
        } else {
            0nat
        }
    }
}

/// The bar height of a bucket holding `count` of `total` tokens: 0 for an
/// empty bucket, else 1 to 4.
pub open spec fn bar_level(count: nat, total: nat) -> int {
    if count > 0 {
        (count * 3 / total + 1) as int
    } else {
        0
    }
}

pub open spec fn bar_char(level: int) -> char {
    if level == 0 {
        '▯'
    } else if level == 1 {
        '░'
    } else if level == 2 {
        '▒'
    } else if level == 3 {
        '▓'
    } else {
        '█'
    }
}

pub open spec fn digit_char(d: int) -> char {
    if d == 0 {
        '0'
    } else if d == 1 {
        '1'
    } else if d == 2 {
        '2'
    } else if d == 3 {
        '3'
    } else if d == 4 {
        '4'
    } else if d == 5 {
        '5'
    } else if d == 6 {
        '6'
    } else if d == 7 {
        '7'
    } else if d == 8 {
        '8'
    } else {
        '9'
    }
}

/// The decimal digits of `n`.
pub open spec fn decimal(n: nat) -> Seq<char>
    decreases n,
{
    if n < 10 {
        seq![digit_char(n as int)]
    } else {
        decimal(n / 10).push(digit_char((n % 10) as int))
    }
}

/// The bars of the first `k` buckets.
pub open spec fn histogram_bars(tokens: Seq<TokenView>, k: int) -> Seq<char>
    decreases k,
{
    if k <= 0 {
        Seq::empty()
    } else {
        histogram_bars(tokens, k - 1).push(
            bar_char(bar_level(bucket_count(tokens, k - 1), tokens.len())),
        )
    }
}

/// `[bars] (N tokens)`: one bar per tenth of probability, its height
/// showing the share of the segment's tokens that fall there.
pub open spec fn histogram_text(tokens: Seq<TokenView>) -> Seq<char> {
    seq!['['] + histogram_bars(tokens, 10) + seq![']', ' ', '('] + decimal(tokens.len()) + seq![
        ' ',
        't',
        'o',
        'k',
        'e',
        'n',
        's',
        ')',
    ]
}

fn digit_str(d: usize) -> (s: &'static str)
    requires
        d < 10,
    ensures
        s@ == seq![digit_char(d as int)],
{
    if d == 0 {
        proof { reveal_strlit("0"); }
        "0"
    } else if d == 1 {
        proof { reveal_strlit("1"); }
        "1"
    } else if d == 2 {
        proof { reveal_strlit("2"); }
        "2"
    } else if d == 3 {
        proof { reveal_strlit("3"); }
        "3"
    } else if d == 4 {
        proof { reveal_strlit("4"); }
        "4"
    } else if d == 5 {
        proof { reveal_strlit("5"); }
        "5"
    } else if d == 6 {
        proof { reveal_strlit("6"); }
        "6"
    } else if d == 7 {
        proof { reveal_strlit("7"); }
        "7"
    } else if d == 8 {
        proof { reveal_strlit("8"); }
        "8"
    } else {
        proof { reveal_strlit("9"); }
        "9"
    }
}

fn bar_str(level: usize) -> (s: &'static str)
    requires
        level <= 4,
    ensures
        s@ == seq![bar_char(level as int)],
{
    if level == 0 {
        proof { reveal_strlit("▯"); }
        "▯"
    } else if level == 1 {
        proof { reveal_strlit("░"); }
        "░"
    } else if level == 2 {
        proof { reveal_strlit("▒"); }
        "▒"
    } else if level == 3 {
        proof { reveal_strlit("▓"); }
        "▓"
    } else {
        proof { reveal_strlit("█"); }
        "█"
    }
}

/// Appends the decimal digits of `n`.
fn append_decimal(s: &mut String, n: usize)
    ensures
        final(s)@ == old(s)@ + decimal(n as nat),
    decreases n,
{
    if n >= 10 {
        append_decimal(s, n / 10);
    }
    s.append(digit_str(n % 10));
    proof {
        if n >= 10 {
            assert(old(s)@ + decimal((n / 10) as nat) + seq![digit_char((n % 10) as int)] =~= old(s)@
                + decimal(n as nat));
        } else {
            assert(n % 10 == n);
        }
    }
}

/// One step of counting: adding a token to `tokens` raises its bucket's
/// count by one.
proof fn lemma_bucket_count_push(tokens: Seq<TokenView>, t: TokenView, bucket: int)
    ensures
        bucket_count(tokens.push(t), bucket) == bucket_count(tokens, bucket) + if bucket_of(
            t.probability,
        ) == bucket {
            1nat
        } else {
            0nat
        },
{
    assert(tokens.push(t).drop_last() =~= tokens);
}

/// A text picture of how the token probabilities of a segment are
/// distributed, for the log.
pub fn probability_histogram(segment: &TextSegment) -> (text: String)
    requires
        forall|i: int|
            0 <= i < segment@.tokens.len() ==> #[trigger] segment@.tokens[i].probability <= 100,
        segment@.tokens.len() * 3 <= usize::MAX,
    ensures
        text@ == histogram_text(segment@.tokens),
{
    let ghost tokens = segment@.tokens;
    let mut histogram: Vec<usize> = vec![0, 0, 0, 0, 0, 0, 0, 0, 0, 0];
    let n = segment.tokens_with_probability.len();
    for i in 0..n
        invariant
            n == tokens.len(),
            tokens == segment@.tokens,
            forall|j: int| 0 <= j < tokens.len() ==> #[trigger] tokens[j].probability <= 100,
            histogram@.len() == 10,
            forall|b: int| 0 <= b < 10 ==> #[trigger] histogram@[b] == bucket_count(tokens.take(i as int), b),
            forall|b: int| 0 <= b < 10 ==> #[trigger] histogram@[b] <= i,
    {
        let p = segment.tokens_with_probability[i].probability;
        assert(p == tokens[i as int].probability);
        let bucket = (p / 10) as usize;
        let b = if bucket == 10 {
            // we don't have a bucket for 100%, so put it in the 90% bucket
            9
        } else {
            bucket
        };
        proof {
            assert(tokens.take(i + 1) =~= tokens.take(i as int).push(tokens[i as int]));
            assert forall|c: int| 0 <= c < 10 implies bucket_count(tokens.take(i + 1), c)
                == bucket_count(tokens.take(i as int), c) + if b == c {
                1nat
            } else {
                0nat
            } by {
                lemma_bucket_count_push(tokens.take(i as int), tokens[i as int], c);
            }
        }
        histogram.set(b, histogram[b] + 1);
    }
    assert(tokens.take(n as int) =~= tokens);

    // sum all the tokens
    let mut total: usize = 0;
    for b in 0..10
        invariant
            histogram@.len() == 10,
            forall|c: int| 0 <= c < 10 ==> #[trigger] histogram@[c] == bucket_count(tokens, c),
            total == buckets_total(tokens, b as int),
            total <= n,
            n == tokens.len(),
            forall|j: int| 0 <= j < tokens.len() ==> #[trigger] tokens[j].probability <= 100,
    {
        proof {
            lemma_buckets_total_bound(tokens, b + 1);
        }
        total = total + histogram[b];
    }
    proof {
        lemma_buckets_total_all(tokens);
    }
    assert(total == n);

    let mut result = String::new();
    proof {
        reveal_strlit("[");
    }
    result.append("[");
    for b in 0..10
        invariant
            histogram@.len() == 10,
            forall|c: int| 0 <= c < 10 ==> #[trigger] histogram@[c] == bucket_count(tokens, c),
            total == tokens.len(),
            total * 3 <= usize::MAX,
            result@ == seq!['['] + histogram_bars(tokens, b as int),
    {
        let count = histogram[b];
        proof {
            lemma_bucket_count_bound(tokens, b as int);
        }
        let level = if count > 0 {
            assert((count * 3) as int / (total as int) <= 3) by (nonlinear_arith)
                requires
                    count <= total,
                    total > 0,
            ;
            count * 3 / total + 1
        } else {
            0
        };
        result.append(bar_str(level));
        assert(seq!['['] + histogram_bars(tokens, b + 1) =~= seq!['['] + histogram_bars(tokens, b as int)
            + seq![bar_char(level as int)]);
    }
    proof {
        reveal_strlit("] (");
        reveal_strlit(" tokens)");
    }
    result.append("] (");
    append_decimal(&mut result, total);
    result.append(" tokens)");
    assert(result@ =~= histogram_text(tokens));
    result
}

/// The sum of the counts of the first `k` buckets.
pub open spec fn buckets_total(tokens: Seq<TokenView>, k: int) -> nat
    decreases k,
{
    if k <= 0 {
        0
    } else {
        buckets_total(tokens, k - 1) + bucket_count(tokens, k - 1)
    }
}

proof fn lemma_bucket_count_bound(tokens: Seq<TokenView>, bucket: int)
    ensures
        bucket_count(tokens, bucket) <= tokens.len(),
    decreases tokens.len(),
{
    if tokens.len() > 0 {
        lemma_bucket_count_bound(tokens.drop_last(), bucket);
    }
}

proof fn lemma_buckets_total_bound(tokens: Seq<TokenView>, k: int)
    requires
        0 <= k <= 10,
        forall|j: int| 0 <= j < tokens.len() ==> #[trigger] tokens[j].probability <= 100,
    ensures
        buckets_total(tokens, k) <= tokens.len(),
{
    lemma_buckets_total_all(tokens);
    lemma_buckets_total_monotone(tokens, k, 10);
}

proof fn lemma_buckets_total_monotone(tokens: Seq<TokenView>, k: int, m: int)
    requires
        0 <= k <= m,
    ensures
        buckets_total(tokens, k) <= buckets_total(tokens, m),
    decreases m - k,
{
    if k < m {
        lemma_buckets_total_monotone(tokens, k, m - 1);
    }
}

/// Every token of probability at most 100 falls in one of the ten buckets.
proof fn lemma_buckets_total_all(tokens: Seq<TokenView>)
    requires
        forall|j: int| 0 <= j < tokens.len() ==> #[trigger] tokens[j].probability <= 100,
    ensures
        buckets_total(tokens, 10) == tokens.len(),
    decreases tokens.len(),
{
    if tokens.len() > 0 {
        let init = tokens.drop_last();
        assert forall|j: int| 0 <= j < init.len() implies #[trigger] init[j].probability <= 100 by {
            assert(init[j] == tokens[j]);
        }
        lemma_buckets_total_all(init);
        let t = tokens.last();
        assert(t == tokens[tokens.len() - 1]);
        assert(0 <= bucket_of(t.probability) < 10);
        lemma_buckets_total_step(tokens, 10);
    } else {
        lemma_buckets_total_of_nothing(tokens, 10);
    }
}

proof fn lemma_buckets_total_of_nothing(tokens: Seq<TokenView>, k: int)
    requires
        tokens.len() == 0,
    ensures
        buckets_total(tokens, k) == 0,
    decreases k,
{
    if k > 0 {
        lemma_buckets_total_of_nothing(tokens, k - 1);
    }
}

proof fn lemma_buckets_total_step(tokens: Seq<TokenView>, k: int)
    requires
        tokens.len() > 0,
        0 <= k,
    ensures
        buckets_total(tokens, k) == buckets_total(tokens.drop_last(), k) + if bucket_of(
            tokens.last().probability,
        ) < k {
            1nat
        } else {
            0nat
        },
    decreases k,
{
    if k > 0 {
        lemma_buckets_total_step(tokens, k - 1);
    }
}


// ---------------------------------------------------------------------
// The worker's decisions

/// The segments (in order) that `is_valid_segment` keeps.
pub open spec fn valid_segments(segments: Seq<SegmentView>) -> Seq<SegmentView>
    decreases segments.len(),
{
    if segments.len() == 0 {
        Seq::empty()
    } else {
        let rest = valid_segments(segments.drop_last());
        if valid_segment(segments.last()) {
            rest.push(segments.last())
        } else {
            rest
        }
    }
}

/// The span of silence that must follow a transcript's audio before the
/// transcript can be taken whole.
pub open spec fn silence_timeout() -> Duration {
    Duration { nanos: (USER_SILENCE_TIMEOUT_MS * NANOS_PER_MILLI) as u128 }
}

/// The state that one user's worker keeps between events: the user's
/// audio, and the tokens of what was last published for them.
pub struct UserAudioWorker {
    pub audio_buffer: AudioBuffer,
    pub last_tokens: BoundedTokenBuffer,
}

impl UserAudioWorker {
    pub fn new(user_id: UserId) -> (w: UserAudioWorker)
        ensures
            w.audio_buffer.audio@.len() == 0,
            w.audio_buffer.start_time.is_none(),
            w.audio_buffer.slice_id == user_id,
            w.last_tokens@ == Seq::<WhisperToken>::empty(),
    {
        UserAudioWorker { audio_buffer: AudioBuffer::new(user_id), last_tokens: BoundedTokenBuffer::new() }
    }

    /// The transcription timer fired.  Returns the request to hand to the
    /// transcriber: all the buffered audio, seeded with the recent tokens.
    /// Nothing is requested while another transcription is pending, nor
    /// while the buffer has not started.
    pub fn on_transcription_due(&self, pending_is_empty: bool) -> (r: Option<TranscriptionRequest>)
        ensures
            r.is_some() == (self.audio_buffer.start_time.is_some() && pending_is_empty),
            r matches Some(req) ==> {
                &&& req.audio_data@ == self.audio_buffer.audio@
                &&& req.audio_duration == samples_duration(self.audio_buffer.audio@.len() as int)
                &&& req.previous_tokens@ == self.last_tokens@
                &&& req.start_timestamp == self.audio_buffer.start_time.unwrap().1
                &&& req.user_id == self.audio_buffer.slice_id
            },
    {
        match self.audio_buffer.make_transcription_request(self.last_tokens.get()) {
            Some(request) => if pending_is_empty {
                Some(request)
            } else {
                None
            },
            None => None,
        }
    }

    /// New audio arrived from the user.
    pub fn on_audio(&mut self, audio: &DiscordAudioData)
        ensures
            final(self).last_tokens@ == old(self).last_tokens@,
            final(self).audio_buffer.slice_id == old(self).audio_buffer.slice_id,
            !crate::audio::audio_buffer::accepts_audio(
                old(self).audio_buffer.start_time,
                audio.rtc_timestamp,
                audio.discord_audio@,
            ) ==> {
                &&& final(self).audio_buffer.audio@ == old(self).audio_buffer.audio@
                &&& final(self).audio_buffer.start_time == old(self).audio_buffer.start_time
            },
            crate::audio::audio_buffer::accepts_audio(
                old(self).audio_buffer.start_time,
                audio.rtc_timestamp,
                audio.discord_audio@,
            ) ==> {
                &&& final(self).audio_buffer.audio@ == crate::audio::audio_buffer::overwrite(
                    old(self).audio_buffer.audio@,
                    crate::audio::audio_buffer::landing_index(
                        old(self).audio_buffer.start_time,
                        audio.rtc_timestamp,
                    ),
                    crate::audio::audio_buffer::mono_frames(audio.discord_audio@),
                )
                &&& old(self).audio_buffer.start_time.is_some() ==> final(self).audio_buffer.start_time
                    == old(self).audio_buffer.start_time
                &&& old(self).audio_buffer.start_time.is_none() ==> (final(self).audio_buffer.start_time
                    matches Some((rtc, _)) && rtc == audio.rtc_timestamp)
            },
    {
        self.audio_buffer.add_audio(&audio.rtc_timestamp, audio.discord_audio.as_slice());
    }

    /// What the strategy is told about a transcript that came back: how
    /// much audio is buffered now, and whether the silence timeout after
    /// the transcript's audio holds only silence.
    pub fn transcription_context(&self, transcript: &TranscribedMessage) -> (c: WorkerContext)
        requires
            index_of(transcript.audio_duration) + index_of(silence_timeout()) <= usize::MAX,
        ensures
            c.audio_duration == samples_duration(self.audio_buffer.audio@.len() as int),
            c.silent_after == interval_is_silent(
                self.audio_buffer.audio@,
                index_of(transcript.audio_duration),
                index_of(silence_timeout()),
            ),
    {
        let timeout = Duration::from_millis(USER_SILENCE_TIMEOUT_MS);
        WorkerContext {
            audio_duration: self.audio_buffer.buffer_duration(),
            silent_after: self.audio_buffer.is_interval_silent(&transcript.audio_duration, &timeout),
        }
    }

    /// Publish a transcription to the API.
    /// This is called when we have a final transcription.
    /// In addition, publishing has these side-effects:
    /// - the audio associated with the transcription is removed from the buffer
    /// - the tokens associated with the transcription are added to last_tokens
    ///
    /// Returns the event to send, or `None` when no segment of the
    /// transcription survives the filter for spurious segments.
    pub fn publish(&mut self, transcription: TranscribedMessage) -> (event: Option<VoiceChannelEvent>)
        requires
            discard_is_defined(
                old(self).audio_buffer.audio@.len() as int,
                old(self).audio_buffer.start_time,
                transcription.audio_duration,
            ),
        ensures
            final(self).audio_buffer.slice_id == old(self).audio_buffer.slice_id,
            final(self).audio_buffer.audio@ == audio_after_discard(
                old(self).audio_buffer.audio@,
                transcription.audio_duration,
            ),
            final(self).audio_buffer.start_time == start_after_discard(
                old(self).audio_buffer.audio@.len() as int,
                old(self).audio_buffer.start_time,
                transcription.audio_duration,
            ),
            valid_segments(transcription@.segments).len() == 0 ==> {
                &&& event.is_none()
                &&& final(self).last_tokens@ == old(self).last_tokens@
            },
            valid_segments(transcription@.segments).len() != 0 ==> {
                &&& event matches Some(VoiceChannelEvent::TranscribedMessage(m)) && m@ == MessageView {
                    segments: valid_segments(transcription@.segments),
                    ..transcription@
                }
                &&& final(self).last_tokens@ == keep_last(
                    old(self).last_tokens@ + segments_token_ids(valid_segments(transcription@.segments)),
                    TOKENS_TO_KEEP as nat,
                )
            },
    {
        // remove the audio associated with this transcription
        self.audio_buffer.discard_audio(&transcription.audio_duration);

        // filter out any "spurious" segments from the transcription
        let ghost segments = transcription@.segments;
        let mut kept: Vec<TextSegment> = Vec::new();
        let n = transcription.segments.len();
        for i in 0..n
            invariant
                n == segments.len(),
                segments == transcription@.segments,
                kept@.map_values(|s: TextSegment| s@) =~= valid_segments(segments.take(i as int)),
        {
            proof {
                assert(segments.take(i + 1).drop_last() =~= segments.take(i as int));
                assert(segments[i as int] == transcription.segments@[i as int]@);
            }
            if is_valid_segment(&transcription.segments[i]) {
                kept.push(transcription.segments[i].clone());
            }
        }
        assert(segments.take(n as int) =~= segments);

        // if the transcription is empty, don't send it.
        // we still needed to remove the audio, though.
        if kept.len() == 0 {
            return None;
        }
        let message = TranscribedMessage {
            start_timestamp: transcription.start_timestamp,
            user_id: transcription.user_id,
            segments: kept,
            audio_duration: transcription.audio_duration,
            processing_time: transcription.processing_time,
        };

        // add the tokens from this transcription to our last_tokens
        let ids = message.token_ids();
        self.last_tokens.add_all(ids.as_slice());
        Some(VoiceChannelEvent::TranscribedMessage(message))
    }

    /// Whether the failsafe should move the transcription timer: there is
    /// buffered audio, nothing is pending, and the buffer would fill before
    /// the timer fires.
    pub fn needs_failsafe_transcription(&self, pending_is_empty: bool, next_transcription_delay: Duration) -> (b: bool)
        requires
            self.audio_buffer.audio@.len() <= WHISPER_AUDIO_BUFFER_SIZE,
        ensures
            b == (!(self.audio_buffer.audio@.len() == 0 && self.audio_buffer.start_time.is_none())
                && pending_is_empty && samples_duration(
                WHISPER_AUDIO_BUFFER_SIZE - self.audio_buffer.audio@.len(),
            ).nanos < next_transcription_delay.nanos),
    {
        !self.audio_buffer.is_empty() && pending_is_empty
            && self.audio_buffer.remaining_capacity().nanos < next_transcription_delay.nanos
    }
}

} // verus!

//! What the library keeps of Whisper's output, and when it asks Whisper at
//! all.  Whisper itself runs outside the library: it hands back, for each
//! segment it found, the segment's times and its tokens, any of which it may
//! fail to report.
use vstd::prelude::*;
use vstd::string::StrSliceExecFns;

use crate::api::api_types::{SegmentView, TextSegment, TokenView, TokenWithProbability};
use crate::audio::audio_buffer::{level_below_threshold, measure_range, rms_below_threshold};
use crate::model::types::{WhisperAudioSample, WhisperToken, WhisperTokenProbabilityPercentage};

verus! {

/// The token id recorded when Whisper cannot report a token's id.
pub const FALLBACK_TOKEN_ID: WhisperToken = 1;

/// The probability (in percent) recorded when Whisper cannot report a
/// token's probability.
pub const FALLBACK_PROBABILITY: WhisperTokenProbabilityPercentage = 1;

/// Whisper reports segment times in units of this many milliseconds.
pub const SEGMENT_TIME_UNIT_MS: u32 = 10;

/// One token as Whisper reported it: `None` where it failed to report.
#[derive(Debug)]
pub struct RawToken {
    pub text: Option<String>,
    pub token_id: Option<WhisperToken>,
    /// The token's probability, in percent.
    pub probability: Option<WhisperTokenProbabilityPercentage>,
}

/// One segment as Whisper reported it: its start and end times (in units of
/// `SEGMENT_TIME_UNIT_MS`), `None` where it failed to report them, and its
/// tokens in order.
#[derive(Debug)]
pub struct RawSegment {
    pub t0: Option<i64>,
    pub t1: Option<i64>,
    pub tokens: Vec<RawToken>,
}

pub struct RawTokenView {
    pub text: Option<Seq<char>>,
    pub token_id: Option<WhisperToken>,
    pub probability: Option<WhisperTokenProbabilityPercentage>,
}

pub struct RawSegmentView {
    pub t0: Option<i64>,
    pub t1: Option<i64>,
    pub tokens: Seq<RawTokenView>,
}

impl View for RawToken {
    type V = RawTokenView;

    open spec fn view(&self) -> RawTokenView {
        RawTokenView {
            text: match self.text {
                Some(t) => Some(t@),
                None => None,
            },
            token_id: self.token_id,
            probability: self.probability,
        }
    }
}

impl View for RawSegment {
    type V = RawSegmentView;

    open spec fn view(&self) -> RawSegmentView {
        RawSegmentView {
            t0: self.t0,
            t1: self.t1,
            tokens: self.tokens@.map_values(|t: RawToken| t@),
        }
    }
}

/// The segments Whisper reported, by their views.
pub open spec fn raw_segments_view(raw: Seq<RawSegment>) -> Seq<RawSegmentView> {
    raw.map_values(|s: RawSegment| s@)
}

// ---------------------------------------------------------------------
// Which tokens are kept

/// The text Whisper emits at the end of its output.
pub open spec fn end_of_text_marker() -> Seq<char> {
    seq!['<', '|', 'e', 'n', 'd', 'o', 'f', 't', 'e', 'x', 't', '|', '>']
}

/// Tokens that carry no speech: the end-of-text marker, and any token of
/// the form `[_...]`.
pub open spec fn is_ignored_text(text: Seq<char>) -> bool {
    ||| text == end_of_text_marker()
    ||| (text.len() >= 2 && text[0] == '[' && text[1] == '_' && text.last() == ']')
}

/// The token kept for a token Whisper reported, if any: one whose text
/// Whisper could not report is skipped, and so is one that carries no
/// speech; an id or probability that Whisper could not report takes its
/// fallback value.
pub open spec fn kept_token(raw: RawTokenView) -> Option<TokenView> {
    match raw.text {
        None => None,
        Some(text) => if is_ignored_text(text) {
            None
        } else {
            Some(
                TokenView {
                    probability: match raw.probability {
                        Some(p) => p,
                        None => FALLBACK_PROBABILITY,
                    },
                    token_id: match raw.token_id {
                        Some(id) => id,
                        None => FALLBACK_TOKEN_ID,
                    },
                    token_text: text,
                },
            )
        },
    }
}

/// The tokens kept, in order, of those Whisper reported.
pub open spec fn kept_tokens(raw: Seq<RawTokenView>) -> Seq<TokenView>
    decreases raw.len(),
{
    if raw.len() == 0 {
        Seq::empty()
    } else {
        let rest = kept_tokens(raw.drop_last());
        match kept_token(raw.last()) {
            Some(t) => rest.push(t),
            None => rest,
        }
    }
}

/// No kept token is one without speech, and no more tokens are kept than
/// Whisper reported.
pub proof fn lemma_kept_tokens_carry_speech(raw: Seq<RawTokenView>)
    ensures
        kept_tokens(raw).len() <= raw.len(),
        forall|i: int|
            0 <= i < kept_tokens(raw).len() ==> !is_ignored_text(#[trigger] kept_tokens(raw)[i].token_text),
    decreases raw.len(),
{
    if raw.len() > 0 {
        lemma_kept_tokens_carry_speech(raw.drop_last());
        let rest = kept_tokens(raw.drop_last());
        assert forall|i: int|
            0 <= i < kept_tokens(raw).len() implies !is_ignored_text(
            #[trigger] kept_tokens(raw)[i].token_text) by {
            if i < rest.len() {
                assert(kept_tokens(raw)[i] == rest[i]);
            }
        }
    }
}

/// Tells whether Whisper's token text carries no speech (see
/// `is_ignored_text`).
pub fn ignore_token(token_text: &str) -> (b: bool)
    ensures
        b == is_ignored_text(token_text@),
{
    let n = token_text.unicode_len();
    let marker: Vec<char> = vec!['<', '|', 'e', 'n', 'd', 'o', 'f', 't', 'e', 'x', 't', '|', '>'];
    assert(marker@ =~= end_of_text_marker());
    let mut is_marker = n == marker.len();
    let mut i: usize = 0;
    while is_marker && i < n
        invariant
            n == token_text@.len(),
            marker@ == end_of_text_marker(),
            i <= n,
            is_marker ==> n == marker@.len(),
            is_marker ==> forall|j: int| 0 <= j < i ==> token_text@[j] == marker@[j],
            !is_marker ==> token_text@ != end_of_text_marker(),
        decreases n - i,
    {
        if token_text.get_char(i) != marker[i] {
            is_marker = false;
        }
        i = i + 1;
    }
    if is_marker {
        assert(token_text@ =~= end_of_text_marker());
        return true;
    }
    n >= 2 && token_text.get_char(0) == '[' && token_text.get_char(1) == '_' && token_text.get_char(
        n - 1,
    ) == ']'
}

fn kept_token_of(raw: &RawToken) -> (r: Option<TokenWithProbability>)
    ensures
        match r {
            Some(t) => kept_token(raw@) == Some(t@),
            None => kept_token(raw@).is_none(),
        },
{
    match &raw.text {
        None => None,
        Some(text) => {
            if ignore_token(text.as_str()) {
                None
            } else {
                let probability = match raw.probability {
                    Some(p) => p,
                    None => FALLBACK_PROBABILITY,
                };
                let token_id = match raw.token_id {
                    Some(id) => id,
                    None => FALLBACK_TOKEN_ID,
                };
                Some(TokenWithProbability { probability, token_id, token_text: text.clone() })
            }
        },
    }
}

// ---------------------------------------------------------------------
// Segments

/// Where segment `index` starts, in milliseconds: Whisper's start time, or
/// the segment's index where Whisper could not report it.
pub open spec fn segment_start_ms(index: int, raw: RawSegmentView) -> int {
    SEGMENT_TIME_UNIT_MS * match raw.t0 {
        Some(t) => (t as u32) as int,
        None => (index as u32) as int,
    }
}

/// Where segment `index` ends, in milliseconds: Whisper's end time, or one
/// past its start where Whisper could not report it.
pub open spec fn segment_end_ms(index: int, raw: RawSegmentView) -> int {
    SEGMENT_TIME_UNIT_MS * match raw.t1 {
        Some(t) => (t as u32) as int,
        None => segment_start_ms(index, raw) + 1,
    }
}

/// The segments' times fit in milliseconds as a `u32`.
pub open spec fn offsets_fit(raw: Seq<RawSegmentView>) -> bool {
    forall|i: int|
        0 <= i < raw.len() ==> segment_start_ms(i, #[trigger] raw[i]) <= u32::MAX && segment_end_ms(
            i,
            raw[i],
        ) <= u32::MAX
}

/// The text segment made of Whisper's segment `index`.
pub open spec fn assembled_segment(index: int, raw: RawSegmentView) -> SegmentView {
    SegmentView {
        start_offset_ms: segment_start_ms(index, raw) as u32,
        end_offset_ms: segment_end_ms(index, raw) as u32,
        tokens: kept_tokens(raw.tokens),
    }
}

/// Tells whether `offsets_fit` holds of Whisper's segments.
pub fn segment_offsets_fit(raw: &Vec<RawSegment>) -> (b: bool)
    ensures
        b == offsets_fit(raw_segments_view(raw@)),
{
    let n = raw.len();
    for i in 0..n
        invariant
            n == raw@.len(),
            forall|j: int|
                0 <= j < i ==> segment_start_ms(j, #[trigger] raw_segments_view(raw@)[j]) <= u32::MAX
                    && segment_end_ms(j, raw_segments_view(raw@)[j]) <= u32::MAX,
    {
        let segment = &raw[i];
        assert(raw_segments_view(raw@)[i as int] == segment@);
        let start_units: u64 = match segment.t0 {
            Some(t) => t as u32 as u64,
            None => i as u32 as u64,
        };
        let start = start_units * (SEGMENT_TIME_UNIT_MS as u64);
        if start > u32::MAX as u64 {
            return false;
        }
        let end_units: u64 = match segment.t1 {
            Some(t) => t as u32 as u64,
            None => start + 1,
        };
        if end_units * (SEGMENT_TIME_UNIT_MS as u64) > u32::MAX as u64 {
            return false;
        }
    }
    true
}

/// The text segments made of what Whisper reported, one per segment in
/// order: each with its start and end in milliseconds and the tokens kept
/// (see `kept_token`).
pub fn assemble_segments(raw: &Vec<RawSegment>) -> (segments: Vec<TextSegment>)
    requires
        offsets_fit(raw_segments_view(raw@)),
    ensures
        segments@.len() == raw@.len(),
        forall|i: int|
            0 <= i < raw@.len() ==> (#[trigger] segments@[i])@ == assembled_segment(i, raw@[i]@),
{
    let mut segments: Vec<TextSegment> = Vec::new();
    let n = raw.len();
    for i in 0..n
        invariant
            n == raw@.len(),
            offsets_fit(raw_segments_view(raw@)),
            segments@.len() == i,
            forall|j: int| 0 <= j < i ==> (#[trigger] segments@[j])@ == assembled_segment(j, raw@[j]@),
    {
        let segment = &raw[i];
        assert(raw_segments_view(raw@)[i as int] == segment@);
        let mut tokens: Vec<TokenWithProbability> = Vec::new();
        let m = segment.tokens.len();
        for j in 0..m
            invariant
                m == segment.tokens@.len(),
                tokens@.map_values(|t: TokenWithProbability| t@) == kept_tokens(
                    segment@.tokens.take(j as int),
                ),
        {
            proof {
                assert(segment@.tokens.take(j + 1).drop_last() =~= segment@.tokens.take(j as int));
                assert(segment@.tokens.take(j + 1).last() == segment.tokens@[j as int]@);
            }
            match kept_token_of(&segment.tokens[j]) {
                Some(t) => {
                    let ghost before = tokens@;
                    tokens.push(t);
                    assert(tokens@.map_values(|t: TokenWithProbability| t@) =~= before.map_values(
                        |t: TokenWithProbability| t@,
                    ).push(t@));
                },
                None => {},
            }
        }
        assert(segment@.tokens.take(m as int) =~= segment@.tokens);
        let start_units: u32 = match segment.t0 {
            Some(t) => t as u32,
            None => i as u32,
        };
        let start_offset_ms = SEGMENT_TIME_UNIT_MS * start_units;
        let end_units: u32 = match segment.t1 {
            Some(t) => t as u32,
            None => start_offset_ms + 1,
        };
        let end_offset_ms = SEGMENT_TIME_UNIT_MS * end_units;
        let text_segment = TextSegment {
            start_offset_ms,
            end_offset_ms,
            tokens_with_probability: tokens,
        };
        assert(text_segment@ == assembled_segment(i as int, raw@[i as int]@));
        segments.push(text_segment);
    }
    segments
}

// ---------------------------------------------------------------------
// Whether to ask Whisper at all

/// Audio is worth sending to Whisper unless its root-mean-square level is
/// below the silence threshold.  (An empty stretch has no level, and is
/// sent.)
pub fn worth_transcribing(audio: &Vec<WhisperAudioSample>) -> (b: bool)
    ensures
        b == !rms_below_threshold(audio@),
{
    let (_zero, squares) = measure_range(audio, 0, audio.len());
    assert(audio@.subrange(0, audio@.len() as int) =~= audio@);
    !level_below_threshold(squares, audio.len())
}

} // verus!

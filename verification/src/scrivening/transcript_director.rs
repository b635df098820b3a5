//! Determines when transcriptions should be attempted, and which parts of
//! the transcripts that come back are final.
use vstd::prelude::*;

use std::collections::VecDeque;

use crate::api::api_types::{
    ends_before, lemma_first_half_ends_before, opt_message_view, segments_token_ids, split_first_half, split_is_defined, split_second_half,
    MessageView, TranscribedMessage,
};
use crate::audio::audio_buffer::{
    accepts_audio, all_zero_i16, audio_after_discard, discard_is_defined, index_of,
    interval_is_silent,
    landing_index, mono_frames, overwrite, samples_duration, start_after_discard, AudioBuffer,
};
use crate::audio::events::TranscriptionRequest;
use crate::model::constants::{
    AUTO_TRANSCRIPTION_PERIOD_MS, SILENT_TIMEOUT_SECS, TOKENS_TO_KEEP, USER_SILENCE_TIMEOUT_MS,
};
use crate::model::types::{DiscordAudioSample, DiscordRtcTimestamp, WhisperToken};
use crate::scrivening::worker::{keep_last, lemma_keep_last_push};
use crate::time::{
    elapsed_since, instant_now, max_std_duration_nanos, now, Duration, SystemTime, NANOS_PER_MILLI,
    NANOS_PER_SEC,
};

verus! {

/// How far past the current time the cutoff of a final request lies: far
/// enough that every segment counts as final.
pub const FINAL_REQUEST_HORIZON_SECS: u64 = 1000;

pub struct LastRequestInfo {
    pub start_time: SystemTime,
    pub original_duration: Duration,
    pub audio_trimmed_since_request: Duration,
    pub in_progress: bool,
    pub requested_at: SystemTime,
    pub final_request: bool,
}

impl LastRequestInfo {
    /// The part of the requested audio still in the buffer.
    pub fn effective_duration(&self) -> (d: Duration)
        requires
            self.audio_trimmed_since_request.nanos <= self.original_duration.nanos,
        ensures
            d.nanos == self.original_duration.nanos - self.audio_trimmed_since_request.nanos,
    {
        self.original_duration.minus(self.audio_trimmed_since_request)
    }
}

pub struct TranscriptDirector {
    pub user_idle: bool,
    pub last_request: Option<LastRequestInfo>,
    pub tentative_transcript_opt: Option<TranscribedMessage>,
    pub user_silent: bool,
    pub last_silent_time: std::time::Instant,
    pub slice_id: u64,
    /// The most recent tokens we've seen from this
    /// user.  Used to help inform the decoder.
    /// Maximum length is TOKENS_TO_KEEP.
    pub last_tokens: VecDeque<WhisperToken>,
    pub slice: AudioBuffer,
}

/// The whole periods of `AUTO_TRANSCRIPTION_PERIOD_MS` in `d`.
pub open spec fn period_of(d: Duration) -> int {
    (d.nanos / NANOS_PER_MILLI) as int / AUTO_TRANSCRIPTION_PERIOD_MS as int
}

/// True when a transcription is due, given how long ago the silence clock
/// was last reset: the buffer holds audio, and either the user went idle,
/// or no request is in flight and either the user has been silent for
/// longer than the hysteresis interval or the buffer has entered a new
/// period since the last request.
pub open spec fn transcription_due(d: TranscriptDirector, silent_elapsed: Duration) -> bool {
    if d.slice.audio@.len() == 0 && d.slice.start_time.is_none() {
        false
    } else if d.user_idle {
        true
    } else if d.last_request matches Some(r) && r.in_progress {
        false
    } else if d.user_silent && silent_elapsed.nanos > SILENT_TIMEOUT_SECS * NANOS_PER_SEC {
        true
    } else {
        let current_period = period_of(samples_duration(d.slice.audio@.len() as int));
        let last_period = match d.last_request {
            Some(r) => period_of(
                Duration {
                    nanos: (r.original_duration.nanos - r.audio_trimmed_since_request.nanos) as u128,
                },
            ),
            None => 0,
        };
        last_period != current_period
    }
}

/// True when deciding that a transcription is due also restarts the
/// silence clock.
pub open spec fn silence_clock_restarts(d: TranscriptDirector, silent_elapsed: Duration) -> bool {
    &&& !(d.slice.audio@.len() == 0 && d.slice.start_time.is_none())
    &&& !d.user_idle
    &&& !(d.last_request matches Some(r) && r.in_progress)
    &&& d.user_silent
    &&& silent_elapsed.nanos > SILENT_TIMEOUT_SECS * NANOS_PER_SEC
}

/// The request a due transcription records: the buffer's start and
/// length, made `now`, final when the user is idle.
pub open spec fn new_request_info(d: TranscriptDirector, now: SystemTime) -> LastRequestInfo {
    LastRequestInfo {
        start_time: d.slice.start_time.unwrap().1,
        original_duration: samples_duration(d.slice.audio@.len() as int),
        audio_trimmed_since_request: Duration { nanos: 0 },
        in_progress: true,
        requested_at: now,
        final_request: d.user_idle,
    }
}

/// True when the buffer's audio was already requested, as it stands.
pub open spec fn repeats_last_request(d: TranscriptDirector) -> bool {
    d.last_request matches Some(r) && r.start_time == d.slice.start_time.unwrap().1
        && r.original_duration == samples_duration(d.slice.audio@.len() as int)
}

/// The time before which a transcript's segments count as final: just
/// after `now` for a final request, else a silence timeout before the
/// request was made.
pub open spec fn response_cutoff(r: LastRequestInfo, now: SystemTime) -> SystemTime {
    if r.final_request {
        SystemTime { nanos: (now.nanos + FINAL_REQUEST_HORIZON_SECS * NANOS_PER_SEC) as u128 }
    } else {
        SystemTime { nanos: (r.requested_at.nanos - USER_SILENCE_TIMEOUT_MS * NANOS_PER_MILLI) as u128 }
    }
}

/// True when a response answers the last request: same start, same length.
pub open spec fn answers_last_request(d: TranscriptDirector, message: MessageView) -> bool {
    d.last_request matches Some(r) && r.start_time == message.start_timestamp
        && r.original_duration == message.audio_duration
}

/// True when a transcript can be taken whole at `now`: a silence timeout
/// has passed since the end of its audio, and the buffered audio in that
/// timeout after it is silent (see `interval_is_silent`).
pub open spec fn shortcut_applies(audio: Seq<i32>, message: MessageView, now: SystemTime) -> bool {
    let end = message.start_timestamp.nanos + message.audio_duration.nanos;
    &&& end <= now.nanos
    &&& now.nanos - end >= USER_SILENCE_TIMEOUT_MS * NANOS_PER_MILLI
    &&& interval_is_silent(audio, index_of(message.audio_duration), USER_SILENCE_TIMEOUT_MS * 16)
}

/// The length of audio a response makes final when it is split.
pub open spec fn finalized_length(message: MessageView, cutoff: SystemTime) -> Duration {
    match split_first_half(message, cutoff) {
        Some(first) => first.audio_duration,
        None => Duration { nanos: 0 },
    }
}

/// When a response is split, the audio the director discards is just the
/// audio of the part it publishes as final (none when it publishes nothing),
/// and that part holds only segments that end before the cutoff.
pub proof fn lemma_discards_what_it_publishes(message: MessageView, cutoff: SystemTime)
    ensures
        split_first_half(message, cutoff) matches Some(first) ==> {
            &&& finalized_length(message, cutoff) == first.audio_duration
            &&& forall|j: int|
                0 <= j < first.segments.len() ==> ends_before(message, cutoff, #[trigger] first.segments[j])
        },
        split_first_half(message, cutoff).is_none() ==> finalized_length(message, cutoff).nanos == 0,
{
    lemma_first_half_ends_before(message, cutoff);
}

/// What the director keeps as its tentative transcript after a split
/// response: the second half, when no audio has arrived since.
pub open spec fn kept_tentative(message: MessageView, cutoff: SystemTime, audio_len: int) -> Option<
    MessageView,
> {
    match split_second_half(message, cutoff) {
        Some(second) => if second.audio_duration == samples_duration(audio_len) {
            Some(second)
        } else {
            None
        },
        None => None,
    }
}

/// The inputs on which handling `message` at `now` is defined: the times
/// and indexes it computes stay in range, and the transcript can be split
/// where it must be.
pub open spec fn response_is_defined(
    d: TranscriptDirector,
    message: MessageView,
    now: SystemTime,
) -> bool {
    answers_last_request(d, message) ==> {
        let r = d.last_request.unwrap();
        &&& index_of(message.audio_duration) + USER_SILENCE_TIMEOUT_MS * 16 <= usize::MAX
        &&& message.start_timestamp.nanos + message.audio_duration.nanos <= u128::MAX
        &&& r.audio_trimmed_since_request.nanos + message.audio_duration.nanos <= u128::MAX
        &&& d.slice.start_time matches Some((_, t)) ==> t.nanos + message.audio_duration.nanos
            <= u128::MAX
        &&& r.final_request ==> now.nanos + FINAL_REQUEST_HORIZON_SECS * NANOS_PER_SEC <= u128::MAX
        &&& !r.final_request ==> USER_SILENCE_TIMEOUT_MS * NANOS_PER_MILLI <= r.requested_at.nanos
        &&& split_is_defined(message, response_cutoff(r, now))
    }
}

/// What handling a transcript that came back at `now` does to a director:
/// a transcript that does not answer the last request changes nothing; one
/// that does is either taken whole (see `shortcut_applies`) or split at the
/// cutoff, and the request is no longer in flight.  `r` is what is returned.
pub open spec fn response_handled(
    before: TranscriptDirector,
    after: TranscriptDirector,
    message: MessageView,
    now: SystemTime,
    r: Option<MessageView>,
) -> bool {
    &&& (!answers_last_request(before, message) ==> {
        &&& r.is_none()
        &&& after.last_request == before.last_request
        &&& after.tentative_transcript_opt == before.tentative_transcript_opt
        &&& after.last_tokens@ == before.last_tokens@
        &&& after.slice == before.slice
    })
    &&& (answers_last_request(before, message) && shortcut_applies(
        before.slice.audio@,
        message,
        now,
    ) ==> {
        let lr = before.last_request.unwrap();
        &&& r == Some(message)
        &&& after.tentative_transcript_opt.is_none()
        &&& after.last_tokens@ == before.last_tokens@
        &&& after.slice.audio@ == audio_after_discard(before.slice.audio@, message.audio_duration)
        &&& after.slice.start_time == start_after_discard(
            before.slice.audio@.len() as int,
            before.slice.start_time,
            message.audio_duration,
        )
        &&& after.last_request == Some(
            LastRequestInfo {
                in_progress: false,
                audio_trimmed_since_request: Duration {
                    nanos: (lr.audio_trimmed_since_request.nanos
                        + message.audio_duration.nanos) as u128,
                },
                ..lr
            },
        )
    })
    &&& (answers_last_request(before, message) && !shortcut_applies(
        before.slice.audio@,
        message,
        now,
    ) ==> {
        let lr = before.last_request.unwrap();
        let cutoff = response_cutoff(lr, now);
        let finalized = finalized_length(message, cutoff);
        let audio = audio_after_discard(before.slice.audio@, finalized);
        &&& r == split_first_half(message, cutoff)
        &&& after.slice.audio@ == audio
        &&& after.slice.start_time == start_after_discard(
            before.slice.audio@.len() as int,
            before.slice.start_time,
            finalized,
        )
        &&& after.last_request == Some(
            LastRequestInfo {
                in_progress: false,
                audio_trimmed_since_request: Duration {
                    nanos: (lr.audio_trimmed_since_request.nanos + finalized.nanos) as u128,
                },
                ..lr
            },
        )
        &&& opt_message_view(after.tentative_transcript_opt) == kept_tentative(
            message,
            cutoff,
            audio.len() as int,
        )
        &&& after.last_tokens@ == match split_first_half(message, cutoff) {
            Some(first) => keep_last(
                before.last_tokens@ + segments_token_ids(first.segments),
                TOKENS_TO_KEEP as nat,
            ),
            None => before.last_tokens@,
        }
    })
}

/// A transcript whose handling is defined whatever the clock reads.
pub open spec fn response_defined_whenever(d: TranscriptDirector, message: MessageView) -> bool {
    forall|now: SystemTime|
        now.nanos <= max_std_duration_nanos() ==> #[trigger] response_is_defined(d, message, now)
}

/// What recording a request does, given whether one is `ready`, at `now`:
/// nothing when none is ready or the buffer has not started; a repeat of
/// the last request only marks it final when the user is idle; any other
/// request is recorded as the last one and returned as `r`.
pub open spec fn request_made(
    before: TranscriptDirector,
    after: TranscriptDirector,
    ready: bool,
    now: SystemTime,
    r: Option<TranscriptionRequest>,
) -> bool {
    &&& (!ready || before.slice.start_time.is_none() ==> r.is_none() && after.last_request
        == before.last_request)
    &&& (ready && before.slice.start_time.is_some() && repeats_last_request(before) ==> {
        &&& r.is_none()
        &&& after.last_request == Some(
            LastRequestInfo {
                final_request: before.last_request.unwrap().final_request || before.user_idle,
                ..before.last_request.unwrap()
            },
        )
    })
    &&& (ready && before.slice.start_time.is_some() && !repeats_last_request(before) ==> {
        &&& after.last_request == Some(new_request_info(before, now))
        &&& (r matches Some(req) && req.audio_data@ == before.slice.audio@ && req.audio_duration
            == samples_duration(before.slice.audio@.len() as int) && req.previous_tokens@
            == before.last_tokens@ && req.start_timestamp == before.slice.start_time.unwrap().1
            && req.user_id == before.slice_id)
    })
}

/// When a transcription is due: never for a buffer that holds nothing and
/// has not started; always when the user is idle and it has (with no
/// restart of the silence clock); and otherwise never while the last
/// request is still in flight, so a request is never sent over a pending
/// one.  In that last case no request is made and the last request stays.
pub proof fn lemma_when_transcription_due(
    d: TranscriptDirector,
    silent_elapsed: Duration,
    after: TranscriptDirector,
    now: SystemTime,
    r: Option<TranscriptionRequest>,
)
    ensures
        d.slice.audio@.len() == 0 && d.slice.start_time.is_none() ==> !transcription_due(
            d,
            silent_elapsed,
        ) && !silence_clock_restarts(d, silent_elapsed),
        !(d.slice.audio@.len() == 0 && d.slice.start_time.is_none()) && d.user_idle
            ==> transcription_due(d, silent_elapsed) && !silence_clock_restarts(d, silent_elapsed),
        (d.last_request matches Some(lr) && lr.in_progress) && !d.user_idle ==> {
            &&& !transcription_due(d, silent_elapsed)
            &&& !silence_clock_restarts(d, silent_elapsed)
            &&& request_made(d, after, transcription_due(d, silent_elapsed), now, r) ==> r.is_none()
                && after.last_request == d.last_request
        },
{
}

/// A response is taken whole only when the buffered audio in the silence
/// timeout after its audio is silent.  When that stretch holds sound, an
/// answer to a request that was not final is split: every segment returned
/// ends before the request's time less the silence timeout.
pub proof fn lemma_sound_after_prevents_shortcut(
    before: TranscriptDirector,
    after: TranscriptDirector,
    message: MessageView,
    now: SystemTime,
    r: Option<MessageView>,
)
    requires
        !interval_is_silent(
            before.slice.audio@,
            index_of(message.audio_duration),
            USER_SILENCE_TIMEOUT_MS * 16,
        ),
    ensures
        !shortcut_applies(before.slice.audio@, message, now),
        answers_last_request(before, message) && !before.last_request.unwrap().final_request
            && USER_SILENCE_TIMEOUT_MS * NANOS_PER_MILLI <= before.last_request.unwrap().requested_at.nanos
            && response_handled(before, after, message, now, r) ==> (r matches Some(m) ==> forall|j: int|
            0 <= j < m.segments.len() ==> message.start_timestamp.nanos + (#[trigger] m.segments[j]).end_offset_ms
                * NANOS_PER_MILLI < before.last_request.unwrap().requested_at.nanos - USER_SILENCE_TIMEOUT_MS
                * NANOS_PER_MILLI),
{
    if answers_last_request(before, message) {
        lemma_first_half_ends_before(message, response_cutoff(before.last_request.unwrap(), now));
    }
}

impl TranscriptDirector {
    /// The director's own invariant: a tentative transcript covers exactly
    /// the buffered audio, and at most `TOKENS_TO_KEEP` tokens are kept.
    pub open spec fn wf(&self) -> bool {
        &&& self.tentative_transcript_opt matches Some(t) ==> t.audio_duration == samples_duration(
            self.slice.audio@.len() as int,
        )
        &&& self.last_tokens@.len() <= TOKENS_TO_KEEP
    }

    pub fn new(slice_id: u64) -> (d: TranscriptDirector)
        ensures
            d.wf(),
            !d.user_idle,
            d.last_request.is_none(),
            d.tentative_transcript_opt.is_none(),
            !d.user_silent,
            d.slice_id == slice_id,
            d.last_tokens@.len() == 0,
            d.slice.audio@.len() == 0,
            d.slice.start_time.is_none(),
            d.slice.slice_id == slice_id,
    {
        TranscriptDirector {
            user_idle: false,
            last_request: None,
            slice: AudioBuffer::new(slice_id),
            slice_id,
            tentative_transcript_opt: None,
            user_silent: false,
            last_silent_time: instant_now(),
            last_tokens: VecDeque::with_capacity(TOKENS_TO_KEEP),
        }
    }

    /// Forgets the last request and any tentative transcript, and marks the
    /// user silent.  The buffered audio stays.
    pub fn clear(&mut self)
        ensures
            final(self).last_request.is_none(),
            final(self).tentative_transcript_opt.is_none(),
            final(self).user_silent,
            final(self).user_idle == old(self).user_idle,
            final(self).last_silent_time == old(self).last_silent_time,
            final(self).slice_id == old(self).slice_id,
            final(self).last_tokens@ == old(self).last_tokens@,
            final(self).slice == old(self).slice,
    {
        self.last_request = None;
        self.tentative_transcript_opt = None;
        self.user_silent = true;
    }

    pub fn set_silent(&mut self)
        ensures
            final(self).user_silent,
            final(self).user_idle == old(self).user_idle,
            final(self).last_request == old(self).last_request,
            final(self).tentative_transcript_opt == old(self).tentative_transcript_opt,
            final(self).last_silent_time == old(self).last_silent_time,
            final(self).slice_id == old(self).slice_id,
            final(self).last_tokens@ == old(self).last_tokens@,
            final(self).slice == old(self).slice,
    {
        self.user_silent = true;
    }

    /// Adds audio from the user.  A packet of pure silence that arrives
    /// while the user is marked silent is ignored; any other packet marks
    /// the user as speaking, goes to the buffer, and voids the tentative
    /// transcript.
    pub fn add_audio(&mut self, rtc_timestamp: &DiscordRtcTimestamp, discord_audio: &[DiscordAudioSample])
        requires
            old(self).wf(),
        ensures
            final(self).wf(),
            final(self).last_request == old(self).last_request,
            final(self).last_silent_time == old(self).last_silent_time,
            final(self).slice_id == old(self).slice_id,
            final(self).last_tokens@ == old(self).last_tokens@,
            final(self).slice.slice_id == old(self).slice.slice_id,
            old(self).user_silent && all_zero_i16(discord_audio@) ==> {
                &&& final(self).user_silent
                &&& final(self).user_idle == old(self).user_idle
                &&& opt_message_view(final(self).tentative_transcript_opt) == opt_message_view(
                    old(self).tentative_transcript_opt,
                )
                &&& final(self).slice.audio@ == old(self).slice.audio@
                &&& final(self).slice.start_time == old(self).slice.start_time
            },
            !(old(self).user_silent && all_zero_i16(discord_audio@)) ==> {
                &&& !final(self).user_silent
                &&& !final(self).user_idle
                &&& final(self).tentative_transcript_opt.is_none()
                &&& !accepts_audio(old(self).slice.start_time, *rtc_timestamp, discord_audio@) ==> {
                    &&& final(self).slice.audio@ == old(self).slice.audio@
                    &&& final(self).slice.start_time == old(self).slice.start_time
                }
                &&& accepts_audio(old(self).slice.start_time, *rtc_timestamp, discord_audio@)
                    ==> final(self).slice.audio@ == overwrite(
                    old(self).slice.audio@,
                    landing_index(old(self).slice.start_time, *rtc_timestamp),
                    mono_frames(discord_audio@),
                )
            },
    {
        // it seems like we get called with a single packet of silence right
        // after we are marked as silent.  Look for this and discard it.
        if self.user_silent {
            let mut silent = true;
            let n = discord_audio.len();
            for i in 0..n
                invariant
                    n == discord_audio@.len(),
                    silent == (forall|j: int| 0 <= j < i ==> discord_audio@[j] == 0),
            {
                if discord_audio[i] != 0 {
                    silent = false;
                }
            }
            if silent {
                return;
            }
        }
        self.user_silent = false;
        self.user_idle = false;
        self.slice.add_audio(rtc_timestamp, discord_audio);
        self.tentative_transcript_opt = None;
    }

    /// Whether a transcription is due, and whether deciding so restarts
    /// the silence clock, given the time since the silence clock was last
    /// restarted.
    pub fn transcription_due_given(&self, silent_elapsed: Duration) -> (r: (bool, bool))
        requires
            self.last_request matches Some(lr) ==> lr.audio_trimmed_since_request.nanos
                <= lr.original_duration.nanos,
        ensures
            r.0 == transcription_due(*self, silent_elapsed),
            r.1 == silence_clock_restarts(*self, silent_elapsed),
    {
        if self.slice.is_empty() {
            return (false, false);
        }
        if self.user_idle {
            // the slice is user_idle, but we haven't requested the full
            // buffer yet, so request it
            return (true, false);
        }
        match &self.last_request {
            Some(last_request) => if last_request.in_progress {
                // we already have a pending request, so we don't need to
                // make another one
                return (false, false);
            },
            None => {},
        }
        if self.user_silent {
            // if the user is silent, then we need to request the full
            // buffer, even if no period shift has occurred
            if silent_elapsed.nanos > Duration::from_secs(SILENT_TIMEOUT_SECS).nanos {
                return (true, true);
            }
        }
        let current_period = self.slice.buffer_duration().as_millis() / AUTO_TRANSCRIPTION_PERIOD_MS;
        let last_period = match &self.last_request {
            Some(last_request_info) => last_request_info.effective_duration().as_millis()
                / AUTO_TRANSCRIPTION_PERIOD_MS,
            None => 0,
        };
        (last_period != current_period, false)
    }

    fn is_ready_for_transcription(&mut self) -> (ready: bool)
        requires
            old(self).last_request matches Some(lr) ==> lr.audio_trimmed_since_request.nanos
                <= lr.original_duration.nanos,
        ensures
            exists|e: Duration|
                ready == #[trigger] transcription_due(*old(self), e) && (!silence_clock_restarts(
                    *old(self),
                    e,
                ) ==> final(self).last_silent_time == old(self).last_silent_time),
            final(self).user_idle == old(self).user_idle,
            final(self).user_silent == old(self).user_silent,
            final(self).last_request == old(self).last_request,
            final(self).tentative_transcript_opt == old(self).tentative_transcript_opt,
            final(self).slice_id == old(self).slice_id,
            final(self).last_tokens@ == old(self).last_tokens@,
            final(self).slice == old(self).slice,
    {
        let elapsed = elapsed_since(&self.last_silent_time);
        let (ready, restart) = self.transcription_due_given(elapsed);
        if restart {
            self.last_silent_time = instant_now();
        }
        ready
    }

    /// Records and returns a request for the buffered audio, if one is
    /// `ready` and it would not repeat the last request; a repeat made
    /// when the user is idle marks the last request final.
    pub fn request_transcription_at(&mut self, ready: bool, now: SystemTime) -> (r: Option<
        TranscriptionRequest,
    >)
        requires
            old(self).wf(),
        ensures
            final(self).wf(),
            final(self).user_idle == old(self).user_idle,
            final(self).user_silent == old(self).user_silent,
            final(self).last_silent_time == old(self).last_silent_time,
            final(self).slice_id == old(self).slice_id,
            final(self).last_tokens@ == old(self).last_tokens@,
            final(self).slice == old(self).slice,
            final(self).tentative_transcript_opt == old(self).tentative_transcript_opt,
            request_made(*old(self), *final(self), ready, now, r),
    {
        if !ready {
            return None;
        }
        match self.slice.start_time {
            Some((_, start_time)) => {
                let duration = self.slice.buffer_duration();
                let new_request = LastRequestInfo {
                    start_time,
                    audio_trimmed_since_request: Duration::zero(),
                    original_duration: duration,
                    in_progress: true,
                    requested_at: now,
                    final_request: self.user_idle,
                };
                let repeat = match &self.last_request {
                    Some(last_request) => last_request.start_time.nanos == start_time.nanos
                        && last_request.original_duration.nanos == duration.nanos,
                    None => false,
                };
                if repeat {
                    // if this is our final request, make sure the last request
                    // has the final flag set
                    if new_request.final_request {
                        match &mut self.last_request {
                            Some(last_request) => {
                                last_request.final_request = true;
                            },
                            None => {},
                        }
                    }
                    return None;
                }
                self.last_request = Some(new_request);
                let previous_tokens = copy_tokens(&self.last_tokens);
                Some(
                    TranscriptionRequest {
                        audio_data: crate::audio::audio_buffer::copy_samples(&self.slice.audio),
                        audio_duration: duration,
                        previous_tokens,
                        start_timestamp: start_time,
                        user_id: self.slice_id,
                    },
                )
            },
            None => None,
        }
    }

    /// Makes a transcription request when one is due (see
    /// `transcription_due`), recording it as the last request; the time of
    /// the request is read from the wall clock.
    pub fn make_transcription_request(&mut self) -> (r: Option<TranscriptionRequest>)
        requires
            old(self).wf(),
            old(self).last_request matches Some(lr) ==> lr.audio_trimmed_since_request.nanos
                <= lr.original_duration.nanos,
        ensures
            final(self).wf(),
            final(self).user_idle == old(self).user_idle,
            final(self).user_silent == old(self).user_silent,
            final(self).slice_id == old(self).slice_id,
            final(self).last_tokens@ == old(self).last_tokens@,
            final(self).slice == old(self).slice,
            final(self).tentative_transcript_opt == old(self).tentative_transcript_opt,
            r.is_some() ==> exists|e: Duration| transcription_due(*old(self), e),
            r.is_some() ==> old(self).slice.start_time.is_some() && !repeats_last_request(*old(self)),
            r matches Some(req) ==> {
                &&& req.audio_data@ == old(self).slice.audio@
                &&& req.audio_duration == samples_duration(old(self).slice.audio@.len() as int)
                &&& req.previous_tokens@ == old(self).last_tokens@
                &&& req.start_timestamp == old(self).slice.start_time.unwrap().1
                &&& req.user_id == old(self).slice_id
                &&& (final(self).last_request matches Some(lr) && lr == LastRequestInfo {
                    requested_at: lr.requested_at,
                    ..new_request_info(*old(self), lr.requested_at)
                })
            },
            exists|e: Duration, now: SystemTime|
                #[trigger] request_made(
                    *old(self),
                    *final(self),
                    transcription_due(*old(self), e),
                    now,
                    r,
                ) && (!silence_clock_restarts(*old(self), e) ==> final(self).last_silent_time
                    == old(self).last_silent_time),
    {
        let ready = self.is_ready_for_transcription();
        let ghost e = choose|e: Duration|
            ready == #[trigger] transcription_due(*old(self), e) && (!silence_clock_restarts(*old(self), e)
                ==> self.last_silent_time == old(self).last_silent_time);
        let now = now();
        let r = self.request_transcription_at(ready, now);
        assert(request_made(*old(self), *self, transcription_due(*old(self), e), now, r));
        r
    }

    /// Adds the tokens of a transcript to the recent tokens.
    pub fn add_tokens(&mut self, message: &TranscribedMessage)
        requires
            old(self).last_tokens@.len() <= TOKENS_TO_KEEP,
        ensures
            final(self).last_tokens@ == keep_last(
                old(self).last_tokens@ + segments_token_ids(message@.segments),
                TOKENS_TO_KEEP as nat,
            ),
            final(self).last_tokens@.len() <= TOKENS_TO_KEEP,
            final(self).user_idle == old(self).user_idle,
            final(self).user_silent == old(self).user_silent,
            final(self).last_request == old(self).last_request,
            final(self).tentative_transcript_opt == old(self).tentative_transcript_opt,
            final(self).last_silent_time == old(self).last_silent_time,
            final(self).slice_id == old(self).slice_id,
            final(self).slice == old(self).slice,
    {
        let ids = message.token_ids();
        let ghost start = self.last_tokens@;
        proof {
            assert(start + ids@.subrange(0, 0) =~= start);
        }
        let n = ids.len();
        for i in 0..n
            invariant
                n == ids@.len(),
                self.last_tokens@ == keep_last(start + ids@.subrange(0, i as int), TOKENS_TO_KEEP as nat),
                self.last_tokens@.len() <= TOKENS_TO_KEEP,
                start.len() <= TOKENS_TO_KEEP,
                self.user_idle == old(self).user_idle,
                self.user_silent == old(self).user_silent,
                self.last_request == old(self).last_request,
                self.tentative_transcript_opt == old(self).tentative_transcript_opt,
                self.last_silent_time == old(self).last_silent_time,
                self.slice_id == old(self).slice_id,
                self.slice == old(self).slice,
        {
            let ghost before = self.last_tokens@;
            self.last_tokens.push_back(ids[i]);
            if self.last_tokens.len() > TOKENS_TO_KEEP {
                self.last_tokens.pop_front();
            }
            proof {
                let s = start + ids@.subrange(0, i as int);
                lemma_keep_last_push(s, ids@[i as int], TOKENS_TO_KEEP as nat);
                assert(s.push(ids@[i as int]) =~= start + ids@.subrange(0, i + 1));
                assert(self.last_tokens@ =~= keep_last(before.push(ids@[i as int]), TOKENS_TO_KEEP as nat));
            }
        }
        assert(ids@.subrange(0, n as int) =~= ids@);
    }

    /// The user went idle.  Returns the tentative transcript, if there is
    /// one, and then clears the director; it covers all the buffered audio,
    /// since any newer audio would have voided it.
    pub fn handle_user_idle(&mut self) -> (r: Option<TranscribedMessage>)
        requires
            old(self).wf(),
        ensures
            final(self).wf(),
            final(self).user_idle,
            opt_message_view(r) == opt_message_view(old(self).tentative_transcript_opt),
            final(self).slice_id == old(self).slice_id,
            final(self).last_tokens@ == old(self).last_tokens@,
            final(self).slice == old(self).slice,
            final(self).last_silent_time == old(self).last_silent_time,
            old(self).tentative_transcript_opt.is_none() ==> {
                &&& final(self).last_request == old(self).last_request
                &&& final(self).user_silent == old(self).user_silent
                &&& final(self).tentative_transcript_opt.is_none()
            },
            old(self).tentative_transcript_opt.is_some() ==> {
                &&& final(self).last_request.is_none()
                &&& final(self).user_silent
                &&& final(self).tentative_transcript_opt.is_none()
            },
    {
        self.user_idle = true;
        match self.tentative_transcript_opt.take() {
            None => None,
            Some(tentative_transcript) => {
                self.clear();
                Some(tentative_transcript)
            },
        }
    }

    /// True when a transcript can be taken whole at `now` (see
    /// `shortcut_applies`).  A transcript whose audio ends after `now` is
    /// not taken.
    pub fn shortcut_tentative_transcripts(&self, message: &TranscribedMessage, now: SystemTime) -> (b:
        bool)
        requires
            message.start_timestamp.nanos + message.audio_duration.nanos <= u128::MAX,
            index_of(message.audio_duration) + USER_SILENCE_TIMEOUT_MS * 16 <= usize::MAX,
        ensures
            b == shortcut_applies(self.slice.audio@, message@, now),
    {
        // has enough time elapsed since the end of the transcript that we
        // can expect its following audio to be in the buffer?
        let end_of_transcript = message.start_timestamp.plus(message.audio_duration);
        let timeout = Duration::from_millis(USER_SILENCE_TIMEOUT_MS);
        match now.duration_since(end_of_transcript) {
            None => false,
            Some(time_since_transcript_end) => {
                if time_since_transcript_end.nanos < timeout.nanos {
                    return false;
                }
                // did we receive any audio from the silent period?
                self.slice.is_interval_silent(&message.audio_duration, &timeout)
            },
        }
    }

    /// Discards audio from the front of the buffer, and counts it as
    /// trimmed from the last request.
    pub fn discard_audio(&mut self, duration: &Duration)
        requires
            discard_is_defined(old(self).slice.audio@.len() as int, old(self).slice.start_time, *duration),
            old(self).last_request matches Some(r) ==> r.audio_trimmed_since_request.nanos
                + duration.nanos <= u128::MAX,
        ensures
            final(self).slice.audio@ == audio_after_discard(old(self).slice.audio@, *duration),
            final(self).slice.start_time == start_after_discard(
                old(self).slice.audio@.len() as int,
                old(self).slice.start_time,
                *duration,
            ),
            final(self).slice.slice_id == old(self).slice.slice_id,
            final(self).last_request == match old(self).last_request {
                Some(r) => Some(
                    LastRequestInfo {
                        audio_trimmed_since_request: Duration {
                            nanos: (r.audio_trimmed_since_request.nanos + duration.nanos) as u128,
                        },
                        ..r
                    },
                ),
                None => None,
            },
            final(self).user_idle == old(self).user_idle,
            final(self).user_silent == old(self).user_silent,
            final(self).tentative_transcript_opt == old(self).tentative_transcript_opt,
            final(self).last_silent_time == old(self).last_silent_time,
            final(self).slice_id == old(self).slice_id,
            final(self).last_tokens@ == old(self).last_tokens@,
    {
        self.slice.discard_audio(duration);
        // also update the last_request duration
        match &mut self.last_request {
            Some(last_request) => {
                last_request.audio_trimmed_since_request = last_request.audio_trimmed_since_request.plus(
                    *duration,
                );
            },
            None => {},
        }
    }

    /// Handles a transcript that came back, at wall-clock time `now`.
    ///
    /// A transcript that does not answer the last request is ignored.
    /// Otherwise the request is no longer in flight, and:
    ///  - if a silence timeout has passed after the transcript's audio and
    ///    was silent, the transcript is final as a whole: its audio is
    ///    discarded and it is returned;
    ///  - else it is split at the cutoff (see `response_cutoff`): the audio
    ///    of the first half is discarded and its tokens are kept, the
    ///    second half is kept as tentative if no audio has arrived since,
    ///    and the first half, if any, is returned.
    pub fn handle_transcription_response_at(
        &mut self,
        message: &TranscribedMessage,
        now: SystemTime,
    ) -> (r: Option<TranscribedMessage>)
        requires
            old(self).wf(),
            response_is_defined(*old(self), message@, now),
        ensures
            final(self).wf(),
            final(self).user_idle == old(self).user_idle,
            final(self).user_silent == old(self).user_silent,
            final(self).last_silent_time == old(self).last_silent_time,
            final(self).slice_id == old(self).slice_id,
            final(self).slice.slice_id == old(self).slice.slice_id,
            response_handled(*old(self), *final(self), message@, now, opt_message_view(r)),
    {
        // if we had more than one request in flight, we need to
        // ignore all but the latest
        let (final_request, requested_at) = match &self.last_request {
            Some(last_request) => {
                if last_request.start_time.nanos != message.start_timestamp.nanos {
                    return None;
                }
                if message.audio_duration.nanos != last_request.original_duration.nanos {
                    return None;
                }
                (last_request.final_request, last_request.requested_at)
            },
            None => {
                // this can happen if we've cleared the buffer but had
                // an outstanding transcription request
                return None;
            },
        };
        let ghost lr = self.last_request.unwrap();
        match &mut self.last_request {
            Some(last_request) => {
                last_request.in_progress = false;
            },
            None => {},
        }

        if self.shortcut_tentative_transcripts(message, now) {
            self.tentative_transcript_opt = None;
            self.discard_audio(&message.audio_duration);
            return Some(message.clone());
        }

        // figure out how many segments have an end time that's more
        // than USER_SILENCE_TIMEOUT ago.  Those will be returned to
        // the caller in a Transcription.
        // The remainder, if any, will be kept in tentative_transcription,
        // but only if we haven't seen new audio since the response was generated.
        let end_time = if final_request {
            // if this is the final request, then we want to keep all
            // segments
            now.plus(Duration::from_secs(FINAL_REQUEST_HORIZON_SECS))
        } else {
            requested_at.minus(Duration::from_millis(USER_SILENCE_TIMEOUT_MS))
        };
        assert(end_time == response_cutoff(lr, now));
        let (user_idle_transcript, tentative_transcript) = TranscribedMessage::split_at_end_time(
            message,
            end_time,
        );
        proof {
            crate::api::api_types::lemma_first_half_within_audio(message@, end_time);
        }

        // with our user_idle transcription, we can now discard
        // the audio that was used to generate it.  Be sure to
        // only discard exactly as much audio as was represented
        // by the user_idle transcription, or the times will not line up.
        let finalized_duration = match &user_idle_transcript {
            Some(t) => t.audio_duration,
            None => Duration::zero(),
        };
        assert(finalized_duration == finalized_length(message@, end_time));
        self.discard_audio(&finalized_duration);

        // if the remaining audio length is the same as the tentative
        // transcription, that means no new audio has arrived in the
        // meantime, so we can keep the tentative transcription.
        let remaining = self.slice.buffer_duration();
        self.tentative_transcript_opt = match tentative_transcript {
            Some(t) => if remaining.nanos == t.audio_duration.nanos {
                Some(t)
            } else {
                None
            },
            None => None,
        };

        match user_idle_transcript {
            None => None,
            Some(t) => {
                self.add_tokens(&t);
                Some(t)
            },
        }
    }

    /// Handles a transcript that came back (see
    /// `handle_transcription_response_at`), reading the time from the wall
    /// clock.
    pub fn handle_transcription_response(&mut self, message: &TranscribedMessage) -> (r: Option<
        TranscribedMessage,
    >)
        requires
            old(self).wf(),
            response_defined_whenever(*old(self), message@),
        ensures
            final(self).wf(),
            final(self).user_idle == old(self).user_idle,
            final(self).user_silent == old(self).user_silent,
            final(self).slice_id == old(self).slice_id,
            exists|now: SystemTime|
                now.nanos <= max_std_duration_nanos() && #[trigger] response_handled(
                    *old(self),
                    *final(self),
                    message@,
                    now,
                    opt_message_view(r),
                ),
    {
        let now = now();
        assert(response_is_defined(*old(self), message@, now));
        let r = self.handle_transcription_response_at(message, now);
        assert(response_handled(*old(self), *self, message@, now, opt_message_view(r)));
        r
    }
}

/// A copy of the recent tokens, oldest first.
fn copy_tokens(tokens: &VecDeque<WhisperToken>) -> (v: Vec<WhisperToken>)
    ensures
        v@ == tokens@,
{
    let mut v: Vec<WhisperToken> = Vec::new();
    let n = tokens.len();
    for i in 0..n
        invariant
            n == tokens@.len(),
            v@ == tokens@.subrange(0, i as int),
    {
        v.push(tokens[i]);
        assert(v@ =~= tokens@.subrange(0, i + 1));
    }
    assert(tokens@.subrange(0, n as int) =~= tokens@);
    v
}

} // verus!

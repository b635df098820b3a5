//! A slice of one user's audio, together with the decisions about when to
//! transcribe it and which parts of the transcripts are final.
use vstd::prelude::*;

use std::collections::VecDeque;

use crate::api::api_types::{
    opt_message_view, segments_token_ids, split_first_half, split_is_defined, split_second_half, MessageView, TranscribedMessage,
};
use crate::audio::audio_buffer::{
    all_zero, all_zero_i16, audio_after_discard, discard_index, rtc_add, rtc_ticks_of,
    duration_to_index,
    duration_to_rtc, fits_window, index_of, landing_index, mono_frames, overwrite,
    rtc_timestamp_to_index, samples_duration, samples_to_duration, start_after_discard,
    timestamp_fits_window, write_resampled,
};
use crate::audio::events::TranscriptionRequest;
use crate::model::constants::{
    AUTO_TRANSCRIPTION_PERIOD_MS, SILENT_TIMEOUT_SECS, TOKENS_TO_KEEP, USER_SILENCE_TIMEOUT_MS,
    WHISPER_AUDIO_BUFFER_SIZE,
};
use crate::model::types::{DiscordAudioSample, DiscordRtcTimestamp, WhisperAudioSample, WhisperToken};
use crate::scrivening::transcript_director::{
    finalized_length, period_of, FINAL_REQUEST_HORIZON_SECS,
};
use crate::scrivening::worker::{keep_last, lemma_keep_last_push};
use crate::time::{
    max_std_duration_nanos,
    elapsed_since, instant_now, now, Duration, SystemTime, NANOS_PER_MILLI, NANOS_PER_SEC,
};
use vstd::math::min;

verus! {

pub struct LastRequestInfo {
    pub start_time: SystemTime,
    pub original_duration: Duration,
    pub audio_trimmed_since_request: Duration,
    pub in_progress: bool,
    pub requested_at: SystemTime,
    pub final_request: bool,
}

impl LastRequestInfo {
    /// The part of the requested audio still in the slice.
    pub fn effective_duration(&self) -> (d: Duration)
        requires
            self.audio_trimmed_since_request.nanos <= self.original_duration.nanos,
        ensures
            d.nanos == self.original_duration.nanos - self.audio_trimmed_since_request.nanos,
    {
        self.original_duration.minus(self.audio_trimmed_since_request)
    }
}

pub struct AudioSlice {
    pub audio: Vec<WhisperAudioSample>,
    pub user_idle: bool,
    pub last_request: Option<LastRequestInfo>,
    pub slice_id: u64,
    pub start_time: Option<(DiscordRtcTimestamp, SystemTime)>,
    pub tentative_transcript_opt: Option<TranscribedMessage>,
    pub user_silent: bool,
    pub last_silent_time: std::time::Instant,
    /// The most recent tokens we've seen from this
    /// user.  Used to help inform the decoder.
    /// Maximum length is TOKENS_TO_KEEP.
    pub last_tokens: VecDeque<WhisperToken>,
}

/// True when a transcription is due (compare the transcript director):
/// the slice has started, and either the user went idle, or no request is
/// in flight and either the user has been silent for longer than the
/// hysteresis interval or the slice has entered a new period since the
/// last request.
pub open spec fn transcription_due(s: AudioSlice, silent_elapsed: Duration) -> bool {
    if s.start_time.is_none() {
        false
    } else if s.user_idle {
        true
    } else if s.last_request matches Some(r) && r.in_progress {
        false
    } else if s.user_silent && silent_elapsed.nanos > SILENT_TIMEOUT_SECS * NANOS_PER_SEC {
        true
    } else {
        let current_period = period_of(samples_duration(s.audio@.len() as int));
        let last_period = match s.last_request {
            Some(r) => period_of(
                Duration {
                    nanos: (r.original_duration.nanos - r.audio_trimmed_since_request.nanos) as u128,
                },
            ),
            None => 0,
        };
        last_period != current_period
    }
}

pub open spec fn silence_clock_restarts(s: AudioSlice, silent_elapsed: Duration) -> bool {
    &&& s.start_time.is_some()
    &&& !s.user_idle
    &&& !(s.last_request matches Some(r) && r.in_progress)
    &&& s.user_silent
    &&& silent_elapsed.nanos > SILENT_TIMEOUT_SECS * NANOS_PER_SEC
}

pub open spec fn new_request_info(s: AudioSlice, now: SystemTime) -> LastRequestInfo {
    LastRequestInfo {
        start_time: s.start_time.unwrap().1,
        original_duration: samples_duration(s.audio@.len() as int),
        audio_trimmed_since_request: Duration { nanos: 0 },
        in_progress: true,
        requested_at: now,
        final_request: s.user_idle,
    }
}

pub open spec fn repeats_last_request(s: AudioSlice) -> bool {
    s.last_request matches Some(r) && r.start_time == s.start_time.unwrap().1 && r.original_duration
        == samples_duration(s.audio@.len() as int)
}

pub open spec fn response_cutoff(r: LastRequestInfo, now: SystemTime) -> SystemTime {
    if r.final_request {
        SystemTime { nanos: (now.nanos + FINAL_REQUEST_HORIZON_SECS * NANOS_PER_SEC) as u128 }
    } else {
        SystemTime { nanos: (r.requested_at.nanos - USER_SILENCE_TIMEOUT_MS * NANOS_PER_MILLI) as u128 }
    }
}

pub open spec fn answers_last_request(s: AudioSlice, message: MessageView) -> bool {
    s.last_request matches Some(r) && r.start_time == message.start_timestamp
        && r.original_duration == message.audio_duration
}

/// True when a transcript can be taken whole at `now`: a silence timeout
/// has passed since the end of its audio, the slice holds the audio up to
/// that end, and, unless the user is idle, a whole silence timeout after
/// it; and those samples after it are all zero.
pub open spec fn shortcut_applies(
    audio: Seq<i32>,
    user_idle: bool,
    message: MessageView,
    now: SystemTime,
) -> bool {
    let end_idx = index_of(message.audio_duration);
    let end_of_silence = end_idx + USER_SILENCE_TIMEOUT_MS * 16;
    &&& message.start_timestamp.nanos + message.audio_duration.nanos + USER_SILENCE_TIMEOUT_MS
        * NANOS_PER_MILLI <= now.nanos
    &&& audio.len() >= end_idx
    &&& (audio.len() >= end_of_silence || user_idle)
    &&& all_zero(audio.subrange(end_idx, min(audio.len() as int, end_of_silence)))
}

/// True when discarding `duration` empties the slice, which then resets.
pub open spec fn discard_clears(audio_len: int, duration: Duration) -> bool {
    duration.nanos != 0 && discard_index(duration) >= audio_len
}

pub open spec fn kept_tentative(message: MessageView, cutoff: SystemTime, audio_len: int) -> Option<
    MessageView,
> {
    match split_second_half(message, cutoff) {
        Some(second) => if second.audio_duration == samples_duration(audio_len) {
            Some(second)
        } else {
            None
        },
        None => None,
    }
}

/// The last request after discarding `duration`: gone when the slice
/// clears, else with the discarded audio counted as trimmed.
pub open spec fn request_after_discard(
    last_request: Option<LastRequestInfo>,
    audio_len: int,
    duration: Duration,
) -> Option<LastRequestInfo> {
    if duration.nanos == 0 {
        last_request
    } else if discard_clears(audio_len, duration) {
        None
    } else {
        match last_request {
            Some(r) => Some(
                LastRequestInfo {
                    audio_trimmed_since_request: Duration {
                        nanos: (r.audio_trimmed_since_request.nanos + duration.nanos) as u128,
                    },
                    ..r
                },
            ),
            None => None,
        }
    }
}

pub open spec fn response_is_defined(s: AudioSlice, message: MessageView, now: SystemTime) -> bool {
    answers_last_request(s, message) ==> {
        let r = s.last_request.unwrap();
        &&& index_of(message.audio_duration) + USER_SILENCE_TIMEOUT_MS * 16 <= usize::MAX
        &&& message.start_timestamp.nanos + message.audio_duration.nanos + USER_SILENCE_TIMEOUT_MS
            * NANOS_PER_MILLI <= u128::MAX
        &&& r.audio_trimmed_since_request.nanos + message.audio_duration.nanos <= u128::MAX
        &&& s.start_time matches Some((_, t)) ==> t.nanos + message.audio_duration.nanos <= u128::MAX
        &&& r.final_request ==> now.nanos + FINAL_REQUEST_HORIZON_SECS * NANOS_PER_SEC <= u128::MAX
        &&& !r.final_request ==> USER_SILENCE_TIMEOUT_MS * NANOS_PER_MILLI <= r.requested_at.nanos
        &&& split_is_defined(message, response_cutoff(r, now))
    }
}

/// The RTC timestamp that a slice takes as the end of a packet of `len`
/// Discord samples starting at `rtc_timestamp`: the sample count is read
/// as a count of 16khz samples, so the packet's reach is taken six times
/// its real length (compare `audio_end_rtc`).
pub open spec fn packet_end_rtc(rtc_timestamp: u32, len: int) -> u32 {
    rtc_add(rtc_timestamp, rtc_ticks_of(samples_duration(len)))
}

/// Away from the clock's wrap, a slice takes a packet of `len` samples to
/// end `len / 16` whole milliseconds, of 48 ticks each, after its start.
pub proof fn lemma_slice_packet_end(t: u32, len: int)
    requires
        0 <= len,
        t + len / 16 * 48 <= u32::MAX,
    ensures
        packet_end_rtc(t, len) == t + len / 16 * 48,
{
    let d = samples_duration(len);
    assert(d.nanos == (len / 16) * 1_000_000);
    assert(crate::audio::audio_buffer::millis_of(d) == len / 16);
}

/// A transcript whose handling is defined whatever the clock reads.
pub open spec fn response_defined_whenever(s: AudioSlice, message: MessageView) -> bool {
    forall|now: SystemTime|
        now.nanos <= max_std_duration_nanos() ==> #[trigger] response_is_defined(s, message, now)
}

/// What handling a transcript that came back at `now` does to a slice: a
/// transcript that does not answer the last request changes nothing; one
/// that does is either taken whole (see `shortcut_applies`) or split at the
/// cutoff, and the request is no longer in flight.  `r` is what is returned.
pub open spec fn response_handled(
    before: AudioSlice,
    after: AudioSlice,
    message: MessageView,
    now: SystemTime,
    r: Option<MessageView>,
) -> bool {
    &&& (!answers_last_request(before, message) ==> {
        &&& r.is_none()
        &&& after.audio@ == before.audio@
        &&& after.start_time == before.start_time
        &&& after.user_idle == before.user_idle
        &&& after.user_silent == before.user_silent
        &&& after.last_request == before.last_request
        &&& after.tentative_transcript_opt == before.tentative_transcript_opt
        &&& after.last_tokens@ == before.last_tokens@
    })
    &&& (answers_last_request(before, message) && shortcut_applies(
        before.audio@,
        before.user_idle,
        message,
        now,
    ) ==> {
        let lr = before.last_request.unwrap();
        &&& r == Some(message)
        &&& after.tentative_transcript_opt.is_none()
        &&& after.last_tokens@ == before.last_tokens@
        &&& after.audio@ == audio_after_discard(before.audio@, message.audio_duration)
        &&& after.start_time == start_after_discard(
            before.audio@.len() as int,
            before.start_time,
            message.audio_duration,
        )
        &&& after.last_request == request_after_discard(
            Some(LastRequestInfo { in_progress: false, ..lr }),
            before.audio@.len() as int,
            message.audio_duration,
        )
    })
    &&& (answers_last_request(before, message) && !shortcut_applies(
        before.audio@,
        before.user_idle,
        message,
        now,
    ) ==> {
        let lr = before.last_request.unwrap();
        let cutoff = response_cutoff(lr, now);
        let finalized = finalized_length(message, cutoff);
        let audio = audio_after_discard(before.audio@, finalized);
        &&& r == split_first_half(message, cutoff)
        &&& after.audio@ == audio
        &&& after.start_time == start_after_discard(
            before.audio@.len() as int,
            before.start_time,
            finalized,
        )
        &&& after.last_request == request_after_discard(
            Some(LastRequestInfo { in_progress: false, ..lr }),
            before.audio@.len() as int,
            finalized,
        )
        &&& opt_message_view(after.tentative_transcript_opt) == kept_tentative(
            message,
            cutoff,
            audio.len() as int,
        )
        &&& after.last_tokens@ == match split_first_half(message, cutoff) {
            Some(first) => keep_last(
                before.last_tokens@ + segments_token_ids(first.segments),
                TOKENS_TO_KEEP as nat,
            ),
            None => before.last_tokens@,
        }
    })
}

/// What recording a request does, given whether one is `ready`, at `now`:
/// nothing when none is ready or the buffer has not started; a repeat of
/// the last request only marks it final when the user is idle; any other
/// request is recorded as the last one and returned as `r`.
pub open spec fn request_made(
    before: AudioSlice,
    after: AudioSlice,
    ready: bool,
    now: SystemTime,
    r: Option<TranscriptionRequest>,
) -> bool {
    &&& (!ready || before.start_time.is_none() ==> r.is_none() && after.last_request
        == before.last_request)
    &&& (ready && before.start_time.is_some() && repeats_last_request(before) ==> {
        &&& r.is_none()
        &&& after.last_request == Some(
            LastRequestInfo {
                final_request: before.last_request.unwrap().final_request || before.user_idle,
                ..before.last_request.unwrap()
            },
        )
    })
    &&& (ready && before.start_time.is_some() && !repeats_last_request(before) ==> {
        &&& after.last_request == Some(new_request_info(before, now))
        &&& (r matches Some(req) && req.audio_data@ == before.audio@ && req.audio_duration
            == samples_duration(before.audio@.len() as int) && req.previous_tokens@
            == before.last_tokens@ && req.start_timestamp == before.start_time.unwrap().1
            && req.user_id == before.slice_id)
    })
}

/// When a transcription of the slice is due: never before the slice has
/// started; always when the user is idle and it has (with no restart of
/// the silence clock); and otherwise never while the last request is still
/// in flight, so a request is never sent over a pending one.  In that last
/// case no request is made and the last request stays.
pub proof fn lemma_when_slice_transcription_due(
    s: AudioSlice,
    silent_elapsed: Duration,
    after: AudioSlice,
    now: SystemTime,
    r: Option<TranscriptionRequest>,
)
    ensures
        s.start_time.is_none() ==> !transcription_due(s, silent_elapsed) && !silence_clock_restarts(
            s,
            silent_elapsed,
        ),
        s.start_time.is_some() && s.user_idle ==> transcription_due(s, silent_elapsed)
            && !silence_clock_restarts(s, silent_elapsed),
        (s.last_request matches Some(lr) && lr.in_progress) && !s.user_idle ==> {
            &&& !transcription_due(s, silent_elapsed)
            &&& !silence_clock_restarts(s, silent_elapsed)
            &&& request_made(s, after, transcription_due(s, silent_elapsed), now, r) ==> r.is_none()
                && after.last_request == s.last_request
        },
{
}

/// A response is taken whole only when every buffered sample in the
/// silence timeout after its audio is zero.  When one of them is not, an
/// answer to a request that was not final is split: every segment returned
/// ends before the request's time less the silence timeout.
pub proof fn lemma_sound_after_prevents_slice_shortcut(
    before: AudioSlice,
    after: AudioSlice,
    message: MessageView,
    now: SystemTime,
    r: Option<MessageView>,
    k: int,
)
    requires
        index_of(message.audio_duration) <= k < index_of(message.audio_duration)
            + USER_SILENCE_TIMEOUT_MS * 16,
        k < before.audio@.len(),
        before.audio@[k] != 0,
    ensures
        !shortcut_applies(before.audio@, before.user_idle, message, now),
        answers_last_request(before, message) && !before.last_request.unwrap().final_request
            && USER_SILENCE_TIMEOUT_MS * NANOS_PER_MILLI <= before.last_request.unwrap().requested_at.nanos
            && response_handled(before, after, message, now, r) ==> (r matches Some(m) ==> forall|j: int|
            0 <= j < m.segments.len() ==> message.start_timestamp.nanos + (#[trigger] m.segments[j]).end_offset_ms
                * NANOS_PER_MILLI < before.last_request.unwrap().requested_at.nanos - USER_SILENCE_TIMEOUT_MS
                * NANOS_PER_MILLI),
{
    let end_idx = index_of(message.audio_duration);
    let end_of_silence = end_idx + USER_SILENCE_TIMEOUT_MS * 16;
    if shortcut_applies(before.audio@, before.user_idle, message, now) {
        let tail = before.audio@.subrange(end_idx, min(before.audio@.len() as int, end_of_silence));
        assert(tail[k - end_idx] == before.audio@[k]);
    }
    if answers_last_request(before, message) {
        crate::api::api_types::lemma_first_half_ends_before(
            message,
            response_cutoff(before.last_request.unwrap(), now),
        );
    }
}

impl AudioSlice {
    /// The slice's own invariant: a tentative transcript covers exactly the
    /// audio held, and at most `TOKENS_TO_KEEP` tokens are kept.
    pub open spec fn wf(&self) -> bool {
        &&& self.tentative_transcript_opt matches Some(t) ==> t.audio_duration == samples_duration(
            self.audio@.len() as int,
        )
        &&& self.last_tokens@.len() <= TOKENS_TO_KEEP
    }

    pub fn new(slice_id: u64) -> (s: AudioSlice)
        ensures
            s.wf(),
            s.audio@.len() == 0,
            !s.user_idle,
            s.last_request.is_none(),
            s.slice_id == slice_id,
            s.start_time.is_none(),
            s.tentative_transcript_opt.is_none(),
            !s.user_silent,
            s.last_tokens@.len() == 0,
    {
        AudioSlice {
            audio: Vec::with_capacity(WHISPER_AUDIO_BUFFER_SIZE),
            user_idle: false,
            last_request: None,
            slice_id,
            start_time: None,
            tentative_transcript_opt: None,
            user_silent: false,
            last_silent_time: instant_now(),
            last_tokens: VecDeque::with_capacity(TOKENS_TO_KEEP),
        }
    }

    /// Empties the slice and forgets its requests; the user counts as
    /// silent.
    pub fn clear(&mut self)
        ensures
            final(self).audio@.len() == 0,
            !final(self).user_idle,
            final(self).last_request.is_none(),
            final(self).start_time.is_none(),
            final(self).tentative_transcript_opt.is_none(),
            final(self).user_silent,
            final(self).slice_id == old(self).slice_id,
            final(self).last_silent_time == old(self).last_silent_time,
            final(self).last_tokens@ == old(self).last_tokens@,
    {
        self.audio.clear();
        self.user_idle = false;
        self.last_request = None;
        self.start_time = None;
        self.tentative_transcript_opt = None;
        self.user_silent = true;
    }

    pub fn set_silent(&mut self)
        ensures
            final(self).user_silent,
            final(self).audio@ == old(self).audio@,
            final(self).user_idle == old(self).user_idle,
            final(self).last_request == old(self).last_request,
            final(self).slice_id == old(self).slice_id,
            final(self).start_time == old(self).start_time,
            final(self).tentative_transcript_opt == old(self).tentative_transcript_opt,
            final(self).last_silent_time == old(self).last_silent_time,
            final(self).last_tokens@ == old(self).last_tokens@,
    {
        self.user_silent = true;
    }

    /// True if the given timestamp is within the bounds of this slice.
    /// Bounds are considered to begin with the start of the slice,
    /// and end with the start of the slice plus the length of the audio
    /// to record.
    /// An empty slice is considered to have no bounds, and will fit
    /// any timestamp.
    pub fn fits_within_this_slice(&self, rtc_timestamp: DiscordRtcTimestamp) -> (fits: bool)
        ensures
            fits == fits_window(self.start_time, rtc_timestamp),
            self.start_time.is_none() ==> fits,
    {
        timestamp_fits_window(&self.start_time, rtc_timestamp)
    }

    /// Adds audio from the user (see `add_audio_at`); a slice that has not
    /// started starts at the current wall-clock time.
    pub fn add_audio(&mut self, rtc_timestamp: DiscordRtcTimestamp, discord_audio: &[DiscordAudioSample])
        requires
            old(self).wf(),
        ensures
            final(self).wf(),
            final(self).slice_id == old(self).slice_id,
            final(self).last_request == old(self).last_request,
            final(self).last_silent_time == old(self).last_silent_time,
            final(self).last_tokens@ == old(self).last_tokens@,
            old(self).user_silent && all_zero_i16(discord_audio@) ==> {
                &&& final(self).audio@ == old(self).audio@
                &&& final(self).start_time == old(self).start_time
                &&& final(self).user_silent == old(self).user_silent
                &&& final(self).user_idle == old(self).user_idle
                &&& opt_message_view(final(self).tentative_transcript_opt) == opt_message_view(
                    old(self).tentative_transcript_opt,
                )
            },
            !(old(self).user_silent && all_zero_i16(discord_audio@)) ==> !final(self).user_silent,
            !(old(self).user_silent && all_zero_i16(discord_audio@)) && !fits_window(
                old(self).start_time,
                packet_end_rtc(rtc_timestamp, discord_audio@.len() as int),
            ) ==> {
                &&& final(self).audio@ == old(self).audio@
                &&& final(self).start_time == old(self).start_time
                &&& final(self).user_idle == old(self).user_idle
                &&& opt_message_view(final(self).tentative_transcript_opt) == opt_message_view(
                    old(self).tentative_transcript_opt,
                )
            },
            !(old(self).user_silent && all_zero_i16(discord_audio@)) && fits_window(
                old(self).start_time,
                packet_end_rtc(rtc_timestamp, discord_audio@.len() as int),
            ) ==> {
                &&& final(self).audio@ == overwrite(
                    old(self).audio@,
                    landing_index(old(self).start_time, rtc_timestamp),
                    mono_frames(discord_audio@),
                )
                &&& old(self).start_time.is_some() ==> final(self).start_time == old(self).start_time
                &&& old(self).start_time.is_none() ==> (final(self).start_time matches Some((rtc, _))
                    && rtc == rtc_timestamp)
                &&& !final(self).user_idle
                &&& final(self).tentative_transcript_opt.is_none()
            },
    {
        let now = now();
        self.add_audio_at(rtc_timestamp, discord_audio, now);
    }

    /// Adds audio from the user, at wall-clock time `now`.  A packet of
    /// pure silence that arrives while the user is marked silent is
    /// ignored; any other packet marks the user as speaking, and, when its
    /// end (as `packet_end_rtc` reckons it) fits in the slice's window,
    /// goes to the slice, marks the user as not idle, and voids the
    /// tentative transcript.
    pub fn add_audio_at(
        &mut self,
        rtc_timestamp: DiscordRtcTimestamp,
        discord_audio: &[DiscordAudioSample],
        now: SystemTime,
    )
        requires
            old(self).wf(),
        ensures
            final(self).wf(),
            final(self).slice_id == old(self).slice_id,
            final(self).last_request == old(self).last_request,
            final(self).last_silent_time == old(self).last_silent_time,
            final(self).last_tokens@ == old(self).last_tokens@,
            old(self).user_silent && all_zero_i16(discord_audio@) ==> {
                &&& final(self).audio@ == old(self).audio@
                &&& final(self).start_time == old(self).start_time
                &&& final(self).user_silent == old(self).user_silent
                &&& final(self).user_idle == old(self).user_idle
                &&& opt_message_view(final(self).tentative_transcript_opt) == opt_message_view(
                    old(self).tentative_transcript_opt,
                )
            },
            !(old(self).user_silent && all_zero_i16(discord_audio@)) ==> !final(self).user_silent,
            !(old(self).user_silent && all_zero_i16(discord_audio@)) && !fits_window(
                old(self).start_time,
                packet_end_rtc(rtc_timestamp, discord_audio@.len() as int),
            ) ==> {
                &&& final(self).audio@ == old(self).audio@
                &&& final(self).start_time == old(self).start_time
                &&& final(self).user_idle == old(self).user_idle
                &&& opt_message_view(final(self).tentative_transcript_opt) == opt_message_view(
                    old(self).tentative_transcript_opt,
                )
            },
            !(old(self).user_silent && all_zero_i16(discord_audio@)) && fits_window(
                old(self).start_time,
                packet_end_rtc(rtc_timestamp, discord_audio@.len() as int),
            ) ==> {
                &&& final(self).audio@ == overwrite(
                    old(self).audio@,
                    landing_index(old(self).start_time, rtc_timestamp),
                    mono_frames(discord_audio@),
                )
                &&& final(self).start_time == match old(self).start_time {
                    Some(st) => Some(st),
                    None => Some((rtc_timestamp, now)),
                }
                &&& !final(self).user_idle
                &&& final(self).tentative_transcript_opt.is_none()
            },
    {
        // it seems like we get called with a single packet of silence right
        // after we are marked as silent.  Look for this and discard it.
        if self.user_silent {
            let mut silent = true;
            let n = discord_audio.len();
            for i in 0..n
                invariant
                    n == discord_audio@.len(),
                    silent == (forall|j: int| 0 <= j < i ==> discord_audio@[j] == 0),
            {
                if discord_audio[i] != 0 {
                    silent = false;
                }
            }
            if silent {
                return;
            }
        }
        self.user_silent = false;

        let rtc_length = duration_to_rtc(&samples_to_duration(discord_audio.len()));
        if !self.fits_within_this_slice(rtc_timestamp.wrapping_add(rtc_length)) {
            // if the timestamp is not within the bounds of this slice,
            // then the audio is dropped.
            return;
        }
        self.user_idle = false;

        let start_index;
        match self.start_time {
            Some((start_rtc, _)) => {
                start_index = rtc_timestamp_to_index(&start_rtc, &rtc_timestamp);
            },
            None => {
                // this is the first audio for the slice, so we need to set
                // the start time
                self.start_time = Some((rtc_timestamp, now));
                start_index = 0;
            },
        }
        write_resampled(&mut self.audio, start_index, discord_audio);
        self.tentative_transcript_opt = None;
    }

    /// Whether a transcription is due, and whether deciding so restarts
    /// the silence clock, given the time since the silence clock was last
    /// restarted.
    pub fn transcription_due_given(&self, silent_elapsed: Duration) -> (r: (bool, bool))
        requires
            self.last_request matches Some(lr) ==> lr.audio_trimmed_since_request.nanos
                <= lr.original_duration.nanos,
        ensures
            r.0 == transcription_due(*self, silent_elapsed),
            r.1 == silence_clock_restarts(*self, silent_elapsed),
    {
        if self.start_time.is_none() {
            return (false, false);
        }
        if self.user_idle {
            // the slice is user_idle, but we haven't requested the full
            // buffer yet, so request it
            return (true, false);
        }
        match &self.last_request {
            Some(last_request) => if last_request.in_progress {
                // we already have a pending request, so we don't need to
                // make another one
                return (false, false);
            },
            None => {},
        }
        if self.user_silent {
            if silent_elapsed.nanos > Duration::from_secs(SILENT_TIMEOUT_SECS).nanos {
                // if the user is silent, then we need to request the full
                // buffer, even if no period shift has occurred
                return (true, true);
            }
        }
        let current_period = self.buffer_duration().as_millis() / AUTO_TRANSCRIPTION_PERIOD_MS;
        let last_period = match &self.last_request {
            Some(last_request_info) => last_request_info.effective_duration().as_millis()
                / AUTO_TRANSCRIPTION_PERIOD_MS,
            None => 0,
        };
        (last_period != current_period, false)
    }

    fn is_ready_for_transcription(&mut self) -> (ready: bool)
        requires
            old(self).last_request matches Some(lr) ==> lr.audio_trimmed_since_request.nanos
                <= lr.original_duration.nanos,
        ensures
            exists|e: Duration|
                ready == #[trigger] transcription_due(*old(self), e) && (!silence_clock_restarts(
                    *old(self),
                    e,
                ) ==> final(self).last_silent_time == old(self).last_silent_time),
            final(self).audio@ == old(self).audio@,
            final(self).user_idle == old(self).user_idle,
            final(self).user_silent == old(self).user_silent,
            final(self).last_request == old(self).last_request,
            final(self).start_time == old(self).start_time,
            final(self).tentative_transcript_opt == old(self).tentative_transcript_opt,
            final(self).slice_id == old(self).slice_id,
            final(self).last_tokens@ == old(self).last_tokens@,
    {
        let elapsed = elapsed_since(&self.last_silent_time);
        let (ready, restart) = self.transcription_due_given(elapsed);
        if restart {
            self.last_silent_time = instant_now();
        }
        ready
    }

    /// Records and returns a request for the slice's audio, if one is
    /// `ready` and it would not repeat the last request; a repeat made
    /// when the user is idle marks the last request final.
    pub fn request_transcription_at(&mut self, ready: bool, now: SystemTime) -> (r: Option<
        TranscriptionRequest,
    >)
        requires
            old(self).wf(),
        ensures
            final(self).wf(),
            final(self).audio@ == old(self).audio@,
            final(self).user_idle == old(self).user_idle,
            final(self).user_silent == old(self).user_silent,
            final(self).start_time == old(self).start_time,
            final(self).last_silent_time == old(self).last_silent_time,
            final(self).slice_id == old(self).slice_id,
            final(self).last_tokens@ == old(self).last_tokens@,
            final(self).tentative_transcript_opt == old(self).tentative_transcript_opt,
            request_made(*old(self), *final(self), ready, now, r),
    {
        if !ready {
            return None;
        }
        match self.start_time {
            Some((_, start_time)) => {
                let duration = self.buffer_duration();
                let new_request = LastRequestInfo {
                    start_time,
                    audio_trimmed_since_request: Duration::zero(),
                    original_duration: duration,
                    in_progress: true,
                    requested_at: now,
                    final_request: self.user_idle,
                };
                let repeat = match &self.last_request {
                    Some(last_request) => last_request.start_time.nanos == start_time.nanos
                        && last_request.original_duration.nanos == duration.nanos,
                    None => false,
                };
                if repeat {
                    // if this is our final request, make sure the last request
                    // has the final flag set
                    if new_request.final_request {
                        match &mut self.last_request {
                            Some(last_request) => {
                                last_request.final_request = true;
                            },
                            None => {},
                        }
                    }
                    return None;
                }
                self.last_request = Some(new_request);
                let mut previous_tokens: Vec<WhisperToken> = Vec::new();
                let n = self.last_tokens.len();
                for i in 0..n
                    invariant
                        n == self.last_tokens@.len(),
                        previous_tokens@ == self.last_tokens@.subrange(0, i as int),
                {
                    previous_tokens.push(self.last_tokens[i]);
                    assert(previous_tokens@ =~= self.last_tokens@.subrange(0, i + 1));
                }
                assert(self.last_tokens@.subrange(0, n as int) =~= self.last_tokens@);
                Some(
                    TranscriptionRequest {
                        audio_data: crate::audio::audio_buffer::copy_samples(&self.audio),
                        audio_duration: duration,
                        previous_tokens,
                        start_timestamp: start_time,
                        user_id: self.slice_id,
                    },
                )
            },
            None => None,
        }
    }

    /// Makes a transcription request when one is due (see
    /// `transcription_due`), recording it as the last request; the time of
    /// the request is read from the wall clock.
    pub fn make_transcription_request(&mut self) -> (r: Option<TranscriptionRequest>)
        requires
            old(self).wf(),
            old(self).last_request matches Some(lr) ==> lr.audio_trimmed_since_request.nanos
                <= lr.original_duration.nanos,
        ensures
            final(self).wf(),
            final(self).audio@ == old(self).audio@,
            final(self).user_idle == old(self).user_idle,
            final(self).user_silent == old(self).user_silent,
            final(self).start_time == old(self).start_time,
            final(self).slice_id == old(self).slice_id,
            final(self).last_tokens@ == old(self).last_tokens@,
            final(self).tentative_transcript_opt == old(self).tentative_transcript_opt,
            r.is_some() ==> exists|e: Duration| transcription_due(*old(self), e),
            r.is_some() ==> old(self).start_time.is_some() && !repeats_last_request(*old(self)),
            r matches Some(req) ==> {
                &&& req.audio_data@ == old(self).audio@
                &&& req.audio_duration == samples_duration(old(self).audio@.len() as int)
                &&& req.previous_tokens@ == old(self).last_tokens@
                &&& req.start_timestamp == old(self).start_time.unwrap().1
                &&& req.user_id == old(self).slice_id
                &&& (final(self).last_request matches Some(lr) && lr == LastRequestInfo {
                    requested_at: lr.requested_at,
                    ..new_request_info(*old(self), lr.requested_at)
                })
            },
            exists|e: Duration, now: SystemTime|
                #[trigger] request_made(
                    *old(self),
                    *final(self),
                    transcription_due(*old(self), e),
                    now,
                    r,
                ) && (!silence_clock_restarts(*old(self), e) ==> final(self).last_silent_time
                    == old(self).last_silent_time),
    {
        let ready = self.is_ready_for_transcription();
        let ghost e = choose|e: Duration|
            ready == #[trigger] transcription_due(*old(self), e) && (!silence_clock_restarts(*old(self), e)
                ==> self.last_silent_time == old(self).last_silent_time);
        let now = now();
        let r = self.request_transcription_at(ready, now);
        assert(request_made(*old(self), *self, transcription_due(*old(self), e), now, r));
        r
    }

    /// Adds the tokens of a transcript to the recent tokens.
    pub fn add_tokens(&mut self, message: &TranscribedMessage)
        requires
            old(self).last_tokens@.len() <= TOKENS_TO_KEEP,
        ensures
            final(self).last_tokens@ == keep_last(
                old(self).last_tokens@ + segments_token_ids(message@.segments),
                TOKENS_TO_KEEP as nat,
            ),
            final(self).last_tokens@.len() <= TOKENS_TO_KEEP,
            final(self).audio@ == old(self).audio@,
            final(self).user_idle == old(self).user_idle,
            final(self).user_silent == old(self).user_silent,
            final(self).last_request == old(self).last_request,
            final(self).start_time == old(self).start_time,
            final(self).tentative_transcript_opt == old(self).tentative_transcript_opt,
            final(self).last_silent_time == old(self).last_silent_time,
            final(self).slice_id == old(self).slice_id,
    {
        let ids = message.token_ids();
        let ghost start = self.last_tokens@;
        proof {
            assert(start + ids@.subrange(0, 0) =~= start);
        }
        let n = ids.len();
        for i in 0..n
            invariant
                n == ids@.len(),
                self.last_tokens@ == keep_last(start + ids@.subrange(0, i as int), TOKENS_TO_KEEP as nat),
                self.last_tokens@.len() <= TOKENS_TO_KEEP,
                start.len() <= TOKENS_TO_KEEP,
                self.audio@ == old(self).audio@,
                self.user_idle == old(self).user_idle,
                self.user_silent == old(self).user_silent,
                self.last_request == old(self).last_request,
                self.start_time == old(self).start_time,
                self.tentative_transcript_opt == old(self).tentative_transcript_opt,
                self.last_silent_time == old(self).last_silent_time,
                self.slice_id == old(self).slice_id,
        {
            let ghost before = self.last_tokens@;
            self.last_tokens.push_back(ids[i]);
            if self.last_tokens.len() > TOKENS_TO_KEEP {
                self.last_tokens.pop_front();
            }
            proof {
                let s = start + ids@.subrange(0, i as int);
                lemma_keep_last_push(s, ids@[i as int], TOKENS_TO_KEEP as nat);
                assert(s.push(ids@[i as int]) =~= start + ids@.subrange(0, i + 1));
                assert(self.last_tokens@ =~= keep_last(before.push(ids@[i as int]), TOKENS_TO_KEEP as nat));
            }
        }
        assert(ids@.subrange(0, n as int) =~= ids@);
    }

    /// Discards the amount of audio specified by the duration
    /// from the start of the buffer, shuffling the remaining
    /// audio to the start of the buffer.  Any indexes and
    /// timestamps are adjusted accordingly.  Discarding all the audio
    /// clears the slice.
    pub fn discard_audio(&mut self, duration: &Duration)
        requires
            discard_index(*duration) <= usize::MAX,
            discard_index(*duration) < old(self).audio@.len() ==> (old(self).start_time matches Some(
                (_, t),
            ) ==> t.nanos + duration.nanos <= u128::MAX),
            old(self).last_request matches Some(r) ==> r.audio_trimmed_since_request.nanos
                + duration.nanos <= u128::MAX,
        ensures
            final(self).audio@ == audio_after_discard(old(self).audio@, *duration),
            final(self).start_time == start_after_discard(
                old(self).audio@.len() as int,
                old(self).start_time,
                *duration,
            ),
            final(self).last_request == request_after_discard(
                old(self).last_request,
                old(self).audio@.len() as int,
                *duration,
            ),
            final(self).slice_id == old(self).slice_id,
            final(self).last_silent_time == old(self).last_silent_time,
            final(self).last_tokens@ == old(self).last_tokens@,
            discard_clears(old(self).audio@.len() as int, *duration) ==> {
                &&& !final(self).user_idle
                &&& final(self).user_silent
                &&& final(self).tentative_transcript_opt.is_none()
            },
            !discard_clears(old(self).audio@.len() as int, *duration) ==> {
                &&& final(self).user_idle == old(self).user_idle
                &&& final(self).user_silent == old(self).user_silent
                &&& final(self).tentative_transcript_opt == old(self).tentative_transcript_opt
            },
    {
        let discard_idx = duration_to_index(duration);
        if duration.is_zero() {
            return;
        }
        if discard_idx >= self.audio.len() {
            // discard as much as we have, so just clear the buffer
            self.clear();
            return;
        }
        // eliminate this many samples from the start of the buffer
        let rest = self.audio.split_off(discard_idx);
        self.audio = rest;
        // update the start timestamp
        match self.start_time {
            Some((start_rtc, start_system)) => {
                self.start_time = Some(
                    (start_rtc.wrapping_add(duration_to_rtc(duration)), start_system.plus(*duration)),
                );
            },
            None => {},
        }
        // also update the last_request duration
        match &mut self.last_request {
            Some(last_request) => {
                last_request.audio_trimmed_since_request = last_request.audio_trimmed_since_request.plus(
                    *duration,
                );
            },
            None => {},
        }
    }

    /// The user went idle.  Returns the tentative transcript, if there is
    /// one, and then clears the slice; it covers all the slice's audio,
    /// since any newer audio would have voided it.
    pub fn handle_user_idle(&mut self) -> (r: Option<TranscribedMessage>)
        requires
            old(self).wf(),
        ensures
            final(self).wf(),
            opt_message_view(r) == opt_message_view(old(self).tentative_transcript_opt),
            final(self).slice_id == old(self).slice_id,
            final(self).last_tokens@ == old(self).last_tokens@,
            old(self).tentative_transcript_opt.is_none() ==> {
                &&& final(self).user_idle
                &&& final(self).audio@ == old(self).audio@
                &&& final(self).start_time == old(self).start_time
                &&& final(self).last_request == old(self).last_request
                &&& final(self).user_silent == old(self).user_silent
                &&& final(self).tentative_transcript_opt.is_none()
            },
            old(self).tentative_transcript_opt.is_some() ==> {
                &&& !final(self).user_idle
                &&& final(self).audio@.len() == 0
                &&& final(self).start_time.is_none()
                &&& final(self).last_request.is_none()
                &&& final(self).user_silent
                &&& final(self).tentative_transcript_opt.is_none()
            },
    {
        self.user_idle = true;
        match self.tentative_transcript_opt.take() {
            None => None,
            Some(tentative_transcript) => {
                // if we had a tentative transcription, return it.
                // We know that it's current, since if we had gathered
                // more audio, we would have discarded it.
                self.clear();
                Some(tentative_transcript)
            },
        }
    }

    pub fn buffer_duration(&self) -> (d: Duration)
        ensures
            d == samples_duration(self.audio@.len() as int),
    {
        samples_to_duration(self.audio.len())
    }

    /// True when a transcript can be taken whole at `now` (see
    /// `shortcut_applies`).
    pub fn shortcut_tentative_transcripts(&self, message: &TranscribedMessage, now: SystemTime) -> (b:
        bool)
        requires
            message.start_timestamp.nanos + message.audio_duration.nanos + USER_SILENCE_TIMEOUT_MS
                * NANOS_PER_MILLI <= u128::MAX,
            index_of(message.audio_duration) + USER_SILENCE_TIMEOUT_MS * 16 <= usize::MAX,
        ensures
            b == shortcut_applies(self.audio@, self.user_idle, message@, now),
    {
        // figures out where the end of the message's audio is
        // in the current buffer.  Then checks for a period of
        // up to USER_SILENCE_TIMEOUT beyond that point.
        // If we reach the end of that period without seeing
        // any non-silence, we can return the tentative transcript
        // immediately, and this function will return true.
        // Otherwise, it returns false.
        let timeout = Duration::from_millis(USER_SILENCE_TIMEOUT_MS);
        let end_of_silence_time = message.start_timestamp.plus(message.audio_duration).plus(timeout);
        if end_of_silence_time.nanos > now.nanos {
            // the future hasn't happened yet
            return false;
        }
        let end_idx = duration_to_index(&message.audio_duration);
        assert(index_of(timeout) == USER_SILENCE_TIMEOUT_MS * 16);
        let end_of_silence_interval = end_idx + duration_to_index(&timeout);
        let len = self.audio.len();
        if len < end_idx {
            return false;
        }
        if len < end_of_silence_interval && !self.user_idle {
            return false;
        }
        let end_of_search = if len < end_of_silence_interval {
            len
        } else {
            end_of_silence_interval
        };
        assert(end_of_search == min(len as int, end_of_silence_interval as int));
        // look through [end_idx, end_of_search) for non-silence
        let ghost s = self.audio@.subrange(end_idx as int, end_of_search as int);
        let mut i = end_idx;
        while i < end_of_search
            invariant
                end_idx <= i <= end_of_search <= self.audio@.len(),
                s == self.audio@.subrange(end_idx as int, end_of_search as int),
                all_zero(s.subrange(0, i - end_idx)),
                end_idx == index_of(message.audio_duration),
                end_of_search == min(
                    self.audio@.len() as int,
                    index_of(message.audio_duration) + USER_SILENCE_TIMEOUT_MS * 16,
                ),
                self.audio@.len() >= index_of(message.audio_duration) + USER_SILENCE_TIMEOUT_MS * 16
                    || self.user_idle,
                message.start_timestamp.nanos + message.audio_duration.nanos + USER_SILENCE_TIMEOUT_MS
                    * NANOS_PER_MILLI <= now.nanos,
            decreases end_of_search - i,
        {
            if self.audio[i] != 0 {
                assert(s[i - end_idx] != 0);
                return false;
            }
            assert(s.subrange(0, i - end_idx + 1) =~= s.subrange(0, i - end_idx).push(s[i - end_idx]));
            i = i + 1;
        }
        assert(s.subrange(0, end_of_search - end_idx) =~= s);
        true
    }

    /// Handles a transcript that came back, at wall-clock time `now`
    /// (compare the transcript director): a transcript that does not answer
    /// the last request is ignored; otherwise the request is no longer in
    /// flight, and the transcript is either taken whole (see
    /// `shortcut_applies`) or split at the cutoff, its first half made
    /// final and its second half kept as tentative when no audio has come
    /// since.
    pub fn handle_transcription_response_at(
        &mut self,
        message: &TranscribedMessage,
        now: SystemTime,
    ) -> (r: Option<TranscribedMessage>)
        requires
            old(self).wf(),
            response_is_defined(*old(self), message@, now),
        ensures
            final(self).wf(),
            final(self).slice_id == old(self).slice_id,
            response_handled(*old(self), *final(self), message@, now, opt_message_view(r)),
    {
        // if we had more than one request in flight, we need to
        // ignore all but the latest
        let (final_request, requested_at) = match &self.last_request {
            Some(last_request) => {
                if last_request.start_time.nanos != message.start_timestamp.nanos {
                    return None;
                }
                if message.audio_duration.nanos != last_request.original_duration.nanos {
                    return None;
                }
                (last_request.final_request, last_request.requested_at)
            },
            None => {
                // this can happen if we've cleared the buffer but had
                // an outstanding transcription request
                return None;
            },
        };
        let ghost lr = self.last_request.unwrap();
        match &mut self.last_request {
            Some(last_request) => {
                last_request.in_progress = false;
            },
            None => {},
        }

        if self.shortcut_tentative_transcripts(message, now) {
            self.tentative_transcript_opt = None;
            self.discard_audio(&message.audio_duration);
            return Some(message.clone());
        }

        // figure out how many segments have an end time that's more
        // than USER_SILENCE_TIMEOUT ago.  Those will be returned to
        // the caller in a Transcription.
        // The remainder, if any, will be kept in tentative_transcription,
        // but only if we haven't seen new audio since the response was generated.
        let end_time = if final_request {
            // if this is the final request, then we want to keep all
            // segments
            now.plus(Duration::from_secs(FINAL_REQUEST_HORIZON_SECS))
        } else {
            requested_at.minus(Duration::from_millis(USER_SILENCE_TIMEOUT_MS))
        };
        assert(end_time == response_cutoff(lr, now));
        let (user_idle_transcript, tentative_transcript) = TranscribedMessage::split_at_end_time(
            message,
            end_time,
        );
        proof {
            crate::api::api_types::lemma_first_half_within_audio(message@, end_time);
        }

        // with our user_idle transcription, we can now discard
        // the audio that was used to generate it.  Be sure to
        // only discard exactly as much audio as was represented
        // by the user_idle transcription, or the times will not line up.
        let finalized_duration = match &user_idle_transcript {
            Some(t) => t.audio_duration,
            None => Duration::zero(),
        };
        assert(finalized_duration == finalized_length(message@, end_time));
        self.discard_audio(&finalized_duration);

        // if the remaining audio length is the same as the tentative
        // transcription, that means no new audio has arrived in the
        // meantime, so we can keep the tentative transcription.
        let remaining = self.buffer_duration();
        self.tentative_transcript_opt = match tentative_transcript {
            Some(t) => if remaining.nanos == t.audio_duration.nanos {
                Some(t)
            } else {
                None
            },
            None => None,
        };

        match user_idle_transcript {
            None => None,
            Some(t) => {
                self.add_tokens(&t);
                Some(t)
            },
        }
    }

    /// Handles a transcript that came back (see
    /// `handle_transcription_response_at`), reading the time from the wall
    /// clock.
    pub fn handle_transcription_response(&mut self, message: &TranscribedMessage) -> (r: Option<
        TranscribedMessage,
    >)
        requires
            old(self).wf(),
            response_defined_whenever(*old(self), message@),
        ensures
            final(self).wf(),
            final(self).slice_id == old(self).slice_id,
            exists|now: SystemTime|
                now.nanos <= max_std_duration_nanos() && #[trigger] response_handled(
                    *old(self),
                    *final(self),
                    message@,
                    now,
                    opt_message_view(r),
                ),
    {
        let now = now();
        assert(response_is_defined(*old(self), message@, now));
        let r = self.handle_transcription_response_at(message, now);
        assert(response_handled(*old(self), *self, message@, now, opt_message_view(r)));
        r
    }
}

} // verus!

//! A pool of per-user audio buffers: audio from each user is appended to
//! their buffer, and each time a buffer fills another transcription period a
//! request to transcribe all of it is made.
//!
//! The streams these buffers serve stamp their packets on an 8khz RTC
//! clock.
use vstd::prelude::*;

use std::collections::{HashMap, VecDeque};

use crate::audio::audio_buffer::{rtc_sub, samples_duration, samples_to_duration};
use crate::audio::events::TranscriptionRequest;
use crate::model::constants::{TOKENS_TO_KEEP, WHISPER_AUDIO_BUFFER_SIZE, WHISPER_SAMPLES_PER_SECOND};
use crate::model::types::{
    DiscordAudioSample, DiscordRtcTimestamp, UserId, WhisperAudioSample, WhisperToken,
};
use crate::time::{now, SystemTime};

verus! {

broadcast use vstd::std_specs::hash::group_hash_axioms;

/// The RTC clock of these streams runs at 8khz.
pub const RTC_CLOCK_SAMPLES_PER_SECOND: u64 = 8000;

/// Consecutive Discord samples that make one 16khz sample.
pub const SAMPLES_PER_WHISPER_SAMPLE: usize = 3;

/// A transcription is requested each time a buffer fills another period of
/// this many samples (five seconds of 16khz audio).
pub const AUTO_TRANSCRIPTION_PERIOD_SAMPLES: usize = 80_000;

/// The 16khz samples between two RTC timestamps, `ts1` first.
pub open spec fn sample_delta(ts1: u32, ts2: u32) -> int {
    rtc_sub(ts2, ts1) * WHISPER_SAMPLES_PER_SECOND / RTC_CLOCK_SAMPLES_PER_SECOND as int
}

/// True when `ts2` lies after `ts1` on the wrapping clock: less than half
/// the clock's range ahead.
pub open spec fn is_forward(ts1: u32, ts2: u32) -> bool {
    rtc_sub(ts2, ts1) <= u32::MAX / 2
}

/// Discord audio as 16khz samples: each run of three consecutive samples,
/// summed.  A trailing partial run is dropped.
pub open spec fn triple_sums(audio: Seq<i16>) -> Seq<i32> {
    Seq::new(audio.len() / 3, |i: int| (audio[3 * i] + audio[3 * i + 1] + audio[3 * i + 2]) as i32)
}

/// The RTC timestamp of the first sample, once audio stamped `timestamp`
/// has arrived.
pub open spec fn head_rtc(head: Option<(u32, SystemTime)>, timestamp: u32) -> u32 {
    match head {
        Some((rtc, _)) => rtc,
        None => timestamp,
    }
}

/// True when audio stamped `timestamp` of `audio_len` samples ends just
/// where the buffer's audio ends, after its first sample: the only audio
/// the buffer takes (any other packet is refused as an overflow or as out
/// of order).
pub open spec fn ends_at_buffer_end(
    buffer_len: int,
    head: Option<(u32, SystemTime)>,
    timestamp: u32,
    audio_len: int,
) -> bool {
    &&& is_forward(head_rtc(head, timestamp), timestamp)
    &&& sample_delta(head_rtc(head, timestamp), timestamp) + audio_len / 3 == buffer_len
}

/// True when growing the buffer from `old_len` to `new_len` samples enters
/// a new transcription period.
pub open spec fn crosses_period(old_len: int, new_len: int) -> bool {
    old_len / AUTO_TRANSCRIPTION_PERIOD_SAMPLES as int != new_len / AUTO_TRANSCRIPTION_PERIOD_SAMPLES as int
}

/// The samples of `duration_ms` milliseconds.
pub open spec fn samples_in_ms(duration_ms: int) -> int {
    duration_ms * WHISPER_SAMPLES_PER_SECOND / 1000
}

/// How a packet fits a buffer.
#[derive(Clone, Copy, Debug, PartialEq, Eq, Structural)]
pub enum PacketFit {
    /// It ends where the buffer's audio ends: the buffer takes it.
    Fits,
    /// It is stamped before the buffer's first sample.
    BeforeStart,
    /// It ends past the end of the buffer's audio.
    Overflow,
    /// It ends before the end of the buffer's audio.
    OutOfOrder,
    /// It fits, but would make a transcription request for a buffer that
    /// belongs to no user.
    Unassigned,
}

/// How a packet of `audio_len` samples stamped `timestamp` fits a buffer.
pub open spec fn packet_fit_of(
    buffer_len: int,
    head: Option<(u32, SystemTime)>,
    user_id: Option<UserId>,
    timestamp: u32,
    audio_len: int,
) -> PacketFit {
    let end = sample_delta(head_rtc(head, timestamp), timestamp) + audio_len / 3;
    if !is_forward(head_rtc(head, timestamp), timestamp) {
        PacketFit::BeforeStart
    } else if end > buffer_len {
        PacketFit::Overflow
    } else if end < buffer_len {
        PacketFit::OutOfOrder
    } else if crosses_period(buffer_len, buffer_len + audio_len / 3) && user_id.is_none() {
        PacketFit::Unassigned
    } else {
        PacketFit::Fits
    }
}

/// A packet that `Fits` is one the buffer takes: it ends where the
/// buffer's audio ends, and if it makes a request the buffer has a user.
pub proof fn lemma_fitting_packet_is_taken(
    buffer_len: int,
    head: Option<(u32, SystemTime)>,
    user_id: Option<UserId>,
    timestamp: u32,
    audio_len: int,
)
    requires
        packet_fit_of(buffer_len, head, user_id, timestamp, audio_len) == PacketFit::Fits,
    ensures
        ends_at_buffer_end(buffer_len, head, timestamp, audio_len),
        crosses_period(buffer_len, buffer_len + audio_len / 3) ==> user_id.is_some(),
{
}

pub struct AudioBuffer {
    /// Audio data lives here.
    pub buffer: VecDeque<WhisperAudioSample>,
    /// The RTC timestamp of the first sample in the buffer, and the time
    /// on the local clock when it arrived.  RTC timestamps are
    /// stream-specific and cannot be compared across users; the local time
    /// lets a caller order messages between users.
    pub head_timestamp: Option<(DiscordRtcTimestamp, SystemTime)>,
    /// The most recent tokens we've seen from this user.  Used to help
    /// inform the decoder.
    pub last_tokens: VecDeque<WhisperToken>,
    /// The user that this buffer is for.
    pub user_id: Option<UserId>,
}

/// The request to transcribe everything in `b`.
pub open spec fn request_matches(req: TranscriptionRequest, b: AudioBuffer) -> bool {
    &&& req.audio_data@ == b.buffer@
    &&& req.audio_duration == samples_duration(b.buffer@.len() as int)
    &&& req.previous_tokens@ == b.last_tokens@
    &&& req.start_timestamp == b.head_timestamp.unwrap().1
    &&& req.user_id == b.user_id.unwrap()
}

impl AudioBuffer {
    pub fn new() -> (b: AudioBuffer)
        ensures
            b.buffer@.len() == 0,
            b.head_timestamp.is_none(),
            b.last_tokens@.len() == 0,
            b.user_id.is_none(),
    {
        AudioBuffer {
            buffer: VecDeque::with_capacity(WHISPER_AUDIO_BUFFER_SIZE),
            head_timestamp: None,
            last_tokens: VecDeque::with_capacity(TOKENS_TO_KEEP),
            user_id: None,
        }
    }

    /// Gives the buffer to a user: it forgets its start and its tokens.
    pub fn assign_to_user(&mut self, user_id: UserId)
        ensures
            final(self).head_timestamp.is_none(),
            final(self).last_tokens@.len() == 0,
            final(self).user_id == Some(user_id),
            final(self).buffer@ == old(self).buffer@,
    {
        self.head_timestamp = None;
        self.last_tokens.clear();
        self.user_id = Some(user_id);
    }

    /// The 16khz samples from `ts1` to `ts2` on the 8khz RTC clock.
    pub fn rtc_timestamp_delta_to_whisper_audio_sample_delta(
        ts1: DiscordRtcTimestamp,
        ts2: DiscordRtcTimestamp,
    ) -> (delta: u64)
        requires
            is_forward(ts1, ts2),
        ensures
            delta == sample_delta(ts1, ts2),
    {
        let delta = ts2.wrapping_sub(ts1) as u64;
        // we want the number of 16khz samples, so just multiply by 2.
        delta * (WHISPER_SAMPLES_PER_SECOND as u64) / RTC_CLOCK_SAMPLES_PER_SECOND
    }

    /// How a packet of `audio_len` samples stamped `timestamp` fits the
    /// buffer: only one that `Fits` may be added.
    pub fn packet_fit(&self, timestamp: DiscordRtcTimestamp, audio_len: usize) -> (fit: PacketFit)
        requires
            self.buffer@.len() + audio_len / 3 <= usize::MAX,
        ensures
            fit == packet_fit_of(
                self.buffer@.len() as int,
                self.head_timestamp,
                self.user_id,
                timestamp,
                audio_len as int,
            ),
    {
        let head_rtc = match self.head_timestamp {
            Some((rtc, _)) => rtc,
            None => timestamp,
        };
        if timestamp.wrapping_sub(head_rtc) > u32::MAX / 2 {
            return PacketFit::BeforeStart;
        }
        let start_idx = Self::rtc_timestamp_delta_to_whisper_audio_sample_delta(head_rtc, timestamp);
        let end_idx = start_idx + (audio_len / SAMPLES_PER_WHISPER_SAMPLE) as u64;
        let len = self.buffer.len();
        if end_idx > len as u64 {
            PacketFit::Overflow
        } else if end_idx < len as u64 {
            PacketFit::OutOfOrder
        } else if len / AUTO_TRANSCRIPTION_PERIOD_SAMPLES != (len + audio_len / SAMPLES_PER_WHISPER_SAMPLE)
            / AUTO_TRANSCRIPTION_PERIOD_SAMPLES && self.user_id.is_none() {
            PacketFit::Unassigned
        } else {
            PacketFit::Fits
        }
    }

    /// Adds audio that arrived at the local time `now` (see `add_audio`).
    pub fn add_audio_at(
        &mut self,
        timestamp: DiscordRtcTimestamp,
        discord_audio: &[DiscordAudioSample],
        now: SystemTime,
    ) -> (request: Option<TranscriptionRequest>)
        requires
            ends_at_buffer_end(
                old(self).buffer@.len() as int,
                old(self).head_timestamp,
                timestamp,
                discord_audio@.len() as int,
            ),
            old(self).buffer@.len() + discord_audio@.len() / 3 <= usize::MAX,
            crosses_period(
                old(self).buffer@.len() as int,
                (old(self).buffer@.len() + discord_audio@.len() / 3) as int,
            ) ==> old(self).user_id.is_some(),
        ensures
            final(self).buffer@ == old(self).buffer@ + triple_sums(discord_audio@),
            final(self).head_timestamp == match old(self).head_timestamp {
                Some(h) => Some(h),
                None => Some((timestamp, now)),
            },
            final(self).last_tokens@ == old(self).last_tokens@,
            final(self).user_id == old(self).user_id,
            request.is_some() == crosses_period(
                old(self).buffer@.len() as int,
                final(self).buffer@.len() as int,
            ),
            request matches Some(req) ==> request_matches(req, *final(self)),
    {
        let original_buffer_len = self.buffer.len();
        if self.head_timestamp.is_none() {
            self.head_timestamp = Some((timestamp, now));
        }
        let head_rtc = match self.head_timestamp {
            Some((rtc, _)) => rtc,
            None => timestamp,
        };
        let start_idx = Self::rtc_timestamp_delta_to_whisper_audio_sample_delta(head_rtc, timestamp)
            as usize;
        if original_buffer_len < start_idx {
            // we have a gap in the audio.  Pad with silence.
            // This is expected, as Discord will omit sending packets of
            // silence.
            let num_samples_to_insert = start_idx - original_buffer_len;
            let mut k: usize = 0;
            while k < num_samples_to_insert
                invariant
                    k <= num_samples_to_insert,
                    num_samples_to_insert == start_idx - original_buffer_len,
                    self.buffer@.len() == original_buffer_len + k,
                decreases num_samples_to_insert - k,
            {
                self.buffer.push_back(0);
                k = k + 1;
            }
        }
        self.resample_audio_from_discord_to_whisper(discord_audio);
        // if we've gone from one multiple of 5 seconds to the next, kick
        // off a transcription request.
        if original_buffer_len / AUTO_TRANSCRIPTION_PERIOD_SAMPLES != self.buffer.len()
            / AUTO_TRANSCRIPTION_PERIOD_SAMPLES {
            return Some(self.create_transcription_request());
        }
        None
    }

    /// Appends audio stamped `timestamp` to the buffer, converted to 16khz
    /// (see `triple_sums`).  The first audio starts the buffer, at the
    /// current local time.  When the buffer enters a new transcription
    /// period, a request to transcribe all of it is returned.
    pub fn add_audio(&mut self, timestamp: DiscordRtcTimestamp, discord_audio: &[DiscordAudioSample]) -> (request:
        Option<TranscriptionRequest>)
        requires
            ends_at_buffer_end(
                old(self).buffer@.len() as int,
                old(self).head_timestamp,
                timestamp,
                discord_audio@.len() as int,
            ),
            old(self).buffer@.len() + discord_audio@.len() / 3 <= usize::MAX,
            crosses_period(
                old(self).buffer@.len() as int,
                (old(self).buffer@.len() + discord_audio@.len() / 3) as int,
            ) ==> old(self).user_id.is_some(),
        ensures
            final(self).buffer@ == old(self).buffer@ + triple_sums(discord_audio@),
            old(self).head_timestamp.is_some() ==> final(self).head_timestamp == old(self).head_timestamp,
            old(self).head_timestamp.is_none() ==> (final(self).head_timestamp matches Some((rtc, _))
                && rtc == timestamp),
            final(self).last_tokens@ == old(self).last_tokens@,
            final(self).user_id == old(self).user_id,
            request.is_some() == crosses_period(
                old(self).buffer@.len() as int,
                final(self).buffer@.len() as int,
            ),
            request matches Some(req) ==> request_matches(req, *final(self)),
    {
        let now = now();
        self.add_audio_at(timestamp, discord_audio, now)
    }

    /// A request to transcribe everything in the buffer.
    pub fn create_transcription_request(&self) -> (req: TranscriptionRequest)
        requires
            self.head_timestamp.is_some(),
            self.user_id.is_some(),
        ensures
            request_matches(req, *self),
    {
        let mut audio_data: Vec<WhisperAudioSample> = Vec::with_capacity(self.buffer.len());
        let n = self.buffer.len();
        for i in 0..n
            invariant
                n == self.buffer@.len(),
                audio_data@ == self.buffer@.subrange(0, i as int),
        {
            audio_data.push(self.buffer[i]);
            assert(audio_data@ =~= self.buffer@.subrange(0, i + 1));
        }
        assert(self.buffer@.subrange(0, n as int) =~= self.buffer@);
        let mut previous_tokens: Vec<WhisperToken> = Vec::with_capacity(self.last_tokens.len());
        let m = self.last_tokens.len();
        for i in 0..m
            invariant
                m == self.last_tokens@.len(),
                previous_tokens@ == self.last_tokens@.subrange(0, i as int),
        {
            previous_tokens.push(self.last_tokens[i]);
            assert(previous_tokens@ =~= self.last_tokens@.subrange(0, i + 1));
        }
        assert(self.last_tokens@.subrange(0, m as int) =~= self.last_tokens@);
        let start_timestamp = match self.head_timestamp {
            Some((_, t)) => t,
            None => SystemTime::from_nanos(0),
        };
        let user_id = match self.user_id {
            Some(u) => u,
            None => 0,
        };
        TranscriptionRequest {
            audio_data,
            audio_duration: samples_to_duration(n),
            previous_tokens,
            start_timestamp,
            user_id,
        }
    }

    fn resample_audio_from_discord_to_whisper(&mut self, audio: &[DiscordAudioSample])
        requires
            old(self).buffer@.len() + audio@.len() / 3 <= usize::MAX,
        ensures
            final(self).buffer@ == old(self).buffer@ + triple_sums(audio@),
            final(self).head_timestamp == old(self).head_timestamp,
            final(self).last_tokens@ == old(self).last_tokens@,
            final(self).user_id == old(self).user_id,
    {
        let ghost before = self.buffer@;
        let len = audio.len();
        let n = len / SAMPLES_PER_WHISPER_SAMPLE;
        let mut i: usize = 0;
        while i < n
            invariant
                len == audio@.len(),
                n == audio@.len() / 3,
                i <= n,
                self.buffer@ == before + triple_sums(audio@).subrange(0, i as int),
                self.head_timestamp == old(self).head_timestamp,
                self.last_tokens@ == old(self).last_tokens@,
                self.user_id == old(self).user_id,
            decreases n - i,
        {
            assert(3 * i + 2 < audio@.len()) by (nonlinear_arith)
                requires
                    i < n,
                    n == audio@.len() / 3,
            ;
            // sum the run of samples; Whisper reads the sum divided by the
            // largest value two samples can reach
            let base: usize = 3 * i;
            let sum = audio[base] as i32 + audio[base + 1] as i32 + audio[base + 2] as i32;
            self.buffer.push_back(sum);
            assert(triple_sums(audio@).subrange(0, i + 1) =~= triple_sums(audio@).subrange(0, i as int).push(
                sum,
            ));
            i = i + 1;
        }
        assert(triple_sums(audio@).subrange(0, n as int) =~= triple_sums(audio@));
    }

    /// Removes the given amount of audio from the buffer, starting with
    /// the oldest audio; all of it when there is less than that.
    pub fn remove_audio_duration(&mut self, duration_ms: u64)
        requires
            samples_in_ms(duration_ms as int) <= usize::MAX,
        ensures
            samples_in_ms(duration_ms as int) > old(self).buffer@.len() ==> final(self).buffer@.len() == 0,
            samples_in_ms(duration_ms as int) <= old(self).buffer@.len() ==> final(self).buffer@
                == old(self).buffer@.subrange(
                samples_in_ms(duration_ms as int),
                old(self).buffer@.len() as int,
            ),
            final(self).head_timestamp == old(self).head_timestamp,
            final(self).last_tokens@ == old(self).last_tokens@,
            final(self).user_id == old(self).user_id,
    {
        let samples_to_remove = (duration_ms as u128 * WHISPER_SAMPLES_PER_SECOND as u128 / 1000)
            as usize;
        if samples_to_remove > self.buffer.len() {
            self.buffer.clear();
        } else {
            let rest = self.buffer.split_off(samples_to_remove);
            self.buffer = rest;
        }
    }
}

/// Handles a set of audio buffers, one for each user who is talking in the
/// conversation.
pub struct AudioBufferManager {
    /// The buffers assigned to a user in the conversation.  They are kept
    /// until the user leaves, as they may be needed again.
    pub active_buffers: HashMap<UserId, AudioBuffer>,
    /// Buffers allocated ahead, not in use, ready to give to a user who
    /// starts talking.
    pub reserve_buffers: VecDeque<AudioBuffer>,
}

impl AudioBufferManager {
    /// A manager with `reserved` buffers allocated ahead.
    pub fn new(reserved: usize) -> (m: AudioBufferManager)
        ensures
            m.active_buffers@ == Map::<UserId, AudioBuffer>::empty(),
            m.reserve_buffers@.len() == reserved,
    {
        let mut reserve_buffers: VecDeque<AudioBuffer> = VecDeque::new();
        for _i in 0..reserved
            invariant
                reserve_buffers@.len() == _i,
        {
            reserve_buffers.push_back(AudioBuffer::new());
        }
        AudioBufferManager { active_buffers: HashMap::new(), reserve_buffers }
    }

    /// Makes sure `user_id` has a buffer: a user without one is given the
    /// first reserve buffer (a new one when none is left), assigned to
    /// them.
    pub fn ensure_buffer_for_user(&mut self, user_id: UserId)
        ensures
            final(self).active_buffers@.contains_key(user_id),
            old(self).active_buffers@.contains_key(user_id) ==> {
                &&& final(self).active_buffers@ == old(self).active_buffers@
                &&& final(self).reserve_buffers@ == old(self).reserve_buffers@
            },
            !old(self).active_buffers@.contains_key(user_id) ==> {
                let b = final(self).active_buffers@[user_id];
                &&& final(self).active_buffers@.remove(user_id) == old(self).active_buffers@
                &&& b.user_id == Some(user_id)
                &&& b.head_timestamp.is_none()
                &&& b.last_tokens@.len() == 0
                &&& old(self).reserve_buffers@.len() > 0 ==> {
                    &&& b.buffer@ == old(self).reserve_buffers@[0].buffer@
                    &&& final(self).reserve_buffers@ == old(self).reserve_buffers@.drop_first()
                }
                &&& old(self).reserve_buffers@.len() == 0 ==> {
                    &&& b.buffer@.len() == 0
                    &&& final(self).reserve_buffers@.len() == 0
                }
            },
    {
        if !self.active_buffers.contains_key(&user_id) {
            let mut buffer = match self.reserve_buffers.pop_front() {
                Some(b) => b,
                None => AudioBuffer::new(),
            };
            buffer.assign_to_user(user_id);
            self.active_buffers.insert(user_id, buffer);
            assert(self.active_buffers@.remove(user_id) =~= old(self).active_buffers@);
        }
    }

    /// Adds audio from a user to their buffer (see `AudioBuffer::add_audio`).
    /// Returns the request that the buffer makes, if any.
    pub fn add_audio_for_user(
        &mut self,
        user_id: UserId,
        timestamp: DiscordRtcTimestamp,
        discord_audio: &[DiscordAudioSample],
    ) -> (request: Option<TranscriptionRequest>)
        requires
            old(self).active_buffers@.contains_key(user_id),
            ends_at_buffer_end(
                old(self).active_buffers@[user_id].buffer@.len() as int,
                old(self).active_buffers@[user_id].head_timestamp,
                timestamp,
                discord_audio@.len() as int,
            ),
            old(self).active_buffers@[user_id].buffer@.len() + discord_audio@.len() / 3 <= usize::MAX,
            crosses_period(
                old(self).active_buffers@[user_id].buffer@.len() as int,
                (old(self).active_buffers@[user_id].buffer@.len() + discord_audio@.len() / 3) as int,
            ) ==> old(self).active_buffers@[user_id].user_id.is_some(),
        ensures
            final(self).active_buffers@.dom() == old(self).active_buffers@.dom(),
            forall|u: UserId|
                u != user_id && #[trigger] old(self).active_buffers@.contains_key(u)
                    ==> final(self).active_buffers@[u] == old(self).active_buffers@[u],
            final(self).active_buffers@[user_id].buffer@ == old(self).active_buffers@[user_id].buffer@
                + triple_sums(discord_audio@),
            final(self).reserve_buffers@ == old(self).reserve_buffers@,
            request.is_some() == crosses_period(
                old(self).active_buffers@[user_id].buffer@.len() as int,
                final(self).active_buffers@[user_id].buffer@.len() as int,
            ),
            request matches Some(req) ==> request_matches(req, final(self).active_buffers@[user_id]),
    {
        let mut buffer = match self.active_buffers.remove(&user_id) {
            Some(b) => b,
            None => AudioBuffer::new(),
        };
        let request = buffer.add_audio(timestamp, discord_audio);
        self.active_buffers.insert(user_id, buffer);
        assert(self.active_buffers@.dom() =~= old(self).active_buffers@.dom());
        request
    }
}

} // verus!

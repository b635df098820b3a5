//! One user's buffer of audio, resampled from Discord's format into the
//! one Whisper reads.
use vstd::prelude::*;

use crate::audio::events::TranscriptionRequest;
use crate::model::constants::{
    AUDIO_TO_RECORD_MS, BITRATE_CONVERSION_RATIO, DISCORD_AUDIO_CHANNELS,
    DISCORD_AUDIO_MAX_VALUE_TWO_SAMPLES, RTC_CLOCK_SAMPLES_PER_MILLISECOND,
    SILENCE_RMS_DENOMINATOR, SILENCE_RMS_NUMERATOR, WHISPER_AUDIO_BUFFER_SIZE,
    WHISPER_SAMPLES_PER_MILLISECOND,
};
use crate::model::types::{
    DiscordAudioSample, DiscordRtcTimestamp, WhisperAudioSample, WhisperToken,
};
use crate::time::{now, Duration, SystemTime, NANOS_PER_MILLI};
use vstd::math::min;

verus! {

// ---------------------------------------------------------------------
// Conversions between time, RTC ticks and sample counts

/// `a + b` on the wrapping RTC clock.
pub open spec fn rtc_add(a: u32, b: u32) -> u32 {
    vstd::wrapping::u32_specs::wrapping_add(a, b)
}

/// `a - b` on the wrapping RTC clock.
pub open spec fn rtc_sub(a: u32, b: u32) -> u32 {
    vstd::wrapping::u32_specs::wrapping_sub(a, b)
}

/// Whole milliseconds in `d`.
pub open spec fn millis_of(d: Duration) -> int {
    (d.nanos / NANOS_PER_MILLI) as int
}

/// The RTC ticks that stand for `d`: 48 per whole millisecond, modulo 2^32.
pub open spec fn rtc_ticks_of(d: Duration) -> u32 {
    ((millis_of(d) * RTC_CLOCK_SAMPLES_PER_MILLISECOND) % 0x1_0000_0000) as u32
}

/// The 16khz sample index that lies `rtc_sub(ts2, ts1)` ticks after the
/// start of the buffer.
pub open spec fn rtc_delta_index(ts1: u32, ts2: u32) -> int {
    rtc_sub(ts2, ts1) * WHISPER_SAMPLES_PER_MILLISECOND / RTC_CLOCK_SAMPLES_PER_MILLISECOND as int
}

/// The span of `num_samples` 16khz samples, in whole milliseconds.
pub open spec fn samples_duration(num_samples: int) -> Duration {
    Duration { nanos: ((num_samples / WHISPER_SAMPLES_PER_MILLISECOND as int) * NANOS_PER_MILLI) as u128 }
}

/// The sample index at which `d` lies: 16 per whole millisecond.
pub open spec fn index_of(d: Duration) -> int {
    millis_of(d) * WHISPER_SAMPLES_PER_MILLISECOND
}

pub fn duration_to_rtc(duration: &Duration) -> (ticks: DiscordRtcTimestamp)
    ensures
        ticks == rtc_ticks_of(*duration),
{
    let millis = duration.as_millis();
    assert(millis <= u128::MAX / NANOS_PER_MILLI);
    let rtc_samples = millis * RTC_CLOCK_SAMPLES_PER_MILLISECOND;
    (rtc_samples % 0x1_0000_0000) as u32
}

pub fn rtc_timestamp_to_index(ts1: &DiscordRtcTimestamp, ts2: &DiscordRtcTimestamp) -> (index: usize)
    ensures
        index == rtc_delta_index(*ts1, *ts2),
        index <= 0x5555_5555,
{
    let delta = ts2.wrapping_sub(*ts1) as u64;
    // we want the number of 16khz samples, so scale the 48khz ticks by 1/3.
    let scaled = delta * (WHISPER_SAMPLES_PER_MILLISECOND as u64) / (
    RTC_CLOCK_SAMPLES_PER_MILLISECOND as u64);
    assert(delta * 16 / 48 <= 0x5555_5555) by (nonlinear_arith)
        requires
            delta <= 0xffff_ffff,
    ;
    scaled as usize
}

pub fn discord_samples_to_whisper_samples(samples: usize) -> (n: usize)
    ensures
        n == samples / 6,
{
    samples / (BITRATE_CONVERSION_RATIO * DISCORD_AUDIO_CHANNELS)
}

pub fn samples_to_duration(num_samples: usize) -> (d: Duration)
    ensures
        d == samples_duration(num_samples as int),
{
    Duration::from_millis((num_samples / WHISPER_SAMPLES_PER_MILLISECOND) as u64)
}

pub fn duration_to_index(duration: &Duration) -> (index: usize)
    requires
        index_of(*duration) <= usize::MAX,
    ensures
        index == index_of(*duration),
{
    duration.as_millis() as usize * WHISPER_SAMPLES_PER_MILLISECOND
}

// ---------------------------------------------------------------------
// Resampling and silence

/// Discord's interleaved 48khz stereo audio as 16khz mono samples: of each
/// group of three stereo frames, the first frame's two channel values,
/// summed.  A trailing partial group is dropped.
pub open spec fn mono_frames(discord_audio: Seq<i16>) -> Seq<i32> {
    Seq::new(
        discord_audio.len() / 6,
        |i: int| (discord_audio[6 * i] + discord_audio[6 * i + 1]) as i32,
    )
}

/// `buffer` with `data` written from index `start` on, zero-filled between
/// the old end and `start`.
pub open spec fn overwrite(buffer: Seq<i32>, start: int, data: Seq<i32>) -> Seq<i32> {
    let len = if buffer.len() < start + data.len() {
        start + data.len()
    } else {
        buffer.len() as int
    };
    Seq::new(
        len as nat,
        |i: int|
            if start <= i < start + data.len() {
                data[i - start]
            } else if i < buffer.len() {
                buffer[i]
            } else {
                0
            },
    )
}

/// Writing a packet puts each of its samples at its place, whether or not
/// the buffer already held a sample there (a late packet backfills the
/// silence written in its place); every other sample the buffer held stays;
/// between the old end and the packet, silence is written; and the buffer
/// grows just enough to hold the packet.
pub proof fn lemma_overwrite_places_packet(buffer: Seq<i32>, start: int, data: Seq<i32>)
    requires
        0 <= start,
    ensures
        overwrite(buffer, start, data).len() == if buffer.len() < start + data.len() {
            start + data.len()
        } else {
            buffer.len() as int
        },
        forall|j: int|
            0 <= j < data.len() ==> #[trigger] overwrite(buffer, start, data)[start + j] == data[j],
        forall|i: int|
            0 <= i < buffer.len() && !(start <= i < start + data.len()) ==> #[trigger] overwrite(
                buffer,
                start,
                data,
            )[i] == buffer[i],
        forall|i: int|
            buffer.len() <= i < start ==> #[trigger] overwrite(buffer, start, data)[i] == 0,
{
}

/// Where packets go, away from the clock's wrap: a buffer that starts at
/// `start_rtc` takes timestamps from its start up to 30 seconds (1_440_000
/// ticks of the 48khz clock) after it; a packet at `t` lands a third of its
/// tick distance from the start (16khz samples); and a packet of `len`
/// Discord samples (48khz stereo) ends `len / 6` samples of 16khz later,
/// counted in whole milliseconds of 48 ticks.
pub proof fn lemma_packet_placement(start_rtc: u32, start: SystemTime, t: u32, len: int)
    requires
        0 <= len,
    ensures
        start_rtc + 1_440_000 <= u32::MAX ==> (fits_window(Some((start_rtc, start)), t) <==> (start_rtc
            <= t && t < start_rtc + 1_440_000)),
        start_rtc <= t ==> landing_index(Some((start_rtc, start)), t) == (t - start_rtc) / 3,
        landing_index(None, t) == 0,
        fits_window(None, t),
        t + (len / 6) / 16 * 48 <= u32::MAX ==> audio_end_rtc(t, len) == t + (len / 6) / 16 * 48,
{
    assert(rtc_ticks_of(Duration { nanos: (AUDIO_TO_RECORD_MS * NANOS_PER_MILLI) as u128 }) == 1_440_000);
    if t + (len / 6) / 16 * 48 <= u32::MAX {
        let n = len / 6;
        let d = samples_duration(n);
        assert(millis_of(d) == n / 16) by {
            assert(d.nanos == (n / 16) * 1_000_000);
        }
        assert(n / 16 * 48 <= u32::MAX);
        assert(rtc_ticks_of(d) == n / 16 * 48);
    }
}

pub open spec fn all_zero_i16(s: Seq<i16>) -> bool {
    forall|i: int| 0 <= i < s.len() ==> s[i] == 0
}

pub open spec fn all_zero(s: Seq<i32>) -> bool {
    forall|i: int| 0 <= i < s.len() ==> s[i] == 0
}

pub open spec fn sum_of_squares(s: Seq<i32>) -> int
    decreases s.len(),
{
    if s.len() == 0 {
        0
    } else {
        sum_of_squares(s.drop_last()) + s.last() * s.last()
    }
}

/// The root-mean-square level of `s`, on Whisper's -1.0..1.0 scale, is
/// below the silence threshold.
pub open spec fn rms_below_threshold(s: Seq<i32>) -> bool {
    sum_of_squares(s) * (SILENCE_RMS_DENOMINATOR * SILENCE_RMS_DENOMINATOR) < (
    SILENCE_RMS_NUMERATOR * SILENCE_RMS_NUMERATOR) * (DISCORD_AUDIO_MAX_VALUE_TWO_SAMPLES
        * DISCORD_AUDIO_MAX_VALUE_TWO_SAMPLES) * s.len()
}

/// Audio counts as silent when every sample is zero, or when its level is
/// below the silence threshold.
pub open spec fn is_silent(s: Seq<i32>) -> bool {
    all_zero(s) || rms_below_threshold(s)
}

/// True when the `length` samples of `audio` from `start` on are silent:
/// the part of them in the buffer is silent (see `is_silent`), and they do
/// not start past the end of the buffer (starting just at its end, with
/// none of them in it, counts as silent).
pub open spec fn interval_is_silent(audio: Seq<i32>, start: int, length: int) -> bool {
    &&& start <= audio.len()
    &&& is_silent(audio.subrange(start, min(start + length, audio.len() as int)))
}

/// The largest square of an `i32`.
pub open spec fn max_square() -> int {
    0x4000_0000_0000_0000
}

pub proof fn lemma_square_bounds(x: i32)
    ensures
        0 <= x * x <= max_square(),
{
    assert(0 <= x * x) by (nonlinear_arith);
    assert(x * x <= 0x4000_0000_0000_0000) by (nonlinear_arith)
        requires
            -0x8000_0000 <= x <= 0x7fff_ffff,
    ;
}

pub proof fn lemma_sum_of_squares_bounds(s: Seq<i32>)
    ensures
        0 <= sum_of_squares(s) <= s.len() * max_square(),
    decreases s.len(),
{
    if s.len() > 0 {
        lemma_sum_of_squares_bounds(s.drop_last());
        lemma_square_bounds(s.last());
    }
}

// ---------------------------------------------------------------------
// The buffer

/// The end, on the RTC clock, of a buffer that starts at `start_rtc`.
pub open spec fn slice_end(start_rtc: u32) -> u32 {
    rtc_add(start_rtc, rtc_ticks_of(Duration { nanos: (AUDIO_TO_RECORD_MS * NANOS_PER_MILLI) as u128 }))
}

/// True when `rtc_timestamp` lies within the window of a buffer with the
/// given start: from its start up to (not including) its start plus the
/// length of audio to record, reckoned on the wrapping RTC clock.  A buffer
/// with no start takes any timestamp.
pub open spec fn fits_window(start_time: Option<(u32, SystemTime)>, rtc_timestamp: u32) -> bool {
    match start_time {
        None => true,
        Some((start_rtc, _)) => {
            let end = slice_end(start_rtc);
            if start_rtc < end {
                start_rtc <= rtc_timestamp && rtc_timestamp < end
            } else {
                rtc_timestamp < end || rtc_timestamp >= start_rtc
            }
        },
    }
}

/// The RTC timestamp that ends a run of `len` Discord samples (48khz
/// stereo, so `len / 6` samples at 16khz) starting at `rtc_timestamp`.
pub open spec fn audio_end_rtc(rtc_timestamp: u32, len: int) -> u32 {
    rtc_add(rtc_timestamp, rtc_ticks_of(samples_duration(len / 6)))
}

pub struct AudioBuffer {
    pub audio: Vec<WhisperAudioSample>,
    pub slice_id: u64,
    /// The RTC timestamp and local wall-clock time of the first sample.
    pub start_time: Option<(DiscordRtcTimestamp, SystemTime)>,
}

/// Where new audio at `rtc_timestamp` lands in a buffer with the given
/// start.
pub open spec fn landing_index(start_time: Option<(u32, SystemTime)>, rtc_timestamp: u32) -> int {
    match start_time {
        Some((start_rtc, _)) => rtc_delta_index(start_rtc, rtc_timestamp),
        None => 0,
    }
}

/// True when `add_audio` takes the audio: it is not all silence, and its
/// end lies in the buffer's window.
pub open spec fn accepts_audio(
    start_time: Option<(u32, SystemTime)>,
    rtc_timestamp: u32,
    discord_audio: Seq<i16>,
) -> bool {
    &&& !all_zero_i16(discord_audio)
    &&& fits_window(start_time, audio_end_rtc(rtc_timestamp, discord_audio.len() as int))
}

/// The index of the first sample kept when `duration` is discarded.
pub open spec fn discard_index(duration: Duration) -> int {
    index_of(duration)
}

/// The inputs on which discarding `duration` of audio neither overflows
/// an index nor moves the start time past the end of the clock.
pub open spec fn discard_is_defined(
    audio_len: int,
    start_time: Option<(u32, SystemTime)>,
    duration: Duration,
) -> bool {
    &&& discard_index(duration) <= usize::MAX
    &&& discard_index(duration) < audio_len ==> (start_time matches Some((_, t)) ==> t.nanos
        + duration.nanos <= u128::MAX)
}

/// The audio left after discarding `duration` from the front: nothing
/// changes for an empty span, everything goes when the span covers all the
/// audio, and otherwise the samples before the span's end are dropped.
pub open spec fn audio_after_discard(audio: Seq<i32>, duration: Duration) -> Seq<i32> {
    if duration.nanos == 0 {
        audio
    } else if discard_index(duration) >= audio.len() {
        Seq::empty()
    } else {
        audio.subrange(discard_index(duration), audio.len() as int)
    }
}

/// The start of a buffer after discarding `duration` from its front: it
/// moves later by `duration` on both clocks, or is cleared when all the
/// audio goes.
pub open spec fn start_after_discard(
    audio_len: int,
    start_time: Option<(u32, SystemTime)>,
    duration: Duration,
) -> Option<(u32, SystemTime)> {
    if duration.nanos == 0 {
        start_time
    } else if discard_index(duration) >= audio_len {
        None
    } else {
        match start_time {
            Some((rtc, t)) => Some(
                (rtc_add(rtc, rtc_ticks_of(duration)), SystemTime { nanos: (t.nanos + duration.nanos) as u128 }),
            ),
            None => None,
        }
    }
}

/// Discarding a whole number of milliseconds keeps every remaining sample
/// at its time: the sample now at index `i` is the one that was at `i` plus
/// the samples discarded, and the buffer's start moved later by just the
/// span those samples covered.
pub proof fn lemma_discard_keeps_sample_times(
    audio: Seq<i32>,
    start_time: Option<(u32, SystemTime)>,
    duration: Duration,
    i: int,
)
    requires
        audio.len() <= usize::MAX,
        duration.nanos % NANOS_PER_MILLI == 0,
        discard_is_defined(audio.len() as int, start_time, duration),
        0 <= i < audio_after_discard(audio, duration).len(),
    ensures
        audio_after_discard(audio, duration)[i] == audio[i + discard_index(duration)],
        start_time matches Some((_, t)) ==> (start_after_discard(
            audio.len() as int,
            start_time,
            duration,
        ) matches Some((_, t2)) && t2.nanos + samples_duration(i).nanos == t.nanos + samples_duration(
            i + discard_index(duration),
        ).nanos),
{
    let k = discard_index(duration);
    let ms = millis_of(duration);
    assert(duration.nanos == ms * 1_000_000) by (nonlinear_arith)
        requires
            duration.nanos % 1_000_000 == 0,
            ms == duration.nanos / 1_000_000,
    ;
    assert((i + k) / 16 == i / 16 + ms) by (nonlinear_arith)
        requires
            k == ms * 16,
            i >= 0,
    ;
    assert(((i + k) / 16) * 1_000_000 == (i / 16) * 1_000_000 + ms * 1_000_000) by (nonlinear_arith)
        requires
            (i + k) / 16 == i / 16 + ms,
    ;
    assert(((i + k) / 16) * 1_000_000 <= 0x1_0000_0000_0000_0000 * 1_000_000) by (nonlinear_arith)
        requires
            0 <= i + k <= 0x1_0000_0000_0000_0000,
    ;
    assert((i / 16) * 1_000_000 <= 0x1_0000_0000_0000_0000 * 1_000_000) by (nonlinear_arith)
        requires
            0 <= i <= 0x1_0000_0000_0000_0000,
    ;
    if duration.nanos != 0 && k < audio.len() {
        assert(i + k < audio.len());
    }
}

impl AudioBuffer {
    pub fn new(slice_id: u64) -> (b: AudioBuffer)
        ensures
            b.audio@.len() == 0,
            b.slice_id == slice_id,
            b.start_time.is_none(),
    {
        AudioBuffer { audio: Vec::with_capacity(WHISPER_AUDIO_BUFFER_SIZE), slice_id, start_time: None }
    }

    pub fn clear(&mut self)
        ensures
            final(self).audio@.len() == 0,
            final(self).start_time.is_none(),
            final(self).slice_id == old(self).slice_id,
    {
        self.audio.clear();
        self.start_time = None;
    }

    /// True if the given timestamp is within the bounds of this slice.
    /// Bounds are considered to begin with the start of the slice,
    /// and end with the start of the slice plus the length of the
    /// audio to record.
    /// An empty slice is considered to have no bounds, and will fit
    /// any timestamp.
    pub fn fits_within_this_slice(&self, rtc_timestamp: DiscordRtcTimestamp) -> (fits: bool)
        ensures
            fits == fits_window(self.start_time, rtc_timestamp),
            self.start_time.is_none() ==> fits,
    {
        timestamp_fits_window(&self.start_time, rtc_timestamp)
    }

    /// A request to transcribe all the audio in the buffer, or `None` when
    /// the buffer has not started.
    pub fn make_transcription_request(&self, previous_tokens: Vec<WhisperToken>) -> (r: Option<
        TranscriptionRequest,
    >)
        ensures
            r.is_some() == self.start_time.is_some(),
            r matches Some(req) ==> {
                &&& req.audio_data@ == self.audio@
                &&& req.audio_duration == samples_duration(self.audio@.len() as int)
                &&& req.previous_tokens@ == previous_tokens@
                &&& req.start_timestamp == self.start_time.unwrap().1
                &&& req.user_id == self.slice_id
            },
    {
        match self.start_time {
            None => None,
            Some((_, start_timestamp)) => Some(
                TranscriptionRequest {
                    audio_data: copy_samples(&self.audio),
                    audio_duration: self.buffer_duration(),
                    previous_tokens,
                    start_timestamp,
                    user_id: self.slice_id,
                },
            ),
        }
    }

    /// True if the given audio can entirely fit within this slice.
    pub fn can_fit_audio(
        &self,
        rtc_timestamp: &DiscordRtcTimestamp,
        discord_audio: &[DiscordAudioSample],
    ) -> (fits: bool)
        ensures
            fits == fits_window(self.start_time, audio_end_rtc(*rtc_timestamp, discord_audio@.len() as int)),
    {
        let rtc_length = duration_to_rtc(
            &samples_to_duration(discord_samples_to_whisper_samples(discord_audio.len())),
        );
        self.fits_within_this_slice(rtc_timestamp.wrapping_add(rtc_length))
    }

    /// The length of audio that still fits in the buffer.
    pub fn remaining_capacity(&self) -> (d: Duration)
        requires
            self.audio@.len() <= WHISPER_AUDIO_BUFFER_SIZE,
        ensures
            d == samples_duration(WHISPER_AUDIO_BUFFER_SIZE - self.audio@.len()),
    {
        let remaining = WHISPER_AUDIO_BUFFER_SIZE - self.audio.len();
        samples_to_duration(remaining)
    }

    pub fn is_empty(&self) -> (b: bool)
        ensures
            b == (self.audio@.len() == 0 && self.start_time.is_none()),
    {
        self.audio.len() == 0 && self.start_time.is_none()
    }

    /// Adds the given audio to the slice, resampling it from the
    /// discord format to the whisper format.
    /// If the slice is full, then the audio will be "silently" dropped.
    /// Audio that is entirely silent is not added.  The first audio added
    /// to an empty slice starts it, at the current wall-clock time.
    pub fn add_audio(&mut self, rtc_timestamp: &DiscordRtcTimestamp, discord_audio: &[DiscordAudioSample])
        ensures
            final(self).slice_id == old(self).slice_id,
            !accepts_audio(old(self).start_time, *rtc_timestamp, discord_audio@) ==> {
                &&& final(self).audio@ == old(self).audio@
                &&& final(self).start_time == old(self).start_time
            },
            accepts_audio(old(self).start_time, *rtc_timestamp, discord_audio@) ==> {
                &&& final(self).audio@ == overwrite(
                    old(self).audio@,
                    landing_index(old(self).start_time, *rtc_timestamp),
                    mono_frames(discord_audio@),
                )
                &&& old(self).start_time.is_some() ==> final(self).start_time == old(self).start_time
                &&& old(self).start_time.is_none() ==> (final(self).start_time matches Some((rtc, _))
                    && rtc == *rtc_timestamp)
            },
    {
        let now = now();
        self.add_audio_at(rtc_timestamp, discord_audio, now);
    }

    /// `add_audio`, with the wall-clock time handed in.
    pub fn add_audio_at(
        &mut self,
        rtc_timestamp: &DiscordRtcTimestamp,
        discord_audio: &[DiscordAudioSample],
        now: SystemTime,
    )
        ensures
            final(self).slice_id == old(self).slice_id,
            !accepts_audio(old(self).start_time, *rtc_timestamp, discord_audio@) ==> {
                &&& final(self).audio@ == old(self).audio@
                &&& final(self).start_time == old(self).start_time
            },
            accepts_audio(old(self).start_time, *rtc_timestamp, discord_audio@) ==> {
                &&& final(self).audio@ == overwrite(
                    old(self).audio@,
                    landing_index(old(self).start_time, *rtc_timestamp),
                    mono_frames(discord_audio@),
                )
                &&& final(self).start_time == match old(self).start_time {
                    Some(st) => Some(st),
                    None => Some((*rtc_timestamp, now)),
                }
            },
    {
        // if audio is entirely silent, then don't add it
        let mut silent = true;
        let n = discord_audio.len();
        for i in 0..n
            invariant
                n == discord_audio@.len(),
                silent == (forall|j: int| 0 <= j < i ==> discord_audio@[j] == 0),
        {
            if discord_audio[i] != 0 {
                silent = false;
            }
        }
        if silent {
            return;
        }
        if !self.can_fit_audio(rtc_timestamp, discord_audio) {
            return;
        }
        let start_index;
        match self.start_time {
            Some((start_rtc, _)) => {
                start_index = rtc_timestamp_to_index(&start_rtc, rtc_timestamp);
            },
            None => {
                // this is the first audio for the slice, so we need to set
                // the start time
                self.start_time = Some((*rtc_timestamp, now));
                start_index = 0;
            },
        }
        self.resample_audio_from_discord_to_whisper(start_index, discord_audio);
    }

    /// Transcode the audio into the given location of the buffer,
    /// converting it from Discord's format (48khz stereo PCM16)
    /// to Whisper's format (16khz mono).
    ///
    /// This handles several cases:
    ///  - a single allocation for the new audio at the end of the buffer
    ///  - also, inserting silence if the new audio is not contiguous with
    ///    the previous audio
    ///  - doing it in a way that we can also backfill audio if we get
    ///    packets out-of-order
    fn resample_audio_from_discord_to_whisper(
        &mut self,
        start_index: usize,
        discord_audio: &[DiscordAudioSample],
    )
        requires
            start_index + discord_audio@.len() / 6 <= usize::MAX,
        ensures
            final(self).audio@ == overwrite(old(self).audio@, start_index as int, mono_frames(discord_audio@)),
            final(self).slice_id == old(self).slice_id,
            final(self).start_time == old(self).start_time,
    {
        write_resampled(&mut self.audio, start_index, discord_audio);
    }

    /// Discards the amount of audio specified by the duration
    /// from the start of the buffer, shuffling the remaining
    /// audio to the start of the buffer.  Any indexes and
    /// timestamps are adjusted accordingly.
    pub fn discard_audio(&mut self, duration: &Duration)
        requires
            discard_is_defined(old(self).audio@.len() as int, old(self).start_time, *duration),
        ensures
            final(self).slice_id == old(self).slice_id,
            final(self).audio@ == audio_after_discard(old(self).audio@, *duration),
            final(self).start_time == start_after_discard(
                old(self).audio@.len() as int,
                old(self).start_time,
                *duration,
            ),
    {
        let discard_idx = duration_to_index(duration);
        if duration.is_zero() {
            return;
        }
        if discard_idx >= self.audio.len() {
            // discard as much as we have, so just clear the buffer
            self.clear();
            return;
        }
        // eliminate this many samples from the start of the buffer
        let rest = self.audio.split_off(discard_idx);
        self.audio = rest;
        // update the start timestamp
        match self.start_time {
            Some((start_rtc, start_system)) => {
                self.start_time = Some(
                    (start_rtc.wrapping_add(duration_to_rtc(duration)), start_system.plus(*duration)),
                );
            },
            None => {},
        }
    }

    /// Tells whether `duration` can be discarded (see
    /// `discard_is_defined`).
    pub fn can_discard(&self, duration: &Duration) -> (b: bool)
        ensures
            b == discard_is_defined(self.audio@.len() as int, self.start_time, *duration),
    {
        let millis = duration.as_millis();
        assert(millis <= u128::MAX / NANOS_PER_MILLI);
        let index = millis * (WHISPER_SAMPLES_PER_MILLISECOND as u128);
        if index > usize::MAX as u128 {
            return false;
        }
        if (index as usize) < self.audio.len() {
            match self.start_time {
                Some((_, t)) => t.nanos <= u128::MAX - duration.nanos,
                None => true,
            }
        } else {
            true
        }
    }

    /// Returns the length of the audio stored in the buffer,
    /// in units of time.
    pub fn buffer_duration(&self) -> (d: Duration)
        ensures
            d == samples_duration(self.audio@.len() as int),
    {
        samples_to_duration(self.audio.len())
    }

    /// The sample range `[start, start + interval_length)`, clamped to the
    /// buffer.
    pub fn clamped_range(&self, start: &Duration, interval_length: &Duration) -> (r: (usize, usize))
        requires
            index_of(*start) + index_of(*interval_length) <= usize::MAX,
        ensures
            r.0 == min(index_of(*start), self.audio@.len() as int),
            r.1 == min(index_of(*start) + index_of(*interval_length), self.audio@.len() as int),
            r.0 <= r.1 <= self.audio@.len(),
    {
        let idx_start = duration_to_index(start);
        let idx_end = idx_start + duration_to_index(interval_length);
        let len = self.audio.len();
        let idx_start = if idx_start < len {
            idx_start
        } else {
            len
        };
        let idx_end = if idx_end < len {
            idx_end
        } else {
            len
        };
        (idx_start, idx_end)
    }

    /// Returns true only if the period from [start, start + interval_length]
    /// contains only silence (see `interval_is_silent`).  If none of the
    /// period is in the buffer, then this returns false.  If only part of
    /// the period is in the buffer, and all of that part is silence, then
    /// this returns true.  The one exception is for when the start is one
    /// sample beyond the end of the buffer, in which case this returns
    /// true.
    pub fn is_interval_silent(&self, start: &Duration, interval_length: &Duration) -> (silent: bool)
        requires
            index_of(*start) + index_of(*interval_length) <= usize::MAX,
        ensures
            silent == interval_is_silent(self.audio@, index_of(*start), index_of(*interval_length)),
    {
        if duration_to_index(start) > self.audio.len() {
            return false;
        }
        let (idx_start, idx_end) = self.clamped_range(start, interval_length);
        let (zero, squares) = measure_range(&self.audio, idx_start, idx_end);
        zero || level_below_threshold(squares, idx_end - idx_start)
    }
}

/// Measures `audio[start..end]`: whether every sample is zero, and the sum
/// of the squares of the samples.
pub fn measure_range(audio: &Vec<WhisperAudioSample>, start: usize, end: usize) -> (r: (bool, u128))
    requires
        start <= end <= audio@.len(),
    ensures
        r.0 == all_zero(audio@.subrange(start as int, end as int)),
        r.1 == sum_of_squares(audio@.subrange(start as int, end as int)),
        r.1 <= (end - start) * max_square(),
{
    let ghost s = audio@.subrange(start as int, end as int);
    let mut zero = true;
    let mut squares: u128 = 0;
    let mut i = start;
    while i < end
        invariant
            start <= i <= end <= audio@.len(),
            s == audio@.subrange(start as int, end as int),
            zero == all_zero(s.subrange(0, i - start)),
            squares == sum_of_squares(s.subrange(0, i - start)),
        decreases end - i,
    {
        let x = audio[i];
        proof {
            let t = s.subrange(0, i - start + 1);
            assert(t.drop_last() =~= s.subrange(0, i - start));
            assert(t.last() == x);
            lemma_sum_of_squares_bounds(t);
            lemma_square_bounds(x);
            assert(t.len() * max_square() <= 0x1_0000_0000_0000_0000 * max_square()) by (nonlinear_arith)
                requires
                    t.len() <= 0x1_0000_0000_0000_0000,
            ;
        }
        if x != 0 {
            zero = false;
        }
        let sq = (x as i64 * x as i64) as u128;
        squares = squares + sq;
        i = i + 1;
    }
    assert(s.subrange(0, end - start) =~= s);
    proof {
        lemma_sum_of_squares_bounds(s);
    }
    (zero, squares)
}

/// True when `n` samples whose squares sum to `squares` have a
/// root-mean-square level, on Whisper's -1.0..1.0 scale, below the silence
/// threshold (see `rms_below_threshold`).
pub fn level_below_threshold(squares: u128, n: usize) -> (b: bool)
    requires
        squares <= n * max_square(),
    ensures
        b == (squares * (SILENCE_RMS_DENOMINATOR * SILENCE_RMS_DENOMINATOR) < (SILENCE_RMS_NUMERATOR
            * SILENCE_RMS_NUMERATOR) * (DISCORD_AUDIO_MAX_VALUE_TWO_SAMPLES
            * DISCORD_AUDIO_MAX_VALUE_TWO_SAMPLES) * n),
{
    let n = n as u128;
    assert(1 * (65534 * 65534) * n <= 0x1_0000_0000 * 0x1_0000_0000_0000_0000) by (nonlinear_arith)
        requires
            n <= 0x1_0000_0000_0000_0000,
    ;
    let full_scale = DISCORD_AUDIO_MAX_VALUE_TWO_SAMPLES as u128;
    let limit = ((SILENCE_RMS_NUMERATOR * SILENCE_RMS_NUMERATOR) as u128) * (full_scale * full_scale)
        * n;
    let scale = (SILENCE_RMS_DENOMINATOR * SILENCE_RMS_DENOMINATOR) as u128;
    // a sum of squares above the limit fails the test however it is scaled
    squares <= limit && squares * scale < limit
}

/// True if `rtc_timestamp` lies within the window of a buffer with the
/// given start (see `fits_window`).
pub fn timestamp_fits_window(
    start_time: &Option<(DiscordRtcTimestamp, SystemTime)>,
    rtc_timestamp: DiscordRtcTimestamp,
) -> (fits: bool)
    ensures
        fits == fits_window(*start_time, rtc_timestamp),
{
    match start_time {
        None => true,
        Some((start_rtc, _)) => {
            let end = start_rtc.wrapping_add(duration_to_rtc(&Duration::from_millis(AUDIO_TO_RECORD_MS)));
            if *start_rtc < end {
                rtc_timestamp >= *start_rtc && rtc_timestamp < end
            } else {
                // if the slice wraps around, then the timestamp is
                // either before the end or after the start.
                rtc_timestamp < end || rtc_timestamp >= *start_rtc
            }
        },
    }
}

/// Writes Discord audio, resampled to 16khz mono, into `audio` from
/// `start_index` on, growing it with silence as needed.
pub fn write_resampled(
    audio: &mut Vec<WhisperAudioSample>,
    start_index: usize,
    discord_audio: &[DiscordAudioSample],
)
    requires
        start_index + discord_audio@.len() / 6 <= usize::MAX,
    ensures
        final(audio)@ == overwrite(old(audio)@, start_index as int, mono_frames(discord_audio@)),
{
    let frames = discord_samples_to_whisper_samples(discord_audio.len());
    let end_index = start_index + frames;
    let old_len = audio.len();
    let buffer_len = if old_len < end_index {
        end_index
    } else {
        old_len
    };
    let ghost old_audio = audio@;
    let ghost data = mono_frames(discord_audio@);
    let audio_len = discord_audio.len();
    audio.resize(buffer_len, 0);
    assert forall|i: int| 0 <= i < buffer_len implies #[trigger] audio@[i] == (
    if i < old_len {
        old_audio[i]
    } else {
        0
    }) by {
        if i < old_len {
            assert(audio@.subrange(0, old_len as int)[i] == old_audio[i]);
        }
    }
    let mut k: usize = 0;
    while k < frames
        invariant
            frames == data.len(),
            data == mono_frames(discord_audio@),
            audio_len == discord_audio@.len(),
            discord_audio@.len() / 6 == frames,
            end_index == start_index + frames,
            k <= frames,
            audio@.len() == buffer_len,
            buffer_len >= end_index,
            buffer_len >= old_len,
            old_len == old_audio.len(),
            forall|i: int|
                0 <= i < buffer_len ==> #[trigger] audio@[i] == (if start_index <= i
                    < start_index + k {
                    data[i - start_index]
                } else if i < old_len {
                    old_audio[i]
                } else {
                    0
                }),
        decreases frames - k,
    {
        assert(6 * k + 1 < discord_audio@.len()) by (nonlinear_arith)
            requires
                k < frames,
                discord_audio@.len() / 6 == frames,
        ;
        // sum the channel data of the first frame of the group
        let left = discord_audio[6 * k] as i32;
        let right = discord_audio[6 * k + 1] as i32;
        assert(data[k as int] == left + right);
        audio.set(start_index + k, left + right);
        k = k + 1;
    }
    assert(audio@ =~= overwrite(old_audio, start_index as int, data));
}

/// A copy of a run of samples.
pub fn copy_samples(samples: &Vec<WhisperAudioSample>) -> (copy: Vec<WhisperAudioSample>)
    ensures
        copy@ == samples@,
{
    let mut copy: Vec<WhisperAudioSample> = Vec::with_capacity(samples.len());
    let n = samples.len();
    for i in 0..n
        invariant
            n == samples@.len(),
            copy@ == samples@.subrange(0, i as int),
    {
        copy.push(samples[i]);
        assert(copy@ =~= samples@.subrange(0, i + 1));
    }
    assert(samples@.subrange(0, n as int) =~= samples@);
    copy
}

} // verus!

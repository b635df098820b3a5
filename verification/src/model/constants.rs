//! Rates, sizes and timeouts of the audio pipeline.
use vstd::prelude::*;

verus! {

/// Seconds of audio a buffer holds.
pub const AUDIO_TO_RECORD_SECONDS: usize = 30;

pub const AUDIO_TO_RECORD_MS: u64 = 30_000;

pub const AUTO_TRANSCRIPTION_PERIOD_MS: u128 = 5000;

/// Keep this many tokens from previous transcriptions, and use them to
/// seed the next transcription.  This is per-user.
pub const TOKENS_TO_KEEP: usize = 1024;

pub const USER_SILENCE_TIMEOUT_MS: u64 = 1000;

/// Drop a user's worker when it has had no activity for this long.
pub const DISCARD_USER_AUDIO_AFTER_SECS: u64 = 600;

/// Hysteresis for the decoding that's triggered when a user goes silent.
/// We won't automatically start a new transcription when the user goes
/// silent if we did so already within this interval.
pub const SILENT_TIMEOUT_SECS: u64 = 5;

pub const WHISPER_SAMPLES_PER_SECOND: usize = 16000;

pub const WHISPER_SAMPLES_PER_MILLISECOND: usize = 16;

/// Transcriptions that arrive later than this after the end of their audio
/// are reported as lagging.
pub const MAX_LAG_SECS: u64 = 3;

pub const DISCORD_AUDIO_CHANNELS: usize = 2;

pub const DISCORD_SAMPLES_PER_SECOND: usize = 48000;

/// The RTC timestamp uses a 48khz clock.
pub const RTC_CLOCK_SAMPLES_PER_MILLISECOND: u128 = 48;

/// Discord's sample rate is a whole multiple of Whisper's, so resampling
/// keeps one frame out of every `BITRATE_CONVERSION_RATIO`.
pub const BITRATE_CONVERSION_RATIO: usize = DISCORD_SAMPLES_PER_SECOND / WHISPER_SAMPLES_PER_SECOND;

/// The total size of the buffer we'll use to store audio, in samples.
pub const WHISPER_AUDIO_BUFFER_SIZE: usize = WHISPER_SAMPLES_PER_SECOND * AUDIO_TO_RECORD_SECONDS;

/// The largest magnitude of a mono sample: two full-scale channel values.
/// Whisper sees a mono sample divided by this value.
pub const DISCORD_AUDIO_MAX_VALUE_TWO_SAMPLES: i32 = 65534;

/// Audio whose root-mean-square level (on Whisper's -1.0..1.0 scale) is
/// below `SILENCE_RMS_NUMERATOR / SILENCE_RMS_DENOMINATOR` counts as
/// silence.
pub const SILENCE_RMS_NUMERATOR: u64 = 1;

pub const SILENCE_RMS_DENOMINATOR: u64 = 1000;

} // verus!

//! The value types that flow through the pipeline.
use vstd::prelude::*;

verus! {

/// One channel value of Discord's 48khz stereo PCM.
pub type DiscordAudioSample = i16;

/// Discord's RTP timestamp.  It counts 48khz ticks and wraps around, so
/// all arithmetic on it is modulo 2^32.
pub type DiscordRtcTimestamp = u32;

pub type Ssrc = u32;

pub type UserId = u64;

/// One 16khz mono sample, kept as the sum of the left and right channel
/// values of the stereo frame it came from.  Whisper receives it divided by
/// `DISCORD_AUDIO_MAX_VALUE_TWO_SAMPLES`, a value between -1.0 and 1.0.
pub type WhisperAudioSample = i32;

pub type WhisperToken = i32;

/// This is a percentage, so it's between 0 and 100.
pub type WhisperTokenProbabilityPercentage = u32;

} // verus!

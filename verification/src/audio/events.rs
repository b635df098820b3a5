//! Events that flow between the audio workers.
use vstd::prelude::*;

use crate::api::api_types::TranscribedMessage;
use crate::model::types::{
    DiscordAudioSample, DiscordRtcTimestamp, UserId, WhisperAudioSample, WhisperToken,
};
use crate::time::{Duration, SystemTime};

verus! {

#[derive(Clone, Copy, Debug, PartialEq, Eq, Structural, PartialOrd, Ord, Hash)]
pub enum UserAudioEventType {
    Speaking,
    Silent,
    Idle,
}

#[derive(Clone, Copy, Debug, PartialEq, Eq, Structural, PartialOrd, Ord, Hash)]
pub struct UserAudioEvent {
    pub user_id: UserId,
    pub event_type: UserAudioEventType,
}

#[derive(Debug)]
pub struct DiscordAudioData {
    pub user_id: UserId,
    pub discord_audio: Vec<DiscordAudioSample>,
    pub rtc_timestamp: DiscordRtcTimestamp,
}

/// A request to transcribe a stretch of one user's audio.
#[derive(Debug)]
pub struct TranscriptionRequest {
    /// The audio, as 16khz mono samples.
    pub audio_data: Vec<WhisperAudioSample>,
    pub audio_duration: Duration,
    pub previous_tokens: Vec<WhisperToken>,
    pub start_timestamp: SystemTime,
    pub user_id: UserId,
}

#[derive(Debug)]
pub struct TranscriptionResponse {
    pub transcript: TranscribedMessage,
}

} // verus!

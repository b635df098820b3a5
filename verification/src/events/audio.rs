//! Events about voice activity in the channel.
use vstd::prelude::*;

pub use crate::audio::events::{DiscordAudioData, TranscriptionRequest, TranscriptionResponse};

verus! {

/// Sent when a user begins speaking or stops speaking.
#[derive(Clone, Copy, Debug, PartialEq, Eq, Structural)]
pub struct VoiceActivityData {
    pub user_id: u64,
    pub speaking: bool,
}

} // verus!

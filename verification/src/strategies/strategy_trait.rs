//! Determines when to start a new transcript generation,
//! and when to consider a segment from a transcript complete.
use vstd::prelude::*;

use crate::api::api_types::{can_split_at_end_time, split_is_defined, MessageView, TranscribedMessage};
use crate::audio::events::UserAudioEventType;
use crate::model::constants::{AUDIO_TO_RECORD_MS, USER_SILENCE_TIMEOUT_MS};
use crate::time::{Duration, SystemTime, NANOS_PER_MILLI};

verus! {

pub enum WorkerActions {
    /// Requests that a new transcript be generated
    /// at the given point in the future.  This will replace
    /// any previous pending request for a transcript.
    /// If None, no new transcript will be generated.
    NewTranscript(Option<Duration>),
    /// Publish the given transcript to the API.
    Publish(TranscribedMessage),
}

pub enum ActionView {
    NewTranscript(Option<Duration>),
    Publish(MessageView),
}

impl View for WorkerActions {
    type V = ActionView;

    open spec fn view(&self) -> ActionView {
        match self {
            WorkerActions::NewTranscript(d) => ActionView::NewTranscript(*d),
            WorkerActions::Publish(t) => ActionView::Publish(t@),
        }
    }
}

/// The views of a list of actions.
pub open spec fn actions_view(actions: Seq<WorkerActions>) -> Seq<ActionView> {
    actions.map_values(|a: WorkerActions| a@)
}

pub struct WorkerContext {
    pub audio_duration: Duration,
    pub silent_after: bool,
}

/// The time, `USER_SILENCE_TIMEOUT` before the end of a transcript's audio,
/// at which its finalized part ends.
pub open spec fn finalize_cutoff(transcript: MessageView) -> SystemTime {
    SystemTime {
        nanos: (transcript.start_timestamp.nanos + transcript.audio_duration.nanos
            - USER_SILENCE_TIMEOUT_MS * NANOS_PER_MILLI) as u128,
    }
}

/// The transcripts a strategy can take: the end of their audio is a valid
/// time at least `USER_SILENCE_TIMEOUT` after the epoch, and they can be
/// split at `finalize_cutoff`.
pub open spec fn strategy_can_take(transcript: MessageView) -> bool {
    &&& transcript.start_timestamp.nanos + transcript.audio_duration.nanos <= u128::MAX
    &&& USER_SILENCE_TIMEOUT_MS * NANOS_PER_MILLI <= transcript.start_timestamp.nanos
        + transcript.audio_duration.nanos
    &&& split_is_defined(transcript, finalize_cutoff(transcript))
}

/// Tells whether a strategy can take `transcript` (see
/// `strategy_can_take`).
pub fn strategy_can_take_transcript(transcript: &TranscribedMessage) -> (b: bool)
    ensures
        b == strategy_can_take(transcript@),
{
    let start = transcript.start_timestamp.nanos;
    let length = transcript.audio_duration.nanos;
    if start > u128::MAX - length {
        return false;
    }
    let timeout = (USER_SILENCE_TIMEOUT_MS as u128) * NANOS_PER_MILLI;
    if start + length < timeout {
        return false;
    }
    let cutoff = SystemTime { nanos: start + length - timeout };
    assert(cutoff == finalize_cutoff(transcript@));
    can_split_at_end_time(transcript, cutoff)
}

/// Two thirds of the audio a buffer holds: past this, a transcript is
/// taken whole.
pub open spec fn running_out_of_space(audio_duration: Duration) -> bool {
    audio_duration.nanos >= 2 * (AUDIO_TO_RECORD_MS * NANOS_PER_MILLI) / 3
}

/// A buffer runs out of space once it holds two thirds of the 30 seconds
/// of audio it records: from 20 seconds on.  A strategy then takes any
/// transcript, since it is taken whole.
pub proof fn lemma_out_of_space_from_twenty_seconds(
    audio_duration: Duration,
    transcript: MessageView,
    silent_after: bool,
)
    ensures
        running_out_of_space(audio_duration) <==> audio_duration.nanos >= 20_000_000_000,
        audio_duration.nanos >= 20_000_000_000 ==> strategy_can_take_in(
            transcript,
            WorkerContext { audio_duration, silent_after },
        ),
{
}

/// The transcripts a strategy can take in a given context: any transcript
/// when the audio after it is silent or the buffer is running out of space,
/// since it is then taken whole; otherwise those that `strategy_can_take`.
pub open spec fn strategy_can_take_in(transcript: MessageView, context: WorkerContext) -> bool {
    context.silent_after || running_out_of_space(context.audio_duration) || strategy_can_take(
        transcript,
    )
}

/// Tells whether a strategy can take `transcript` in `context` (see
/// `strategy_can_take_in`).
pub fn strategy_can_take_transcript_in(transcript: &TranscribedMessage, context: &WorkerContext) -> (b:
    bool)
    ensures
        b == strategy_can_take_in(transcript@, *context),
{
    let two_thirds = 2 * ((AUDIO_TO_RECORD_MS as u128) * NANOS_PER_MILLI) / 3;
    context.silent_after || context.audio_duration.nanos >= two_thirds || strategy_can_take_transcript(
        transcript,
    )
}

pub trait TranscriptStrategy {
    /// Called when a user audio event happens, e.g.:
    ///     Speaking - user starts speaking
    ///     Silent - user stops speaking for 100ms
    ///     Idle - user stops speaking for 1 second
    fn handle_event(
        &mut self,
        event: &UserAudioEventType,
        audio_duration: &Duration,
    ) -> Option<Vec<WorkerActions>>;

    fn handle_transcription(
        &mut self,
        transcript: &TranscribedMessage,
        context: WorkerContext,
    ) -> Option<Vec<WorkerActions>>
        requires
            strategy_can_take_in(transcript@, context),
    ;
}

} // verus!

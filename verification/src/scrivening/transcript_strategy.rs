//! The simplest transcript strategy: transcribe when the user goes idle,
//! and publish whatever comes back.
use vstd::prelude::*;

use crate::api::api_types::TranscribedMessage;
use crate::audio::events::UserAudioEventType;
use crate::strategies::five_second_strategy::opt_actions_view;
use crate::strategies::strategy_trait::{ActionView, WorkerActions, WorkerContext};
use crate::time::Duration;

verus! {

/// Determines when to start a new transcript generation, and when to
/// consider a segment from a transcript complete; told only of the event.
pub trait TranscriptStrategy {
    /// Called when a user audio event happens, e.g.:
    ///     Speaking - user starts speaking
    ///     Silent - user stops speaking for 100ms
    ///     Idle - user stops speaking for 1 second
    fn handle_event(&mut self, event: &UserAudioEventType) -> Option<Vec<WorkerActions>>;

    fn handle_transcription(
        &mut self,
        transcript: &TranscribedMessage,
        context: WorkerContext,
    ) -> Option<Vec<WorkerActions>>;
}

pub struct DefaultTranscriptStrategy {}

impl DefaultTranscriptStrategy {
    pub fn new() -> DefaultTranscriptStrategy {
        DefaultTranscriptStrategy {}
    }
}

impl TranscriptStrategy for DefaultTranscriptStrategy {
    fn handle_event(&mut self, event: &UserAudioEventType) -> (r: Option<Vec<WorkerActions>>)
        ensures
            *event == UserAudioEventType::Idle ==> opt_actions_view(r) == Some(
                seq![ActionView::NewTranscript(Some(Duration { nanos: 0 }))],
            ),
            *event != UserAudioEventType::Idle ==> r.is_none(),
    {
        match event {
            UserAudioEventType::Speaking => None,
            UserAudioEventType::Silent => None,
            UserAudioEventType::Idle => {
                // make a new transcription right now
                let mut actions = Vec::new();
                actions.push(WorkerActions::NewTranscript(Some(Duration::zero())));
                assert(crate::strategies::strategy_trait::actions_view(actions@) =~= seq![
                    ActionView::NewTranscript(Some(Duration { nanos: 0 })),
                ]);
                Some(actions)
            },
        }
    }

    fn handle_transcription(&mut self, transcript: &TranscribedMessage, context: WorkerContext) -> (r:
        Option<Vec<WorkerActions>>)
        ensures
            opt_actions_view(r) == Some(seq![ActionView::Publish(transcript@)]),
    {
        // just take the whole transcription
        let ghost tv = transcript@;
        let mut actions = Vec::new();
        actions.push(WorkerActions::Publish(transcript.clone()));
        assert(crate::strategies::strategy_trait::actions_view(actions@) =~= seq![ActionView::Publish(tv)]);
        Some(actions)
    }
}

} // verus!

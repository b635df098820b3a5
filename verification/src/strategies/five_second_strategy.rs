//! A strategy that transcribes five seconds into a stretch of speech, and
//! every second after that, and finalizes what lies a silence timeout
//! before the end of the audio.
use vstd::prelude::*;

use crate::api::api_types::{
    opt_message_view, split_first_half, split_second_half, MessageView, SegmentView,
    TranscribedMessage,
};
use crate::audio::events::UserAudioEventType;
use crate::model::constants::{AUDIO_TO_RECORD_MS, USER_SILENCE_TIMEOUT_MS};
use crate::strategies::strategy_trait::{
    actions_view, finalize_cutoff, running_out_of_space, ActionView, TranscriptStrategy,
    WorkerActions, WorkerContext,
};
use crate::time::{Duration, NANOS_PER_MILLI, NANOS_PER_SEC};

verus! {

pub const FIRST_TRANSCRIPT_PERIOD_SECS: u64 = 5;

pub const SUBSEQUENT_TRANSCRIPT_PERIOD_SECS: u64 = 1;

/// When the next transcript is due, counted from now, for a buffer holding
/// `audio_duration` of audio: at the five second mark while the audio is
/// shorter than that, then on each whole second after it.
pub open spec fn next_transcript_delay(audio_duration: Duration) -> Duration {
    if audio_duration.nanos < FIRST_TRANSCRIPT_PERIOD_SECS * NANOS_PER_SEC {
        Duration { nanos: (FIRST_TRANSCRIPT_PERIOD_SECS * NANOS_PER_SEC - audio_duration.nanos) as u128 }
    } else {
        let additional_ms = (audio_duration.nanos - FIRST_TRANSCRIPT_PERIOD_SECS * NANOS_PER_SEC)
            / NANOS_PER_MILLI as int;
        let remainder_ms = additional_ms % 1000;
        Duration {
            nanos: (SUBSEQUENT_TRANSCRIPT_PERIOD_SECS * NANOS_PER_SEC - remainder_ms * NANOS_PER_MILLI) as u128,
        }
    }
}

/// The next transcript falls on the five second mark of the audio, or on a
/// whole second after it: for audio measured in whole milliseconds, the
/// audio's length plus the delay is a whole number of seconds, at least
/// five.
pub proof fn lemma_next_transcript_on_whole_second(audio_duration: Duration)
    requires
        audio_duration.nanos % NANOS_PER_MILLI == 0,
    ensures
        (audio_duration.nanos + next_transcript_delay(audio_duration).nanos) % (NANOS_PER_SEC as int)
            == 0,
        audio_duration.nanos + next_transcript_delay(audio_duration).nanos >= FIRST_TRANSCRIPT_PERIOD_SECS
            * NANOS_PER_SEC,
{
    let a = audio_duration.nanos as int;
    let first = FIRST_TRANSCRIPT_PERIOD_SECS * NANOS_PER_SEC;
    if a >= first {
        let additional_ms = (a - first) / NANOS_PER_MILLI as int;
        let remainder_ms = additional_ms % 1000;
        let q = additional_ms / 1000;
        assert(a - first == additional_ms * 1_000_000) by (nonlinear_arith)
            requires
                a % 1_000_000 == 0,
                first % 1_000_000 == 0,
                a >= first,
                additional_ms == (a - first) / 1_000_000,
        ;
        assert(additional_ms == q * 1000 + remainder_ms) by (nonlinear_arith)
            requires
                additional_ms >= 0,
                q == additional_ms / 1000,
                remainder_ms == additional_ms % 1000,
        ;
        let total = a + (1_000_000_000 - remainder_ms * 1_000_000);
        assert(total == first + 1_000_000_000 + q * 1_000_000_000) by (nonlinear_arith)
            requires
                a - first == additional_ms * 1_000_000,
                additional_ms == q * 1000 + remainder_ms,
                total == a + (1_000_000_000 - remainder_ms * 1_000_000),
        ;
        assert((first + 1_000_000_000 + q * 1_000_000_000) % 1_000_000_000 == 0) by (nonlinear_arith)
            requires
                first == 5_000_000_000,
                q >= 0,
        ;
    }
}

/// The views of an optional list of actions.
pub open spec fn opt_actions_view(actions: Option<Vec<WorkerActions>>) -> Option<Seq<ActionView>> {
    match actions {
        Some(v) => Some(actions_view(v@)),
        None => None,
    }
}

/// What `handle_transcription` keeps as its tentative transcript.
pub open spec fn kept_tentative(transcript: MessageView, context_duration: Duration) -> Option<
    MessageView,
> {
    match split_second_half(transcript, finalize_cutoff(transcript)) {
        Some(second) => if second.audio_duration == context_duration {
            Some(second)
        } else {
            None
        },
        None => None,
    }
}

/// A tentative transcript the strategy keeps covers exactly the audio the
/// buffer held, so it is published whole when the user goes idle with no
/// audio added since (see `handle_event`).
pub proof fn lemma_tentative_matches_buffer(transcript: MessageView, context_duration: Duration)
    ensures
        kept_tentative(transcript, context_duration) matches Some(t) ==> {
            &&& t.audio_duration == context_duration
            &&& split_second_half(transcript, finalize_cutoff(transcript)) == Some(t)
        },
{
}

/// The audio left after the finalized part of a transcript.
pub open spec fn duration_after_finalizing(transcript: MessageView) -> Duration {
    match split_first_half(transcript, finalize_cutoff(transcript)) {
        Some(first) => Duration {
            nanos: (transcript.audio_duration.nanos - first.audio_duration.nanos) as u128,
        },
        None => transcript.audio_duration,
    }
}

/// The finalized part of a transcript: its segments that end before
/// `finalize_cutoff`, or, when there are none, an empty transcript of no
/// audio at its start.
pub open spec fn finalized_part(transcript: MessageView) -> MessageView {
    match split_first_half(transcript, finalize_cutoff(transcript)) {
        Some(first) => first,
        None => MessageView {
            start_timestamp: transcript.start_timestamp,
            user_id: transcript.user_id,
            segments: Seq::empty(),
            audio_duration: Duration { nanos: 0 },
            processing_time: transcript.processing_time,
        },
    }
}

/// The actions `handle_transcription` asks for when it splits a transcript:
/// publish the finalized part, then schedule the next transcript.
pub open spec fn split_actions(transcript: MessageView) -> Seq<ActionView> {
    seq![
        ActionView::Publish(finalized_part(transcript)),
        ActionView::NewTranscript(Some(next_transcript_delay(duration_after_finalizing(transcript)))),
    ]
}

/// What the strategy does when the user goes idle: publish the tentative
/// transcript it kept, if it covers exactly the audio now buffered.
pub open spec fn idle_actions(tentative: Option<MessageView>, audio_duration: Duration) -> Option<
    Seq<ActionView>,
> {
    match tentative {
        Some(t) => if t.audio_duration == audio_duration {
            Some(seq![ActionView::Publish(t)])
        } else {
            None
        },
        None => None,
    }
}

/// The tentative transcript that `handle_transcription` keeps in `context`:
/// none when the transcript is taken whole.
pub open spec fn tentative_after(transcript: MessageView, context: WorkerContext) -> Option<
    MessageView,
> {
    if context.silent_after || running_out_of_space(context.audio_duration) {
        None
    } else {
        kept_tentative(transcript, context.audio_duration)
    }
}

/// After a transcript is handled, the next idle event with no audio added
/// since publishes exactly the transcript's second half at
/// `finalize_cutoff`, when the transcript was split and that half covers
/// the buffered audio; otherwise it publishes nothing, since any older
/// tentative transcript was dropped.
pub proof fn lemma_idle_after_transcription(transcript: MessageView, context: WorkerContext)
    ensures
        idle_actions(tentative_after(transcript, context), context.audio_duration) == if context.silent_after
            || running_out_of_space(context.audio_duration) {
            None
        } else {
            match split_second_half(transcript, finalize_cutoff(transcript)) {
                Some(second) => if second.audio_duration == context.audio_duration {
                    Some(seq![ActionView::Publish(second)])
                } else {
                    None
                },
                None => None,
            }
        },
{
}

pub struct FiveSecondStrategy {
    pub tentative_transcript_opt: Option<TranscribedMessage>,
}

impl FiveSecondStrategy {
    pub fn new() -> (s: FiveSecondStrategy)
        ensures
            s.tentative_transcript_opt.is_none(),
    {
        FiveSecondStrategy { tentative_transcript_opt: None }
    }

    /// Returns the interval between now and when we want to take
    /// the next transcription.  This uses the following logic:
    ///  - if the current audio duration is less than 5 seconds,
    ///    then we want to take a transcription at the 5 second mark.
    ///  - if it's longer, than we want to take the next transcription
    ///    at intervals of 1 second after the last transcription.
    pub fn get_next_transcript_time(&self, audio_duration: &Duration) -> (d: Duration)
        ensures
            d == next_transcript_delay(*audio_duration),
            0 < d.nanos <= FIRST_TRANSCRIPT_PERIOD_SECS * NANOS_PER_SEC,
    {
        let first = Duration::from_secs(FIRST_TRANSCRIPT_PERIOD_SECS);
        if audio_duration.nanos < first.nanos {
            first.minus(*audio_duration)
        } else {
            let additional_audio = audio_duration.minus(first);
            let subsequent = Duration::from_secs(SUBSEQUENT_TRANSCRIPT_PERIOD_SECS);
            let remainder_ms = (additional_audio.as_millis() % subsequent.as_millis()) as u64;
            subsequent.minus(Duration::from_millis(remainder_ms))
        }
    }
}

impl TranscriptStrategy for FiveSecondStrategy {
    fn handle_event(&mut self, event: &UserAudioEventType, audio_duration: &Duration) -> (r: Option<
        Vec<WorkerActions>,
    >)
        ensures
            *event == UserAudioEventType::Speaking ==> {
                &&& opt_actions_view(r) == Some(
                    seq![ActionView::NewTranscript(Some(next_transcript_delay(*audio_duration)))],
                )
                &&& opt_message_view(final(self).tentative_transcript_opt) == opt_message_view(
                    old(self).tentative_transcript_opt,
                )
            },
            *event == UserAudioEventType::Silent ==> {
                &&& opt_actions_view(r) == Some(seq![ActionView::NewTranscript(Some(Duration { nanos: 0 }))])
                &&& opt_message_view(final(self).tentative_transcript_opt) == opt_message_view(
                    old(self).tentative_transcript_opt,
                )
            },
            *event == UserAudioEventType::Idle ==> {
                &&& final(self).tentative_transcript_opt.is_none()
                &&& opt_actions_view(r) == idle_actions(
                    opt_message_view(old(self).tentative_transcript_opt),
                    *audio_duration,
                )
            },
    {
        match event {
            UserAudioEventType::Speaking => {
                let mut actions = Vec::new();
                actions.push(WorkerActions::NewTranscript(Some(self.get_next_transcript_time(audio_duration))));
                assert(actions_view(actions@) =~= seq![ActionView::NewTranscript(Some(next_transcript_delay(*audio_duration)))]);
                Some(actions)
            },
            UserAudioEventType::Silent => {
                // request a transcription, now!
                let mut actions = Vec::new();
                actions.push(WorkerActions::NewTranscript(Some(Duration::zero())));
                assert(actions_view(actions@) =~= seq![ActionView::NewTranscript(Some(Duration { nanos: 0 }))]);
                Some(actions)
            },
            UserAudioEventType::Idle => {
                // if we had a tentative transcript, and we haven't gotten
                // more audio since then, then we can return the tentative
                // transcript as-is.
                let tentative = self.tentative_transcript_opt.take();
                match tentative {
                    Some(tentative_transcript) => {
                        if tentative_transcript.audio_duration.nanos == audio_duration.nanos {
                            let ghost tv = tentative_transcript@;
                            let mut actions = Vec::new();
                            actions.push(WorkerActions::Publish(tentative_transcript));
                            assert(actions_view(actions@) =~= seq![ActionView::Publish(tv)]);
                            Some(actions)
                        } else {
                            None
                        }
                    },
                    None => None,
                }
            },
        }
    }

    fn handle_transcription(&mut self, transcript: &TranscribedMessage, context: WorkerContext) -> (r:
        Option<Vec<WorkerActions>>)
        ensures
            context.silent_after || running_out_of_space(context.audio_duration) ==> {
                &&& opt_actions_view(r) == Some(
                    seq![
                        ActionView::Publish(transcript@),
                        ActionView::NewTranscript(
                            Some(Duration { nanos: (FIRST_TRANSCRIPT_PERIOD_SECS * NANOS_PER_SEC) as u128 }),
                        ),
                    ],
                )
                &&& final(self).tentative_transcript_opt.is_none()
            },
            !(context.silent_after || running_out_of_space(context.audio_duration)) ==> opt_actions_view(r)
                == Some(split_actions(transcript@)),
            opt_message_view(final(self).tentative_transcript_opt) == tentative_after(transcript@, context),
    {
        // clear any previous tentative transcript
        self.tentative_transcript_opt = None;

        // if the time after the end of the transcript is silent,
        // then we can return the transcript as-is.
        //
        // alternatively,
        // if we've filled our buffer up at least 2/3 of the
        // way, just take what we have.  It's possible that
        // whisper is only ever going to give us a single segment.
        let two_thirds = Duration::from_nanos(2 * Duration::from_millis(AUDIO_TO_RECORD_MS).as_nanos() / 3);
        let running_out_of_space = context.audio_duration.nanos >= two_thirds.nanos;
        if context.silent_after || running_out_of_space {
            let ghost tv = transcript@;
            let mut actions = Vec::new();
            actions.push(WorkerActions::Publish(transcript.clone()));
            actions.push(WorkerActions::NewTranscript(Some(Duration::from_secs(FIRST_TRANSCRIPT_PERIOD_SECS))));
            assert(actions_view(actions@) =~= seq![
                ActionView::Publish(tv),
                ActionView::NewTranscript(Some(Duration { nanos: (FIRST_TRANSCRIPT_PERIOD_SECS * NANOS_PER_SEC) as u128 })),
            ]);
            return Some(actions);
        }

        let end_time = transcript.start_timestamp.plus(transcript.audio_duration).minus(
            Duration::from_millis(USER_SILENCE_TIMEOUT_MS),
        );
        assert(end_time == finalize_cutoff(transcript@));

        let (finalized_transcript, tentative_transcript) = TranscribedMessage::split_at_end_time(
            transcript,
            end_time,
        );

        let finalized_duration = match &finalized_transcript {
            Some(f) => f.audio_duration,
            None => Duration::zero(),
        };
        proof {
            crate::api::api_types::lemma_first_half_within_audio(transcript@, end_time);
        }
        let duration_after_finalizing = transcript.audio_duration.minus(finalized_duration);
        let next = self.get_next_transcript_time(&duration_after_finalizing);

        self.tentative_transcript_opt = match tentative_transcript {
            Some(t) => if context.audio_duration.nanos == t.audio_duration.nanos {
                Some(t)
            } else {
                None
            },
            None => None,
        };

        let finalized = match finalized_transcript {
            Some(f) => f,
            None => {
                let empty = TranscribedMessage {
                    start_timestamp: transcript.start_timestamp,
                    user_id: transcript.user_id,
                    segments: Vec::new(),
                    audio_duration: Duration::zero(),
                    processing_time: transcript.processing_time,
                };
                assert(empty@.segments =~= Seq::<SegmentView>::empty());
                empty
            },
        };
        let ghost fv = finalized@;
        assert(fv =~= finalized_part(transcript@));
        let mut actions = Vec::new();
        actions.push(WorkerActions::Publish(finalized));
        actions.push(WorkerActions::NewTranscript(Some(next)));
        assert(actions_view(actions@) =~= seq![ActionView::Publish(fv), ActionView::NewTranscript(Some(next))]);
        Some(actions)
    }
}

} // verus!

use discrivener::api::api_types::{TextSegment, TokenWithProbability, TranscribedMessage};
use discrivener::audio::events::UserAudioEventType;
use discrivener::scrivening::transcript_strategy::{
    DefaultTranscriptStrategy, TranscriptStrategy as EventOnlyStrategy,
};
use discrivener::strategies::five_second_strategy::FiveSecondStrategy;
use discrivener::strategies::strategy_trait::{TranscriptStrategy, WorkerActions, WorkerContext};
use discrivener::time::{Duration, SystemTime};

fn ms(n: u64) -> Duration {
    Duration::from_millis(n)
}

fn segment(start_ms: u32, end_ms: u32, id: i32) -> TextSegment {
    TextSegment {
        start_offset_ms: start_ms,
        end_offset_ms: end_ms,
        tokens_with_probability: vec![TokenWithProbability {
            probability: 90,
            token_id: id,
            token_text: format!(" t{}", id),
        }],
    }
}

fn transcript() -> TranscribedMessage {
    TranscribedMessage {
        start_timestamp: SystemTime::from_nanos(1_000_000_000_000),
        user_id: 1,
        segments: vec![segment(0, 1000, 1), segment(2000, 3800, 2)],
        audio_duration: ms(4000),
        processing_time: ms(300),
    }
}

fn delay_of(action: &WorkerActions) -> Option<Duration> {
    match action {
        WorkerActions::NewTranscript(d) => *d,
        WorkerActions::Publish(_) => panic!("expected a new transcript"),
    }
}

fn published(action: &WorkerActions) -> &TranscribedMessage {
    match action {
        WorkerActions::Publish(m) => m,
        WorkerActions::NewTranscript(_) => panic!("expected a publish"),
    }
}

#[test]
fn next_transcript_falls_on_whole_seconds() {
    let strategy = FiveSecondStrategy::new();
    assert_eq!(strategy.get_next_transcript_time(&ms(0)), ms(5000));
    assert_eq!(strategy.get_next_transcript_time(&ms(3000)), ms(2000));
    assert_eq!(strategy.get_next_transcript_time(&ms(5000)), ms(1000));
    assert_eq!(strategy.get_next_transcript_time(&ms(7300)), ms(700));
    assert_eq!(strategy.get_next_transcript_time(&ms(7999)), ms(1));
}

#[test]
fn events_schedule_transcripts() {
    let mut strategy = FiveSecondStrategy::new();
    let actions = strategy.handle_event(&UserAudioEventType::Speaking, &ms(3000)).unwrap();
    assert_eq!(actions.len(), 1);
    assert_eq!(delay_of(&actions[0]), Some(ms(2000)));
    let actions = strategy.handle_event(&UserAudioEventType::Silent, &ms(3000)).unwrap();
    assert_eq!(delay_of(&actions[0]), Some(ms(0)));
    assert!(strategy.handle_event(&UserAudioEventType::Idle, &ms(3000)).is_none());
}

#[test]
fn silence_after_a_transcript_publishes_it_whole() {
    let mut strategy = FiveSecondStrategy::new();
    let context = WorkerContext { audio_duration: ms(4000), silent_after: true };
    let actions = strategy.handle_transcription(&transcript(), context).unwrap();
    assert_eq!(actions.len(), 2);
    assert_eq!(published(&actions[0]), &transcript());
    assert_eq!(delay_of(&actions[1]), Some(ms(5000)));
    assert!(strategy.tentative_transcript_opt.is_none());
}

#[test]
fn transcript_is_split_a_silence_timeout_before_its_end() {
    let mut strategy = FiveSecondStrategy::new();
    let context = WorkerContext { audio_duration: ms(3000), silent_after: false };
    let actions = strategy.handle_transcription(&transcript(), context).unwrap();
    assert_eq!(actions.len(), 2);
    let first = published(&actions[0]);
    assert_eq!(first.segments.len(), 1);
    assert_eq!(first.audio_duration, ms(1000));
    // three seconds are left after the published part
    assert_eq!(delay_of(&actions[1]), Some(ms(2000)));
    let tentative = strategy.tentative_transcript_opt.as_ref().unwrap();
    assert_eq!(tentative.audio_duration, ms(3000));
    assert_eq!(tentative.segments[0].start_offset_ms, 1000);

    // idle with no audio added since: the tentative part is published
    let actions = strategy.handle_event(&UserAudioEventType::Idle, &ms(3000)).unwrap();
    assert_eq!(published(&actions[0]).segments.len(), 1);
    assert!(strategy.tentative_transcript_opt.is_none());
}

#[test]
fn nothing_final_yet_publishes_an_empty_transcript() {
    let mut strategy = FiveSecondStrategy::new();
    // the only segment ends within the last second of the audio
    let late = TranscribedMessage { segments: vec![segment(2000, 3800, 2)], ..transcript() };
    let context = WorkerContext { audio_duration: ms(4000), silent_after: false };
    let actions = strategy.handle_transcription(&late, context).unwrap();
    assert_eq!(actions.len(), 2);
    let first = published(&actions[0]);
    assert!(first.segments.is_empty());
    assert_eq!(first.audio_duration, ms(0));
    assert_eq!(first.start_timestamp, late.start_timestamp);
    assert_eq!(first.user_id, late.user_id);
    assert_eq!(first.processing_time, late.processing_time);
    // four seconds are left: the next transcript is at the five second mark
    assert_eq!(delay_of(&actions[1]), Some(ms(1000)));
    // the whole transcript is kept as tentative
    let actions = strategy.handle_event(&UserAudioEventType::Idle, &ms(4000)).unwrap();
    let tentative = published(&actions[0]);
    assert_eq!(tentative.segments, late.segments);
    assert_eq!(tentative.start_timestamp, late.start_timestamp);
    assert_eq!(tentative.audio_duration, ms(4000));
}

#[test]
fn tentative_part_is_dropped_when_audio_arrived_since() {
    let mut strategy = FiveSecondStrategy::new();
    let context = WorkerContext { audio_duration: ms(3500), silent_after: false };
    strategy.handle_transcription(&transcript(), context).unwrap();
    assert!(strategy.tentative_transcript_opt.is_none());
}

#[test]
fn default_strategy_transcribes_on_idle() {
    let mut strategy = DefaultTranscriptStrategy::new();
    assert!(EventOnlyStrategy::handle_event(&mut strategy, &UserAudioEventType::Speaking).is_none());
    let actions = EventOnlyStrategy::handle_event(&mut strategy, &UserAudioEventType::Idle).unwrap();
    assert_eq!(delay_of(&actions[0]), Some(ms(0)));
    let context = WorkerContext { audio_duration: ms(4000), silent_after: false };
    let actions =
        EventOnlyStrategy::handle_transcription(&mut strategy, &transcript(), context).unwrap();
    assert_eq!(published(&actions[0]), &transcript());
}

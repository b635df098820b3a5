use discrivener::api::api_types::{TextSegment, TokenWithProbability, TranscribedMessage};
use discrivener::scrivening::transcript_director::TranscriptDirector;
use discrivener::time::{Duration, SystemTime};

fn segment(start_ms: u32, end_ms: u32, id: i32) -> TextSegment {
    TextSegment {
        start_offset_ms: start_ms,
        end_offset_ms: end_ms,
        tokens_with_probability: vec![TokenWithProbability {
            probability: 90,
            token_id: id,
            token_text: format!(" w{}", id),
        }],
    }
}

/// A director holding three seconds of speech that started at `t0`.
fn director_with_speech(t0: SystemTime) -> TranscriptDirector {
    let mut director = TranscriptDirector::new(4);
    director.slice.start_time = Some((0, t0));
    director.slice.audio = vec![3000; 48_000];
    director
}

#[test]
fn transcription_is_due_each_period_and_when_idle() {
    let t0 = SystemTime::from_nanos(1_000_000_000_000);
    let mut director = TranscriptDirector::new(4);
    assert_eq!(director.transcription_due_given(Duration::zero()), (false, false));
    director = director_with_speech(t0);
    // three seconds is still the first period
    assert_eq!(director.transcription_due_given(Duration::zero()), (false, false));
    director.slice.audio = vec![3000; 16 * 5000];
    assert_eq!(director.transcription_due_given(Duration::zero()), (true, false));
    // a silent user is transcribed once the hysteresis interval passes
    director.slice.audio = vec![3000; 48_000];
    director.set_silent();
    assert_eq!(director.transcription_due_given(Duration::from_secs(5)), (false, false));
    assert_eq!(director.transcription_due_given(Duration::from_millis(5001)), (true, true));
    // an idle user is always transcribed
    director.user_idle = true;
    assert_eq!(director.transcription_due_given(Duration::zero()), (true, false));
}

#[test]
fn final_request_takes_every_segment() {
    let t0 = SystemTime::from_nanos(1_000_000_000_000);
    let mut director = director_with_speech(t0);
    director.user_idle = true;
    let request = director.request_transcription_at(true, t0.plus(Duration::from_secs(3))).unwrap();
    assert_eq!(request.audio_data.len(), 48_000);
    assert!(director.last_request.as_ref().unwrap().final_request);
    let message = TranscribedMessage {
        start_timestamp: t0,
        user_id: 4,
        segments: vec![segment(0, 1500, 1), segment(1500, 2900, 2)],
        audio_duration: Duration::from_millis(3000),
        processing_time: Duration::from_millis(20),
    };
    let published = director
        .handle_transcription_response_at(&message, t0.plus(Duration::from_millis(3200)))
        .unwrap();
    assert_eq!(published.segments.len(), 2);
    assert_eq!(published.audio_duration, Duration::from_millis(2900));
    assert_eq!(director.last_tokens.iter().copied().collect::<Vec<_>>(), vec![1, 2]);
    assert_eq!(director.slice.buffer_duration(), Duration::from_millis(100));
    assert!(director.tentative_transcript_opt.is_none());
}

#[test]
fn stale_responses_are_ignored() {
    let t0 = SystemTime::from_nanos(1_000_000_000_000);
    let mut director = director_with_speech(t0);
    let message = TranscribedMessage {
        start_timestamp: t0,
        user_id: 4,
        segments: vec![segment(0, 1500, 1)],
        audio_duration: Duration::from_millis(3000),
        processing_time: Duration::from_millis(20),
    };
    // nothing was requested
    assert!(director.handle_transcription_response_at(&message, t0).is_none());
    director.request_transcription_at(true, t0.plus(Duration::from_secs(3))).unwrap();
    let other = TranscribedMessage { start_timestamp: t0.plus(Duration::from_secs(1)), ..message };
    assert!(director
        .handle_transcription_response_at(&other, t0.plus(Duration::from_secs(4)))
        .is_none());
    assert!(director.last_request.as_ref().unwrap().in_progress);
    assert_eq!(director.slice.buffer_duration(), Duration::from_millis(3000));
}

#[test]
fn idle_user_gets_the_tentative_transcript() {
    let t0 = SystemTime::from_nanos(1_000_000_000_000);
    let mut director = director_with_speech(t0);
    assert!(director.handle_user_idle().is_none());
    assert!(director.user_idle);
    director.user_idle = false;
    director.request_transcription_at(true, t0.plus(Duration::from_secs(3))).unwrap();
    let message = TranscribedMessage {
        start_timestamp: t0,
        user_id: 4,
        segments: vec![segment(0, 1000, 1), segment(2500, 3000, 2)],
        audio_duration: Duration::from_millis(3000),
        processing_time: Duration::from_millis(20),
    };
    // requested at 3s: segments ending before 2s are final
    let published = director
        .handle_transcription_response_at(&message, t0.plus(Duration::from_millis(3200)))
        .unwrap();
    assert_eq!(published.segments.len(), 1);
    assert_eq!(published.audio_duration, Duration::from_millis(1000));
    let tentative = director.handle_user_idle().unwrap();
    assert_eq!(tentative.segments[0].start_offset_ms, 1500);
    assert_eq!(tentative.audio_duration, Duration::from_millis(2000));
    assert!(director.tentative_transcript_opt.is_none());
}

#[test]
fn discarding_counts_as_trimmed_from_the_request() {
    let t0 = SystemTime::from_nanos(1_000_000_000_000);
    let mut director = director_with_speech(t0);
    director.request_transcription_at(true, t0.plus(Duration::from_secs(3))).unwrap();
    director.discard_audio(&Duration::from_millis(500));
    let last = director.last_request.as_ref().unwrap();
    assert_eq!(last.audio_trimmed_since_request, Duration::from_millis(500));
    assert_eq!(last.effective_duration(), Duration::from_millis(2500));
    assert_eq!(director.slice.buffer_duration(), Duration::from_millis(2500));
}

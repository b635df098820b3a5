use discrivener::api::api_types::{
    TextSegment, TokenWithProbability, TranscribedMessage, VoiceChannelEvent,
};
use discrivener::audio::events::DiscordAudioData;
use discrivener::scrivening::worker::{
    is_valid_segment, probability_histogram, BoundedTokenBuffer, UserAudioWorker,
};
use discrivener::time::{Duration, SystemTime};

fn segment(probabilities: &[u32]) -> TextSegment {
    TextSegment {
        start_offset_ms: 0,
        end_offset_ms: 100,
        tokens_with_probability: probabilities
            .iter()
            .enumerate()
            .map(|(i, &p)| TokenWithProbability {
                probability: p,
                token_id: i as i32,
                token_text: format!("{}", i),
            })
            .collect(),
    }
}

#[test]
fn token_buffer_keeps_the_newest_tokens() {
    let mut buffer = BoundedTokenBuffer::new();
    assert!(buffer.get().is_empty());
    buffer.add(&7);
    buffer.add_all(&[8, 9]);
    assert_eq!(buffer.get(), vec![7, 8, 9]);
    let many: Vec<i32> = (0..1030).collect();
    buffer.add_all(&many);
    let kept = buffer.get();
    assert_eq!(kept.len(), 1024);
    assert_eq!(kept[0], 6);
    assert_eq!(*kept.last().unwrap(), 1029);
}

#[test]
fn segments_of_unlikely_tokens_are_spurious() {
    assert!(is_valid_segment(&segment(&[90, 40])));
    assert!(!is_valid_segment(&segment(&[90, 40, 50])));
    assert!(is_valid_segment(&segment(&[])));
    assert!(!is_valid_segment(&segment(&[99; 100])));
    assert!(is_valid_segment(&segment(&[99; 99])));
}

#[test]
fn histogram_shows_the_spread_of_probabilities() {
    assert_eq!(probability_histogram(&segment(&[95, 100, 30, 55])), "[▯▯▯░▯░▯▯▯▒] (4 tokens)");
    assert_eq!(probability_histogram(&segment(&[])), "[▯▯▯▯▯▯▯▯▯▯] (0 tokens)");
    assert_eq!(probability_histogram(&segment(&[5; 12])), "[█▯▯▯▯▯▯▯▯▯] (12 tokens)");
}

#[test]
fn worker_requests_and_publishes() {
    let mut worker = UserAudioWorker::new(5);
    assert!(worker.on_transcription_due(true).is_none());
    worker.on_audio(&DiscordAudioData { user_id: 5, discord_audio: vec![3000; 96_000], rtc_timestamp: 0 });
    assert_eq!(worker.audio_buffer.buffer_duration(), Duration::from_millis(1000));
    // nothing is requested while another request is pending
    assert!(worker.on_transcription_due(false).is_none());
    let request = worker.on_transcription_due(true).unwrap();
    assert_eq!(request.audio_duration, Duration::from_millis(1000));
    assert_eq!(request.user_id, 5);

    let start = worker.audio_buffer.start_time.unwrap().1;
    let transcript = TranscribedMessage {
        start_timestamp: start,
        user_id: 5,
        segments: vec![segment(&[90, 80]), segment(&[10, 10, 10])],
        audio_duration: Duration::from_millis(600),
        processing_time: Duration::from_millis(50),
    };
    let context = worker.transcription_context(&transcript);
    assert_eq!(context.audio_duration, Duration::from_millis(1000));
    assert!(!context.silent_after);
    match worker.publish(transcript) {
        Some(VoiceChannelEvent::TranscribedMessage(m)) => {
            // the spurious segment is dropped
            assert_eq!(m.segments.len(), 1);
            assert_eq!(m.start_timestamp, start);
        },
        _ => panic!("expected a transcribed message"),
    }
    // the published audio is gone, and its tokens seed the next request
    assert_eq!(worker.audio_buffer.buffer_duration(), Duration::from_millis(400));
    assert_eq!(worker.last_tokens.get(), vec![0, 1]);
    assert_eq!(
        worker.audio_buffer.start_time.unwrap().1,
        SystemTime::from_nanos(start.nanos + 600_000_000)
    );
}

#[test]
fn failsafe_fires_before_the_buffer_fills() {
    let mut worker = UserAudioWorker::new(1);
    assert!(!worker.needs_failsafe_transcription(true, Duration::from_secs(100)));
    worker.audio_buffer.start_time = Some((0, SystemTime::from_nanos(0)));
    worker.audio_buffer.audio = vec![1; 16_000 * 28];
    // two seconds of room left
    assert!(worker.needs_failsafe_transcription(true, Duration::from_secs(3)));
    assert!(!worker.needs_failsafe_transcription(true, Duration::from_secs(2)));
    assert!(!worker.needs_failsafe_transcription(false, Duration::from_secs(3)));
}

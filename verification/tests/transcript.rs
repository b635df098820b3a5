use discrivener::api::api_types::{TextSegment, TokenWithProbability, TranscribedMessage};
use discrivener::model::transcript::Transcript;
use discrivener::time::{Duration, SystemTime};

fn said(user_id: u64, start_secs: u64, text: &str) -> TranscribedMessage {
    TranscribedMessage {
        start_timestamp: SystemTime::from_nanos(start_secs as u128 * 1_000_000_000),
        user_id,
        segments: vec![TextSegment {
            start_offset_ms: 0,
            end_offset_ms: 500,
            tokens_with_probability: vec![TokenWithProbability {
                probability: 90,
                token_id: 1,
                token_text: text.to_string(),
            }],
        }],
        audio_duration: Duration::from_millis(500),
        processing_time: Duration::from_millis(5),
    }
}

#[test]
fn test_transcript() {
    const NUM_MESSAGES: usize = 3;
    let transcript = Transcript::new(NUM_MESSAGES);
    assert_eq!(transcript.get_latest_text(), "");
    assert_eq!(transcript.get_latest_text_for_user(1), "");
}

#[test]
fn transcript_reads_oldest_to_newest() {
    let mut transcript = Transcript::new(3);
    transcript.add(said(1, 10, "b"));
    transcript.add(said(2, 5, "a"));
    transcript.add(said(1, 20, "c"));
    assert_eq!(transcript.get_latest_text(), "a b c");
    assert_eq!(transcript.get_latest_text_for_user(1), "b c");
    assert_eq!(transcript.get_latest_text_for_user(2), "a");
    assert_eq!(transcript.get_latest_text_for_user(3), "");
}

#[test]
fn transcript_keeps_the_most_recent_messages() {
    let mut transcript = Transcript::new(2);
    transcript.add(said(1, 1, "one"));
    transcript.add(said(1, 2, "two"));
    transcript.add(said(1, 3, "three"));
    assert_eq!(transcript.get_latest_text(), "two three");
    // a message older than all it holds is the one dropped
    transcript.add(said(1, 0, "zero"));
    assert_eq!(transcript.get_latest_text(), "two three");
}

#[test]
fn transcript_of_no_messages_keeps_nothing() {
    let mut transcript = Transcript::new(0);
    transcript.add(said(1, 1, "one"));
    assert_eq!(transcript.get_latest_text(), "");
}

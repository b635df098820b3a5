use discrivener::api::api_types::{
    can_split_at_end_time, TextSegment, TokenWithProbability, TranscribedMessage,
};
use discrivener::time::{Duration, SystemTime};

fn token(id: i32, text: &str) -> TokenWithProbability {
    TokenWithProbability { probability: 80, token_id: id, token_text: text.to_string() }
}

fn segment(start_ms: u32, end_ms: u32, tokens: Vec<TokenWithProbability>) -> TextSegment {
    TextSegment { start_offset_ms: start_ms, end_offset_ms: end_ms, tokens_with_probability: tokens }
}

fn message() -> TranscribedMessage {
    TranscribedMessage {
        start_timestamp: SystemTime::from_nanos(10_000_000_000),
        user_id: 4,
        segments: vec![
            segment(0, 1000, vec![token(1, " one"), token(2, " two")]),
            segment(1000, 2000, vec![token(3, " three")]),
            segment(2000, 2600, vec![token(4, " four")]),
        ],
        audio_duration: Duration::from_millis(3000),
        processing_time: Duration::from_millis(250),
    }
}

#[test]
fn segment_text_concatenates_tokens() {
    let m = message();
    assert_eq!(m.segments[0].text(), " one two");
    assert_eq!(m.all_text(), " one two three four");
    assert_eq!(m.token_ids(), vec![1, 2, 3, 4]);
    assert!(!m.is_empty());
}

#[test]
fn split_puts_each_segment_in_one_half() {
    let m = message();
    // 10s + 2s: the first two segments end before it, the third after
    let end_time = SystemTime::from_nanos(12_000_000_001);
    assert!(can_split_at_end_time(&m, end_time));
    let (first, second) = TranscribedMessage::split_at_end_time(&m, end_time);
    let first = first.unwrap();
    let second = second.unwrap();
    assert_eq!(first.segments.len(), 2);
    assert_eq!(first.audio_duration, Duration::from_millis(2000));
    assert_eq!(first.start_timestamp, m.start_timestamp);
    assert_eq!(first.processing_time, m.processing_time);
    assert_eq!(second.segments.len(), 1);
    // the second half starts where the first ends, and the halves add up
    assert_eq!(second.start_timestamp, SystemTime::from_nanos(12_000_000_000));
    assert_eq!(second.audio_duration, Duration::from_millis(1000));
    assert_eq!(second.segments[0].start_offset_ms, 0);
    assert_eq!(second.segments[0].end_offset_ms, 600);
    assert_eq!(second.processing_time, Duration::from_millis(1));
    assert_eq!(second.all_text(), " four");
}

#[test]
fn segment_ending_at_the_split_goes_second() {
    let m = message();
    let end_time = SystemTime::from_nanos(12_000_000_000);
    let (first, second) = TranscribedMessage::split_at_end_time(&m, end_time);
    assert_eq!(first.unwrap().segments.len(), 1);
    assert_eq!(second.unwrap().segments.len(), 2);
}

#[test]
fn split_halves_can_be_empty() {
    let m = message();
    let (first, second) = TranscribedMessage::split_at_end_time(&m, SystemTime::from_nanos(0));
    assert!(first.is_none());
    assert_eq!(second.unwrap().segments.len(), 3);
    let (first, second) =
        TranscribedMessage::split_at_end_time(&m, SystemTime::from_nanos(100_000_000_000));
    assert_eq!(first.unwrap().segments.len(), 3);
    assert!(second.is_none());
    let empty = TranscribedMessage { segments: vec![], ..message() };
    assert!(empty.is_empty());
    let (first, second) = TranscribedMessage::split_at_end_time(&empty, SystemTime::from_nanos(1));
    assert!(first.is_none() && second.is_none());
}

#[test]
fn overlapping_segments_cannot_be_split() {
    // the second segment starts before the first ends
    let m = TranscribedMessage {
        segments: vec![segment(0, 1000, vec![]), segment(500, 3000, vec![])],
        ..message()
    };
    assert!(!can_split_at_end_time(&m, SystemTime::from_nanos(11_500_000_000)));
    assert!(can_split_at_end_time(&m, SystemTime::from_nanos(0)));
}

#[test]
fn clone_keeps_every_field() {
    let m = message();
    let c = m.clone();
    assert_eq!(c, m);
}

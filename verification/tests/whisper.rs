use discrivener::audio::whisper::{
    assemble_segments, ignore_token, segment_offsets_fit, worth_transcribing, RawSegment, RawToken,
    FALLBACK_PROBABILITY, FALLBACK_TOKEN_ID,
};

fn raw(text: Option<&str>, id: Option<i32>, p: Option<u32>) -> RawToken {
    RawToken { text: text.map(|t| t.to_string()), token_id: id, probability: p }
}

#[test]
fn tokens_without_speech_are_ignored() {
    assert!(ignore_token("<|endoftext|>"));
    assert!(ignore_token("[_BEG_]"));
    assert!(ignore_token("[_TT_150]"));
    assert!(ignore_token("[_]"));
    assert!(!ignore_token("[_"));
    assert!(!ignore_token(" hello"));
    assert!(!ignore_token("<|endoftext|"));
    assert!(!ignore_token("[x]"));
    assert!(!ignore_token(""));
}

#[test]
fn segments_are_assembled_with_fallbacks() {
    let segments = vec![
        RawSegment {
            t0: Some(0),
            t1: Some(150),
            tokens: vec![
                raw(Some("[_BEG_]"), Some(50364), Some(99)),
                raw(Some(" Hello"), Some(2425), Some(97)),
                raw(None, Some(7), Some(50)),
                raw(Some(" there"), None, None),
                raw(Some("<|endoftext|>"), Some(50257), Some(99)),
            ],
        },
        // times that Whisper could not report: the start falls back to the
        // segment's index, the end to one past the start
        RawSegment { t0: None, t1: None, tokens: vec![] },
    ];
    assert!(segment_offsets_fit(&segments));
    let assembled = assemble_segments(&segments);
    assert_eq!(assembled.len(), 2);
    assert_eq!(assembled[0].start_offset_ms, 0);
    assert_eq!(assembled[0].end_offset_ms, 1500);
    let tokens = &assembled[0].tokens_with_probability;
    assert_eq!(tokens.len(), 2);
    assert_eq!(tokens[0].token_text, " Hello");
    assert_eq!(tokens[0].token_id, 2425);
    assert_eq!(tokens[0].probability, 97);
    assert_eq!(tokens[1].token_text, " there");
    assert_eq!(tokens[1].token_id, FALLBACK_TOKEN_ID);
    assert_eq!(tokens[1].probability, FALLBACK_PROBABILITY);
    assert_eq!(assembled[1].start_offset_ms, 10);
    assert_eq!(assembled[1].end_offset_ms, 110);
    assert!(assembled[1].tokens_with_probability.is_empty());
}

#[test]
fn segment_times_that_overflow_are_caught() {
    let segments = vec![RawSegment { t0: Some(0), t1: Some(500_000_000), tokens: vec![] }];
    assert!(!segment_offsets_fit(&segments));
}

#[test]
fn quiet_audio_is_not_sent() {
    // Whisper reads a sample divided by 65534: a level of 1/1000 is 65.534
    assert!(!worth_transcribing(&vec![0; 1000]));
    assert!(!worth_transcribing(&vec![65; 1000]));
    assert!(worth_transcribing(&vec![66; 1000]));
    assert!(worth_transcribing(&vec![-20000, 20000]));
    // an empty stretch has no level, and is sent
    assert!(worth_transcribing(&vec![]));
}

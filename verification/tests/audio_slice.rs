use discrivener::api::api_types::{TextSegment, TokenWithProbability, TranscribedMessage};
use discrivener::model::audio_slice::AudioSlice;
use discrivener::model::constants::{
    AUDIO_TO_RECORD_SECONDS, DISCORD_AUDIO_CHANNELS, DISCORD_SAMPLES_PER_SECOND,
    RTC_CLOCK_SAMPLES_PER_MILLISECOND, WHISPER_SAMPLES_PER_MILLISECOND,
};
use discrivener::time::{now, Duration, SystemTime};

const DISCORD_SAMPLES_PER_MILLISECOND: usize = DISCORD_SAMPLES_PER_SECOND / 1000;

fn token(id: i32, text: &str) -> TokenWithProbability {
    TokenWithProbability { probability: 90, token_id: id, token_text: text.to_string() }
}

fn segment(start_ms: u32, end_ms: u32, tokens: Vec<TokenWithProbability>) -> TextSegment {
    TextSegment { start_offset_ms: start_ms, end_offset_ms: end_ms, tokens_with_probability: tokens }
}

#[test]
fn audio_slice_test_discard_audio() {
    let mut slice = AudioSlice::new(123);
    slice.start_time = Some((1000 * RTC_CLOCK_SAMPLES_PER_MILLISECOND as u32, now()));
    slice.audio = vec![0; 1000 * WHISPER_SAMPLES_PER_MILLISECOND];
    assert_eq!(slice.buffer_duration(), Duration::from_millis(1000));

    slice.discard_audio(&Duration::from_millis(500));

    assert_eq!(slice.buffer_duration(), Duration::from_millis(500));
    assert_eq!(slice.audio.len(), 500 * WHISPER_SAMPLES_PER_MILLISECOND);
    let time = slice.start_time.unwrap().0;
    assert_eq!(time, 1500 * RTC_CLOCK_SAMPLES_PER_MILLISECOND as u32);
}

#[test]
fn audio_slice_test_add_audio() {
    let mut slice = AudioSlice::new(234);
    slice.start_time = Some((1000 * RTC_CLOCK_SAMPLES_PER_MILLISECOND as u32, now()));

    // check the buffer capacity at the top.  At the end it should
    // still the same.
    let original_capacity = slice.audio.capacity();

    slice.audio = vec![0; 1000 * WHISPER_SAMPLES_PER_MILLISECOND];
    assert_eq!(slice.buffer_duration(), Duration::from_millis(1000));

    slice.add_audio(
        2000 * RTC_CLOCK_SAMPLES_PER_MILLISECOND as u32,
        &vec![1; 500 * DISCORD_SAMPLES_PER_MILLISECOND * DISCORD_AUDIO_CHANNELS],
    );

    assert_eq!(slice.buffer_duration(), Duration::from_millis(1500));
    assert_eq!(slice.audio.len(), 1500 * WHISPER_SAMPLES_PER_MILLISECOND);
    let time = slice.start_time.unwrap().0;
    assert_eq!(time, 1000 * RTC_CLOCK_SAMPLES_PER_MILLISECOND as u32);

    slice.add_audio(
        4000 * RTC_CLOCK_SAMPLES_PER_MILLISECOND as u32,
        &vec![1; 500 * DISCORD_SAMPLES_PER_MILLISECOND * DISCORD_AUDIO_CHANNELS],
    );

    assert_eq!(slice.buffer_duration(), Duration::from_millis(3500));
    assert_eq!(slice.audio.len(), 3500 * WHISPER_SAMPLES_PER_MILLISECOND);
    let time = slice.start_time.unwrap().0;
    assert_eq!(time, 1000 * RTC_CLOCK_SAMPLES_PER_MILLISECOND as u32);

    let max_acceptable_rtc = (((1 + AUDIO_TO_RECORD_SECONDS) * 1000)
        * RTC_CLOCK_SAMPLES_PER_MILLISECOND as usize) as u32
        - 1;
    // don't add audio that's too far in the future
    slice.add_audio(
        max_acceptable_rtc,
        &vec![1; 500 * DISCORD_SAMPLES_PER_MILLISECOND * DISCORD_AUDIO_CHANNELS],
    );

    assert_eq!(slice.buffer_duration(), Duration::from_millis(3500));
    assert_eq!(slice.audio.len(), 3500 * WHISPER_SAMPLES_PER_MILLISECOND);
    let time = slice.start_time.unwrap().0;
    assert_eq!(time, 1000 * RTC_CLOCK_SAMPLES_PER_MILLISECOND as u32);

    assert!(slice.fits_within_this_slice(1000 * RTC_CLOCK_SAMPLES_PER_MILLISECOND as u32));

    assert!(!slice.fits_within_this_slice(999 * RTC_CLOCK_SAMPLES_PER_MILLISECOND as u32));

    assert!(slice.fits_within_this_slice(max_acceptable_rtc));

    assert!(!slice.fits_within_this_slice(max_acceptable_rtc + 1));

    // make sure the buffer didn't grow
    assert!(slice.audio.capacity() <= original_capacity);
}

#[test]
fn silence_after_going_silent_is_ignored() {
    let mut slice = AudioSlice::new(1);
    slice.set_silent();
    slice.add_audio_at(480, &[0; 12], SystemTime::from_nanos(1));
    assert!(slice.audio.is_empty());
    assert!(slice.user_silent);
    // sound marks the user as speaking again
    slice.add_audio_at(480, &[1; 12], SystemTime::from_nanos(1));
    assert!(!slice.user_silent);
    assert_eq!(slice.audio, vec![2, 2]);
}

/// A slice of three seconds of audio, requested at `t0 + 3s`, answered by a
/// transcript with one segment before the cutoff (a silence timeout before
/// the request) and one after it.
#[test]
fn response_is_split_at_the_cutoff() {
    let t0 = SystemTime::from_nanos(1_000_000_000_000);
    let mut slice = AudioSlice::new(9);
    slice.add_audio_at(0, &vec![5; 3000 * DISCORD_SAMPLES_PER_MILLISECOND * 2], t0);
    assert_eq!(slice.buffer_duration(), Duration::from_millis(3000));

    let requested_at = t0.plus(Duration::from_secs(3));
    let request = slice.request_transcription_at(true, requested_at).unwrap();
    assert_eq!(request.audio_duration, Duration::from_millis(3000));
    assert_eq!(request.start_timestamp, t0);
    assert_eq!(request.user_id, 9);
    // the same audio is not requested twice
    assert!(slice.request_transcription_at(true, requested_at).is_none());

    let message = TranscribedMessage {
        start_timestamp: t0,
        user_id: 9,
        segments: vec![
            segment(0, 1500, vec![token(11, " hello")]),
            segment(1500, 2500, vec![token(12, " world")]),
        ],
        audio_duration: Duration::from_millis(3000),
        processing_time: Duration::from_millis(100),
    };
    let published = slice
        .handle_transcription_response_at(&message, t0.plus(Duration::from_millis(3500)))
        .unwrap();
    assert_eq!(published.segments.len(), 1);
    assert_eq!(published.segments[0].end_offset_ms, 1500);
    assert_eq!(published.audio_duration, Duration::from_millis(1500));
    // the published audio is gone from the slice, and its tokens are kept
    assert_eq!(slice.buffer_duration(), Duration::from_millis(1500));
    assert_eq!(slice.last_tokens.iter().copied().collect::<Vec<_>>(), vec![11]);
    let last_request = slice.last_request.as_ref().unwrap();
    assert!(!last_request.in_progress);
    assert_eq!(last_request.audio_trimmed_since_request, Duration::from_millis(1500));
    assert_eq!(last_request.effective_duration(), Duration::from_millis(1500));
    // the rest is kept as tentative, and published when the user goes idle
    let tentative = slice.tentative_transcript_opt.as_ref().unwrap();
    assert_eq!(tentative.start_timestamp, t0.plus(Duration::from_millis(1500)));
    assert_eq!(tentative.segments[0].start_offset_ms, 0);
    assert_eq!(tentative.segments[0].end_offset_ms, 1000);
    let idle = slice.handle_user_idle().unwrap();
    assert_eq!(idle.segments[0].tokens_with_probability[0].token_text, " world");
    assert!(slice.audio.is_empty());
    assert!(slice.start_time.is_none());
}

#[test]
fn quiet_tail_takes_the_transcript_whole() {
    let t0 = SystemTime::from_nanos(1_000_000_000_000);
    let mut slice = AudioSlice::new(9);
    // one second of sound, then two seconds of silence
    slice.add_audio_at(0, &vec![5; 1000 * DISCORD_SAMPLES_PER_MILLISECOND * 2], t0);
    slice.add_audio_at(
        3000 * RTC_CLOCK_SAMPLES_PER_MILLISECOND as u32 - 6,
        &[0, 0, 0, 0, 0, 1],
        t0,
    );
    let requested_at = t0.plus(Duration::from_secs(3));
    let _ = slice.request_transcription_at(true, requested_at).unwrap();
    let message = TranscribedMessage {
        start_timestamp: t0,
        user_id: 9,
        segments: vec![segment(0, 1000, vec![token(3, " hi")])],
        audio_duration: Duration::from_millis(1000),
        processing_time: Duration::from_millis(10),
    };
    // the request was for all three seconds, so this answer is ignored
    assert!(slice
        .handle_transcription_response_at(&message, t0.plus(Duration::from_secs(4)))
        .is_none());
    let message = TranscribedMessage { audio_duration: slice.buffer_duration(), ..message };
    let later = t0.plus(Duration::from_secs(5));
    assert!(!slice.shortcut_tentative_transcripts(&message, t0.plus(Duration::from_millis(3500))));
    let whole = slice.handle_transcription_response_at(&message, later).unwrap();
    assert_eq!(whole.segments.len(), 1);
    assert!(slice.tentative_transcript_opt.is_none());
}

#[test]
fn slice_reckons_a_packet_by_its_sample_count() {
    let t0 = SystemTime::from_nanos(1_000_000_000_000);
    let mut slice = AudioSlice::new(2);
    slice.add_audio_at(0, &[1; 6], t0);
    assert_eq!(slice.audio.len(), 1);
    // 48000 samples: half a second of 48khz stereo, taken as 3000 ms
    let packet = vec![1; 48_000];
    // 1_300_000 + 3000 ms of ticks passes the window's end at 1_440_000
    slice.add_audio_at(1_300_000, &packet, t0);
    assert_eq!(slice.audio.len(), 1);
    // 1_290_000 + 3000 ms of ticks ends inside it
    slice.add_audio_at(1_290_000, &packet, t0);
    assert_eq!(slice.audio.len(), 1_290_000 / 3 + 8_000);
}

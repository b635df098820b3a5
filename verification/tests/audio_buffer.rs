use discrivener::audio::audio_buffer::{
    discord_samples_to_whisper_samples, duration_to_index, duration_to_rtc, measure_range,
    rtc_timestamp_to_index, samples_to_duration, timestamp_fits_window, AudioBuffer,
};
use discrivener::model::constants::{
    AUDIO_TO_RECORD_SECONDS, DISCORD_AUDIO_CHANNELS, DISCORD_SAMPLES_PER_SECOND,
    RTC_CLOCK_SAMPLES_PER_MILLISECOND, WHISPER_SAMPLES_PER_MILLISECOND,
};
use discrivener::model::types::DiscordAudioSample;
use discrivener::time::{now, Duration, SystemTime};

const DISCORD_SAMPLES_PER_MILLISECOND: usize = DISCORD_SAMPLES_PER_SECOND / 1000;

#[test]
fn audio_buffer_test_discard_audio() {
    let mut slice = AudioBuffer::new(123);
    slice.start_time = Some((1000 * RTC_CLOCK_SAMPLES_PER_MILLISECOND as u32, now()));
    slice.audio = vec![0; 1000 * WHISPER_SAMPLES_PER_MILLISECOND];
    assert_eq!(slice.buffer_duration(), Duration::from_millis(1000));

    slice.discard_audio(&Duration::from_millis(500));

    assert_eq!(slice.buffer_duration(), Duration::from_millis(500));
    assert_eq!(slice.audio.len(), 500 * WHISPER_SAMPLES_PER_MILLISECOND);
    let time = slice.start_time.unwrap().0;
    assert_eq!(time, 1500 * RTC_CLOCK_SAMPLES_PER_MILLISECOND as u32);
}

#[test]
fn audio_buffer_test_add_audio() {
    let mut slice = AudioBuffer::new(234);
    slice.start_time = Some((1000 * RTC_CLOCK_SAMPLES_PER_MILLISECOND as u32, now()));

    // check the buffer capacity at the top.  At the end it should
    // still the same.
    let original_capacity = slice.audio.capacity();

    slice.audio = vec![0; 1000 * WHISPER_SAMPLES_PER_MILLISECOND];
    assert_eq!(slice.buffer_duration(), Duration::from_millis(1000));

    slice.add_audio(
        &(2000 * RTC_CLOCK_SAMPLES_PER_MILLISECOND as u32),
        &vec![1; 500 * DISCORD_SAMPLES_PER_MILLISECOND * DISCORD_AUDIO_CHANNELS],
    );

    assert_eq!(slice.buffer_duration(), Duration::from_millis(1500));
    assert_eq!(slice.audio.len(), 1500 * WHISPER_SAMPLES_PER_MILLISECOND);
    let time = slice.start_time.unwrap().0;
    assert_eq!(time, 1000 * RTC_CLOCK_SAMPLES_PER_MILLISECOND as u32);

    slice.add_audio(
        &(4000 * RTC_CLOCK_SAMPLES_PER_MILLISECOND as u32),
        &vec![1; 500 * DISCORD_SAMPLES_PER_MILLISECOND * DISCORD_AUDIO_CHANNELS],
    );

    assert_eq!(slice.buffer_duration(), Duration::from_millis(3500));
    assert_eq!(slice.audio.len(), 3500 * WHISPER_SAMPLES_PER_MILLISECOND);
    let time = slice.start_time.unwrap().0;
    assert_eq!(time, 1000 * RTC_CLOCK_SAMPLES_PER_MILLISECOND as u32);

    let max_acceptable_rtc = (((1 + AUDIO_TO_RECORD_SECONDS) * 1000)
        * RTC_CLOCK_SAMPLES_PER_MILLISECOND as usize) as u32
        - 1;
    // don't add audio that's too far in the future
    slice.add_audio(
        &max_acceptable_rtc,
        &vec![1; 500 * DISCORD_SAMPLES_PER_MILLISECOND * DISCORD_AUDIO_CHANNELS],
    );

    assert_eq!(slice.buffer_duration(), Duration::from_millis(3500));
    assert_eq!(slice.audio.len(), 3500 * WHISPER_SAMPLES_PER_MILLISECOND);
    let time = slice.start_time.unwrap().0;
    assert_eq!(time, 1000 * RTC_CLOCK_SAMPLES_PER_MILLISECOND as u32);

    assert!(slice.fits_within_this_slice(1000 * RTC_CLOCK_SAMPLES_PER_MILLISECOND as u32));

    assert!(!slice.fits_within_this_slice(999 * RTC_CLOCK_SAMPLES_PER_MILLISECOND as u32));

    assert!(slice.fits_within_this_slice(max_acceptable_rtc));

    assert!(!slice.fits_within_this_slice(max_acceptable_rtc + 1));

    // make sure the buffer didn't grow
    assert!(slice.audio.capacity() <= original_capacity);
}

#[test]
fn test_is_interval_silent() {
    let mut slice = AudioBuffer::new(345);
    let start_rtc: u32 = 1000 * RTC_CLOCK_SAMPLES_PER_MILLISECOND as u32;

    slice.start_time = Some((start_rtc, now()));

    const STEREO_SAMPLES_PER_SECOND: usize = DISCORD_SAMPLES_PER_SECOND * DISCORD_AUDIO_CHANNELS;

    const SILENT_DISCORD_AUDIO: [DiscordAudioSample; STEREO_SAMPLES_PER_SECOND] =
        [0; STEREO_SAMPLES_PER_SECOND];

    const NOISY_DISCORD_AUDIO: [DiscordAudioSample; STEREO_SAMPLES_PER_SECOND] =
        [DiscordAudioSample::MAX / 2; STEREO_SAMPLES_PER_SECOND];

    const ONE_SECOND_RTC: u32 = 1000 * RTC_CLOCK_SAMPLES_PER_MILLISECOND as u32;

    let one_second = Duration::from_secs(1);

    const NEAR_SILENT_DISCORD_AUDIO: [DiscordAudioSample; STEREO_SAMPLES_PER_SECOND] =
        [1 as DiscordAudioSample; STEREO_SAMPLES_PER_SECOND];

    // seconds [0,1) will be silent, since we'll auto-pad with silence
    // seconds [1,2) are silent
    assert_eq!(slice.buffer_duration(), Duration::zero());

    // silent audio should not be added, except as padding
    slice.add_audio(&(start_rtc + ONE_SECOND_RTC), &SILENT_DISCORD_AUDIO);
    assert_eq!(slice.buffer_duration(), Duration::zero());

    // seconds [2,3) are noisy
    slice.add_audio(&(start_rtc + ONE_SECOND_RTC + ONE_SECOND_RTC), &NOISY_DISCORD_AUDIO);
    assert_eq!(slice.buffer_duration(), Duration::from_secs(3));

    // seconds [3,4) are silent again
    slice.add_audio(
        &(start_rtc + ONE_SECOND_RTC + ONE_SECOND_RTC + ONE_SECOND_RTC),
        &SILENT_DISCORD_AUDIO,
    );
    assert_eq!(slice.buffer_duration(), Duration::from_secs(3));

    // seconds [4,5) are nearly silent, and should be considered silent in our test
    slice.add_audio(
        &(start_rtc + ONE_SECOND_RTC + ONE_SECOND_RTC + ONE_SECOND_RTC + ONE_SECOND_RTC),
        &NEAR_SILENT_DISCORD_AUDIO,
    );

    assert!(slice.is_interval_silent(&Duration::zero(), &one_second));
    assert!(slice.is_interval_silent(&Duration::from_millis(500), &one_second));
    assert!(slice.is_interval_silent(&Duration::from_secs(1), &one_second));
    assert!(!slice.is_interval_silent(&Duration::from_secs(2), &one_second));
    assert!(slice.is_interval_silent(&Duration::from_secs(3), &one_second));

    assert!(slice.is_interval_silent(&Duration::from_secs(4), &one_second));

    let duration_buffer_len_minus_one = samples_to_duration(slice.audio.len() - 1);
    assert!(slice.is_interval_silent(&duration_buffer_len_minus_one, &one_second));

    let duration_buffer_len = samples_to_duration(slice.audio.len());
    assert!(slice.is_interval_silent(&duration_buffer_len, &one_second));

    let duration_buffer_len_plus_one = samples_to_duration(slice.audio.len() + 1);
    assert!(slice.is_interval_silent(&duration_buffer_len_plus_one, &one_second));
}

#[test]
fn conversions_between_time_ticks_and_samples() {
    // 48 RTC ticks and 16 samples per millisecond
    assert_eq!(duration_to_rtc(&Duration::from_millis(1000)), 48_000);
    assert_eq!(duration_to_index(&Duration::from_millis(1000)), 16_000);
    assert_eq!(samples_to_duration(16_015), Duration::from_millis(1000));
    assert_eq!(discord_samples_to_whisper_samples(960 * 2), 320);
    // three RTC ticks make one sample
    assert_eq!(rtc_timestamp_to_index(&1000, &1300), 100);
    // the RTC clock wraps
    assert_eq!(rtc_timestamp_to_index(&(u32::MAX - 2), &3), 2);
    // sub-millisecond parts are dropped
    assert_eq!(duration_to_rtc(&Duration::from_nanos(1_999_999)), 48);
}

#[test]
fn audio_lands_at_its_place_in_time() {
    let mut slice = AudioBuffer::new(1);
    let t0 = SystemTime::from_nanos(5_000_000_000);
    // first frame of each group of three: (3, 4); the rest are ignored
    let packet: Vec<i16> = vec![3, 4, 100, 100, 100, 100, -1, -2, 7, 7, 7, 7];
    slice.add_audio_at(&4800, &packet, t0);
    assert_eq!(slice.start_time, Some((4800, t0)));
    assert_eq!(slice.audio, vec![7, -3]);

    // a packet 1ms later lands 16 samples in, with silence before it
    slice.add_audio_at(&(4800 + 48), &[1, 1, 0, 0, 0, 0], SystemTime::from_nanos(9));
    assert_eq!(slice.audio.len(), 17);
    assert_eq!(slice.audio[16], 2);
    assert!(slice.audio[2..16].iter().all(|&x| x == 0));
    // the start stays where the first audio put it
    assert_eq!(slice.start_time, Some((4800, t0)));
}

#[test]
fn silent_audio_does_not_start_a_buffer() {
    let mut slice = AudioBuffer::new(2);
    slice.add_audio_at(&100, &[0; 12], SystemTime::from_nanos(1));
    assert!(slice.is_empty());
    assert_eq!(slice.start_time, None);
}

#[test]
fn discarding_everything_resets_the_buffer() {
    let mut slice = AudioBuffer::new(3);
    slice.start_time = Some((0, SystemTime::from_nanos(0)));
    slice.audio = vec![1; 160];
    slice.discard_audio(&Duration::from_millis(20));
    assert!(slice.is_empty());
    assert_eq!(slice.start_time, None);
}

#[test]
fn discarding_keeps_sample_times() {
    let mut slice = AudioBuffer::new(4);
    let t0 = SystemTime::from_nanos(1_000_000_000);
    slice.start_time = Some((960, t0));
    slice.audio = (0..64).collect();
    slice.discard_audio(&Duration::from_millis(2));
    // 32 samples went, and the start moved 2ms later on both clocks
    assert_eq!(slice.audio[0], 32);
    assert_eq!(slice.audio.len(), 32);
    assert_eq!(
        slice.start_time,
        Some((960 + 96, SystemTime::from_nanos(1_002_000_000)))
    );
    // a zero-length discard changes nothing
    slice.discard_audio(&Duration::zero());
    assert_eq!(slice.audio.len(), 32);
}

#[test]
fn transcription_request_holds_all_audio() {
    let mut slice = AudioBuffer::new(77);
    assert!(slice.make_transcription_request(vec![1, 2]).is_none());
    let t0 = SystemTime::from_nanos(42);
    slice.start_time = Some((0, t0));
    slice.audio = vec![5; 32];
    let request = slice.make_transcription_request(vec![1, 2]).unwrap();
    assert_eq!(request.audio_data, vec![5; 32]);
    assert_eq!(request.audio_duration, Duration::from_millis(2));
    assert_eq!(request.previous_tokens, vec![1, 2]);
    assert_eq!(request.start_timestamp, t0);
    assert_eq!(request.user_id, 77);
}

#[test]
fn capacity_and_ranges() {
    let mut slice = AudioBuffer::new(8);
    slice.audio = vec![0; 16_000];
    assert_eq!(slice.remaining_capacity(), Duration::from_secs(29));
    assert_eq!(
        slice.clamped_range(&Duration::from_millis(500), &Duration::from_secs(1)),
        (8_000, 16_000)
    );
    assert_eq!(
        slice.clamped_range(&Duration::from_secs(2), &Duration::from_secs(1)),
        (16_000, 16_000)
    );
}

#[test]
fn window_wraps_around_the_clock() {
    let start = u32::MAX - 100;
    let window = Some((start, SystemTime::from_nanos(0)));
    assert!(timestamp_fits_window(&window, start));
    assert!(timestamp_fits_window(&window, 5));
    assert!(!timestamp_fits_window(&window, start - 1));
    assert!(timestamp_fits_window(&None, 12345));
}

#[test]
fn level_measurement() {
    let audio = vec![0, 3, -4, 0];
    assert_eq!(measure_range(&audio, 0, 4), (false, 25));
    assert_eq!(measure_range(&audio, 3, 4), (true, 0));
}

#[test]
fn packet_fits_when_all_of_it_lies_in_the_window() {
    let mut buffer = AudioBuffer::new(1);
    // the window runs for 30 s from 1000 ms on
    buffer.start_time = Some((48_000, now()));
    // half a second of 48khz stereo audio
    let audio: Vec<DiscordAudioSample> = vec![1; 48_000];
    // spans 29000..29500 ms of the window
    assert!(buffer.can_fit_audio(&1_392_000, &audio));
    // the last start at which it still ends inside the window
    assert!(buffer.can_fit_audio(&1_463_999, &audio));
    assert!(!buffer.can_fit_audio(&1_464_000, &audio));
}

#[test]
fn period_after_the_buffer_is_not_silent() {
    let mut buffer = AudioBuffer::new(1);
    buffer.start_time = Some((0, now()));
    buffer.audio = vec![5_000; 16_000];
    let one_second = Duration::from_secs(1);
    assert!(!buffer.is_interval_silent(&Duration::from_secs(3), &one_second));
    assert!(!buffer.is_interval_silent(&Duration::from_secs(2), &one_second));
    // a period that starts right at the end of the buffer holds no sound
    assert!(buffer.is_interval_silent(&Duration::from_secs(1), &one_second));
    assert!(!buffer.is_interval_silent(&Duration::zero(), &one_second));
}

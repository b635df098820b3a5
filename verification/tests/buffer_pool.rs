use discrivener::model::audio_buffer::{AudioBuffer, AudioBufferManager, PacketFit};
use discrivener::time::SystemTime;

#[test]
fn rtc_ticks_become_twice_as_many_samples() {
    assert_eq!(AudioBuffer::rtc_timestamp_delta_to_whisper_audio_sample_delta(100, 160), 120);
    assert_eq!(AudioBuffer::rtc_timestamp_delta_to_whisper_audio_sample_delta(u32::MAX, 1), 4);
}

#[test]
fn packets_must_continue_the_buffer() {
    let mut buffer = AudioBuffer::new();
    buffer.assign_to_user(9);
    assert_eq!(buffer.packet_fit(1000, 0), PacketFit::Fits);
    // a packet that does not end where the buffer ends is refused
    assert_eq!(buffer.packet_fit(1000, 30), PacketFit::Overflow);
    let request = buffer.add_audio_at(1000, &[0; 0], SystemTime::from_nanos(5));
    assert!(request.is_none());
    assert_eq!(buffer.head_timestamp, Some((1000, SystemTime::from_nanos(5))));
    assert_eq!(buffer.packet_fit(1000, 30), PacketFit::Overflow);
    assert_eq!(buffer.packet_fit(999, 0), PacketFit::BeforeStart);
}

#[test]
fn audio_is_summed_in_runs_of_three() {
    let mut buffer = AudioBuffer::new();
    buffer.assign_to_user(3);
    buffer.head_timestamp = Some((0, SystemTime::from_nanos(0)));
    buffer.buffer.extend([0, 0]);
    // a packet stamped one tick in ends two samples in
    assert_eq!(buffer.packet_fit(1, 0), PacketFit::Fits);
    assert_eq!(buffer.packet_fit(0, 6), PacketFit::Fits);
    let request = buffer.add_audio(0, &[1, 2, 3, 4, 5, 6, 7]);
    assert!(request.is_none());
    assert_eq!(buffer.buffer.iter().copied().collect::<Vec<_>>(), vec![0, 0, 6, 15]);
}

#[test]
fn crossing_a_period_makes_a_request() {
    let mut buffer = AudioBuffer::new();
    buffer.assign_to_user(11);
    buffer.head_timestamp = Some((0, SystemTime::from_nanos(77)));
    buffer.last_tokens.extend([4, 5]);
    buffer.buffer.extend(std::iter::repeat(0).take(79_999));
    let packet = vec![1; 3];
    // the packet is stamped where the buffer's audio ends, less its length
    let stamp: u32 = (79_999 - 1) / 2;
    assert_eq!(buffer.packet_fit(stamp, 3), PacketFit::Fits);
    let request = buffer.add_audio(stamp, &packet).unwrap();
    assert_eq!(request.audio_data.len(), 80_000);
    assert_eq!(request.audio_data[79_999], 3);
    assert_eq!(request.previous_tokens, vec![4, 5]);
    assert_eq!(request.start_timestamp, SystemTime::from_nanos(77));
    assert_eq!(request.user_id, 11);
}

#[test]
fn unassigned_buffer_cannot_make_a_request() {
    let mut buffer = AudioBuffer::new();
    buffer.head_timestamp = Some((0, SystemTime::from_nanos(0)));
    buffer.buffer.extend(std::iter::repeat(0).take(79_999));
    assert_eq!(buffer.packet_fit(39_998, 6), PacketFit::OutOfOrder);
    assert_eq!(buffer.packet_fit(39_999, 3), PacketFit::Unassigned);
}

#[test]
fn removing_audio_drops_the_oldest() {
    let mut buffer = AudioBuffer::new();
    buffer.buffer.extend(0..40);
    buffer.remove_audio_duration(2);
    assert_eq!(buffer.buffer.len(), 8);
    assert_eq!(buffer.buffer[0], 32);
    buffer.remove_audio_duration(1000);
    assert!(buffer.buffer.is_empty());
}

#[test]
fn users_get_reserve_buffers_first() {
    let mut manager = AudioBufferManager::new(1);
    manager.ensure_buffer_for_user(1);
    assert!(manager.reserve_buffers.is_empty());
    manager.ensure_buffer_for_user(2);
    manager.ensure_buffer_for_user(1);
    assert_eq!(manager.active_buffers.len(), 2);
    assert_eq!(manager.active_buffers[&2].user_id, Some(2));
    let request = manager.add_audio_for_user(2, 480, &[]);
    assert!(request.is_none());
    assert_eq!(manager.active_buffers[&2].head_timestamp.unwrap().0, 480);
    assert!(manager.active_buffers[&1].head_timestamp.is_none());
}

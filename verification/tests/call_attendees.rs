use discrivener::api::api_types::{UserJoinData, VoiceChannelEvent};
use discrivener::events::audio::VoiceActivityData;
use discrivener::model::call_attendees::CallAttendees;
use discrivener::packet_handler::PacketHandler;

#[test]
fn test_call_attendees() {
    let mut attendees = CallAttendees::new();
    attendees.apply(1, &UserJoinData { user_id: 1, joined: true });
    assert_eq!(attendees.get_user_id_from_ssrc(1), Some(1));
    assert_eq!(attendees.get_user_id_from_ssrc(2), None);

    attendees.apply(2, &UserJoinData { user_id: 2, joined: true });
    assert_eq!(attendees.get_user_id_from_ssrc(1), Some(1));
    assert_eq!(attendees.get_user_id_from_ssrc(2), Some(2));

    attendees.apply(1, &UserJoinData { user_id: 3, joined: true });
    assert_eq!(attendees.get_user_id_from_ssrc(1), Some(3));
    assert_eq!(attendees.get_user_id_from_ssrc(2), Some(2));

    attendees.apply(1, &UserJoinData { user_id: 3, joined: false });
    attendees.apply(2, &UserJoinData { user_id: 2, joined: false });
    assert_eq!(attendees.get_user_id_from_ssrc(1), None);
    assert_eq!(attendees.get_user_id_from_ssrc(2), None);
}

#[test]
fn packet_handler_maps_streams_to_users() {
    let mut handler = PacketHandler::new();
    // events from a stream nobody was assigned are dropped
    assert_eq!(handler.on_start_talking(7), None);
    assert!(handler.on_audio(&[1, 2, 3], 100, 7).is_none());

    let event = handler.on_user_join(7, 42);
    assert_eq!(event, VoiceChannelEvent::UserJoin(UserJoinData { user_id: 42, joined: true }));
    assert_eq!(handler.user_id_from_ssrc(7), Some(42));
    assert_eq!(
        handler.on_start_talking(7),
        Some(VoiceActivityData { user_id: 42, speaking: true })
    );
    assert_eq!(
        handler.on_stop_talking(7),
        Some(VoiceActivityData { user_id: 42, speaking: false })
    );
    let audio = handler.on_audio(&[1, 2, 3], 100, 7).unwrap();
    assert_eq!(audio.user_id, 42);
    assert_eq!(audio.discord_audio, vec![1, 2, 3]);
    assert_eq!(audio.rtc_timestamp, 100);

    // leaving keeps the stream mapped: late packets still find their user
    assert_eq!(
        handler.on_user_leave(42),
        VoiceChannelEvent::UserJoin(UserJoinData { user_id: 42, joined: false })
    );
    assert_eq!(handler.user_id_from_ssrc(7), Some(42));
}

#[test]
fn only_microphone_streams_with_users_are_assigned() {
    let mut handler = PacketHandler::new();
    assert_eq!(handler.on_speaking_state_update(5, false, Some(1)), None);
    assert_eq!(handler.on_speaking_state_update(5, true, None), None);
    assert_eq!(handler.user_id_from_ssrc(5), None);
    assert_eq!(
        handler.on_speaking_state_update(5, true, Some(1)),
        Some(VoiceChannelEvent::UserJoin(UserJoinData { user_id: 1, joined: true }))
    );
    assert_eq!(
        handler.on_speaking_update(5, true),
        Some(VoiceActivityData { user_id: 1, speaking: true })
    );
    assert_eq!(handler.on_speaking_update(6, true), None);
}

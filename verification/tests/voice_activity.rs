use discrivener::api::api_types::VoiceChannelEvent;
use discrivener::audio::events::{UserAudioEvent, UserAudioEventType};
use discrivener::events::audio::VoiceActivityData;
use discrivener::model::voice_activity::VoiceActivity as ActivityMonitor;
use discrivener::songbird_client::voice_activity::{SpeakingUsers, VoiceActivity};
use discrivener::time::Duration;

fn ms(n: u64) -> Duration {
    Duration::from_millis(n)
}

fn speaking(user_id: u64) -> UserAudioEvent {
    UserAudioEvent { user_id, event_type: UserAudioEventType::Speaking }
}

fn silent(user_id: u64) -> UserAudioEvent {
    UserAudioEvent { user_id, event_type: UserAudioEventType::Silent }
}

fn idle(user_id: u64) -> UserAudioEvent {
    UserAudioEvent { user_id, event_type: UserAudioEventType::Idle }
}

/// Runs the idle checks that have fallen due at `now`, as the monitor's
/// loop does.
fn due_idle_events(monitor: &mut VoiceActivity, now: Duration) -> Vec<UserAudioEvent> {
    let mut events = Vec::new();
    while let Some(deadline) = monitor.next_deadline() {
        if deadline > now {
            break;
        }
        if let Some(event) = monitor.process_next_idle_timeout() {
            events.push(event);
        }
    }
    events
}

#[test]
fn channel_goes_silent_when_everyone_stops() {
    let mut monitor = VoiceActivity::new(ms(1));
    assert_eq!(due_idle_events(&mut monitor, ms(0)), vec![]);

    // user 1 starts talking
    let out = monitor.handle_voice_activity(&speaking(1), ms(0));
    assert_eq!(out.api_event, Some(VoiceChannelEvent::SilentChannel(false)));
    assert_eq!(out.user_event, None);

    // user 2 starts talking
    let out = monitor.handle_voice_activity(&speaking(2), ms(1));
    assert_eq!(out.api_event, None);
    assert_eq!(out.user_event, None);

    // user 1 stops talking, and goes idle after the timeout
    let out = monitor.handle_voice_activity(&silent(1), ms(2));
    assert_eq!(out.api_event, None);
    assert_eq!(out.user_event, Some(silent(1)));
    assert_eq!(due_idle_events(&mut monitor, ms(22)), vec![idle(1)]);

    // user 2 stops talking: the channel is silent, and user 2 goes idle
    let out = monitor.handle_voice_activity(&silent(2), ms(30));
    assert_eq!(out.user_event, Some(silent(2)));
    assert_eq!(out.api_event, Some(VoiceChannelEvent::SilentChannel(true)));
    assert_eq!(due_idle_events(&mut monitor, ms(50)), vec![idle(2)]);
    assert_eq!(monitor.next_deadline(), None);
}

#[test]
fn speaking_again_cancels_the_idle_check() {
    let mut monitor = VoiceActivity::new(ms(10));
    monitor.handle_voice_activity(&speaking(1), ms(0));
    monitor.handle_voice_activity(&speaking(2), ms(0));

    // user 1 stops talking; no idle event before the timeout
    monitor.handle_voice_activity(&silent(1), ms(1));
    assert_eq!(due_idle_events(&mut monitor, ms(3)), vec![]);
    // now wait a while, and expect a timeout
    assert_eq!(due_idle_events(&mut monitor, ms(23)), vec![idle(1)]);

    // user 2 stops talking, then starts again before the timeout
    let out = monitor.handle_voice_activity(&silent(2), ms(25));
    assert_eq!(out.api_event, Some(VoiceChannelEvent::SilentChannel(true)));
    assert_eq!(due_idle_events(&mut monitor, ms(27)), vec![]);
    let out = monitor.handle_voice_activity(&speaking(2), ms(28));
    assert_eq!(out.api_event, Some(VoiceChannelEvent::SilentChannel(false)));
    // the check queued when user 2 went silent finds them speaking
    assert_eq!(due_idle_events(&mut monitor, ms(48)), vec![]);
}

#[test]
fn idle_events_are_ignored_as_input() {
    let mut monitor = VoiceActivity::new(ms(10));
    let out = monitor.handle_voice_activity(&idle(3), ms(0));
    assert_eq!(out.api_event, None);
    assert_eq!(out.user_event, None);
    assert_eq!(monitor.next_deadline(), None);
}

#[test]
fn speaking_users_announce_changes() {
    let mut users = SpeakingUsers::new();
    assert_eq!(users.add(1), Some(VoiceChannelEvent::SilentChannel(false)));
    assert_eq!(users.add(2), None);
    assert_eq!(users.remove(&1), None);
    assert_eq!(users.remove(&2), Some(VoiceChannelEvent::SilentChannel(true)));
}

#[test]
fn speaking_users_announce_only_changes_of_silence() {
    let mut users = SpeakingUsers::new();
    // no one was speaking: nothing to announce
    assert_eq!(users.remove(&5), None);
    assert_eq!(users.add(1), Some(VoiceChannelEvent::SilentChannel(false)));
    // the same user again: the channel was not silent
    assert_eq!(users.add(1), None);
    assert_eq!(users.remove(&1), Some(VoiceChannelEvent::SilentChannel(true)));
    assert_eq!(users.remove(&1), None);
}

#[test]
fn activity_monitor_reports_silence_and_idleness() {
    let mut monitor = ActivityMonitor::new(ms(10));
    let out = monitor.handle_activity(&VoiceActivityData { user_id: 1, speaking: true }, ms(0));
    assert_eq!(out.api_event, Some(VoiceChannelEvent::SilentChannel(false)));
    assert_eq!(out.silent_user_event, None);
    let out = monitor.handle_activity(&VoiceActivityData { user_id: 2, speaking: true }, ms(1));
    assert_eq!(out.api_event, None);

    let out = monitor.handle_activity(&VoiceActivityData { user_id: 1, speaking: false }, ms(2));
    assert_eq!(out.api_event, None);
    assert_eq!(out.silent_user_event, Some((1, false)));
    // the checks queued by speaking find the users no longer silent since
    assert_eq!(monitor.process_due_timeouts(ms(5)), vec![]);
    assert_eq!(monitor.process_due_timeouts(ms(12)), vec![(1, true)]);

    let out = monitor.handle_activity(&VoiceActivityData { user_id: 2, speaking: false }, ms(20));
    assert_eq!(out.api_event, Some(VoiceChannelEvent::SilentChannel(true)));
    // user 2 speaks again before the timeout
    let out = monitor.handle_activity(&VoiceActivityData { user_id: 2, speaking: true }, ms(25));
    assert_eq!(out.api_event, Some(VoiceChannelEvent::SilentChannel(false)));
    assert_eq!(monitor.process_due_timeouts(ms(100)), vec![]);
    assert_eq!(monitor.next_deadline(), None);
}

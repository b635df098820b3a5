use discrivener::scrivening::manager::UserActivity;
use discrivener::time::Duration;

fn secs(n: u64) -> Duration {
    Duration::from_secs(n)
}

#[test]
fn each_user_gets_one_worker() {
    let mut activity = UserActivity::new();
    assert!(activity.record_activity(1, secs(0)));
    assert!(activity.record_activity(2, secs(1)));
    assert!(!activity.record_activity(1, secs(2)));
    assert!(activity.discard_stale(secs(3)).is_empty());
}

#[test]
fn workers_are_dropped_after_ten_minutes_without_activity() {
    let mut activity = UserActivity::new();
    activity.record_activity(1, secs(0));
    activity.record_activity(2, secs(100));
    // user 1 was last heard from exactly ten minutes ago
    assert_eq!(activity.discard_stale(secs(600)), vec![1]);
    assert!(activity.discard_stale(secs(699)).is_empty());
    assert_eq!(activity.discard_stale(secs(700)), vec![2]);
    // a user heard from again gets a new worker
    assert!(activity.record_activity(1, secs(701)));
}

#[test]
fn activity_refreshes_the_timer() {
    let mut activity = UserActivity::new();
    activity.record_activity(1, secs(0));
    activity.record_activity(1, secs(500));
    assert!(activity.discard_stale(secs(600)).is_empty());
    // a clock reading earlier than the last activity counts as recent
    assert!(activity.discard_stale(secs(1)).is_empty());
}

use playback_core::watchdog::{PlayerData, TickEvent, WatchdogAction, DEFAULT_ALONE_THRESHOLD_MS};

fn tick(p: &mut PlayerData, others: bool, now: i64, threshold: i64) -> WatchdogAction {
    p.tick(TickEvent { session_exists: true, others_present: others, now }, threshold)
}

#[test]
fn alone_shorter_than_threshold_never_tears_down() {
    let mut p = PlayerData::new(7);
    for t in (0..=10_000).step_by(1_000) {
        assert_eq!(tick(&mut p, false, t, 10_000), WatchdogAction::Continue);
    }
    assert_eq!(p.alone_since, Some(0));
    assert!(!p.torn_down);
}

#[test]
fn alone_longer_than_threshold_tears_down_once() {
    let mut p = PlayerData::new(7);
    let mut teardowns = 0;
    for t in (0..60_000).step_by(1_000) {
        if tick(&mut p, false, t, 10_000) == WatchdogAction::Teardown {
            teardowns += 1;
            assert_eq!(t, 11_000);
        }
    }
    assert_eq!(teardowns, 1);
    assert!(p.torn_down);
    assert_eq!(tick(&mut p, true, 70_000, 10_000), WatchdogAction::Stop);
}

#[test]
fn company_resets_the_marker() {
    let mut p = PlayerData::new(1);
    assert_eq!(tick(&mut p, false, 0, 10_000), WatchdogAction::Continue);
    assert_eq!(tick(&mut p, true, 9_000, 10_000), WatchdogAction::Continue);
    assert_eq!(p.alone_since, None);
    assert_eq!(tick(&mut p, false, 12_000, 10_000), WatchdogAction::Continue);
    assert_eq!(p.alone_since, Some(12_000));
    assert_eq!(tick(&mut p, false, 22_000, 10_000), WatchdogAction::Continue);
    assert_eq!(tick(&mut p, false, 22_001, 10_000), WatchdogAction::Teardown);
}

#[test]
fn missing_session_stops_the_watchdog() {
    let mut p = PlayerData::new(1);
    let e = TickEvent { session_exists: false, others_present: false, now: 0 };
    assert_eq!(p.tick(e, 10_000), WatchdogAction::Stop);
    assert_eq!(p.alone_since, None);
}

#[test]
fn default_threshold_is_three_minutes() {
    let mut p = PlayerData::new(1);
    assert_eq!(tick(&mut p, false, 0, DEFAULT_ALONE_THRESHOLD_MS), WatchdogAction::Continue);
    assert_eq!(tick(&mut p, false, 180_000, DEFAULT_ALONE_THRESHOLD_MS), WatchdogAction::Continue);
    assert_eq!(tick(&mut p, false, 180_001, DEFAULT_ALONE_THRESHOLD_MS), WatchdogAction::Teardown);
}

#[test]
fn marker_operations() {
    let mut p = PlayerData::new(3);
    assert!(!p.is_alone_for_at(0, 100));
    p.mark_alone_at(100);
    p.mark_alone_at(500);
    assert_eq!(p.alone_since, Some(100));
    assert!(p.is_alone_for_at(50, 200));
    assert!(!p.is_alone_for_at(100, 200));
    p.reset_alone();
    assert_eq!(p.alone_since, None);
    assert!(!p.is_alone_for(0));
    p.mark_alone();
    assert!(p.alone_since.is_some());
}

use rss_monitor::manager::{FeedManager, RssFeed, MAX_IDLE_WAIT};

fn feed(interval: u32, last: u32, tracker: &str) -> RssFeed {
    RssFeed {
        url: format!("http://{}/rss", tracker),
        update_interval: interval,
        last_announce: last,
        tracker: tracker.to_string(),
    }
}

#[test]
fn due_is_strictly_greater_than_interval() {
    let f = feed(60, 0, "t");
    assert!(!f.due(59));
    assert!(!f.due(60), "equality must not trigger due status");
    assert!(f.due(61));
}

#[test]
fn clock_before_last_poll_is_not_due() {
    let f = feed(60, 1000, "t");
    assert!(!f.due(500));
}

#[test]
fn scenario_two_feeds_at_epoch_100() {
    let a = feed(60, 0, "a");
    let b = feed(3600, 0, "b");
    let m = FeedManager::new(vec![a, b], vec![]);
    let due = m.due_indices(100);
    assert_eq!(due, vec![0usize], "only feed a is due");
    assert_eq!(m.next_wait(100), 60);
}

#[test]
fn no_due_feed_waits_the_ceiling() {
    let a = feed(500, 90, "a");
    let b = feed(3600, 0, "b");
    let m = FeedManager::new(vec![a, b], vec![]);
    assert!(m.due_indices(100).is_empty());
    assert_eq!(m.next_wait(100), MAX_IDLE_WAIT);
}

#[test]
fn wait_is_minimum_interval_among_due_feeds() {
    let a = feed(300, 0, "a");
    let b = feed(120, 0, "b");
    let c = feed(600, 5_000_000, "c");
    let m = FeedManager::new(vec![a, b, c], vec![]);
    let due = m.due_indices(1_000_000);
    assert_eq!(due, vec![0usize, 1usize]);
    assert_eq!(m.next_wait(1_000_000), 120);
}

#[test]
fn due_feed_with_interval_above_ceiling_keeps_the_ceiling() {
    let a = feed(7200, 0, "a");
    let m = FeedManager::new(vec![a], vec![]);
    assert_eq!(m.due_indices(100_000), vec![0usize]);
    assert_eq!(m.next_wait(100_000), MAX_IDLE_WAIT);
}

#[test]
fn empty_feed_list_waits_the_ceiling() {
    let m = FeedManager::new(vec![], vec![]);
    assert!(m.due_indices(12345).is_empty());
    assert_eq!(m.next_wait(12345), MAX_IDLE_WAIT);
}

#[test]
fn mark_polled_advances_only_that_feed() {
    let a = feed(60, 0, "a");
    let b = feed(3600, 7, "b");
    let mut m = FeedManager::new(vec![a, b], vec![]);
    m.mark_polled(0, 100);
    assert_eq!(m.feeds[0].last_announce, 100);
    assert_eq!(m.feeds[1].last_announce, 7);
    assert!(!m.feeds[0].due(100), "a freshly polled feed is no longer due");
}

#[test]
fn finish_cycle_records_the_wait() {
    let mut m = FeedManager::new(vec![feed(60, 0, "a")], vec![]);
    let w = m.next_wait(100);
    m.finish_cycle(w);
    assert_eq!(m.next_update, 60);
}

#[test]
fn tracker_names_in_feed_order() {
    let m = FeedManager::new(vec![feed(60, 0, "alpha"), feed(60, 0, "beta")], vec![]);
    assert_eq!(m.tracker_names(), vec!["alpha".to_string(), "beta".to_string()]);
}

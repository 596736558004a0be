use hotspot::window::{Hotspot, HotspotManager};

fn record(key: &str, timestamp: i64) -> Hotspot {
    Hotspot { key: key.to_string(), timestamp }
}

#[test]
fn new_window_is_empty() {
    let w = HotspotManager::new(3600);
    assert!(!w.contains(&record("shoes", 0)));
}

#[test]
fn observe_lets_a_key_through_once() {
    let mut w = HotspotManager::new(3600);
    assert!(w.observe("shoes", 1000));
    assert!(!w.observe("shoes", 1001));
    assert!(!w.observe("shoes", 4599));
    assert!(w.contains(&record("shoes", 0)));
}

#[test]
fn observe_keeps_keys_apart() {
    let mut w = HotspotManager::new(3600);
    assert!(w.observe("shoes", 1000));
    assert!(w.observe("boots", 1000));
    assert!(!w.observe("boots", 1200));
    assert!(w.observe("hats", 900));
}

#[test]
fn insert_then_contains() {
    let mut w = HotspotManager::new(3600);
    w.insert(record("shoes", 10));
    assert!(w.contains(&record("shoes", 99)));
    assert!(!w.contains(&record("boots", 10)));
}

#[test]
fn reap_keeps_young_records() {
    let mut w = HotspotManager::new(3600);
    w.observe("shoes", 1000);
    w.reap(4599);
    assert!(w.contains(&record("shoes", 0)));
}

#[test]
fn reap_drops_records_a_window_old() {
    let mut w = HotspotManager::new(3600);
    w.observe("shoes", 1000);
    w.reap(4600);
    assert!(!w.contains(&record("shoes", 0)));
    assert!(w.observe("shoes", 4600));
}

#[test]
fn reap_stops_at_first_young_record() {
    let mut w = HotspotManager::new(3600);
    w.observe("a", 100);
    w.observe("b", 200);
    w.observe("c", 300);
    w.reap(3800);
    assert!(!w.contains(&record("a", 0)));
    assert!(!w.contains(&record("b", 0)));
    assert!(w.contains(&record("c", 0)));
}

#[test]
fn reap_orders_records_by_time_not_arrival() {
    let mut w = HotspotManager::new(3600);
    w.observe("late", 500);
    w.observe("early", 100);
    w.reap(3750);
    assert!(!w.contains(&record("early", 0)));
    assert!(w.contains(&record("late", 0)));
}

#[test]
fn reinsert_takes_new_timestamp() {
    let mut w = HotspotManager::new(3600);
    w.insert(record("shoes", 100));
    w.insert(record("shoes", 2000));
    w.reap(3700);
    assert!(w.contains(&record("shoes", 0)));
    w.reap(5600);
    assert!(!w.contains(&record("shoes", 0)));
}

#[test]
fn reap_at_earliest_time_does_not_overflow() {
    let mut w = HotspotManager::new(3600);
    w.observe("shoes", i64::MIN);
    w.reap(i64::MIN);
    assert!(w.contains(&record("shoes", 0)));
    w.reap(i64::MIN + 3600);
    assert!(!w.contains(&record("shoes", 0)));
}

#[test]
fn auto_remove_uses_the_clock() {
    let mut w = HotspotManager::new(3600);
    w.observe("old", 0);
    w.observe("future", i64::MAX);
    w.auto_remove();
    assert!(!w.contains(&record("old", 0)));
    assert!(w.contains(&record("future", 0)));
}

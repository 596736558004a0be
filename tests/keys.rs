use hotspot::clock::{now_ts, ts_of_reading};
use hotspot::config::HotspotConfig;
use hotspot::keys::{hotspot_record_key, resource_id};
use hotspot::service::MyRecommendService;

#[test]
fn resource_id_joins_with_colon() {
    assert_eq!(resource_id("search", "shoes"), "search:shoes");
    assert_eq!(resource_id("", ""), ":");
}

#[test]
fn record_key_has_prefix() {
    assert_eq!(hotspot_record_key("item_search", "red shoes"), "hotspot:item_search:red shoes");
}

#[test]
fn now_ts_reads_the_clock() {
    let t = now_ts();
    assert!(t > 1_600_000_000);
}

#[test]
fn default_config_values() {
    let c = HotspotConfig::default();
    assert_eq!(c.threshold, 2);
    assert_eq!(c.interval_ms, 600_000);
    assert_eq!(c.window_secs, 3600);
    assert_eq!(c.reap_interval_secs, 60);
}

#[test]
fn service_handle_builds() {
    let s = MyRecommendService::default();
    assert_eq!(format!("{:?}", s), "MyRecommendService");
}

#[test]
fn clock_reading_to_timestamp() {
    assert_eq!(ts_of_reading(Some(1_700_000_000)), 1_700_000_000);
    assert_eq!(ts_of_reading(Some(0)), 0);
    assert_eq!(ts_of_reading(Some(i64::MAX as u64)), i64::MAX);
    assert_eq!(ts_of_reading(Some(u64::MAX)), i64::MAX);
    assert_eq!(ts_of_reading(None), 0);
}

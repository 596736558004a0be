use hotspot::config::HotspotConfig;
use hotspot::admission::{admission_of, Admission};
use hotspot::registry::{HotspotRegistry, Outcome};

fn registry() -> HotspotRegistry {
    HotspotRegistry::new(HotspotConfig::default())
}

#[test]
fn admitted_event_is_ignored() {
    let mut r = registry();
    assert_eq!(r.detect_at("search", "shoes", Admission::Admitted, 100), Outcome::Ignored);
    assert_eq!(r.detect_at("search", "shoes", Admission::Rejected, 100), Outcome::NewHotspot);
}

#[test]
fn limiter_failure_fails_open() {
    assert_eq!(admission_of(false), Admission::Rejected);
    assert_eq!(admission_of(true), Admission::Admitted);
    let mut r = registry();
    assert_eq!(r.detect_at("search", "shoes", admission_of(false), 100), Outcome::NewHotspot);
}

#[test]
fn emits_once_per_window() {
    let mut r = registry();
    let mut new = 0;
    for t in 0..50i64 {
        match r.detect_at("search", "shoes", Admission::Rejected, 1000 + t * 60) {
            Outcome::NewHotspot => new += 1,
            Outcome::AlreadyKnown => {}
            Outcome::Ignored => panic!("a rejected event was ignored"),
        }
        r.reap_all(1000 + t * 60);
    }
    assert_eq!(new, 1);
}

#[test]
fn namespaces_are_isolated() {
    let mut r = registry();
    assert_eq!(r.detect_at("a", "shoes", Admission::Rejected, 100), Outcome::NewHotspot);
    assert_eq!(r.detect_at("b", "shoes", Admission::Rejected, 100), Outcome::NewHotspot);
    assert_eq!(r.detect_at("a", "shoes", Admission::Rejected, 200), Outcome::AlreadyKnown);
    assert_eq!(r.detect_at("b", "shoes", Admission::Rejected, 200), Outcome::AlreadyKnown);
}

#[test]
fn expiry_at_window_boundary() {
    let mut r = registry();
    assert_eq!(r.detect_at("search", "shoes", Admission::Rejected, 1000), Outcome::NewHotspot);
    r.reap_all(4599);
    assert_eq!(r.detect_at("search", "shoes", Admission::Rejected, 4599), Outcome::AlreadyKnown);
    r.reap_all(4600);
    assert_eq!(r.detect_at("search", "shoes", Admission::Rejected, 4600), Outcome::NewHotspot);
}

#[test]
fn reap_all_covers_every_namespace() {
    let mut r = registry();
    r.detect_at("a", "k", Admission::Rejected, 0);
    r.detect_at("b", "k", Admission::Rejected, 0);
    r.detect_at("c", "k", Admission::Rejected, 5000);
    r.reap_all(3600);
    assert_eq!(r.detect_at("a", "k", Admission::Rejected, 3600), Outcome::NewHotspot);
    assert_eq!(r.detect_at("b", "k", Admission::Rejected, 3600), Outcome::NewHotspot);
    assert_eq!(r.detect_at("c", "k", Admission::Rejected, 3600), Outcome::AlreadyKnown);
}

#[test]
fn auto_remove_all_uses_the_clock() {
    let mut r = registry();
    r.detect_at("a", "k", Admission::Rejected, 0);
    r.auto_remove_all();
    assert_eq!(r.detect_at("a", "k", Admission::Rejected, 0), Outcome::NewHotspot);
}

#[test]
fn example_scenario_search_shoes() {
    // threshold 2 per interval: the first two events pass the limiter
    let mut r = registry();
    let t = 1_000_000;
    assert_eq!(r.detect_at("search", "shoes", Admission::Admitted, t), Outcome::Ignored);
    assert_eq!(r.detect_at("search", "shoes", Admission::Admitted, t), Outcome::Ignored);
    assert_eq!(r.detect_at("search", "shoes", Admission::Rejected, t), Outcome::NewHotspot);
    assert_eq!(r.detect_at("search", "shoes", Admission::Rejected, t + 100), Outcome::AlreadyKnown);
    assert_eq!(r.detect_at("search", "shoes", Admission::Admitted, t + 200), Outcome::Ignored);
    r.reap_all(t + 3601);
    assert_eq!(r.detect_at("search", "shoes", Admission::Rejected, t + 3601), Outcome::NewHotspot);
}

#[test]
fn config_is_kept() {
    let c = HotspotConfig { threshold: 5, interval_ms: 1000, window_secs: 10, reap_interval_secs: 1 };
    let mut r = HotspotRegistry::new(c);
    assert_eq!(r.config().window_secs, 10);
    r.detect_at("n", "k", Admission::Rejected, 0);
    r.reap_all(10);
    assert_eq!(r.detect_at("n", "k", Admission::Rejected, 10), Outcome::NewHotspot);
}

#[test]
fn reemits_after_window_without_reap() {
    let mut r = registry();
    assert_eq!(r.detect_at("search", "shoes", Admission::Rejected, 1000), Outcome::NewHotspot);
    assert_eq!(r.detect_at("search", "shoes", Admission::Rejected, 4599), Outcome::AlreadyKnown);
    assert_eq!(r.detect_at("search", "shoes", Admission::Rejected, 4600), Outcome::NewHotspot);
    assert_eq!(r.detect_at("search", "shoes", Admission::Rejected, 8199), Outcome::AlreadyKnown);
    assert_eq!(r.detect_at("search", "shoes", Admission::Rejected, 8200), Outcome::NewHotspot);
}

#[test]
fn earlier_reap_changes_nothing() {
    let mut r = registry();
    assert_eq!(r.detect_at("search", "shoes", Admission::Rejected, 1000), Outcome::NewHotspot);
    r.reap_all(2000);
    assert_eq!(r.detect_at("search", "shoes", Admission::Rejected, 4599), Outcome::AlreadyKnown);
}

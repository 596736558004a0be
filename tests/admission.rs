use hotspot::config::HotspotConfig;
use hotspot::admission::{check_admission, Admission};
use hotspot::registry::{detect_hotspot, HotspotRegistry, Outcome};

#[test]
fn limiter_admits_up_to_threshold() {
    let resource = "limiter_test:threshold".to_string();
    assert_eq!(check_admission(&resource, 2, 600_000), Admission::Admitted);
    assert_eq!(check_admission(&resource, 2, 600_000), Admission::Admitted);
    assert_eq!(check_admission(&resource, 2, 600_000), Admission::Rejected);
    assert_eq!(check_admission(&resource, 2, 600_000), Admission::Rejected);
}

#[test]
fn registering_twice_keeps_admission() {
    // every call registers the rule again; the count is what decides
    let resource = "limiter_test:idempotent".to_string();
    let first = check_admission(&resource, 3, 600_000);
    let second = check_admission(&resource, 3, 600_000);
    let third = check_admission(&resource, 3, 600_000);
    let fourth = check_admission(&resource, 3, 600_000);
    assert_eq!(
        [first, second, third, fourth],
        [Admission::Admitted, Admission::Admitted, Admission::Admitted, Admission::Rejected]
    );
}

#[test]
fn detect_hotspot_end_to_end() {
    let mut r = HotspotRegistry::new(HotspotConfig::default());
    assert_eq!(detect_hotspot(&mut r, "e2e_search", "shoes"), Outcome::Ignored);
    assert_eq!(detect_hotspot(&mut r, "e2e_search", "shoes"), Outcome::Ignored);
    assert_eq!(detect_hotspot(&mut r, "e2e_search", "shoes"), Outcome::NewHotspot);
    assert_eq!(detect_hotspot(&mut r, "e2e_search", "shoes"), Outcome::AlreadyKnown);
    assert_eq!(detect_hotspot(&mut r, "e2e_other", "shoes"), Outcome::Ignored);
}

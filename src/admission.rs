use sentinel_core::{base, flow, EntryBuilder};
use std::sync::Arc;
use vstd::prelude::*;

verus! {

/// What the rate limiter said of one event.
#[derive(Clone, Copy, Debug, PartialEq, Eq, Structural)]
pub enum Admission {
    /// Ordinary traffic: the event is within the rate limit.
    Admitted,
    /// A surge candidate: the rate limit blocked the event, or the limiter failed.
    Rejected,
}

/// Relies on `sentinel_core::flow::append_rule`: loads a flow rule for `resource`
/// (its id is the resource) that counts calls directly and rejects those beyond
/// `threshold` per `interval_ms`. A rule equal to one already loaded changes
/// nothing. `append_rule` panics on an invalid rule when the resource has no rule
/// yet; such a rule is valid as soon as its resource is not empty.
#[verifier::external_body]
fn append_flow_rule(resource: &String, threshold: u32, interval_ms: u32)
    requires
        resource@.len() > 0,
{
    flow::append_rule(Arc::new(flow::Rule {
        id: resource.clone(),
        resource: resource.clone(),
        threshold: threshold.into(),
        calculate_strategy: flow::CalculateStrategy::Direct,
        control_strategy: flow::ControlStrategy::Reject,
        stat_interval_ms: interval_ms,
        ..Default::default()
    }));
}

/// Relies on `sentinel_core::EntryBuilder::build` for inbound traffic on
/// `resource`: it succeeds when the loaded rules let the call pass (the entry is
/// then exited at once) and fails when they block it.
#[verifier::external_body]
fn entry_passes(resource: String) -> (passed: bool) {
    match EntryBuilder::new(resource).with_traffic_type(base::TrafficType::Inbound).build() {
        Ok(entry) => {
            entry.exit();
            true
        },
        Err(_) => false,
    }
}

/// What the limiter's answer means for hotspot detection: passing the rate limit is
/// ordinary traffic, and anything else makes the event a candidate.
pub fn admission_of(passed: bool) -> (a: Admission)
    ensures
        a == (if passed {
            Admission::Admitted
        } else {
            Admission::Rejected
        }),
{
    if passed {
        Admission::Admitted
    } else {
        Admission::Rejected
    }
}

/// Makes sure the rate-limit rule for `resource` is loaded (loading it again is a
/// no-op) and asks the limiter about one more event on it. Only a pass admits: a
/// block or a failure of the limiter rejects, so a candidate is never dropped.
pub fn check_admission(resource: &String, threshold: u32, interval_ms: u32) -> (a: Admission)
    requires
        resource@.len() > 0,
{
    append_flow_rule(resource, threshold, interval_ms);
    admission_of(entry_passes(resource.clone()))
}

} // verus!

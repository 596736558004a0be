use vstd::prelude::*;

verus! {

/// The recommendation service's handle. It holds no state: the hotspot state
/// lives in a `HotspotRegistry`.
#[derive(Debug, Default)]
pub struct MyRecommendService {}

} // verus!

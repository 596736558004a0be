use vstd::prelude::*;

verus! {

/// Relies on `SystemTime::elapsed` on `UNIX_EPOCH`: the whole seconds since the
/// epoch as the system clock reads them, `None` when it reads earlier than that.
#[verifier::external_body]
fn seconds_since_epoch() -> (r: Option<u64>) {
    std::time::UNIX_EPOCH.elapsed().ok().map(|d| d.as_secs())
}

/// The timestamp for a clock reading of `seconds` since the epoch: the same
/// number, capped at `i64::MAX`; a reading earlier than the epoch gives 0.
pub open spec fn ts_of_reading_spec(seconds: Option<u64>) -> int {
    match seconds {
        Some(s) => if s > i64::MAX as u64 {
            i64::MAX as int
        } else {
            s as int
        },
        None => 0,
    }
}

/// Turns a clock reading into a timestamp (see `ts_of_reading_spec`).
pub fn ts_of_reading(seconds: Option<u64>) -> (r: i64)
    ensures
        r == ts_of_reading_spec(seconds),
{
    match seconds {
        Some(s) => {
            if s > i64::MAX as u64 {
                i64::MAX
            } else {
                s as i64
            }
        },
        None => 0,
    }
}

/// The current time in whole seconds since the Unix epoch, as the system clock
/// reads it (see `ts_of_reading`).
pub fn now_ts() -> (r: i64)
    ensures
        r >= 0,
        exists|seconds: Option<u64>| r == ts_of_reading_spec(seconds),
{
    ts_of_reading(seconds_since_epoch())
}

} // verus!

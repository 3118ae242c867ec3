use vstd::prelude::*;

verus! {

/// The fixed computational cost of each call.
pub const BASE_CALL_WEIGHT: u64 = 10_000;

/// Storage writes made by each of the four calls.
pub const WRITES_PER_CALL: u64 = 1;

/// The cost the host meters for any of the four calls, given the cost of one
/// storage write: the fixed cost plus one write, saturating at `u64::MAX`.
pub fn call_weight(write_weight: u64) -> (r: u64)
    ensures
        r == if BASE_CALL_WEIGHT + write_weight * WRITES_PER_CALL > u64::MAX {
            u64::MAX as int
        } else {
            BASE_CALL_WEIGHT + write_weight * WRITES_PER_CALL
        },
{
    let writes = write_weight * WRITES_PER_CALL;
    if writes > u64::MAX - BASE_CALL_WEIGHT {
        u64::MAX
    } else {
        BASE_CALL_WEIGHT + writes
    }
}

} // verus!

//! Helpers of the pad probes.
use vstd::prelude::*;

verus! {

/// The position whose running time a probe reports for a buffer at `pts`
/// in a segment from `start` to `stop`: the start for a buffer before it, the
/// stop for one at or after it, and the buffer's own position otherwise.
pub open spec fn spec_clamped_position(pts: u64, start: Option<u64>, stop: Option<u64>) -> u64 {
    match start {
        Some(s) if pts < s => s,
        _ => match stop {
            Some(e) if pts >= e => e,
            _ => pts,
        },
    }
}

/// The position whose running time a probe reports: `pts`, kept within the segment.
pub fn clamped_position(pts: u64, start: Option<u64>, stop: Option<u64>) -> (p: u64)
    ensures
        p == spec_clamped_position(pts, start, stop),
{
    if let Some(s) = start {
        if pts < s {
            return s;
        }
    }
    if let Some(e) = stop {
        if pts >= e {
            return e;
        }
    }
    pts
}

} // verus!

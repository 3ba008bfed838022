//! Display helpers: zoom stepping for the camera scale. Scale values are
//! in thousandths, a display concern only — they never touch physics.

use vstd::prelude::*;

verus! {

/// How far one zoom step moves the display scale, by band.
pub open spec fn spec_scale_delta(scale: int) -> int {
    if scale >= 200_000 {
        100_000
    } else if scale >= 100_000 {
        20_000
    } else if scale >= 50_000 {
        10_000
    } else if scale >= 10_000 {
        2_000
    } else {
        500
    }
}

/// The zoom step for the current scale, in thousandths.
pub fn get_scale_delta(scale: i64) -> (r: i64)
    ensures
        r as int == spec_scale_delta(scale as int),
{
    if scale >= 200_000 {
        return 100_000;
    }
    if scale >= 100_000 {
        return 20_000;
    }
    if scale >= 50_000 {
        return 10_000;
    }
    if scale >= 10_000 {
        return 2_000;
    }
    500
}

} // verus!

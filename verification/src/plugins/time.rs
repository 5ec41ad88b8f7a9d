//! Times in seconds and milliseconds.
use vstd::prelude::*;

verus! {

/// The whole seconds of milliseconds, towards zero.
pub open spec fn whole_seconds(ms: int) -> int {
    if ms >= 0 {
        ms / 1000
    } else {
        -((-ms) / 1000)
    }
}

/// The whole seconds of milliseconds, towards zero.
pub fn seconds_of(ms: i64) -> (r: i64)
    ensures
        r == whole_seconds(ms as int),
{
    if ms >= 0 {
        ms / 1000
    } else {
        (0 - (0 - ms as i128) / 1000) as i64
    }
}

/// The whole seconds of a time are less than a second before it.
pub proof fn law_seconds_are_whole(seconds: nat, rest: nat)
    requires
        rest < 1000,
    ensures
        whole_seconds((seconds * 1000 + rest) as int) == seconds,
        whole_seconds(-((seconds * 1000 + rest) as int)) == -(seconds as int),
{
}

} // verus!

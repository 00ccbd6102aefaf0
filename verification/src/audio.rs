use vstd::prelude::*;

verus! {

/// Sample rate, in samples per second, of the mono audio that every backend receives.
pub const TARGET_SAMPLE_RATE: u32 = 16_000;

} // verus!

//! The one genuine decision of the collector-configuration surface: how a
//! requested heap size range maps to a growth-trigger policy.

use vstd::prelude::*;

verus! {

/// The growth-trigger policy the collector is configured with.
#[derive(Clone, Copy, PartialEq, Eq, Structural, Debug)]
pub enum GcTriggerPolicy {
    /// The heap is exactly `bytes` large for the whole run.
    Fixed { bytes: usize },
    /// The heap starts at `min` bytes and may grow up to `max` bytes.
    Dynamic { min: usize, max: usize },
}

/// Picks the trigger policy for a requested heap size range: equal bounds ask
/// for a fixed-size heap, distinct bounds for a dynamically growing one.
pub fn heap_size_policy(min: usize, max: usize) -> (policy: GcTriggerPolicy)
    ensures
        min == max ==> policy == (GcTriggerPolicy::Fixed { bytes: min }),
        min != max ==> policy == (GcTriggerPolicy::Dynamic { min, max }),
{
    if min == max {
        GcTriggerPolicy::Fixed { bytes: min }
    } else {
        GcTriggerPolicy::Dynamic { min, max }
    }
}

} // verus!

//! Object-graph scanning and reference classification for a managed-language
//! runtime that delegates garbage collection to an external tracing collector.
//!
//! The heart of the crate is the edge enumerator: given a model of a heap
//! object (its base address plus the shape data its class descriptor and
//! header carry), it reports the address of every slot that holds an outgoing
//! reference, exactly once and in ascending address order.  Reference-holding
//! instances are additionally classified by reference strength and, when weak
//! reference tracking is enabled, diverted into candidate registries instead
//! of being traced as strong edges.  Discovered edges are batched into
//! fixed-capacity work packets for the collector's scheduler.

use vstd::prelude::*;

pub mod gc_options;
pub mod object_model;
pub mod object_scanning;
pub mod reference_processing;
pub mod scan_laws;
pub mod vm_metadata;
pub mod work_packets;

verus! {

/// Number of bytes in one reference slot (a machine word on this target).
pub const BYTES_IN_SLOT: usize = 8;

/// Number of bytes covered by `count` consecutive reference slots, as used
/// when a region of slots is copied or scanned wholesale.
pub fn slot_region_bytes(count: usize) -> (bytes: usize)
    requires
        8 * count <= usize::MAX,
    ensures
        bytes == 8 * count,
{
    count * BYTES_IN_SLOT
}

} // verus!

//! Proved laws of the edge enumerator: every scan visits each
//! reference-holding slot exactly once, in ascending address order, never
//! past the object's declared extent; arrays and reference instances behave
//! as their kinds demand; and scanning is free of side effects on the object,
//! so re-scanning reproduces the same outcome.

use vstd::prelude::*;
use crate::object_model::{HeapObject, HEADER_BYTES, FieldMapEntry, ObjectShape, RefStrength,
    maps_sorted_disjoint};
use crate::object_scanning::{field_map_edges, region_edges, registered_candidates, scan_edges};

verus! {

/// The addresses of `s` grow strictly from left to right.
pub open spec fn ascending(s: Seq<int>) -> bool {
    forall|i: int, j: int| 0 <= i < j < s.len() ==> #[trigger] s[i] < #[trigger] s[j]
}

/// Every address of `s` names a whole slot inside `[lo, hi)`.
pub open spec fn slots_within(s: Seq<int>, lo: int, hi: int) -> bool {
    forall|k: int| 0 <= k < s.len() ==> lo <= #[trigger] s[k] && s[k] + 8 <= hi
}

/// Concatenating two ascending runs separated by `mid` stays ascending.
proof fn lemma_ascending_concat(a: Seq<int>, b: Seq<int>, mid: int)
    requires
        ascending(a),
        ascending(b),
        forall|k: int| 0 <= k < a.len() ==> #[trigger] a[k] < mid,
        forall|k: int| 0 <= k < b.len() ==> mid <= #[trigger] b[k],
    ensures
        ascending(a + b),
{
    assert forall|i: int, j: int| 0 <= i < j < (a + b).len() implies #[trigger] (a + b)[i]
        < #[trigger] (a + b)[j] by {
        if j < a.len() {
            assert(a[i] < a[j]);
        } else if i < a.len() {
            assert(a[i] < mid);
            assert(mid <= b[j - a.len()]);
        } else {
            assert(b[i - a.len()] < b[j - a.len()]);
        }
    }
}

/// Concatenating two runs of slots within adjoining ranges stays within the
/// union of the ranges.
proof fn lemma_slots_within_concat(a: Seq<int>, b: Seq<int>, lo: int, mid: int, hi: int)
    requires
        slots_within(a, lo, mid),
        slots_within(b, mid, hi),
        lo <= mid <= hi,
    ensures
        slots_within(a + b, lo, hi),
{
    assert forall|k: int| 0 <= k < (a + b).len() implies lo <= #[trigger] (a + b)[k] && (a + b)[k]
        + 8 <= hi by {
        if k < a.len() {
            assert(lo <= a[k] && a[k] + 8 <= mid);
        } else {
            assert(mid <= b[k - a.len()] && b[k - a.len()] + 8 <= hi);
        }
    }
}

/// A run of consecutive slots is ascending and fills exactly its region.
proof fn lemma_region_edges_props(start: int, count: int)
    requires
        count >= 0,
    ensures
        ascending(region_edges(start, count)),
        slots_within(region_edges(start, count), start, start + 8 * count),
{
    assert forall|k: int|
        0 <= k < region_edges(start, count).len() implies start <= #[trigger] region_edges(
        start,
        count,
    )[k] && region_edges(start, count)[k] + 8 <= start + 8 * count by {
        assert(region_edges(start, count)[k] == start + 8 * k);
    }
}

/// The edges of a sorted, disjoint field map whose entries lie between `lo`
/// and `hi` are ascending and stay within those bounds.
proof fn lemma_field_map_edges_props(base: int, maps: Seq<FieldMapEntry>, lo: int, hi: int)
    requires
        maps_sorted_disjoint(maps),
        forall|i: int| 0 <= i < maps.len() ==> lo <= base + (#[trigger] maps[i]).offset,
        forall|i: int| 0 <= i < maps.len() ==> base + (#[trigger] maps[i]).end() <= hi,
        lo <= hi,
    ensures
        ascending(field_map_edges(base, maps)),
        slots_within(field_map_edges(base, maps), lo, hi),
    decreases maps.len(),
{
    if maps.len() == 0 {
    } else {
        let head = region_edges(base + maps[0].offset, maps[0].count as int);
        let rest = maps.drop_first();
        let mid = base + maps[0].end();
        lemma_region_edges_props(base + maps[0].offset, maps[0].count as int);
        assert forall|i: int|
            0 <= i < rest.len() implies mid <= base + (#[trigger] rest[i]).offset by {
            assert(rest[i] == maps[i + 1]);
            assert(maps[0].end() <= maps[i + 1].offset);
        }
        assert forall|i: int| 0 <= i < rest.len() implies base + (#[trigger] rest[i]).end()
            <= hi by {
            assert(rest[i] == maps[i + 1]);
        }
        assert forall|i: int, j: int|
            0 <= i < j < rest.len() implies (#[trigger] rest[i]).end() <= (
        #[trigger] rest[j]).offset by {
            assert(rest[i] == maps[i + 1]);
            assert(rest[j] == maps[j + 1]);
        }
        assert(lo <= mid) by {
            assert(lo <= base + maps[0].offset);
        }
        lemma_field_map_edges_props(base, rest, mid, hi);
        lemma_ascending_concat(head, field_map_edges(base, rest), mid);
        lemma_slots_within_concat(head, field_map_edges(base, rest), lo, mid, hi);
        assert(field_map_edges(base, maps) == head + field_map_edges(base, rest));
    }
}

/// Every scan reports each reference-holding slot of the object exactly once,
/// in strictly ascending address order: no slot is repeated or revisited.
pub proof fn lemma_scan_edges_ascending(obj: HeapObject, tracking: bool)
    requires
        obj.wf(),
    ensures
        ascending(scan_edges(obj, tracking)),
{
    lemma_scan_edges_props(obj, tracking);
}

/// A scan never reaches before the object's first field or past its declared
/// extent: every reported slot lies wholly between the end of the header and
/// the end of the object.
pub proof fn lemma_scan_edges_within_extent(obj: HeapObject, tracking: bool)
    requires
        obj.wf(),
    ensures
        slots_within(scan_edges(obj, tracking), obj.base + HEADER_BYTES, obj.base + obj.size),
{
    lemma_scan_edges_props(obj, tracking);
}

/// The shared shape analysis behind the ordering and extent laws.
proof fn lemma_scan_edges_props(obj: HeapObject, tracking: bool)
    requires
        obj.wf(),
    ensures
        ascending(scan_edges(obj, tracking)),
        slots_within(scan_edges(obj, tracking), obj.base + HEADER_BYTES, obj.base + obj.size),
{
    let base = obj.base as int;
    let lo = base + HEADER_BYTES;
    let hi = base + obj.size;
    match obj.shape {
        ObjectShape::Instance { .. } => {
            lemma_field_map_edges_props(base, obj.field_maps(), lo, hi);
        },
        ObjectShape::ClassLoaderInstance { .. } => {
            lemma_field_map_edges_props(base, obj.field_maps(), lo, hi);
        },
        ObjectShape::MirrorInstance { static_fields_offset, static_field_count, .. } => {
            let mid = base + static_fields_offset;
            lemma_field_map_edges_props(base, obj.field_maps(), lo, mid);
            lemma_region_edges_props(mid, static_field_count as int);
            let statics = region_edges(mid, static_field_count as int);
            lemma_ascending_concat(field_map_edges(base, obj.field_maps()), statics, mid);
            lemma_slots_within_concat(
                field_map_edges(base, obj.field_maps()),
                statics,
                lo,
                mid,
                hi,
            );
            assert(slots_within(statics, mid, hi)) by {
                assert(slots_within(statics, mid, mid + 8 * static_field_count));
            }
        },
        ObjectShape::ObjectArray { elements_offset, length } => {
            lemma_region_edges_props(base + elements_offset, length as int);
        },
        ObjectShape::PrimitiveArray { .. } => {
        },
        ObjectShape::RefInstance { strength, referent_offset, discovered_offset, .. } => {
            let mid = base + referent_offset;
            lemma_field_map_edges_props(base, obj.field_maps(), lo, mid);
            let slots = crate::object_scanning::ref_slot_edges(obj, tracking);
            assert(ascending(slots));
            assert(slots_within(slots, mid, hi));
            lemma_ascending_concat(field_map_edges(base, obj.field_maps()), slots, mid);
            lemma_slots_within_concat(field_map_edges(base, obj.field_maps()), slots, lo, mid, hi);
        },
    }
}

/// Reference fields a field map declares in total, over all its entries.
pub open spec fn total_field_count(maps: Seq<FieldMapEntry>) -> int
    decreases maps.len(),
{
    if maps.len() == 0 {
        0
    } else {
        maps[0].count + total_field_count(maps.drop_first())
    }
}

/// A field-map walk emits one edge per declared reference field: `count`
/// consecutive edges for each entry, and nothing else.
pub proof fn lemma_field_map_edge_count(base: int, maps: Seq<FieldMapEntry>)
    ensures
        field_map_edges(base, maps).len() == total_field_count(maps),
    decreases maps.len(),
{
    if maps.len() > 0 {
        lemma_field_map_edge_count(base, maps.drop_first());
    }
}

/// A zero-length object array contributes no edges at all.
pub proof fn lemma_empty_object_array_no_edges(obj: HeapObject, tracking: bool)
    requires
        obj.shape matches ObjectShape::ObjectArray { length, .. } && length == 0,
    ensures
        scan_edges(obj, tracking) == Seq::<int>::empty(),
{
    assert(scan_edges(obj, tracking) =~= Seq::<int>::empty());
}

/// A primitive array contributes no edges, whatever its length: primitive
/// arrays never hold references.
pub proof fn lemma_primitive_array_no_edges(obj: HeapObject, tracking: bool)
    requires
        obj.shape matches ObjectShape::PrimitiveArray { .. },
    ensures
        scan_edges(obj, tracking) == Seq::<int>::empty(),
{
}

/// An object array of length `n` contributes exactly `n` edges, one per
/// element slot, in ascending address order.
pub proof fn lemma_object_array_edges(obj: HeapObject, tracking: bool)
    requires
        obj.wf(),
        obj.shape matches ObjectShape::ObjectArray { .. },
    ensures
        obj.shape matches ObjectShape::ObjectArray { elements_offset, length } ==> {
            &&& scan_edges(obj, tracking).len() == length
            &&& forall|k: int|
                0 <= k < length ==> #[trigger] scan_edges(obj, tracking)[k] == obj.base
                    + elements_offset + 8 * k
        },
        ascending(scan_edges(obj, tracking)),
{
    lemma_scan_edges_props(obj, tracking);
}

/// While weak reference tracking is enabled, scanning a weak
/// reference-holding instance reports only its ordinary field-map slots — in
/// particular never the referent or discovered slot — and registers the
/// instance exactly once, as a weak candidate and nothing else.
pub proof fn lemma_weak_ref_diverted(obj: HeapObject)
    requires
        obj.wf(),
        obj.shape matches ObjectShape::RefInstance { strength, .. } && strength
            == RefStrength::Weak,
    ensures
        scan_edges(obj, true) == field_map_edges(obj.base as int, obj.field_maps()),
        obj.shape matches ObjectShape::RefInstance { referent_offset, discovered_offset, .. }
            ==> forall|k: int|
            0 <= k < scan_edges(obj, true).len() ==> #[trigger] scan_edges(obj, true)[k] + 8
                <= obj.base + referent_offset,
        registered_candidates(obj, true, RefStrength::Weak) == seq![obj.base as int],
        registered_candidates(obj, true, RefStrength::Soft) == Seq::<int>::empty(),
        registered_candidates(obj, true, RefStrength::Phantom) == Seq::<int>::empty(),
{
    assert(scan_edges(obj, true) =~= field_map_edges(obj.base as int, obj.field_maps()));
    if let ObjectShape::RefInstance { referent_offset, .. } = obj.shape {
        lemma_field_map_edges_props(
            obj.base as int,
            obj.field_maps(),
            obj.base + HEADER_BYTES,
            obj.base + referent_offset,
        );
    }
}

/// A reference-holding instance whose strength is treated as strong — Final
/// and Other, or any strength while tracking is disabled — contributes its
/// field-map slots followed by the referent slot and the discovered-link
/// slot, and is registered in no candidate registry.
pub proof fn lemma_strong_ref_traced(obj: HeapObject, tracking: bool)
    requires
        obj.wf(),
        obj.shape matches ObjectShape::RefInstance { strength, .. }
            && crate::object_scanning::ref_treated_strong(tracking, strength),
    ensures
        obj.shape matches ObjectShape::RefInstance { referent_offset, discovered_offset, .. }
            ==> scan_edges(obj, tracking) == field_map_edges(obj.base as int, obj.field_maps())
            + seq![obj.base + referent_offset, obj.base + discovered_offset],
        registered_candidates(obj, tracking, RefStrength::Weak) == Seq::<int>::empty(),
        registered_candidates(obj, tracking, RefStrength::Soft) == Seq::<int>::empty(),
        registered_candidates(obj, tracking, RefStrength::Phantom) == Seq::<int>::empty(),
{
}

/// Scanning reads the object and writes nothing: its outcome — the edge
/// sequence and the registered candidates — is a function of the object and
/// the tracking flag alone, so re-scanning the same unmodified object
/// reproduces the identical outcome.
pub proof fn lemma_rescan_identical(
    obj: HeapObject,
    tracking: bool,
    first_edges: Seq<int>,
    second_edges: Seq<int>,
    category: RefStrength,
    first_candidates: Seq<int>,
    second_candidates: Seq<int>,
)
    requires
        first_edges == scan_edges(obj, tracking),
        second_edges == scan_edges(obj, tracking),
        first_candidates == registered_candidates(obj, tracking, category),
        second_candidates == registered_candidates(obj, tracking, category),
    ensures
        first_edges == second_edges,
        first_candidates == second_candidates,
{
}

} // verus!

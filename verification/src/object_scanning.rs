//! The edge enumerator: walks an object's kind-specific layout and reports
//! the address of every slot that holds an outgoing reference.
//!
//! Plain instances follow their class descriptor's field map; reflective
//! instances additionally walk a per-instance static-field region; object
//! arrays emit one edge per element slot; primitive arrays emit none; and
//! reference-holding instances follow the field map and then either emit
//! their referent and discovered-link slots as strong edges or divert the
//! instance into a candidate registry, depending on the configured weak
//! reference tracking policy and the declared strength category.

use vstd::prelude::*;
use crate::object_model::{FieldMapEntry, HeapObject, ObjectShape, RefStrength};
use crate::reference_processing::CandidateRegistries;
use crate::work_packets::WorkPacketBridge;

verus! {

/// Addresses of `count` consecutive reference slots starting at `start`.
pub open spec fn region_edges(start: int, count: int) -> Seq<int> {
    Seq::new(count as nat, |i: int| start + 8 * i)
}

/// Addresses of every slot a field map describes, in map order.
pub open spec fn field_map_edges(base: int, maps: Seq<FieldMapEntry>) -> Seq<int>
    decreases maps.len(),
{
    if maps.len() == 0 {
        Seq::empty()
    } else {
        region_edges(base + maps[0].offset, maps[0].count as int) + field_map_edges(
            base,
            maps.drop_first(),
        )
    }
}

/// Whether a reference-holding instance of this strength is traced as if it
/// held ordinary strong references.
pub open spec fn ref_treated_strong(tracking: bool, strength: RefStrength) -> bool {
    !tracking || strength == RefStrength::Final || strength == RefStrength::Other
}

/// The referent and discovered-link slots a strongly-treated reference
/// instance contributes beyond its field map.
pub open spec fn ref_slot_edges(obj: HeapObject, tracking: bool) -> Seq<int> {
    match obj.shape {
        ObjectShape::RefInstance { strength, referent_offset, discovered_offset, .. } => {
            if ref_treated_strong(tracking, strength) {
                seq![obj.base + referent_offset, obj.base + discovered_offset]
            } else {
                Seq::empty()
            }
        },
        _ => Seq::empty(),
    }
}

/// Every edge one scan of `obj` reports, in visit order.
pub open spec fn scan_edges(obj: HeapObject, tracking: bool) -> Seq<int> {
    match obj.shape {
        ObjectShape::Instance { .. } => field_map_edges(obj.base as int, obj.field_maps()),
        ObjectShape::ClassLoaderInstance { .. } => field_map_edges(
            obj.base as int,
            obj.field_maps(),
        ),
        ObjectShape::MirrorInstance { static_fields_offset, static_field_count, .. } => {
            field_map_edges(obj.base as int, obj.field_maps()) + region_edges(
                obj.base + static_fields_offset,
                static_field_count as int,
            )
        },
        ObjectShape::ObjectArray { elements_offset, length } => region_edges(
            obj.base + elements_offset,
            length as int,
        ),
        ObjectShape::PrimitiveArray { .. } => Seq::empty(),
        ObjectShape::RefInstance { .. } => field_map_edges(obj.base as int, obj.field_maps())
            + ref_slot_edges(obj, tracking),
    }
}

/// The objects one scan of `obj` registers under `category`.  Only a
/// reference-holding instance whose declared strength matches `category` is
/// registered, and only while weak reference tracking is enabled.
pub open spec fn registered_candidates(
    obj: HeapObject,
    tracking: bool,
    category: RefStrength,
) -> Seq<int> {
    match obj.shape {
        ObjectShape::RefInstance { strength, .. } => {
            if tracking && strength == category {
                seq![obj.base as int]
            } else {
                Seq::empty()
            }
        },
        _ => Seq::empty(),
    }
}

/// A scan of `obj` runs to completion without a layout-consistency fault.
/// The one fatal case: weak reference tracking is on and a reference-holding
/// instance declares no strength category at all.
pub open spec fn scan_safe(obj: HeapObject, tracking: bool) -> bool {
    match obj.shape {
        ObjectShape::RefInstance { strength, .. } => !(tracking && strength
            == RefStrength::NotReference),
        _ => true,
    }
}

/// A layout-consistency violation observed while scanning: the binary layout
/// this crate assumes has drifted from the runtime's, or the heap is corrupt.
/// There is no safe local recovery; the caller must abort.
#[derive(Clone, Copy, PartialEq, Eq, Structural, Debug)]
pub enum ScanFault {
    /// A reference-holding instance whose class declares no reference
    /// strength; `object` is the offending object's address.
    StrengthMissing { object: usize },
}

/// The bridge `post` extends `pre`: every packet already handed off is
/// untouched, and every packet handed off in between is exactly full.
pub open spec fn packets_extended(pre: WorkPacketBridge, post: WorkPacketBridge) -> bool {
    &&& pre.packets().len() <= post.packets().len()
    &&& forall|i: int|
        0 <= i < pre.packets().len() ==> post.packets()[i] == #[trigger] pre.packets()[i]
    &&& forall|i: int|
        pre.packets().len() <= i < post.packets().len() ==> (#[trigger] post.packets()[i]).len()
            == pre.cap()
}

/// Emits the `count` consecutive slot addresses starting at `start`.
fn emit_region(start: usize, count: usize, visitor: &mut WorkPacketBridge)
    requires
        old(visitor).wf(),
        start + 8 * count <= usize::MAX,
    ensures
        final(visitor).wf(),
        final(visitor).cap() == old(visitor).cap(),
        final(visitor).all_edges() == old(visitor).all_edges() + region_edges(
            start as int,
            count as int,
        ),
        packets_extended(*old(visitor), *final(visitor)),
{
    let ghost pre = *visitor;
    let mut i: usize = 0;
    while i < count
        invariant
            visitor.wf(),
            visitor.cap() == pre.cap(),
            i <= count,
            start + 8 * count <= usize::MAX,
            visitor.all_edges() == pre.all_edges() + region_edges(start as int, count as int).take(
                i as int,
            ),
            packets_extended(pre, *visitor),
        decreases count - i,
    {
        visitor.visit_edge(start + 8 * i);
        proof {
            assert(region_edges(start as int, count as int).take(i + 1) =~= region_edges(
                start as int,
                count as int,
            ).take(i as int).push(start + 8 * i));
            assert(visitor.all_edges() =~= pre.all_edges() + region_edges(
                start as int,
                count as int,
            ).take(i + 1));
            assert(packets_extended(pre, *visitor));
        }
        i = i + 1;
    }
    proof {
        assert(region_edges(start as int, count as int).take(count as int) =~= region_edges(
            start as int,
            count as int,
        ));
    }
}

/// Appending one entry to a field map appends that entry's slot addresses to
/// the map's edges.
proof fn lemma_field_map_edges_push(base: int, maps: Seq<FieldMapEntry>, entry: FieldMapEntry)
    ensures
        field_map_edges(base, maps.push(entry)) == field_map_edges(base, maps) + region_edges(
            base + entry.offset,
            entry.count as int,
        ),
    decreases maps.len(),
{
    if maps.len() == 0 {
        assert(maps.push(entry)[0] == entry);
        assert(maps.push(entry).drop_first() =~= Seq::<FieldMapEntry>::empty());
        assert(field_map_edges(base, maps.push(entry)) == region_edges(
            base + entry.offset,
            entry.count as int,
        ) + field_map_edges(base, maps.push(entry).drop_first()));
        assert(field_map_edges(base, maps.push(entry)) =~= field_map_edges(base, maps)
            + region_edges(base + entry.offset, entry.count as int));
    } else {
        let head = region_edges(base + maps[0].offset, maps[0].count as int);
        let tail = region_edges(base + entry.offset, entry.count as int);
        assert(maps.push(entry)[0] == maps[0]);
        assert(maps.push(entry).drop_first() =~= maps.drop_first().push(entry));
        assert(field_map_edges(base, maps.push(entry)) == head + field_map_edges(
            base,
            maps.drop_first().push(entry),
        ));
        lemma_field_map_edges_push(base, maps.drop_first(), entry);
        assert(field_map_edges(base, maps) == head + field_map_edges(base, maps.drop_first()));
        assert(head + (field_map_edges(base, maps.drop_first()) + tail) =~= (head
            + field_map_edges(base, maps.drop_first())) + tail);
    }
}

/// `packets_extended` composes across successive bridge updates.
proof fn lemma_packets_extended_trans(a: WorkPacketBridge, b: WorkPacketBridge, c: WorkPacketBridge)
    requires
        packets_extended(a, b),
        packets_extended(b, c),
        b.cap() == a.cap(),
    ensures
        packets_extended(a, c),
{
    assert forall|i: int| 0 <= i < a.packets().len() implies c.packets()[i] == #[trigger] a.packets()[i] by {
        assert(b.packets()[i] == a.packets()[i]);
        assert(c.packets()[i] == b.packets()[i]);
    }
    assert forall|i: int|
        a.packets().len() <= i < c.packets().len() implies (#[trigger] c.packets()[i]).len()
        == a.cap() by {
        if i < b.packets().len() {
            assert(c.packets()[i] == b.packets()[i]);
            assert((b.packets()[i]).len() == a.cap());
        } else {
            assert((c.packets()[i]).len() == b.cap());
        }
    }
}

/// Walks a class descriptor's field map, emitting every slot of every entry.
fn walk_field_maps(base: usize, maps: &Vec<FieldMapEntry>, visitor: &mut WorkPacketBridge)
    requires
        old(visitor).wf(),
        forall|i: int|
            0 <= i < maps@.len() ==> base + (#[trigger] maps@[i]).offset + 8 * maps@[i].count
                <= usize::MAX,
    ensures
        final(visitor).wf(),
        final(visitor).cap() == old(visitor).cap(),
        final(visitor).all_edges() == old(visitor).all_edges() + field_map_edges(base as int, maps@),
        packets_extended(*old(visitor), *final(visitor)),
{
    let ghost pre = *visitor;
    let mut j: usize = 0;
    while j < maps.len()
        invariant
            visitor.wf(),
            visitor.cap() == pre.cap(),
            j <= maps@.len(),
            forall|i: int|
                0 <= i < maps@.len() ==> base + (#[trigger] maps@[i]).offset + 8 * maps@[i].count
                    <= usize::MAX,
            visitor.all_edges() == pre.all_edges() + field_map_edges(
                base as int,
                maps@.take(j as int),
            ),
            packets_extended(pre, *visitor),
        decreases maps@.len() - j,
    {
        let entry = maps[j];
        let ghost mid = *visitor;
        emit_region(base + entry.offset, entry.count, visitor);
        proof {
            lemma_packets_extended_trans(pre, mid, *visitor);
            assert(maps@.take(j + 1) =~= maps@.take(j as int).push(entry));
            lemma_field_map_edges_push(base as int, maps@.take(j as int), entry);
            assert(visitor.all_edges() =~= pre.all_edges() + field_map_edges(
                base as int,
                maps@.take(j + 1),
            ));
        }
        j = j + 1;
    }
    proof {
        assert(maps@.take(maps@.len() as int) =~= maps@);
    }
}

/// Emits the referent slot and the discovered-link slot of a reference
/// instance as ordinary strong edges.
fn process_ref_as_strong(
    base: usize,
    referent_offset: usize,
    discovered_offset: usize,
    visitor: &mut WorkPacketBridge,
)
    requires
        old(visitor).wf(),
        base + referent_offset <= usize::MAX,
        base + discovered_offset <= usize::MAX,
    ensures
        final(visitor).wf(),
        final(visitor).cap() == old(visitor).cap(),
        final(visitor).all_edges() == old(visitor).all_edges() + seq![
            base + referent_offset,
            base + discovered_offset,
        ],
        packets_extended(*old(visitor), *final(visitor)),
{
    let ghost pre = *visitor;
    visitor.visit_edge(base + referent_offset);
    let ghost mid = *visitor;
    visitor.visit_edge(base + discovered_offset);
    proof {
        assert(visitor.all_edges() =~= pre.all_edges() + seq![
            base + referent_offset,
            base + discovered_offset,
        ]);
        assert(packets_extended(pre, mid));
        assert(packets_extended(pre, *visitor));
    }
}

/// Walks `object`'s kind-specific layout and reports every outgoing reference
/// slot to `visitor`, exactly the addresses `scan_edges` names and in that
/// order; reference-holding instances with a deferred strength category are
/// instead registered once in the matching candidate registry.
pub fn enumerate_edges(
    object: &HeapObject,
    tracking: bool,
    visitor: &mut WorkPacketBridge,
    registries: &mut CandidateRegistries,
)
    requires
        object.wf(),
        scan_safe(*object, tracking),
        old(visitor).wf(),
    ensures
        final(visitor).wf(),
        final(visitor).cap() == old(visitor).cap(),
        final(visitor).all_edges() == old(visitor).all_edges() + scan_edges(*object, tracking),
        packets_extended(*old(visitor), *final(visitor)),
        final(registries).weak() == old(registries).weak() + registered_candidates(
            *object,
            tracking,
            RefStrength::Weak,
        ),
        final(registries).soft() == old(registries).soft() + registered_candidates(
            *object,
            tracking,
            RefStrength::Soft,
        ),
        final(registries).phantom() == old(registries).phantom() + registered_candidates(
            *object,
            tracking,
            RefStrength::Phantom,
        ),
{
    let ghost pre = *visitor;
    let ghost pre_regs = *registries;
    match &object.shape {
        ObjectShape::Instance { field_maps } => {
            proof {
                lemma_wf_field_map_fits(*object);
            }
            walk_field_maps(object.base, field_maps, visitor);
        },
        ObjectShape::ClassLoaderInstance { field_maps } => {
            proof {
                lemma_wf_field_map_fits(*object);
            }
            walk_field_maps(object.base, field_maps, visitor);
        },
        ObjectShape::MirrorInstance { field_maps, static_fields_offset, static_field_count } => {
            proof {
                lemma_wf_field_map_fits(*object);
            }
            walk_field_maps(object.base, field_maps, visitor);
            let ghost mid = *visitor;
            emit_region(object.base + *static_fields_offset, *static_field_count, visitor);
            proof {
                lemma_packets_extended_trans(pre, mid, *visitor);
                assert(visitor.all_edges() =~= pre.all_edges() + scan_edges(*object, tracking));
            }
        },
        ObjectShape::ObjectArray { elements_offset, length } => {
            emit_region(object.base + *elements_offset, *length, visitor);
        },
        ObjectShape::PrimitiveArray { .. } => {
            proof {
                assert(visitor.all_edges() =~= pre.all_edges() + scan_edges(*object, tracking));
            }
        },
        ObjectShape::RefInstance { field_maps, strength, referent_offset, discovered_offset } => {
            proof {
                lemma_wf_field_map_fits(*object);
            }
            walk_field_maps(object.base, field_maps, visitor);
            let ghost mid = *visitor;
            if tracking {
                match strength {
                    RefStrength::NotReference => {
                        vstd::pervasive::unreached()
                    },
                    RefStrength::Weak => registries.register_candidate(
                        RefStrength::Weak,
                        object.base,
                    ),
                    RefStrength::Soft => registries.register_candidate(
                        RefStrength::Soft,
                        object.base,
                    ),
                    RefStrength::Phantom => registries.register_candidate(
                        RefStrength::Phantom,
                        object.base,
                    ),
                    RefStrength::Final => process_ref_as_strong(
                        object.base,
                        *referent_offset,
                        *discovered_offset,
                        visitor,
                    ),
                    RefStrength::Other => process_ref_as_strong(
                        object.base,
                        *referent_offset,
                        *discovered_offset,
                        visitor,
                    ),
                }
            } else {
                process_ref_as_strong(object.base, *referent_offset, *discovered_offset, visitor);
            }
            proof {
                lemma_packets_extended_trans(pre, mid, *visitor);
                assert(visitor.all_edges() =~= pre.all_edges() + scan_edges(*object, tracking));
            }
        },
    }
    proof {
        assert(visitor.all_edges() =~= pre.all_edges() + scan_edges(*object, tracking));
        assert(registries.weak() =~= pre_regs.weak() + registered_candidates(
            *object,
            tracking,
            RefStrength::Weak,
        ));
        assert(registries.soft() =~= pre_regs.soft() + registered_candidates(
            *object,
            tracking,
            RefStrength::Soft,
        ));
        assert(registries.phantom() =~= pre_regs.phantom() + registered_candidates(
            *object,
            tracking,
            RefStrength::Phantom,
        ));
    }
}

/// A well-formed object's field map entries all fit in the address space.
proof fn lemma_wf_field_map_fits(obj: HeapObject)
    requires
        obj.wf(),
    ensures
        forall|i: int|
            0 <= i < obj.field_maps().len() ==> obj.base + (#[trigger] obj.field_maps()[i]).offset
                + 8 * obj.field_maps()[i].count <= usize::MAX,
{
    assert forall|i: int| 0 <= i < obj.field_maps().len() implies obj.base + (
    #[trigger] obj.field_maps()[i]).offset + 8 * obj.field_maps()[i].count <= usize::MAX by {
        assert(obj.field_maps()[i].end() <= obj.field_map_limit());
        assert(obj.field_map_limit() <= obj.size);
    }
}

/// The checked scan entry point: detects the layout-consistency violation
/// instead of scanning past it.  On success it behaves exactly as
/// `enumerate_edges`; on a fault it reports the offending object and leaves
/// the visitor and the registries untouched.
pub fn handle_scan(
    object: &HeapObject,
    tracking: bool,
    visitor: &mut WorkPacketBridge,
    registries: &mut CandidateRegistries,
) -> (result: Result<(), ScanFault>)
    requires
        object.wf(),
        old(visitor).wf(),
    ensures
        result is Ok <==> scan_safe(*object, tracking),
        result is Ok ==> {
            &&& final(visitor).wf()
            &&& final(visitor).cap() == old(visitor).cap()
            &&& final(visitor).all_edges() == old(visitor).all_edges() + scan_edges(
                *object,
                tracking,
            )
            &&& packets_extended(*old(visitor), *final(visitor))
            &&& final(registries).weak() == old(registries).weak() + registered_candidates(
                *object,
                tracking,
                RefStrength::Weak,
            )
            &&& final(registries).soft() == old(registries).soft() + registered_candidates(
                *object,
                tracking,
                RefStrength::Soft,
            )
            &&& final(registries).phantom() == old(registries).phantom() + registered_candidates(
                *object,
                tracking,
                RefStrength::Phantom,
            )
        },
        result is Err ==> {
            &&& result == Err::<(), ScanFault>(ScanFault::StrengthMissing { object: object.base })
            &&& *final(visitor) == *old(visitor)
            &&& *final(registries) == *old(registries)
        },
{
    let fatal = match &object.shape {
        ObjectShape::RefInstance { strength, .. } => tracking && *strength
            == RefStrength::NotReference,
        _ => false,
    };
    if fatal {
        Err(ScanFault::StrengthMissing { object: object.base })
    } else {
        enumerate_edges(object, tracking, visitor, registries);
        Ok(())
    }
}

} // verus!

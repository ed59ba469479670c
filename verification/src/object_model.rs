//! The model of heap objects that the scanner interprets: field maps, shape
//! variants for the six class-shape kinds, and the kind classifier.

use vstd::prelude::*;

verus! {

/// First bytes of every object hold the header word; no reference field may
/// live there.
pub const HEADER_BYTES: usize = 8;

/// One entry of a class descriptor's field map: `count` consecutive
/// reference-sized fields starting `offset` bytes into the object.
#[derive(Clone, Copy, PartialEq, Eq, Structural, Debug)]
pub struct FieldMapEntry {
    pub offset: usize,
    pub count: usize,
}

impl FieldMapEntry {
    /// First byte past the fields this entry covers, relative to the object
    /// base.
    pub open spec fn end(self) -> int {
        self.offset + 8 * self.count
    }
}

/// The strength category a reference-holding class declares for its referent.
#[derive(Clone, Copy, PartialEq, Eq, Structural, Debug)]
pub enum RefStrength {
    /// The class is not a reference class at all; seeing this on a
    /// reference-holding instance is a layout-consistency violation.
    NotReference,
    Weak,
    Soft,
    Phantom,
    Final,
    Other,
}

/// The six class-shape kinds the classifier can report.
#[derive(Clone, Copy, PartialEq, Eq, Structural, Debug)]
pub enum ClassShapeKind {
    Instance,
    ClassLoaderInstance,
    MirrorInstance,
    ObjectArray,
    PrimitiveArray,
    RefInstance,
}

/// Everything the scanner reads of an object: the layout its class descriptor
/// carries plus the per-instance values (array length, static field count)
/// read from the object itself.
pub enum ObjectShape {
    /// A record-like instance: references live where the field map says.
    Instance { field_maps: Vec<FieldMapEntry> },
    /// Scanned exactly like a plain instance; the kind is distinct only so
    /// other subsystems can tell class loaders apart.
    ClassLoaderInstance { field_maps: Vec<FieldMapEntry> },
    /// A reflective instance: the instance walk plus a per-instance region of
    /// static reference fields whose length the object itself carries.
    MirrorInstance {
        field_maps: Vec<FieldMapEntry>,
        static_fields_offset: usize,
        static_field_count: usize,
    },
    /// An array of references: one slot per element.
    ObjectArray { elements_offset: usize, length: usize },
    /// An array of non-reference values: never holds an edge.
    PrimitiveArray { length: usize },
    /// A reference-holding instance: the instance walk plus a referent slot
    /// and a discovered-link slot, classified by `strength`.
    RefInstance {
        field_maps: Vec<FieldMapEntry>,
        strength: RefStrength,
        referent_offset: usize,
        discovered_offset: usize,
    },
}

/// An object as the scanner sees it: where it lives, how large it is, and
/// what shape its class descriptor assigns it.
pub struct HeapObject {
    /// Address of the first byte of the object.
    pub base: usize,
    /// Declared extent of the object in bytes; no scan may reach past it.
    pub size: usize,
    pub shape: ObjectShape,
}

/// Field maps must be ascending and non-overlapping: that is what guarantees
/// each reference slot is visited exactly once.
pub open spec fn maps_sorted_disjoint(maps: Seq<FieldMapEntry>) -> bool {
    forall|i: int, j: int|
        0 <= i < j < maps.len() ==> (#[trigger] maps[i]).end() <= (#[trigger] maps[j]).offset
}

/// Every field map entry lies between the header and `limit` bytes into the
/// object.
pub open spec fn maps_within(maps: Seq<FieldMapEntry>, limit: int) -> bool {
    forall|i: int|
        0 <= i < maps.len() ==> HEADER_BYTES <= (#[trigger] maps[i]).offset && maps[i].end()
            <= limit
}

impl HeapObject {
    /// The field map the instance walk follows; empty for arrays.
    pub open spec fn field_maps(self) -> Seq<FieldMapEntry> {
        match self.shape {
            ObjectShape::Instance { field_maps } => field_maps@,
            ObjectShape::ClassLoaderInstance { field_maps } => field_maps@,
            ObjectShape::MirrorInstance { field_maps, .. } => field_maps@,
            ObjectShape::RefInstance { field_maps, .. } => field_maps@,
            ObjectShape::ObjectArray { .. } => Seq::empty(),
            ObjectShape::PrimitiveArray { .. } => Seq::empty(),
        }
    }

    /// First byte past the region the field map may cover: the whole object
    /// for plain instances, the start of the kind-specific region otherwise.
    pub open spec fn field_map_limit(self) -> int {
        match self.shape {
            ObjectShape::MirrorInstance { static_fields_offset, .. } => static_fields_offset as int,
            ObjectShape::RefInstance { referent_offset, .. } => referent_offset as int,
            _ => self.size as int,
        }
    }

    /// Layout well-formedness: the object lies within the address space, all
    /// scanned regions lie between the header and the object's declared
    /// extent, and the field map is ascending and non-overlapping.
    pub open spec fn wf(self) -> bool {
        &&& HEADER_BYTES <= self.size
        &&& self.base + self.size <= usize::MAX
        &&& maps_sorted_disjoint(self.field_maps())
        &&& maps_within(self.field_maps(), self.field_map_limit())
        &&& match self.shape {
            ObjectShape::Instance { .. } => true,
            ObjectShape::ClassLoaderInstance { .. } => true,
            ObjectShape::MirrorInstance { static_fields_offset, static_field_count, .. } => {
                &&& HEADER_BYTES <= static_fields_offset
                &&& static_fields_offset + 8 * static_field_count <= self.size
            },
            ObjectShape::ObjectArray { elements_offset, length } => {
                &&& HEADER_BYTES <= elements_offset
                &&& elements_offset + 8 * length <= self.size
            },
            ObjectShape::PrimitiveArray { .. } => true,
            ObjectShape::RefInstance { referent_offset, discovered_offset, .. } => {
                &&& HEADER_BYTES <= referent_offset
                &&& referent_offset + 8 <= discovered_offset
                &&& discovered_offset + 8 <= self.size
            },
        }
    }

    /// The kind the classifier assigns this object's shape.
    pub open spec fn kind(self) -> ClassShapeKind {
        match self.shape {
            ObjectShape::Instance { .. } => ClassShapeKind::Instance,
            ObjectShape::ClassLoaderInstance { .. } => ClassShapeKind::ClassLoaderInstance,
            ObjectShape::MirrorInstance { .. } => ClassShapeKind::MirrorInstance,
            ObjectShape::ObjectArray { .. } => ClassShapeKind::ObjectArray,
            ObjectShape::PrimitiveArray { .. } => ClassShapeKind::PrimitiveArray,
            ObjectShape::RefInstance { .. } => ClassShapeKind::RefInstance,
        }
    }
}

/// Reads the shape kind off an object.  Total: every object of the model has
/// exactly one of the six kinds.
pub fn classify(object: &HeapObject) -> (kind: ClassShapeKind)
    ensures
        kind == object.kind(),
{
    match &object.shape {
        ObjectShape::Instance { .. } => ClassShapeKind::Instance,
        ObjectShape::ClassLoaderInstance { .. } => ClassShapeKind::ClassLoaderInstance,
        ObjectShape::MirrorInstance { .. } => ClassShapeKind::MirrorInstance,
        ObjectShape::ObjectArray { .. } => ClassShapeKind::ObjectArray,
        ObjectShape::PrimitiveArray { .. } => ClassShapeKind::PrimitiveArray,
        ObjectShape::RefInstance { .. } => ClassShapeKind::RefInstance,
    }
}

/// The kind a raw class-descriptor discriminant denotes, if any.
pub open spec fn spec_kind_of_discriminant(raw: u8) -> Option<ClassShapeKind> {
    if raw == 0 {
        Some(ClassShapeKind::Instance)
    } else if raw == 1 {
        Some(ClassShapeKind::ClassLoaderInstance)
    } else if raw == 2 {
        Some(ClassShapeKind::MirrorInstance)
    } else if raw == 3 {
        Some(ClassShapeKind::ObjectArray)
    } else if raw == 4 {
        Some(ClassShapeKind::PrimitiveArray)
    } else if raw == 5 {
        Some(ClassShapeKind::RefInstance)
    } else {
        None
    }
}

/// Decodes a raw class-descriptor discriminant as found in an object header.
/// An out-of-range discriminant means heap corruption or a layout mismatch:
/// the caller must abort rather than scan with a default kind, so no kind is
/// returned for it.
pub fn classify_discriminant(raw: u8) -> (kind: Option<ClassShapeKind>)
    ensures
        kind == spec_kind_of_discriminant(raw),
        kind is Some <==> raw < 6,
{
    if raw == 0 {
        Some(ClassShapeKind::Instance)
    } else if raw == 1 {
        Some(ClassShapeKind::ClassLoaderInstance)
    } else if raw == 2 {
        Some(ClassShapeKind::MirrorInstance)
    } else if raw == 3 {
        Some(ClassShapeKind::ObjectArray)
    } else if raw == 4 {
        Some(ClassShapeKind::PrimitiveArray)
    } else if raw == 5 {
        Some(ClassShapeKind::RefInstance)
    } else {
        None
    }
}

} // verus!

use mmtk_pypy::object_model::{
    classify, classify_discriminant, ClassShapeKind, FieldMapEntry, HeapObject, ObjectShape,
    RefStrength,
};
use mmtk_pypy::object_scanning::{enumerate_edges, handle_scan, ScanFault};
use mmtk_pypy::reference_processing::CandidateRegistries;
use mmtk_pypy::work_packets::WorkPacketBridge;

fn scan_collecting(obj: &HeapObject, tracking: bool) -> (Vec<usize>, CandidateRegistries) {
    let mut visitor = WorkPacketBridge::new(1 << 20);
    let mut registries = CandidateRegistries::new();
    enumerate_edges(obj, tracking, &mut visitor, &mut registries);
    assert_eq!(visitor.packet_count(), 0);
    (visitor.in_flight_edges().clone(), registries)
}

#[test]
fn empty_object_array_emits_nothing() {
    let obj = HeapObject {
        base: 4096,
        size: 16,
        shape: ObjectShape::ObjectArray { elements_offset: 16, length: 0 },
    };
    let (edges, _) = scan_collecting(&obj, true);
    assert!(edges.is_empty());
    let (edges, _) = scan_collecting(&obj, false);
    assert!(edges.is_empty());
}

#[test]
fn primitive_array_emits_nothing_regardless_of_length() {
    for length in [0usize, 1, 7, 4096] {
        let obj = HeapObject {
            base: 4096,
            size: 8 + 8 * length,
            shape: ObjectShape::PrimitiveArray { length },
        };
        let (edges, _) = scan_collecting(&obj, true);
        assert!(edges.is_empty());
    }
}

#[test]
fn object_array_emits_one_edge_per_element_ascending() {
    let obj = HeapObject {
        base: 4096,
        size: 16 + 8 * 5,
        shape: ObjectShape::ObjectArray { elements_offset: 16, length: 5 },
    };
    let (edges, _) = scan_collecting(&obj, true);
    assert_eq!(edges, vec![4112, 4120, 4128, 4136, 4144]);
    for pair in edges.windows(2) {
        assert!(pair[0] < pair[1]);
    }
}

#[test]
fn plain_instance_follows_field_map_exactly() {
    let obj = HeapObject {
        base: 100,
        size: 48,
        shape: ObjectShape::Instance {
            field_maps: vec![
                FieldMapEntry { offset: 8, count: 1 },
                FieldMapEntry { offset: 24, count: 2 },
            ],
        },
    };
    let (edges, _) = scan_collecting(&obj, true);
    assert_eq!(edges, vec![108, 124, 132]);
}

#[test]
fn class_loader_instance_scans_like_plain_instance() {
    let maps = vec![FieldMapEntry { offset: 16, count: 3 }];
    let plain = HeapObject {
        base: 200,
        size: 64,
        shape: ObjectShape::Instance { field_maps: maps.clone() },
    };
    let loader = HeapObject {
        base: 200,
        size: 64,
        shape: ObjectShape::ClassLoaderInstance { field_maps: maps },
    };
    let (plain_edges, _) = scan_collecting(&plain, true);
    let (loader_edges, _) = scan_collecting(&loader, true);
    assert_eq!(plain_edges, vec![216, 224, 232]);
    assert_eq!(plain_edges, loader_edges);
}

#[test]
fn mirror_instance_adds_per_instance_static_fields() {
    let obj = HeapObject {
        base: 1000,
        size: 96,
        shape: ObjectShape::MirrorInstance {
            field_maps: vec![FieldMapEntry { offset: 8, count: 2 }],
            static_fields_offset: 40,
            static_field_count: 3,
        },
    };
    let (edges, _) = scan_collecting(&obj, true);
    assert_eq!(edges, vec![1008, 1016, 1040, 1048, 1056]);
}

fn weak_ref_object(strength: RefStrength) -> HeapObject {
    HeapObject {
        base: 2048,
        size: 64,
        shape: ObjectShape::RefInstance {
            field_maps: vec![FieldMapEntry { offset: 8, count: 1 }],
            strength,
            referent_offset: 24,
            discovered_offset: 32,
        },
    }
}

#[test]
fn weak_ref_is_diverted_into_weak_registry() {
    let obj = weak_ref_object(RefStrength::Weak);
    let (edges, registries) = scan_collecting(&obj, true);
    // Only the ordinary field-map slot: the referent slot (2072) and the
    // discovered slot (2080) are not traced.
    assert_eq!(edges, vec![2056]);
    assert!(!edges.contains(&2072));
    assert!(!edges.contains(&2080));
    assert_eq!(registries.weak_candidates().as_slice(), &[2048]);
    assert!(registries.soft_candidates().is_empty());
    assert!(registries.phantom_candidates().is_empty());
}

#[test]
fn soft_and_phantom_refs_reach_their_own_registries() {
    let (_, registries) = scan_collecting(&weak_ref_object(RefStrength::Soft), true);
    assert!(registries.weak_candidates().is_empty());
    assert_eq!(registries.soft_candidates().as_slice(), &[2048]);
    assert!(registries.phantom_candidates().is_empty());

    let (_, registries) = scan_collecting(&weak_ref_object(RefStrength::Phantom), true);
    assert!(registries.weak_candidates().is_empty());
    assert!(registries.soft_candidates().is_empty());
    assert_eq!(registries.phantom_candidates().as_slice(), &[2048]);
}

#[test]
fn final_ref_is_traced_strongly_and_registered_nowhere() {
    let obj = weak_ref_object(RefStrength::Final);
    let (edges, registries) = scan_collecting(&obj, true);
    assert_eq!(edges, vec![2056, 2072, 2080]);
    assert!(registries.weak_candidates().is_empty());
    assert!(registries.soft_candidates().is_empty());
    assert!(registries.phantom_candidates().is_empty());
}

#[test]
fn other_ref_is_traced_strongly() {
    let obj = weak_ref_object(RefStrength::Other);
    let (edges, registries) = scan_collecting(&obj, true);
    assert_eq!(edges, vec![2056, 2072, 2080]);
    assert!(registries.weak_candidates().is_empty());
}

#[test]
fn tracking_disabled_treats_every_ref_as_strong() {
    for strength in [
        RefStrength::NotReference,
        RefStrength::Weak,
        RefStrength::Soft,
        RefStrength::Phantom,
        RefStrength::Final,
        RefStrength::Other,
    ] {
        let obj = weak_ref_object(strength);
        let (edges, registries) = scan_collecting(&obj, false);
        assert_eq!(edges, vec![2056, 2072, 2080]);
        assert!(registries.weak_candidates().is_empty());
        assert!(registries.soft_candidates().is_empty());
        assert!(registries.phantom_candidates().is_empty());
    }
}

#[test]
fn rescanning_the_same_object_is_identical() {
    let obj = HeapObject {
        base: 512,
        size: 80,
        shape: ObjectShape::MirrorInstance {
            field_maps: vec![
                FieldMapEntry { offset: 8, count: 1 },
                FieldMapEntry { offset: 32, count: 2 },
            ],
            static_fields_offset: 56,
            static_field_count: 2,
        },
    };
    let (first, _) = scan_collecting(&obj, true);
    let (second, _) = scan_collecting(&obj, true);
    assert_eq!(first, second);

    let weak = weak_ref_object(RefStrength::Weak);
    let (e1, r1) = scan_collecting(&weak, true);
    let (e2, r2) = scan_collecting(&weak, true);
    assert_eq!(e1, e2);
    assert_eq!(r1.weak_candidates(), r2.weak_candidates());
}

#[test]
fn classify_is_total_over_the_six_kinds() {
    let cases = [
        (ObjectShape::Instance { field_maps: vec![] }, ClassShapeKind::Instance),
        (
            ObjectShape::ClassLoaderInstance { field_maps: vec![] },
            ClassShapeKind::ClassLoaderInstance,
        ),
        (
            ObjectShape::MirrorInstance {
                field_maps: vec![],
                static_fields_offset: 8,
                static_field_count: 0,
            },
            ClassShapeKind::MirrorInstance,
        ),
        (
            ObjectShape::ObjectArray { elements_offset: 8, length: 0 },
            ClassShapeKind::ObjectArray,
        ),
        (ObjectShape::PrimitiveArray { length: 0 }, ClassShapeKind::PrimitiveArray),
        (
            ObjectShape::RefInstance {
                field_maps: vec![],
                strength: RefStrength::Weak,
                referent_offset: 8,
                discovered_offset: 16,
            },
            ClassShapeKind::RefInstance,
        ),
    ];
    for (shape, expected) in cases {
        let obj = HeapObject { base: 64, size: 32, shape };
        assert_eq!(classify(&obj), expected);
    }
}

#[test]
fn corrupted_discriminant_yields_no_kind() {
    assert_eq!(classify_discriminant(0), Some(ClassShapeKind::Instance));
    assert_eq!(classify_discriminant(1), Some(ClassShapeKind::ClassLoaderInstance));
    assert_eq!(classify_discriminant(2), Some(ClassShapeKind::MirrorInstance));
    assert_eq!(classify_discriminant(3), Some(ClassShapeKind::ObjectArray));
    assert_eq!(classify_discriminant(4), Some(ClassShapeKind::PrimitiveArray));
    assert_eq!(classify_discriminant(5), Some(ClassShapeKind::RefInstance));
    assert_eq!(classify_discriminant(6), None);
    assert_eq!(classify_discriminant(7), None);
    assert_eq!(classify_discriminant(255), None);
}

#[test]
fn handle_scan_rejects_strengthless_ref_instance() {
    let obj = weak_ref_object(RefStrength::NotReference);
    let mut visitor = WorkPacketBridge::new(16);
    let mut registries = CandidateRegistries::new();
    let result = handle_scan(&obj, true, &mut visitor, &mut registries);
    assert_eq!(result, Err(ScanFault::StrengthMissing { object: 2048 }));
    assert!(visitor.in_flight_edges().is_empty());
    assert_eq!(visitor.packet_count(), 0);
    assert!(registries.weak_candidates().is_empty());
}

#[test]
fn handle_scan_succeeds_on_every_safe_input() {
    let obj = weak_ref_object(RefStrength::NotReference);
    let mut visitor = WorkPacketBridge::new(16);
    let mut registries = CandidateRegistries::new();
    // With tracking disabled the same instance is simply traced strongly.
    assert_eq!(handle_scan(&obj, false, &mut visitor, &mut registries), Ok(()));
    assert_eq!(visitor.in_flight_edges().as_slice(), &[2056, 2072, 2080]);

    let plain = HeapObject {
        base: 100,
        size: 48,
        shape: ObjectShape::Instance { field_maps: vec![FieldMapEntry { offset: 8, count: 1 }] },
    };
    assert_eq!(handle_scan(&plain, true, &mut visitor, &mut registries), Ok(()));
}

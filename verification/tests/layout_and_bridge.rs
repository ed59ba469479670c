use mmtk_pypy::gc_options::{heap_size_policy, GcTriggerPolicy};
use mmtk_pypy::reference_processing::CandidateRegistries;
use mmtk_pypy::object_model::RefStrength;
use mmtk_pypy::slot_region_bytes;
use mmtk_pypy::vm_metadata::{
    chain_side_specs, forwarding_bits_spec, forwarding_pointer_spec, in_header_mark_bit_spec,
    side_after, side_first, SideMetadataSpec,
};
use mmtk_pypy::work_packets::{WorkPacketBridge, WORK_PACKET_CAPACITY};

#[test]
fn full_buffer_is_handed_off_and_one_edge_retained() {
    let mut bridge = WorkPacketBridge::new(WORK_PACKET_CAPACITY);
    for i in 0..(WORK_PACKET_CAPACITY + 1) {
        bridge.visit_edge(4096 + 8 * i);
    }
    assert_eq!(bridge.packet_count(), 1);
    let packet = bridge.packet(0);
    assert_eq!(packet.len(), WORK_PACKET_CAPACITY);
    for (i, edge) in packet.iter().enumerate() {
        assert_eq!(*edge, 4096 + 8 * i);
    }
    assert_eq!(
        bridge.in_flight_edges().as_slice(),
        &[4096 + 8 * WORK_PACKET_CAPACITY]
    );
}

#[test]
fn flush_hands_off_a_partial_packet_once() {
    let mut bridge = WorkPacketBridge::new(8);
    bridge.visit_edge(16);
    bridge.visit_edge(24);
    bridge.flush();
    assert_eq!(bridge.packet_count(), 1);
    assert_eq!(bridge.packet(0).as_slice(), &[16, 24]);
    assert!(bridge.in_flight_edges().is_empty());
    // Nothing in flight: a second flush hands off nothing.
    bridge.flush();
    assert_eq!(bridge.packet_count(), 1);
}

#[test]
fn take_packets_transfers_ownership_exactly_once() {
    let mut bridge = WorkPacketBridge::new(2);
    for edge in [8usize, 16, 24, 32, 40] {
        bridge.visit_edge(edge);
    }
    let packets = bridge.take_packets();
    assert_eq!(packets.len(), 2);
    assert_eq!(packets[0].as_slice(), &[8, 16]);
    assert_eq!(packets[1].as_slice(), &[24, 32]);
    assert_eq!(bridge.packet_count(), 0);
    assert_eq!(bridge.in_flight_edges().as_slice(), &[40]);
}

#[test]
fn candidate_registries_drain_exactly_once() {
    let mut registries = CandidateRegistries::new();
    registries.register_candidate(RefStrength::Weak, 64);
    registries.register_candidate(RefStrength::Soft, 128);
    registries.register_candidate(RefStrength::Phantom, 192);
    registries.register_candidate(RefStrength::Weak, 256);
    assert_eq!(registries.take_weak_candidates(), vec![64, 256]);
    assert!(registries.weak_candidates().is_empty());
    assert_eq!(registries.take_soft_candidates(), vec![128]);
    assert_eq!(registries.take_phantom_candidates(), vec![192]);
    assert!(registries.take_weak_candidates().is_empty());
}

#[test]
fn side_table_chain_is_contiguous_and_disjoint() {
    let specs = chain_side_specs(&vec![2, 1, 1, 2]);
    assert_eq!(specs.len(), 4);
    assert_eq!((specs[0].bit_offset, specs[0].num_bits), (0, 2));
    assert_eq!((specs[1].bit_offset, specs[1].num_bits), (2, 1));
    assert_eq!((specs[2].bit_offset, specs[2].num_bits), (3, 1));
    assert_eq!((specs[3].bit_offset, specs[3].num_bits), (4, 2));
    for i in 0..specs.len() {
        for j in (i + 1)..specs.len() {
            let end_i = specs[i].bit_offset + specs[i].num_bits;
            assert!(end_i <= specs[j].bit_offset);
        }
    }
}

#[test]
fn side_after_starts_where_the_previous_spec_ends() {
    let first: SideMetadataSpec = side_first(2);
    let second = side_after(&first, 1);
    let third = side_after(&second, 4);
    assert_eq!((first.bit_offset, first.num_bits), (0, 2));
    assert_eq!((second.bit_offset, second.num_bits), (2, 1));
    assert_eq!((third.bit_offset, third.num_bits), (3, 4));
}

#[test]
fn header_specs_stay_inside_the_header_word() {
    let pointer = forwarding_pointer_spec();
    assert_eq!((pointer.bit_offset, pointer.num_bits), (0, 64));
    let bits = forwarding_bits_spec();
    assert_eq!((bits.bit_offset, bits.num_bits), (56, 2));
    assert!(bits.bit_offset + bits.num_bits <= 64);
    let mark = in_header_mark_bit_spec();
    assert_eq!((mark.bit_offset, mark.num_bits), (56, 1));
}

#[test]
fn heap_size_policy_picks_fixed_or_dynamic() {
    assert_eq!(
        heap_size_policy(1 << 20, 1 << 20),
        GcTriggerPolicy::Fixed { bytes: 1 << 20 }
    );
    assert_eq!(
        heap_size_policy(1 << 20, 1 << 24),
        GcTriggerPolicy::Dynamic { min: 1 << 20, max: 1 << 24 }
    );
}

#[test]
fn slot_region_bytes_counts_whole_words() {
    assert_eq!(slot_region_bytes(0), 0);
    assert_eq!(slot_region_bytes(1), 8);
    assert_eq!(slot_region_bytes(513), 4104);
}

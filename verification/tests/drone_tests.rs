//! Tests of the per-node protocol engine: the validation pipeline, the
//! reverse-path error construction, the flood engine, and the command and
//! lifecycle state machine.

use skylink::drone::{Action, DroneCommand, NodeEvent, SkyLinkDrone};
use skylink::packet::{create_error, NackReason, NodeRole, Packet, PacketType, RoutingHeader};

fn header(hops: Vec<u8>, hop_index: usize) -> RoutingHeader {
    RoutingHeader { hops, hop_index }
}

fn fragment(hops: Vec<u8>, hop_index: usize, fragment_index: u64, session_id: u64) -> Packet {
    Packet {
        pack_type: PacketType::MsgFragment { fragment_index },
        routing_header: header(hops, hop_index),
        session_id,
    }
}

fn ack(hops: Vec<u8>, hop_index: usize, fragment_index: u64, session_id: u64) -> Packet {
    Packet {
        pack_type: PacketType::Ack { fragment_index },
        routing_header: header(hops, hop_index),
        session_id,
    }
}

fn flood_request(flood_id: u64, path_trace: Vec<(u8, NodeRole)>) -> Packet {
    Packet {
        pack_type: PacketType::FloodRequest { flood_id, path_trace },
        routing_header: header(vec![], 0),
        session_id: flood_id,
    }
}

fn nack_reason(p: &Packet) -> NackReason {
    match &p.pack_type {
        PacketType::Nack { nack_type, .. } => *nack_type,
        _ => panic!("expected a nack packet"),
    }
}

#[test]
fn create_error_reverses_and_resets_cursor() {
    let p = ack(vec![1, 2, 3, 4], 2, 5, 77);
    let e = create_error(&p, NackReason::DestinationIsDrone);
    assert_eq!(e.routing_header.hops, vec![4, 3, 2, 1]);
    assert_eq!(e.routing_header.hop_index, 1);
    assert_eq!(e.session_id, 77);
    match e.pack_type {
        PacketType::Nack { fragment_index, nack_type } => {
            assert_eq!(fragment_index, 0);
            assert_eq!(nack_type, NackReason::DestinationIsDrone);
        }
        _ => panic!("expected a nack packet"),
    }
}

#[test]
fn create_error_keeps_fragment_index() {
    let p = fragment(vec![1, 2], 0, 9, 3);
    let e = create_error(&p, NackReason::Dropped);
    match e.pack_type {
        PacketType::Nack { fragment_index, nack_type } => {
            assert_eq!(fragment_index, 9);
            assert_eq!(nack_type, NackReason::Dropped);
        }
        _ => panic!("expected a nack packet"),
    }
}

#[test]
fn error_construction_round_trip() {
    // Reversing [A, B, C, D] through the error path yields [D, C, B, A];
    // reversing that again restores the original order.
    let p = ack(vec![10, 20, 30, 40], 3, 0, 1);
    let e = create_error(&p, NackReason::DestinationIsDrone);
    assert_eq!(e.routing_header.hops, vec![40, 30, 20, 10]);
    assert_eq!(e.routing_header.hop_index, 1);
    let back = create_error(&e, NackReason::DestinationIsDrone);
    assert_eq!(back.routing_header.hops, vec![10, 20, 30, 40]);

    // The fresh nack targets C; forwarding it one hop at C advances the
    // cursor to 2.
    let first_target = e.routing_header.hops[e.routing_header.hop_index];
    assert_eq!(first_target, 30);
    let mut c = SkyLinkDrone::new(30, vec![20, 40], 0);
    let acts = c.handle_packet(e, 50);
    assert_eq!(acts.len(), 1);
    match &acts[0] {
        Action::Send { dest, packet } => {
            assert_eq!(*dest, 20);
            assert_eq!(packet.routing_header.hop_index, 2);
            assert_eq!(packet.routing_header.hops, vec![40, 30, 20, 10]);
        }
        _ => panic!("expected a forwarded send"),
    }
}

#[test]
fn unexpected_recipient_keeps_cursor_and_names_self() {
    // The header names node 2 at the cursor, but node 5 is processing.
    let mut d = SkyLinkDrone::new(5, vec![3], 0);
    let acts = d.handle_packet(ack(vec![1, 2, 3], 1, 0, 4), 50);
    assert_eq!(acts.len(), 2);
    match &acts[0] {
        Action::SendBestEffort { dest, packet } => {
            assert_eq!(nack_reason(packet), NackReason::UnexpectedRecipient(5));
            assert_eq!(packet.routing_header.hops, vec![3, 2, 1]);
            assert_eq!(packet.routing_header.hop_index, 1);
            assert_eq!(*dest, 2);
        }
        _ => panic!("expected a best-effort nack send"),
    }
    match &acts[1] {
        Action::Emit(NodeEvent::PacketSent(packet)) => {
            assert_eq!(nack_reason(packet), NackReason::UnexpectedRecipient(5));
        }
        _ => panic!("expected telemetry for the nack"),
    }
}

#[test]
fn exhausted_header_is_destination_is_drone() {
    // Node 3 is the last hop of [1, 2, 3]: advancing exhausts the header.
    let mut d = SkyLinkDrone::new(3, vec![2], 0);
    let acts = d.handle_packet(ack(vec![1, 2, 3], 2, 0, 4), 50);
    assert_eq!(acts.len(), 2);
    match &acts[0] {
        Action::SendBestEffort { dest, packet } => {
            assert_eq!(nack_reason(packet), NackReason::DestinationIsDrone);
            assert_eq!(packet.routing_header.hops, vec![3, 2, 1]);
            assert_eq!(packet.routing_header.hop_index, 1);
            assert_eq!(*dest, 2);
        }
        _ => panic!("expected a best-effort nack send"),
    }
}

#[test]
fn missing_next_hop_after_remove_sender() {
    // RemoveSender(3), then a packet routed through 3: the validation
    // pipeline answers with ErrorInRouting carrying this node's identity.
    let mut d = SkyLinkDrone::new(2, vec![1, 3], 0);
    d.handle_command(DroneCommand::RemoveSender(3));
    assert!(!d.has_neighbor(3));
    let acts = d.handle_packet(fragment(vec![1, 2, 3], 1, 0, 8), 50);
    assert_eq!(acts.len(), 2);
    match &acts[0] {
        Action::SendBestEffort { packet, .. } => {
            assert_eq!(nack_reason(packet), NackReason::ErrorInRouting(2));
            assert_eq!(packet.routing_header.hops, vec![3, 2, 1]);
        }
        _ => panic!("expected a best-effort nack send"),
    }
}

#[test]
fn drop_rate_zero_never_drops_positive_draws() {
    let mut d = SkyLinkDrone::new(2, vec![3], 0);
    for draw in 1..=100 {
        let acts = d.handle_packet(fragment(vec![1, 2, 3], 1, 0, 8), draw);
        assert_eq!(acts.len(), 1);
        match &acts[0] {
            Action::Send { dest, packet } => {
                assert_eq!(*dest, 3);
                assert_eq!(packet.routing_header.hop_index, 2);
            }
            _ => panic!("expected a forwarded send"),
        }
    }
}

#[test]
fn drop_rate_hundred_always_drops() {
    let mut d = SkyLinkDrone::new(2, vec![3], 100);
    for draw in 0..=100 {
        let acts = d.handle_packet(fragment(vec![1, 2, 3], 1, 0, 8), draw);
        assert_eq!(acts.len(), 2);
        match &acts[0] {
            Action::SendBestEffort { packet, .. } => {
                assert_eq!(nack_reason(packet), NackReason::Dropped);
            }
            _ => panic!("expected a dropped-fragment nack"),
        }
    }
}

#[test]
fn drop_rule_catches_draw_zero() {
    // The drop rule is `draw <= rate`, so even rate 0 catches the draw 0.
    let mut d = SkyLinkDrone::new(2, vec![3], 0);
    let acts = d.handle_packet(fragment(vec![1, 2, 3], 1, 0, 8), 0);
    match &acts[0] {
        Action::SendBestEffort { packet, .. } => {
            assert_eq!(nack_reason(packet), NackReason::Dropped);
        }
        _ => panic!("expected a dropped-fragment nack"),
    }
}

#[test]
fn acks_are_never_dropped() {
    // Only fragments are subject to the drop draw.
    let mut d = SkyLinkDrone::new(2, vec![3], 100);
    let acts = d.handle_packet(ack(vec![1, 2, 3], 1, 0, 8), 0);
    assert_eq!(acts.len(), 1);
    assert!(matches!(&acts[0], Action::Send { dest: 3, .. }));
}

#[test]
fn chain_forwarding_scenario() {
    // Chain 1 - 2 - 3, fragment from 1 toward 3 with header [1, 2, 3].
    // Node 2 forwards with the cursor advanced to 2, targeting node 3.
    let mut d2 = SkyLinkDrone::new(2, vec![1, 3], 0);
    let acts = d2.handle_packet(fragment(vec![1, 2, 3], 1, 0, 42), 55);
    assert_eq!(acts.len(), 1);
    let forwarded = match acts.into_iter().next().unwrap() {
        Action::Send { dest, packet } => {
            assert_eq!(dest, 3);
            assert_eq!(packet.routing_header.hop_index, 2);
            packet
        }
        _ => panic!("expected a forwarded send"),
    };
    // Node 3 is a drone, not an application endpoint, so a route that ends
    // on it is refused with DestinationIsDrone; true endpoints are handled
    // by the layer above the engine.
    let mut d3 = SkyLinkDrone::new(3, vec![2], 0);
    let acts = d3.handle_packet(forwarded, 55);
    assert_eq!(acts.len(), 2);
    match &acts[0] {
        Action::SendBestEffort { dest, packet } => {
            assert_eq!(nack_reason(packet), NackReason::DestinationIsDrone);
            assert_eq!(packet.routing_header.hops, vec![3, 2, 1]);
            assert_eq!(*dest, 2);
        }
        _ => panic!("expected a best-effort nack send"),
    }
}

#[test]
fn flood_broadcast_skips_previous_contributor() {
    let mut d = SkyLinkDrone::new(2, vec![1, 3, 4], 0);
    let acts = d.handle_packet(flood_request(7, vec![(1, NodeRole::Client)]), 50);
    assert!(d.has_seen_flood(7));
    assert_eq!(acts.len(), 2);
    for (act, want) in acts.iter().zip([3u8, 4u8]) {
        match act {
            Action::Send { dest, packet } => {
                assert_eq!(*dest, want);
                match &packet.pack_type {
                    PacketType::FloodRequest { flood_id, path_trace } => {
                        // The request is broadcast unmodified.
                        assert_eq!(*flood_id, 7);
                        assert_eq!(path_trace.len(), 1);
                    }
                    _ => panic!("expected the flood request"),
                }
            }
            _ => panic!("expected a broadcast send"),
        }
    }
}

#[test]
fn flood_dedup_answers_second_delivery() {
    let mut d = SkyLinkDrone::new(2, vec![1, 3], 0);
    let first = d.handle_packet(flood_request(7, vec![(1, NodeRole::Client)]), 50);
    assert_eq!(first.len(), 1); // broadcast to 3 only
    let second = d.handle_packet(flood_request(7, vec![(1, NodeRole::Client)]), 50);
    // The repeated flood is answered with a response routed back to node 1,
    // and nothing is broadcast again.
    assert_eq!(second.len(), 1);
    match &second[0] {
        Action::Send { dest, packet } => {
            assert_eq!(*dest, 1);
            assert_eq!(packet.routing_header.hops, vec![2, 1]);
            assert_eq!(packet.routing_header.hop_index, 1);
            match &packet.pack_type {
                PacketType::FloodResponse { flood_id, path_trace } => {
                    assert_eq!(*flood_id, 7);
                    assert_eq!(path_trace.len(), 2);
                    assert_eq!(path_trace[0], (1, NodeRole::Client));
                    assert_eq!(path_trace[1], (2, NodeRole::Drone));
                }
                _ => panic!("expected a flood response"),
            }
        }
        _ => panic!("expected the response send"),
    }
    // A third delivery behaves like the second: still a response.
    let third = d.handle_packet(flood_request(7, vec![(1, NodeRole::Client)]), 50);
    assert_eq!(third.len(), 1);
    assert!(matches!(&third[0], Action::Send { dest: 1, .. }));
}

#[test]
fn dead_end_answers_any_flood_at_once() {
    // One neighbor only: the node responds immediately even to a flood
    // identifier it has never seen.
    let mut d = SkyLinkDrone::new(2, vec![1], 0);
    assert!(!d.has_seen_flood(9));
    let acts = d.handle_packet(flood_request(9, vec![(1, NodeRole::Client)]), 50);
    assert!(d.has_seen_flood(9));
    assert_eq!(acts.len(), 1);
    match &acts[0] {
        Action::Send { dest, packet } => {
            assert_eq!(*dest, 1);
            assert!(matches!(packet.pack_type, PacketType::FloodResponse { flood_id: 9, .. }));
        }
        _ => panic!("expected the response send"),
    }
}

#[test]
fn flood_response_to_missing_previous_contributor() {
    // A dead end whose one neighbor is not the previous contributor: the
    // response fails the next-hop check and becomes an ErrorInRouting nack.
    let mut d = SkyLinkDrone::new(2, vec![5], 0);
    let acts = d.handle_packet(flood_request(11, vec![(1, NodeRole::Client)]), 50);
    assert_eq!(acts.len(), 2);
    match &acts[0] {
        Action::SendBestEffort { packet, .. } => {
            assert_eq!(nack_reason(packet), NackReason::ErrorInRouting(2));
        }
        _ => panic!("expected a best-effort nack send"),
    }
    assert!(matches!(&acts[1], Action::Emit(NodeEvent::PacketSent(_))));
}

#[test]
fn add_sender_records_neighbor_once() {
    let mut d = SkyLinkDrone::new(2, vec![], 0);
    assert_eq!(d.neighbor_count(), 0);
    d.handle_command(DroneCommand::AddSender(7));
    d.handle_command(DroneCommand::AddSender(7));
    assert!(d.has_neighbor(7));
    assert_eq!(d.neighbor_count(), 1);
}

#[test]
fn remove_sender_is_quiet_when_absent() {
    let mut d = SkyLinkDrone::new(2, vec![4], 0);
    d.handle_command(DroneCommand::RemoveSender(9));
    assert_eq!(d.neighbor_count(), 1);
    d.handle_command(DroneCommand::RemoveSender(4));
    assert_eq!(d.neighbor_count(), 0);
}

#[test]
fn set_packet_drop_rate_overwrites() {
    let mut d = SkyLinkDrone::new(2, vec![], 10);
    assert_eq!(d.pdr(), 10);
    d.handle_command(DroneCommand::SetPacketDropRate(55));
    assert_eq!(d.pdr(), 55);
}

#[test]
fn crash_moves_to_draining() {
    let mut d = SkyLinkDrone::new(2, vec![], 0);
    assert!(!d.is_crashing());
    d.handle_command(DroneCommand::Crash);
    assert!(d.is_crashing());
}

#[test]
fn draining_discards_packets_silently() {
    let mut d = SkyLinkDrone::new(2, vec![3], 0);
    d.handle_command(DroneCommand::Crash);
    let acts = d.crashing_handle_packet(fragment(vec![1, 2, 3], 1, 0, 8));
    assert!(acts.is_empty());
    assert!(d.is_crashing());
    assert!(d.has_neighbor(3));
}

#[test]
fn delivered_send_is_reported_once() {
    let d = SkyLinkDrone::new(2, vec![3], 0);
    let acts = d.after_send(3, ack(vec![1, 2, 3], 2, 0, 4), true);
    assert_eq!(acts.len(), 1);
    match &acts[0] {
        Action::Emit(NodeEvent::PacketSent(packet)) => {
            assert_eq!(packet.session_id, 4);
        }
        _ => panic!("expected one telemetry event"),
    }
}

#[test]
fn failed_send_builds_error_in_routing_nack() {
    let d = SkyLinkDrone::new(2, vec![3], 0);
    // A validated fragment on its way to neighbor 3 whose channel died.
    let acts = d.after_send(3, fragment(vec![1, 2, 3], 2, 6, 4), false);
    assert_eq!(acts.len(), 2);
    match &acts[0] {
        Action::SendBestEffort { dest, packet } => {
            assert_eq!(nack_reason(packet), NackReason::ErrorInRouting(3));
            assert_eq!(packet.routing_header.hops, vec![3, 2, 1]);
            assert_eq!(packet.routing_header.hop_index, 1);
            assert_eq!(*dest, 2);
            assert!(matches!(packet.pack_type, PacketType::Nack { fragment_index: 6, .. }));
        }
        _ => panic!("expected a best-effort nack send"),
    }
    assert!(matches!(&acts[1], Action::Emit(NodeEvent::PacketSent(_))));
}

#[test]
fn failed_broadcast_send_is_skipped_silently() {
    let d = SkyLinkDrone::new(2, vec![3], 0);
    let acts = d.after_send(3, flood_request(7, vec![(1, NodeRole::Client)]), false);
    assert!(acts.is_empty());
}

#[test]
fn process_packet_with_full_drop_rate_always_drops() {
    // The engine draws the drop value itself here; with rate 100 every draw
    // in [0, 100] is caught, so the fragment must come back as a nack.
    let mut d = SkyLinkDrone::new(2, vec![3], 100);
    for _ in 0..20 {
        let acts = d.process_packet(fragment(vec![1, 2, 3], 1, 0, 8));
        assert_eq!(acts.len(), 2);
        match &acts[0] {
            Action::SendBestEffort { packet, .. } => {
                assert_eq!(nack_reason(packet), NackReason::Dropped);
            }
            _ => panic!("expected a dropped-fragment nack"),
        }
    }
}

#[test]
fn new_discards_duplicate_neighbors() {
    let d = SkyLinkDrone::new(2, vec![3, 3, 4, 3], 0);
    assert_eq!(d.neighbor_count(), 2);
    assert!(d.has_neighbor(3));
    assert!(d.has_neighbor(4));
    assert_eq!(d.id(), 2);
}

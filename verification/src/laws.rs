//! The engine's general laws, each proved from the spec-level transition
//! functions that the executable functions are verified against.

use vstd::prelude::*;

use crate::drone::ActionV;
use crate::drone::DroneCommand;
use crate::drone::DroneV;
use crate::drone::EventV;
use crate::drone::spec_advance;
use crate::drone::spec_apply_checks;
use crate::drone::spec_broadcast;
use crate::drone::spec_flood_response;
use crate::drone::spec_handle_command;
use crate::drone::spec_handle_packet;
use crate::drone::spec_record_flood;
use crate::drone::spec_route;
use crate::packet::KindV;
use crate::packet::NackReason;
use crate::packet::NodeRole;
use crate::packet::PacketV;
use crate::packet::spec_create_error;
use crate::packet::spec_fragment_index;

verus! {

/// A non-flood packet whose header is exhausted once the cursor advances is
/// answered with a `DestinationIsDrone` nack whose hops are the exact reverse
/// of the input's hop sequence, cursor at 1, dispatched best-effort and
/// reported in telemetry; the node's state does not change.
pub proof fn lemma_exhausted_header_nack(d: DroneV, p: PacketV, draw: u32)
    requires
        !(p.pack_type is FloodRequest),
        p.routing_header.hop_index + 1 == p.routing_header.hops.len(),
        p.routing_header.hops[p.routing_header.hop_index] == d.id,
    ensures
        ({
            let n = spec_create_error(spec_advance(p), NackReason::DestinationIsDrone);
            &&& n.pack_type == (KindV::Nack {
                fragment_index: spec_fragment_index(p.pack_type),
                nack_type: NackReason::DestinationIsDrone,
            })
            &&& n.routing_header.hops == p.routing_header.hops.reverse()
            &&& n.routing_header.hop_index == 1
            &&& spec_handle_packet(d, p, draw) == (
                d,
                seq![
                    ActionV::SendBestEffort { dest: n.routing_header.hops[1], packet: n },
                    ActionV::Emit(EventV::PacketSent(n)),
                ],
            )
        }),
{
}

/// A non-flood packet whose current hop names some other node is refused with
/// `UnexpectedRecipient` carrying this node's identity; the nack is built
/// from the packet with its cursor not advanced, and the node's state does
/// not change.
pub proof fn lemma_unexpected_recipient(d: DroneV, p: PacketV, draw: u32)
    requires
        !(p.pack_type is FloodRequest),
        p.routing_header.hops[p.routing_header.hop_index] != d.id,
    ensures
        ({
            let n = spec_create_error(p, NackReason::UnexpectedRecipient(d.id));
            &&& n.routing_header.hops == p.routing_header.hops.reverse()
            &&& n.routing_header.hop_index == 1
            &&& spec_handle_packet(d, p, draw) == (
                d,
                seq![
                    ActionV::SendBestEffort { dest: n.routing_header.hops[1], packet: n },
                    ActionV::Emit(EventV::PacketSent(n)),
                ],
            )
        }),
{
}

/// Round-trip of the reverse-path construction: an error header holds the
/// exact reverse of the packet's hop sequence with its cursor reset to 1, and
/// building an error from an error restores the original hop order.
pub proof fn lemma_error_header_round_trip(p: PacketV, r1: NackReason, r2: NackReason)
    ensures
        spec_create_error(p, r1).routing_header.hops == p.routing_header.hops.reverse(),
        spec_create_error(p, r1).routing_header.hop_index == 1,
        spec_create_error(spec_create_error(p, r1), r2).routing_header.hops
            == p.routing_header.hops,
{
    assert(p.routing_header.hops.reverse().reverse() =~= p.routing_header.hops);
}

/// Flood dedup is idempotent: servicing a flood records its identifier, so
/// delivering the same request to the node again is always answered with a
/// response routed through the ordinary pipeline — never broadcast — and a
/// node that had already serviced the flood answers every delivery that way.
pub proof fn lemma_flood_dedup_idempotent(
    d: DroneV,
    p: PacketV,
    flood_id: u64,
    trace: Seq<(u8, NodeRole)>,
    draw1: u32,
    draw2: u32,
)
    requires
        p.pack_type == (KindV::FloodRequest { flood_id, path_trace: trace }),
    ensures
        ({
            let (d1, a1) = spec_handle_packet(d, p, draw1);
            let (d2, a2) = spec_handle_packet(d1, p, draw2);
            &&& d1.flood_ids.contains(flood_id)
            &&& d2 == d1
            &&& a2 == spec_route(d1, spec_flood_response(d.id, flood_id, trace), draw2)
            &&& forall|i: int|
                0 <= i < a2.len() ==> !((#[trigger] a2[i]) matches ActionV::Send { packet, .. }
                    && packet.pack_type is FloodRequest)
            &&& d.flood_ids.contains(flood_id) ==> a1 == spec_route(
                d1,
                spec_flood_response(d.id, flood_id, trace),
                draw1,
            )
        }),
{
    let d1 = spec_record_flood(d, flood_id);
    if !d.flood_ids.contains(flood_id) {
        assert(d1.flood_ids[d.flood_ids.len() as int] == flood_id);
        assert(d1.flood_ids.contains(flood_id));
    }
    let resp = spec_flood_response(d1.id, flood_id, trace);
    let a2 = spec_route(d1, resp, draw2);
    match spec_apply_checks(d1, resp, draw2) {
        Result::Ok(p1) => {
            assert(a2[0] matches ActionV::Send { packet, .. } ==> packet == p1);
            assert(!(p1.pack_type is FloodRequest));
        },
        Result::Err(n) => {
            assert(!(a2[0] is Send));
            assert(!(a2[1] is Send));
        },
    }
}

/// A flood broadcast is made of sends only, goes only to neighbors other
/// than the previous contributor, and every copy is the request itself,
/// unmodified.
pub proof fn lemma_broadcast_targets(neighbors: Seq<u8>, prev: u8, p: PacketV)
    ensures
        forall|i: int|
            0 <= i < spec_broadcast(neighbors, prev, p).len() ==> {
                let act = #[trigger] spec_broadcast(neighbors, prev, p)[i];
                &&& act is Send
                &&& act->Send_dest != prev
                &&& neighbors.contains(act->Send_dest)
                &&& act->Send_packet == p
            },
    decreases neighbors.len(),
{
    if neighbors.len() == 0 {
    } else {
        lemma_broadcast_targets(neighbors.drop_last(), prev, p);
        let rest = spec_broadcast(neighbors.drop_last(), prev, p);
        let whole = spec_broadcast(neighbors, prev, p);
        assert forall|i: int| 0 <= i < whole.len() implies {
            let act = #[trigger] whole[i];
            &&& act is Send
            &&& act->Send_dest != prev
            &&& neighbors.contains(act->Send_dest)
            &&& act->Send_packet == p
        } by {
            if i < rest.len() {
                assert(whole[i] == rest[i]);
                let dest = rest[i]->Send_dest;
                assert(neighbors.drop_last().contains(dest));
                let j = choose|j: int|
                    0 <= j < neighbors.drop_last().len() && neighbors.drop_last()[j] == dest;
                assert(neighbors[j] == dest);
            } else {
                assert(neighbors.last() != prev);
                assert(whole[i] == ActionV::Send { dest: neighbors.last(), packet: p });
                assert(neighbors[neighbors.len() - 1] == neighbors.last());
            }
        }
    }
}

/// A dead-end node — one with exactly one neighbor — answers every flood
/// request at once with a response through the ordinary pipeline, whatever
/// its seen-flood set holds.
pub proof fn lemma_dead_end_always_responds(
    d: DroneV,
    p: PacketV,
    flood_id: u64,
    trace: Seq<(u8, NodeRole)>,
    draw: u32,
)
    requires
        p.pack_type == (KindV::FloodRequest { flood_id, path_trace: trace }),
        d.neighbors.len() == 1,
    ensures
        ({
            let (d1, a1) = spec_handle_packet(d, p, draw);
            &&& d1 == spec_record_flood(d, flood_id)
            &&& a1 == spec_route(d1, spec_flood_response(d.id, flood_id, trace), draw)
        }),
{
}

/// With drop rate 100 every fragment that reaches the drop stage is dropped:
/// each draw in [0, 100] is at most the rate.
pub proof fn lemma_drop_rate_hundred(d: DroneV, p: PacketV, draw: u32)
    requires
        d.pdr == 100,
        draw <= 100,
        p.pack_type is MsgFragment,
        p.routing_header.hops[p.routing_header.hop_index] == d.id,
        p.routing_header.hop_index + 1 < p.routing_header.hops.len(),
    ensures
        spec_apply_checks(d, p, draw) == Result::<PacketV, PacketV>::Err(
            spec_create_error(spec_advance(p), NackReason::Dropped),
        ),
{
}

/// With drop rate 0 a fragment is never dropped for a positive draw.  The one
/// draw left out is 0, which the drop rule `draw <= rate` still catches.
pub proof fn lemma_drop_rate_zero(d: DroneV, p: PacketV, draw: u32)
    requires
        d.pdr == 0,
        1 <= draw,
    ensures
        !(spec_apply_checks(d, p, draw) matches Result::Err(n) && n.pack_type matches KindV::Nack {
            nack_type: NackReason::Dropped,
            ..
        }),
{
}

/// The drop draw touches fragments only: handling any other packet kind is
/// deterministic, whatever value the generator produced.
pub proof fn lemma_draw_only_affects_fragments(d: DroneV, p: PacketV, draw1: u32, draw2: u32)
    requires
        !(p.pack_type is MsgFragment),
    ensures
        spec_handle_packet(d, p, draw1) == spec_handle_packet(d, p, draw2),
{
}

/// Draining is terminal: once the node has crashed, no command reverts it.
pub proof fn lemma_crash_is_terminal(d: DroneV, c: DroneCommand)
    requires
        d.crashing,
    ensures
        spec_handle_command(d, c).crashing,
{
}

/// Packet handling touches only the seen-flood set: identity, neighbors,
/// drop rate and lifecycle state are read by it, never written.
pub proof fn lemma_packet_handling_preserves_config(d: DroneV, p: PacketV, draw: u32)
    ensures
        ({
            let d1 = spec_handle_packet(d, p, draw).0;
            &&& d1.id == d.id
            &&& d1.neighbors == d.neighbors
            &&& d1.pdr == d.pdr
            &&& d1.crashing == d.crashing
        }),
{
}

} // verus!


//! The per-node protocol engine: validation pipeline, forwarding decisions,
//! flood handling, and the command-driven lifecycle state machine.
//!
//! A node is a pure state machine here.  Channel I/O stays outside the crate:
//! packet and command handling return lists of [`Action`]s, the caller
//! performs each send and reports its outcome back through
//! [`SkyLinkDrone::after_send`].

use vstd::prelude::*;

use crate::packet::HeaderV;
use crate::packet::KindV;
use crate::packet::NackReason;
use crate::packet::NodeRole;
use crate::packet::Packet;
use crate::packet::PacketType;
use crate::packet::PacketV;
use crate::packet::RoutingHeader;
use crate::packet::copy_trace;
use crate::packet::create_error;
use crate::packet::spec_create_error;

verus! {

/// A runtime command from the controller.  The outbound channel that
/// accompanies `AddSender` in the wire protocol stays with the caller; the
/// engine tracks only which neighbor identities have a live channel.
#[derive(Clone, Copy, PartialEq, Eq, Structural, Debug)]
pub enum DroneCommand {
    AddSender(u8),
    RemoveSender(u8),
    /// The drop rate as an integer percentage in [0, 100].
    SetPacketDropRate(u32),
    Crash,
}

/// Telemetry sent to the controller.
pub enum NodeEvent {
    PacketSent(Packet),
}

/// Mathematical model of a telemetry event.
pub ghost enum EventV {
    PacketSent(PacketV),
}

impl View for NodeEvent {
    type V = EventV;

    open spec fn view(&self) -> EventV {
        match self {
            NodeEvent::PacketSent(p) => EventV::PacketSent(p@),
        }
    }
}

/// One step the caller must perform on the engine's behalf.
pub enum Action {
    /// Attempt a send to the neighbor; then hand the outcome to
    /// [`SkyLinkDrone::after_send`] and perform the actions it returns.
    Send { dest: u8, packet: Packet },
    /// Attempt a send to the neighbor; the outcome is ignored.
    SendBestEffort { dest: u8, packet: Packet },
    /// Push the event on the controller's telemetry channel.
    Emit(NodeEvent),
}

/// Mathematical model of an action.
pub ghost enum ActionV {
    Send { dest: u8, packet: PacketV },
    SendBestEffort { dest: u8, packet: PacketV },
    Emit(EventV),
}

impl View for Action {
    type V = ActionV;

    open spec fn view(&self) -> ActionV {
        match self {
            Action::Send { dest, packet } => ActionV::Send { dest: *dest, packet: packet@ },
            Action::SendBestEffort { dest, packet } => ActionV::SendBestEffort {
                dest: *dest,
                packet: packet@,
            },
            Action::Emit(e) => ActionV::Emit(e@),
        }
    }
}

/// The models of a list of actions, in order.
pub open spec fn acts_view(s: Seq<Action>) -> Seq<ActionV> {
    s.map_values(|a: Action| a@)
}

/// One drone node: its identity, the neighbors it can reach, the drop rate,
/// the flood identifiers it has serviced, and its lifecycle state.
pub struct SkyLinkDrone {
    id: u8,
    neighbors: Vec<u8>,
    pdr: u32,
    flood_ids: Vec<u64>,
    crashing: bool,
}

/// Mathematical model of a drone's state.
pub ghost struct DroneV {
    pub id: u8,
    pub neighbors: Seq<u8>,
    pub pdr: u32,
    pub flood_ids: Seq<u64>,
    pub crashing: bool,
}

impl View for SkyLinkDrone {
    type V = DroneV;

    closed spec fn view(&self) -> DroneV {
        DroneV {
            id: self.id,
            neighbors: self.neighbors@,
            pdr: self.pdr,
            flood_ids: self.flood_ids@,
            crashing: self.crashing,
        }
    }
}

impl DroneV {
    /// Well-formedness: the drop rate is a percentage and each neighbor is
    /// listed once.
    pub open spec fn wf(self) -> bool {
        &&& self.pdr <= 100
        &&& self.neighbors.no_duplicates()
    }
}

/// The neighbor set a fresh drone is given, with duplicates discarded in
/// first-occurrence order.
pub open spec fn spec_dedup(s: Seq<u8>) -> Seq<u8>
    decreases s.len(),
{
    if s.len() == 0 {
        Seq::empty()
    } else {
        let r = spec_dedup(s.drop_last());
        if r.contains(s.last()) {
            r
        } else {
            r.push(s.last())
        }
    }
}

/// Deduplication keeps exactly the members of the input and never repeats one.
pub proof fn lemma_dedup_sound(s: Seq<u8>)
    ensures
        spec_dedup(s).no_duplicates(),
        forall|x: u8| spec_dedup(s).contains(x) <==> s.contains(x),
    decreases s.len(),
{
    if s.len() == 0 {
    } else {
        lemma_dedup_sound(s.drop_last());
        let r = spec_dedup(s.drop_last());
        assert forall|x: u8| spec_dedup(s).contains(x) <==> s.contains(x) by {
            if spec_dedup(s).contains(x) {
                if r.contains(x) || x == s.last() {
                    if r.contains(x) {
                        assert(s.drop_last().contains(x));
                        let i = choose|i: int|
                            0 <= i < s.drop_last().len() && s.drop_last()[i] == x;
                        assert(s[i] == x);
                    } else {
                        assert(s[s.len() - 1] == x);
                    }
                } else {
                    assert(r.push(s.last()).contains(x));
                    let i = choose|i: int|
                        0 <= i < r.push(s.last()).len() && r.push(s.last())[i] == x;
                    assert(r.contains(x) || x == s.last());
                }
            }
            if s.contains(x) {
                let i = choose|i: int| 0 <= i < s.len() && s[i] == x;
                if i < s.len() - 1 {
                    assert(s.drop_last()[i] == x);
                    assert(s.drop_last().contains(x));
                    if !r.contains(x) {
                    } else {
                        if !spec_dedup(s).contains(x) {
                            assert(spec_dedup(s) == r.push(s.last()) || spec_dedup(s) == r);
                            if spec_dedup(s) == r.push(s.last()) {
                                let j = choose|j: int| 0 <= j < r.len() && r[j] == x;
                                assert(r.push(s.last())[j] == x);
                            }
                        }
                    }
                } else {
                    assert(s.last() == x);
                    if r.contains(x) {
                        if spec_dedup(s) == r.push(s.last()) {
                            let j = choose|j: int| 0 <= j < r.len() && r[j] == x;
                            assert(r.push(s.last())[j] == x);
                        }
                    } else {
                        assert(r.push(s.last())[r.len() as int] == x);
                    }
                }
            }
        }
        if !r.contains(s.last()) {
            assert forall|i: int, j: int|
                0 <= i < spec_dedup(s).len() && 0 <= j < spec_dedup(s).len() && i != j implies
                spec_dedup(s)[i] != spec_dedup(s)[j] by {
                let p = r.push(s.last());
                if i < r.len() && j < r.len() {
                } else if i == r.len() {
                    assert(p[j] == r[j]);
                    assert(!r.contains(s.last()));
                    if p[j] == s.last() {
                        assert(r.contains(s.last()));
                    }
                } else if j == r.len() {
                    assert(p[i] == r[i]);
                    if p[i] == s.last() {
                        assert(r.contains(s.last()));
                    }
                }
            }
        }
    }
}

/// True when `v` holds `x`.
fn vec_contains_u8(v: &Vec<u8>, x: u8) -> (b: bool)
    ensures
        b == v@.contains(x),
{
    let mut i: usize = 0;
    while i < v.len()
        invariant
            i <= v@.len(),
            forall|j: int| 0 <= j < i ==> v@[j] != x,
        decreases v@.len() - i,
    {
        if v[i] == x {
            return true;
        }
        i += 1;
    }
    false
}

/// True when `v` holds `x`.
fn vec_contains_u64(v: &Vec<u64>, x: u64) -> (b: bool)
    ensures
        b == v@.contains(x),
{
    let mut i: usize = 0;
    while i < v.len()
        invariant
            i <= v@.len(),
            forall|j: int| 0 <= j < i ==> v@[j] != x,
        decreases v@.len() - i,
    {
        if v[i] == x {
            return true;
        }
        i += 1;
    }
    false
}

/// The state after a controller command: `AddSender` records a neighbor not
/// yet present, `RemoveSender` forgets one, `SetPacketDropRate` overwrites the
/// drop rate, and `Crash` moves the node to its terminal draining state.
pub open spec fn spec_handle_command(d: DroneV, c: DroneCommand) -> DroneV {
    match c {
        DroneCommand::AddSender(n) => if d.neighbors.contains(n) {
            d
        } else {
            DroneV { neighbors: d.neighbors.push(n), ..d }
        },
        DroneCommand::RemoveSender(n) => DroneV { neighbors: d.neighbors.remove_value(n), ..d },
        DroneCommand::SetPacketDropRate(r) => DroneV { pdr: r, ..d },
        DroneCommand::Crash => DroneV { crashing: true, ..d },
    }
}

impl SkyLinkDrone {
    /// Creates a node in the `Active` state with no serviced floods.  The
    /// neighbor list may repeat an identity; each is kept once.
    pub fn new(id: u8, neighbors: Vec<u8>, pdr: u32) -> (d: SkyLinkDrone)
        requires
            pdr <= 100,
        ensures
            d@.id == id,
            d@.pdr == pdr,
            d@.crashing == false,
            d@.flood_ids == Seq::<u64>::empty(),
            d@.neighbors == spec_dedup(neighbors@),
            d@.wf(),
    {
        let mut uniq: Vec<u8> = Vec::new();
        let mut i: usize = 0;
        while i < neighbors.len()
            invariant
                i <= neighbors@.len(),
                uniq@ == spec_dedup(neighbors@.take(i as int)),
            decreases neighbors@.len() - i,
        {
            proof {
                assert(neighbors@.take(i + 1).drop_last() =~= neighbors@.take(i as int));
                assert(neighbors@.take(i + 1).last() == neighbors@[i as int]);
            }
            if !vec_contains_u8(&uniq, neighbors[i]) {
                uniq.push(neighbors[i]);
            }
            i += 1;
        }
        proof {
            assert(neighbors@.take(neighbors@.len() as int) =~= neighbors@);
            lemma_dedup_sound(neighbors@);
        }
        SkyLinkDrone { id, neighbors: uniq, pdr, flood_ids: Vec::new(), crashing: false }
    }

    /// Applies one controller command.  Commands are serviced only in the
    /// `Active` state; the caller stops offering them once the node drains.
    pub fn handle_command(&mut self, command: DroneCommand)
        requires
            old(self)@.wf(),
            command matches DroneCommand::SetPacketDropRate(r) ==> r <= 100,
        ensures
            final(self)@ == spec_handle_command(old(self)@, command),
            final(self)@.wf(),
    {
        match command {
            DroneCommand::AddSender(node_id) => {
                if !vec_contains_u8(&self.neighbors, node_id) {
                    self.neighbors.push(node_id);
                    proof {
                        let s = old(self)@.neighbors;
                        assert forall|i: int, j: int|
                            0 <= i < s.push(node_id).len() && 0 <= j < s.push(node_id).len()
                                && i != j implies s.push(node_id)[i] != s.push(node_id)[j] by {
                            if i < s.len() && j < s.len() {
                            } else if i == s.len() {
                                if s.push(node_id)[j] == node_id {
                                    assert(s[j] == node_id);
                                    assert(s.contains(node_id));
                                }
                            } else if j == s.len() {
                                if s.push(node_id)[i] == node_id {
                                    assert(s[i] == node_id);
                                    assert(s.contains(node_id));
                                }
                            }
                        }
                    }
                }
            },
            DroneCommand::SetPacketDropRate(rate) => {
                self.pdr = rate;
            },
            DroneCommand::Crash => {
                self.crashing = true;
            },
            DroneCommand::RemoveSender(node_id) => {
                let ghost s = self@.neighbors;
                let mut i: usize = 0;
                let mut found: bool = false;
                while i < self.neighbors.len() && !found
                    invariant
                        i <= s.len(),
                        self@.neighbors == s,
                        self@ == old(self)@,
                        found ==> i < s.len() && s[i as int] == node_id,
                        !found ==> forall|j: int| 0 <= j < i ==> s[j] != node_id,
                    decreases s.len() - i, (if found { 0int } else { 1int }),
                {
                    if self.neighbors[i] == node_id {
                        found = true;
                    } else {
                        i += 1;
                    }
                }
                if found {
                    self.neighbors.remove(i);
                    proof {
                        assert(s[i as int] == node_id);
                        assert(s.contains(node_id));
                        s.index_of_first_ensures(node_id);
                        let fi = s.index_of_first(node_id)->Some_0;
                        assert(forall|j: int| 0 <= j < i ==> s[j] != node_id);
                        assert(s[i as int] == node_id);
                        assert(fi == i);
                        assert(final(self)@.neighbors == s.remove_value(node_id));
                        assert forall|a: int, b: int|
                            0 <= a < s.remove(i as int).len() && 0 <= b < s.remove(
                                i as int,
                            ).len() && a != b implies s.remove(i as int)[a] != s.remove(
                            i as int,
                        )[b] by {
                            s.remove_ensures(i as int);
                        }
                    }
                } else {
                    proof {
                        assert(forall|j: int| 0 <= j < s.len() ==> s[j] != node_id);
                        if s.index_of_first(node_id) is Some {
                            s.index_of_first_ensures(node_id);
                        }
                        assert(s.remove_value(node_id) == s);
                    }
                }
            },
        }
    }

    /// This node's identity.
    pub fn id(&self) -> (r: u8)
        ensures
            r == self@.id,
    {
        self.id
    }

    /// The configured drop rate, as a percentage.
    pub fn pdr(&self) -> (r: u32)
        ensures
            r == self@.pdr,
    {
        self.pdr
    }

    /// True once the node has received `Crash` and is draining.
    pub fn is_crashing(&self) -> (r: bool)
        ensures
            r == self@.crashing,
    {
        self.crashing
    }

    /// True when the neighbor has a live outbound channel.
    pub fn has_neighbor(&self, node_id: u8) -> (r: bool)
        ensures
            r == self@.neighbors.contains(node_id),
    {
        vec_contains_u8(&self.neighbors, node_id)
    }

    /// How many neighbors the node can reach.
    pub fn neighbor_count(&self) -> (r: usize)
        ensures
            r == self@.neighbors.len(),
    {
        self.neighbors.len()
    }

    /// True when the node has already serviced this flood identifier.
    pub fn has_seen_flood(&self, flood_id: u64) -> (r: bool)
        ensures
            r == self@.flood_ids.contains(flood_id),
    {
        vec_contains_u64(&self.flood_ids, flood_id)
    }
}

/// The packet with its cursor advanced past this node's hop.
pub open spec fn spec_advance(p: PacketV) -> PacketV {
    PacketV {
        routing_header: HeaderV {
            hops: p.routing_header.hops,
            hop_index: p.routing_header.hop_index + 1,
        },
        ..p
    }
}

/// The model of a packet result: each side viewed.
pub open spec fn res_view(r: Result<Packet, Packet>) -> Result<PacketV, PacketV> {
    match r {
        Result::Ok(p) => Result::Ok(p@),
        Result::Err(p) => Result::Err(p@),
    }
}

/// The validation pipeline, applied in this fixed order to an inbound
/// non-flood packet: the current hop must name this node, the cursor advances,
/// the header must not be exhausted, a fragment survives the drop draw only if
/// the draw exceeds the drop rate, and the next hop must be a live neighbor.
/// The first failure yields the finished nack; success yields the advanced
/// packet, ready to forward to `hops[hop_index]`.
pub open spec fn spec_apply_checks(d: DroneV, p: PacketV, draw: u32) -> Result<PacketV, PacketV> {
    if p.routing_header.hops[p.routing_header.hop_index] != d.id {
        Result::Err(spec_create_error(p, NackReason::UnexpectedRecipient(d.id)))
    } else {
        let p1 = spec_advance(p);
        if p1.routing_header.hop_index == p1.routing_header.hops.len() {
            Result::Err(spec_create_error(p1, NackReason::DestinationIsDrone))
        } else if p1.pack_type is MsgFragment && draw <= d.pdr {
            Result::Err(spec_create_error(p1, NackReason::Dropped))
        } else if !d.neighbors.contains(p1.routing_header.hops[p1.routing_header.hop_index]) {
            Result::Err(spec_create_error(p1, NackReason::ErrorInRouting(d.id)))
        } else {
            Result::Ok(p1)
        }
    }
}

/// First check: the hop under the cursor must name the processing node; a
/// mismatch is answered with `UnexpectedRecipient` carrying this node's
/// identity, built from the packet with its cursor not yet advanced.
pub fn id_hop_match_check(drone: &SkyLinkDrone, packet: &Packet) -> (r: Result<(), Packet>)
    requires
        packet@.routing_header.hop_index < packet@.routing_header.hops.len(),
    ensures
        match r {
            Result::Ok(()) => packet@.routing_header.hops[packet@.routing_header.hop_index]
                == drone@.id,
            Result::Err(n) => packet@.routing_header.hops[packet@.routing_header.hop_index]
                != drone@.id && n@ == spec_create_error(
                packet@,
                NackReason::UnexpectedRecipient(drone@.id),
            ),
        },
{
    if packet.routing_header.hops[packet.routing_header.hop_index] == drone.id {
        Result::Ok(())
    } else {
        Result::Err(create_error(packet, NackReason::UnexpectedRecipient(drone.id)))
    }
}

/// Third check, after the cursor has advanced: a header whose cursor has
/// reached its end was routed into a drone as if it were an endpoint, and is
/// answered with `DestinationIsDrone`.
pub fn final_destination_check(packet: &Packet) -> (r: Result<(), Packet>)
    ensures
        match r {
            Result::Ok(()) => packet@.routing_header.hop_index
                < packet@.routing_header.hops.len(),
            Result::Err(n) => packet@.routing_header.hop_index
                >= packet@.routing_header.hops.len() && n@ == spec_create_error(
                packet@,
                NackReason::DestinationIsDrone,
            ),
        },
{
    if packet.routing_header.hop_index < packet.routing_header.hops.len() {
        Result::Ok(())
    } else {
        Result::Err(create_error(packet, NackReason::DestinationIsDrone))
    }
}

/// Fourth check: a fragment is dropped exactly when the uniform draw from
/// [0, 100] is at most the drop rate; every other kind always passes.
pub fn pdr_check(drone: &SkyLinkDrone, packet: &Packet, draw: u32) -> (r: Result<(), Packet>)
    ensures
        match r {
            Result::Ok(()) => !(packet@.pack_type is MsgFragment && draw <= drone@.pdr),
            Result::Err(n) => packet@.pack_type is MsgFragment && draw <= drone@.pdr && n@
                == spec_create_error(packet@, NackReason::Dropped),
        },
{
    let is_fragment = match &packet.pack_type {
        PacketType::MsgFragment { .. } => true,
        _ => false,
    };
    if is_fragment && draw <= drone.pdr {
        Result::Err(create_error(packet, NackReason::Dropped))
    } else {
        Result::Ok(())
    }
}

/// Fifth check: the hop now under the cursor must be a live neighbor; a
/// missing one is answered with `ErrorInRouting` carrying this node's
/// identity.
pub fn is_next_hop_check(drone: &SkyLinkDrone, packet: &Packet) -> (r: Result<(), Packet>)
    requires
        packet@.routing_header.hop_index < packet@.routing_header.hops.len(),
    ensures
        match r {
            Result::Ok(()) => drone@.neighbors.contains(
                packet@.routing_header.hops[packet@.routing_header.hop_index],
            ),
            Result::Err(n) => !drone@.neighbors.contains(
                packet@.routing_header.hops[packet@.routing_header.hop_index],
            ) && n@ == spec_create_error(packet@, NackReason::ErrorInRouting(drone@.id)),
        },
{
    let next_hop = packet.routing_header.hops[packet.routing_header.hop_index];
    if drone.has_neighbor(next_hop) {
        Result::Ok(())
    } else {
        Result::Err(create_error(packet, NackReason::ErrorInRouting(drone.id)))
    }
}

impl SkyLinkDrone {
    /// Runs the whole validation pipeline on a non-flood packet, with `draw`
    /// the uniform value the drop check consumes.
    pub fn apply_checks(&self, packet: Packet, draw: u32) -> (r: Result<Packet, Packet>)
        requires
            packet@.routing_header.hop_index < packet@.routing_header.hops.len(),
        ensures
            res_view(r) == spec_apply_checks(self@, packet@, draw),
    {
        if let Result::Err(n) = id_hop_match_check(self, &packet) {
            return Result::Err(n);
        }
        let ghost p0 = packet@;
        let mut packet = packet;
        let len = packet.routing_header.hops.len();
        packet.routing_header.hop_index = packet.routing_header.hop_index + 1;
        proof {
            assert(packet@ == spec_advance(p0));
        }
        if let Result::Err(n) = final_destination_check(&packet) {
            return Result::Err(n);
        }
        if let Result::Err(n) = pdr_check(self, &packet, draw) {
            return Result::Err(n);
        }
        if let Result::Err(n) = is_next_hop_check(self, &packet) {
            return Result::Err(n);
        }
        Result::Ok(packet)
    }
}

/// The models of a pushed action list grow one model at a time.
pub proof fn lemma_acts_view_push(s: Seq<Action>, a: Action)
    ensures
        acts_view(s.push(a)) == acts_view(s).push(a@),
{
    assert(acts_view(s.push(a)) =~= acts_view(s).push(a@));
}

/// What the forwarding engine does with a validated non-flood packet: a
/// success hands the advanced packet to the next hop for an outcome-reported
/// send; a validation failure dispatches the finished nack toward the source
/// as one best-effort send, reported in telemetry regardless of its outcome.
pub open spec fn spec_route(d: DroneV, p: PacketV, draw: u32) -> Seq<ActionV> {
    match spec_apply_checks(d, p, draw) {
        Result::Ok(p1) => seq![
            ActionV::Send {
                dest: p1.routing_header.hops[p1.routing_header.hop_index],
                packet: p1,
            },
        ],
        Result::Err(n) => seq![
            ActionV::SendBestEffort { dest: n.routing_header.hops[1], packet: n },
            ActionV::Emit(EventV::PacketSent(n)),
        ],
    }
}

impl SkyLinkDrone {
    /// Validates a non-flood packet and decides its sends, as `spec_route`
    /// says.
    pub fn route_packet(&self, packet: Packet, draw: u32) -> (acts: Vec<Action>)
        requires
            packet@.routing_header.hop_index < packet@.routing_header.hops.len(),
            packet@.routing_header.hops.len() >= 2,
        ensures
            acts_view(acts@) == spec_route(self@, packet@, draw),
    {
        let ghost pv = packet@;
        let mut acts: Vec<Action> = Vec::new();
        match self.apply_checks(packet, draw) {
            Result::Ok(p) => {
                let dest = p.routing_header.hops[p.routing_header.hop_index];
                acts.push(Action::Send { dest, packet: p });
            },
            Result::Err(n) => {
                proof {
                    assert(pv.routing_header.hops.reverse().len()
                        == pv.routing_header.hops.len());
                }
                let dest = n.routing_header.hops[1];
                let ev = NodeEvent::PacketSent(n.duplicate());
                acts.push(Action::SendBestEffort { dest, packet: n });
                acts.push(Action::Emit(ev));
            },
        }
        proof {
            assert(acts_view(acts@) =~= spec_route(self@, pv, draw));
        }
        acts
    }
}

/// The node identities along a path trace, in trace order.
pub open spec fn spec_trace_ids(trace: Seq<(u8, NodeRole)>) -> Seq<u8> {
    trace.map_values(|e: (u8, NodeRole)| e.0)
}

/// The response a node builds for a flood it answers: this node is appended
/// to the trace, and the routing header holds the reversed trace identities
/// with the cursor at 0, so the response re-enters the ordinary pipeline at
/// this node as a fresh inbound packet.
pub open spec fn spec_flood_response(
    self_id: u8,
    flood_id: u64,
    trace: Seq<(u8, NodeRole)>,
) -> PacketV {
    let full = trace.push((self_id, NodeRole::Drone));
    PacketV {
        pack_type: KindV::FloodResponse { flood_id, path_trace: full },
        routing_header: HeaderV { hops: spec_trace_ids(full).reverse(), hop_index: 0 },
        session_id: flood_id,
    }
}

/// Builds the flood response packet, as `spec_flood_response` says.
pub fn build_flood_response(self_id: u8, flood_id: u64, trace: &Vec<(u8, NodeRole)>) -> (r: Packet)
    ensures
        r@ == spec_flood_response(self_id, flood_id, trace@),
{
    let mut full = copy_trace(trace);
    full.push((self_id, NodeRole::Drone));
    let n = full.len();
    let mut hops: Vec<u8> = Vec::new();
    let mut i: usize = 0;
    while i < n
        invariant
            i <= n,
            n == full@.len(),
            full@ == trace@.push((self_id, NodeRole::Drone)),
            hops@.len() == i,
            forall|j: int| 0 <= j < i ==> hops@[j] == full@[n - 1 - j].0,
        decreases n - i,
    {
        hops.push(full[n - 1 - i].0);
        i += 1;
    }
    proof {
        assert(hops@ =~= spec_trace_ids(full@).reverse());
    }
    Packet {
        pack_type: PacketType::FloodResponse { flood_id, path_trace: full },
        routing_header: RoutingHeader { hops, hop_index: 0 },
        session_id: flood_id,
    }
}

/// The sends of a flood broadcast: one copy of the request, unmodified, to
/// every neighbor but the one it arrived from, in neighbor-table order.
pub open spec fn spec_broadcast(neighbors: Seq<u8>, prev: u8, p: PacketV) -> Seq<ActionV>
    decreases neighbors.len(),
{
    if neighbors.len() == 0 {
        Seq::empty()
    } else {
        let rest = spec_broadcast(neighbors.drop_last(), prev, p);
        if neighbors.last() != prev {
            rest.push(ActionV::Send { dest: neighbors.last(), packet: p })
        } else {
            rest
        }
    }
}

/// The node's state once it has serviced a flood identifier: recorded, so a
/// re-delivered copy of the same flood is answered instead of re-broadcast.
pub open spec fn spec_record_flood(d: DroneV, flood_id: u64) -> DroneV {
    if d.flood_ids.contains(flood_id) {
        d
    } else {
        DroneV { flood_ids: d.flood_ids.push(flood_id), ..d }
    }
}

/// When a flood request is answered at once instead of broadcast: the node
/// has already serviced this flood, or it is a dead end with exactly one
/// neighbor and no other direction to explore.
pub open spec fn spec_flood_responds(d: DroneV, flood_id: u64) -> bool {
    d.flood_ids.contains(flood_id) || d.neighbors.len() == 1
}

/// What an inbound packet must look like for the node to handle it: a flood
/// request carries at least its originating contributor in the trace; any
/// other packet has its cursor on a real hop and at least two hops, so the
/// reverse path of a nack has a first hop to aim at.
pub open spec fn spec_deliverable(p: PacketV) -> bool {
    match p.pack_type {
        KindV::FloodRequest { path_trace, .. } => path_trace.len() > 0,
        _ => p.routing_header.hop_index < p.routing_header.hops.len()
            && p.routing_header.hops.len() >= 2,
    }
}

/// One `Active`-state step of the engine on an inbound packet.  A flood
/// request is recorded, then answered (when already seen, or at a dead end)
/// by routing the built response through the ordinary pipeline, or else
/// broadcast unmodified to every neighbor but the previous contributor.
/// Every other kind goes through validation and forwarding.
pub open spec fn spec_handle_packet(d: DroneV, p: PacketV, draw: u32) -> (DroneV, Seq<ActionV>) {
    match p.pack_type {
        KindV::FloodRequest { flood_id, path_trace } => {
            let d1 = spec_record_flood(d, flood_id);
            if spec_flood_responds(d, flood_id) {
                (d1, spec_route(d1, spec_flood_response(d.id, flood_id, path_trace), draw))
            } else {
                (d1, spec_broadcast(d.neighbors, path_trace.last().0, p))
            }
        },
        _ => (d, spec_route(d, p, draw)),
    }
}

impl SkyLinkDrone {
    /// Handles one inbound packet in the `Active` state with the given drop
    /// draw, as `spec_handle_packet` says.
    pub fn handle_packet(&mut self, packet: Packet, draw: u32) -> (acts: Vec<Action>)
        requires
            old(self)@.wf(),
            !old(self)@.crashing,
            spec_deliverable(packet@),
            draw <= 100,
        ensures
            final(self)@ == spec_handle_packet(old(self)@, packet@, draw).0,
            acts_view(acts@) == spec_handle_packet(old(self)@, packet@, draw).1,
            final(self)@.wf(),
            final(self)@.crashing == old(self)@.crashing,
    {
        let ghost d0 = self@;
        let ghost pv = packet@;
        match &packet.pack_type {
            PacketType::FloodRequest { flood_id, path_trace } => {
                let fid: u64 = *flood_id;
                let prev: u8 = path_trace[path_trace.len() - 1].0;
                let was_seen = self.has_seen_flood(fid);
                if !was_seen {
                    self.flood_ids.push(fid);
                }
                proof {
                    assert(self@ == spec_record_flood(d0, fid));
                }
                if was_seen || self.neighbor_count() == 1 {
                    let resp = build_flood_response(self.id, fid, path_trace);
                    proof {
                        let full = path_trace@.push((d0.id, NodeRole::Drone));
                        assert(spec_trace_ids(full).reverse().len() == full.len());
                    }
                    self.route_packet(resp, draw)
                } else {
                    let mut acts: Vec<Action> = Vec::new();
                    let mut i: usize = 0;
                    while i < self.neighbors.len()
                        invariant
                            i <= d0.neighbors.len(),
                            self@ == spec_record_flood(d0, fid),
                            self@.neighbors == d0.neighbors,
                            packet@ == pv,
                            acts_view(acts@) == spec_broadcast(
                                d0.neighbors.take(i as int),
                                prev,
                                pv,
                            ),
                        decreases d0.neighbors.len() - i,
                    {
                        let nb = self.neighbors[i];
                        proof {
                            assert(d0.neighbors.take(i + 1).drop_last() =~= d0.neighbors.take(
                                i as int,
                            ));
                            assert(d0.neighbors.take(i + 1).last() == d0.neighbors[i as int]);
                        }
                        if nb != prev {
                            let copy = packet.duplicate();
                            proof {
                                lemma_acts_view_push(
                                    acts@,
                                    Action::Send { dest: nb, packet: copy },
                                );
                            }
                            acts.push(Action::Send { dest: nb, packet: copy });
                        }
                        i += 1;
                    }
                    proof {
                        assert(d0.neighbors.take(d0.neighbors.len() as int) =~= d0.neighbors);
                    }
                    acts
                }
            },
            _ => self.route_packet(packet, draw),
        }
    }
}

/// What follows a reported send outcome.  A delivered packet is reported in
/// telemetry; a failed flood-broadcast send is skipped silently; any other
/// failed send is answered with an `ErrorInRouting` nack naming the dead
/// neighbor, dispatched best-effort along the reverse path's first hop and
/// reported in telemetry regardless of how that dispatch fares.
pub open spec fn spec_after_send(dest: u8, p: PacketV, ok: bool) -> Seq<ActionV> {
    if ok {
        seq![ActionV::Emit(EventV::PacketSent(p))]
    } else if p.pack_type is FloodRequest {
        Seq::empty()
    } else {
        let n = spec_create_error(p, NackReason::ErrorInRouting(dest));
        seq![
            ActionV::SendBestEffort { dest: n.routing_header.hops[1], packet: n },
            ActionV::Emit(EventV::PacketSent(n)),
        ]
    }
}

impl SkyLinkDrone {
    /// Reacts to the outcome of a `Send` action toward `dest`, as
    /// `spec_after_send` says.  The returned actions never ask for another
    /// outcome report: nack delivery is at-most-once, best-effort.
    pub fn after_send(&self, dest: u8, packet: Packet, ok: bool) -> (acts: Vec<Action>)
        requires
            ok || packet@.pack_type is FloodRequest || packet@.routing_header.hops.len() >= 2,
        ensures
            acts_view(acts@) == spec_after_send(dest, packet@, ok),
            forall|i: int| 0 <= i < acts@.len() ==> !(acts@[i]@ is Send),
    {
        let ghost pv = packet@;
        let mut acts: Vec<Action> = Vec::new();
        if ok {
            acts.push(Action::Emit(NodeEvent::PacketSent(packet)));
        } else {
            let is_flood = match &packet.pack_type {
                PacketType::FloodRequest { .. } => true,
                _ => false,
            };
            if !is_flood {
                proof {
                    assert(pv.routing_header.hops.reverse().len()
                        == pv.routing_header.hops.len());
                }
                let n = create_error(&packet, NackReason::ErrorInRouting(dest));
                let dest2 = n.routing_header.hops[1];
                let ev = NodeEvent::PacketSent(n.duplicate());
                acts.push(Action::SendBestEffort { dest: dest2, packet: n });
                acts.push(Action::Emit(ev));
            }
        }
        proof {
            assert(acts_view(acts@) =~= spec_after_send(dest, pv, ok));
        }
        acts
    }

    /// Handles an inbound packet once the node is draining.  The drain policy
    /// chosen here: queued packets are discarded silently, with no forwarding
    /// and no telemetry, until the inbound channel closes and the actor ends.
    #[allow(unused_variables)]
    pub fn crashing_handle_packet(&mut self, packet: Packet) -> (acts: Vec<Action>)
        ensures
            final(self)@ == old(self)@,
            acts@.len() == 0,
    {
        Vec::new()
    }
}

/// Relies on fastrand::u32 over the half-open range 0..101: the result is a
/// uniform integer in [0, 100]; nothing beyond that bound is assumed.
#[verifier::external_body]
fn draw_drop_value() -> (r: u32)
    ensures
        r <= 100,
{
    fastrand::u32(0..101)
}

impl SkyLinkDrone {
    /// Handles one inbound `Active`-state packet, drawing the drop value
    /// itself.  Every outcome is that of `handle_packet` for some draw in
    /// [0, 100]; which draw comes out is up to the generator.
    pub fn process_packet(&mut self, packet: Packet) -> (acts: Vec<Action>)
        requires
            old(self)@.wf(),
            !old(self)@.crashing,
            spec_deliverable(packet@),
        ensures
            exists|draw: u32|
                #![auto]
                draw <= 100 && final(self)@ == spec_handle_packet(old(self)@, packet@, draw).0
                    && acts_view(acts@) == spec_handle_packet(old(self)@, packet@, draw).1,
            final(self)@.wf(),
            final(self)@.crashing == old(self)@.crashing,
    {
        let draw = draw_drop_value();
        let ghost d0 = self@;
        let ghost pv = packet@;
        let acts = self.handle_packet(packet, draw);
        proof {
            assert(draw <= 100 && self@ == spec_handle_packet(d0, pv, draw).0 && acts_view(acts@)
                == spec_handle_packet(d0, pv, draw).1);
        }
        acts
    }
}

} // verus!

//! Packet model: routing headers, packet kinds, and the reverse-path error
//! (nack) construction shared by the validation pipeline and the forwarding
//! engine.

use vstd::prelude::*;

verus! {

/// Role a node plays in the network, recorded in flood path traces.
#[derive(Clone, Copy, PartialEq, Eq, Structural, Debug)]
pub enum NodeRole {
    Drone,
    Client,
    Server,
}

/// Why a packet could not be forwarded; carried inside a nack packet.
#[derive(Clone, Copy, PartialEq, Eq, Structural, Debug)]
pub enum NackReason {
    /// The header's current hop names some other node; carries this node's identity.
    UnexpectedRecipient(u8),
    /// The header was exhausted while the packet was still being routed through a drone.
    DestinationIsDrone,
    /// The computed next hop has no live outbound channel; carries this node's identity
    /// when found during validation, the dead neighbor's when found at send time.
    ErrorInRouting(u8),
    /// Simulated probabilistic loss of a fragment.
    Dropped,
}

/// An ordered source route plus a cursor into it.  `hops[hop_index]`, when in
/// bounds, is the node expected to be processing the packet.
pub struct RoutingHeader {
    pub hops: Vec<u8>,
    pub hop_index: usize,
}

/// Mathematical model of a routing header.
pub ghost struct HeaderV {
    pub hops: Seq<u8>,
    pub hop_index: int,
}

impl View for RoutingHeader {
    type V = HeaderV;

    open spec fn view(&self) -> HeaderV {
        HeaderV { hops: self.hops@, hop_index: self.hop_index as int }
    }
}

/// Tagged union of the five packet kinds.  Fragments are opaque application
/// data units identified only by their index; floods carry the path trace
/// built up during discovery.
pub enum PacketType {
    MsgFragment { fragment_index: u64 },
    Ack { fragment_index: u64 },
    Nack { fragment_index: u64, nack_type: NackReason },
    FloodRequest { flood_id: u64, path_trace: Vec<(u8, NodeRole)> },
    FloodResponse { flood_id: u64, path_trace: Vec<(u8, NodeRole)> },
}

/// Mathematical model of a packet kind.
pub ghost enum KindV {
    MsgFragment { fragment_index: u64 },
    Ack { fragment_index: u64 },
    Nack { fragment_index: u64, nack_type: NackReason },
    FloodRequest { flood_id: u64, path_trace: Seq<(u8, NodeRole)> },
    FloodResponse { flood_id: u64, path_trace: Seq<(u8, NodeRole)> },
}

impl View for PacketType {
    type V = KindV;

    open spec fn view(&self) -> KindV {
        match self {
            PacketType::MsgFragment { fragment_index } => KindV::MsgFragment {
                fragment_index: *fragment_index,
            },
            PacketType::Ack { fragment_index } => KindV::Ack { fragment_index: *fragment_index },
            PacketType::Nack { fragment_index, nack_type } => KindV::Nack {
                fragment_index: *fragment_index,
                nack_type: *nack_type,
            },
            PacketType::FloodRequest { flood_id, path_trace } => KindV::FloodRequest {
                flood_id: *flood_id,
                path_trace: path_trace@,
            },
            PacketType::FloodResponse { flood_id, path_trace } => KindV::FloodResponse {
                flood_id: *flood_id,
                path_trace: path_trace@,
            },
        }
    }
}

/// A routed message: a kind, the source route it follows, and a session tag.
pub struct Packet {
    pub pack_type: PacketType,
    pub routing_header: RoutingHeader,
    pub session_id: u64,
}

/// Mathematical model of a packet.
pub ghost struct PacketV {
    pub pack_type: KindV,
    pub routing_header: HeaderV,
    pub session_id: u64,
}

impl View for Packet {
    type V = PacketV;

    open spec fn view(&self) -> PacketV {
        PacketV {
            pack_type: self.pack_type@,
            routing_header: self.routing_header@,
            session_id: self.session_id,
        }
    }
}

/// The fragment index a nack reports: the index of the fragment being
/// answered, or zero for every non-fragment kind.
pub open spec fn spec_fragment_index(k: KindV) -> u64 {
    match k {
        KindV::MsgFragment { fragment_index } => fragment_index,
        _ => 0,
    }
}

/// The nack a node builds for a packet it cannot forward: the hop sequence is
/// reversed, so the faulting node stands at index 0 and the cursor at 1 already
/// names the first hop back toward the source; the session tag is kept.
pub open spec fn spec_create_error(p: PacketV, nack_type: NackReason) -> PacketV {
    PacketV {
        pack_type: KindV::Nack { fragment_index: spec_fragment_index(p.pack_type), nack_type },
        routing_header: HeaderV { hops: p.routing_header.hops.reverse(), hop_index: 1 },
        session_id: p.session_id,
    }
}

/// Copies a hop sequence in reverse order.
pub fn reverse_hops(v: &Vec<u8>) -> (r: Vec<u8>)
    ensures
        r@ == v@.reverse(),
{
    let n = v.len();
    let mut r: Vec<u8> = Vec::new();
    let mut i: usize = 0;
    while i < n
        invariant
            i <= n,
            n == v@.len(),
            r@.len() == i,
            forall|j: int| 0 <= j < i ==> r@[j] == v@[n - 1 - j],
        decreases n - i,
    {
        r.push(v[n - 1 - i]);
        i += 1;
    }
    proof {
        assert(r@ =~= v@.reverse());
    }
    r
}

/// Copies a hop sequence.
pub fn copy_hops(v: &Vec<u8>) -> (r: Vec<u8>)
    ensures
        r@ == v@,
{
    let mut r: Vec<u8> = Vec::new();
    let mut i: usize = 0;
    while i < v.len()
        invariant
            i <= v@.len(),
            r@ == v@.take(i as int),
        decreases v@.len() - i,
    {
        proof {
            assert(v@.take(i + 1) =~= v@.take(i as int).push(v@[i as int]));
        }
        r.push(v[i]);
        i += 1;
    }
    proof {
        assert(v@.take(v@.len() as int) =~= v@);
    }
    r
}

/// Copies a path trace.
pub fn copy_trace(v: &Vec<(u8, NodeRole)>) -> (r: Vec<(u8, NodeRole)>)
    ensures
        r@ == v@,
{
    let mut r: Vec<(u8, NodeRole)> = Vec::new();
    let mut i: usize = 0;
    while i < v.len()
        invariant
            i <= v@.len(),
            r@ == v@.take(i as int),
        decreases v@.len() - i,
    {
        proof {
            assert(v@.take(i + 1) =~= v@.take(i as int).push(v@[i as int]));
        }
        r.push(v[i]);
        i += 1;
    }
    proof {
        assert(v@.take(v@.len() as int) =~= v@);
    }
    r
}

impl RoutingHeader {
    /// A copy with the same hops and cursor.
    pub fn duplicate(&self) -> (r: RoutingHeader)
        ensures
            r@ == self@,
    {
        RoutingHeader { hops: copy_hops(&self.hops), hop_index: self.hop_index }
    }
}

impl Packet {
    /// A copy with the same model, so one packet can go to several neighbors.
    pub fn duplicate(&self) -> (r: Packet)
        ensures
            r@ == self@,
    {
        let pack_type = match &self.pack_type {
            PacketType::MsgFragment { fragment_index } => PacketType::MsgFragment {
                fragment_index: *fragment_index,
            },
            PacketType::Ack { fragment_index } => PacketType::Ack {
                fragment_index: *fragment_index,
            },
            PacketType::Nack { fragment_index, nack_type } => PacketType::Nack {
                fragment_index: *fragment_index,
                nack_type: *nack_type,
            },
            PacketType::FloodRequest { flood_id, path_trace } => PacketType::FloodRequest {
                flood_id: *flood_id,
                path_trace: copy_trace(path_trace),
            },
            PacketType::FloodResponse { flood_id, path_trace } => PacketType::FloodResponse {
                flood_id: *flood_id,
                path_trace: copy_trace(path_trace),
            },
        };
        Packet {
            pack_type,
            routing_header: self.routing_header.duplicate(),
            session_id: self.session_id,
        }
    }
}

/// Builds the reverse-path error packet for `packet` with the given reason.
pub fn create_error(packet: &Packet, nack_type: NackReason) -> (r: Packet)
    ensures
        r@ == spec_create_error(packet@, nack_type),
{
    let fragment_index: u64 = match &packet.pack_type {
        PacketType::MsgFragment { fragment_index } => *fragment_index,
        _ => 0,
    };
    Packet {
        pack_type: PacketType::Nack { fragment_index, nack_type },
        routing_header: RoutingHeader {
            hops: reverse_hops(&packet.routing_header.hops),
            hop_index: 1,
        },
        session_id: packet.session_id,
    }
}

} // verus!

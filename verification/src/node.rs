//! What one node does with an inbound packet: deduplicate, report the first
//! sight, and pick the neighbors to forward to.
use crate::network::{without_repeats, NodeId};
use crate::packet::{borsh_decoding, GossipPacket, PacketId, SerialiedPacket};
use crate::sampling::{
    choose_multiple, draw_size, drawn_from, lemma_draw_is_distinct, lemma_draw_is_from_pool,
};
use std::collections::HashSet;
use vstd::prelude::*;
use vstd::std_specs::hash::*;

verus! {

/// What a node asks its surroundings to do after it took in a packet.
#[derive(Debug, Clone)]
pub enum Action {
    /// The packet was seen before: nothing to report, nothing to forward.
    Discard,
    /// First sight of a packet whose hops are used up: report it only.
    Deliver { report: PacketId },
    /// First sight of a packet with hops left: report it, then send `packet`
    /// to each of `targets`.
    Forward { report: PacketId, packet: GossipPacket, targets: Vec<NodeId> },
}

/// The state of one node: who it is, whom it may forward to, how many it
/// forwards to per packet, and which packets it has seen.
pub struct Node {
    node_id: NodeId,
    neighbors: Vec<NodeId>,
    num_peers: u64,
    seen: HashSet<u64>,
}

/// The packet a node sends on: one hop less, never below zero, and the node
/// itself as the sender.
pub open spec fn forwarded(node_id: NodeId, packet: GossipPacket) -> GossipPacket {
    GossipPacket {
        id: packet.id,
        source_id: node_id,
        ttl: if packet.ttl == 0 {
            0
        } else {
            (packet.ttl - 1) as u64
        },
        order: packet.order,
    }
}

/// The neighbors a packet may be forwarded to: all but the one it came from.
pub open spec fn forwarding_candidates(neighbors: Set<NodeId>, sender: NodeId) -> Set<NodeId> {
    neighbors.remove(sender)
}

/// Whether `targets` is an admissible choice for a packet that came from
/// `sender`: pairwise different candidates, as many as the fan-out asks for
/// or all of them where there are fewer.
pub open spec fn targets_allowed(
    neighbors: Set<NodeId>,
    sender: NodeId,
    num_peers: u64,
    targets: Seq<NodeId>,
) -> bool {
    &&& targets.no_duplicates()
    &&& targets.to_set().subset_of(forwarding_candidates(neighbors, sender))
    &&& targets.len() == draw_size(
        num_peers as nat,
        forwarding_candidates(neighbors, sender).len(),
    )
}

/// Whether `action` answers `packet` at a node that has seen `seen`.
pub open spec fn action_allowed(
    node_id: NodeId,
    neighbors: Set<NodeId>,
    num_peers: u64,
    seen: Set<u64>,
    packet: GossipPacket,
    action: Action,
) -> bool {
    match action {
        Action::Discard => seen.contains(packet.id.0),
        Action::Deliver { report } => {
            &&& !seen.contains(packet.id.0)
            &&& packet.ttl == 0
            &&& report == packet.id
        },
        Action::Forward { report, packet: sent, targets } => {
            &&& !seen.contains(packet.id.0)
            &&& packet.ttl > 0
            &&& report == packet.id
            &&& sent == forwarded(node_id, packet)
            &&& targets_allowed(neighbors, packet.source_id, num_peers, targets@)
        },
    }
}

/// The delivery report that goes with an action, if any.
pub open spec fn reported(action: Action) -> Option<PacketId> {
    match action {
        Action::Discard => None,
        Action::Deliver { report } => Some(report),
        Action::Forward { report, .. } => Some(report),
    }
}

/// A packet is reported exactly when the node sees it for the first time.
pub proof fn lemma_report_follows_first_sight(
    node_id: NodeId,
    neighbors: Set<NodeId>,
    num_peers: u64,
    seen: Set<u64>,
    packet: GossipPacket,
    action: Action,
)
    requires
        action_allowed(node_id, neighbors, num_peers, seen, packet, action),
    ensures
        reported(action) == if seen.contains(packet.id.0) {
            None
        } else {
            Some(packet.id)
        },
{
}

/// The identities a node reports while it takes in `arrivals` one after the
/// other, having seen `seen` before.
pub open spec fn reports(seen: Set<u64>, arrivals: Seq<PacketId>) -> Seq<PacketId>
    decreases arrivals.len(),
{
    if arrivals.len() == 0 {
        Seq::empty()
    } else if seen.contains(arrivals[0].0) {
        reports(seen, arrivals.drop_first())
    } else {
        seq![arrivals[0]] + reports(seen.insert(arrivals[0].0), arrivals.drop_first())
    }
}

/// A node reports a packet identity at most once, however often and in
/// whatever order packets arrive, and never one it had seen before.
pub proof fn lemma_reported_at_most_once(seen: Set<u64>, arrivals: Seq<PacketId>)
    ensures
        reports(seen, arrivals).no_duplicates(),
        forall|i: int|
            0 <= i < reports(seen, arrivals).len() ==> !seen.contains(
                (#[trigger] reports(seen, arrivals)[i]).0,
            ),
    decreases arrivals.len(),
{
    if arrivals.len() > 0 {
        let first = arrivals[0];
        let rest = arrivals.drop_first();
        if seen.contains(first.0) {
            lemma_reported_at_most_once(seen, rest);
        } else {
            lemma_reported_at_most_once(seen.insert(first.0), rest);
            let tail = reports(seen.insert(first.0), rest);
            let all = reports(seen, arrivals);
            assert(all == seq![first] + tail);
            assert forall|i: int| 0 <= i < all.len() implies !seen.contains(
                (#[trigger] all[i]).0,
            ) by {
                if i > 0 {
                    assert(all[i] == tail[i - 1]);
                }
            }
            assert forall|i: int, j: int| 0 <= i < all.len() && 0 <= j < all.len() && i != j implies all[i]
                != all[j] by {
                if i > 0 {
                    assert(all[i] == tail[i - 1]);
                }
                if j > 0 {
                    assert(all[j] == tail[j - 1]);
                }
            }
        }
    }
}

/// A packet is never sent back to the node it came from, and what is sent
/// has one hop less than what came in.
pub proof fn lemma_forward_skips_sender(
    node_id: NodeId,
    neighbors: Set<NodeId>,
    num_peers: u64,
    seen: Set<u64>,
    packet: GossipPacket,
    action: Action,
)
    requires
        action_allowed(node_id, neighbors, num_peers, seen, packet, action),
    ensures
        action matches Action::Forward { packet: sent, targets, .. } ==> {
            &&& !targets@.contains(packet.source_id)
            &&& sent.ttl == packet.ttl - 1
            &&& sent.source_id == node_id
            &&& sent.id == packet.id
        },
        packet.ttl == 0 ==> !(action is Forward),
{
    if let Action::Forward { report, packet: sent, targets } = action {
        if targets@.contains(packet.source_id) {
            assert(targets@.to_set().contains(packet.source_id));
        }
    }
}

/// `count` nodes drawn at random from `nodes`, or all of them where there are
/// fewer. No position of `nodes` is drawn twice, so a list without
/// repetitions gives picks without repetitions.
pub fn random_neighbors(nodes: &Vec<NodeId>, count: usize) -> (picks: Vec<NodeId>)
    ensures
        picks@.len() == draw_size(count as nat, nodes@.len()),
        drawn_from(nodes@, picks@),
        picks@.to_set().subset_of(nodes@.to_set()),
        nodes@.no_duplicates() ==> picks@.no_duplicates(),
{
    let picks = choose_multiple(nodes, count);
    proof {
        lemma_draw_is_from_pool(nodes@, picks@);
        if nodes@.no_duplicates() {
            lemma_draw_is_distinct(nodes@, picks@);
        }
    }
    picks
}

impl Node {
    /// The neighbor list names no node twice.
    pub closed spec fn wf(&self) -> bool {
        self.neighbors@.no_duplicates()
    }

    /// The node's own identity.
    pub closed spec fn id(&self) -> NodeId {
        self.node_id
    }

    /// The nodes this node may forward to.
    pub closed spec fn neighbor_set(&self) -> Set<NodeId> {
        self.neighbors@.to_set()
    }

    /// The number of neighbors a packet is forwarded to.
    pub closed spec fn fan_out(&self) -> u64 {
        self.num_peers
    }

    /// The identities of the packets taken in so far.
    pub closed spec fn seen(&self) -> Set<u64> {
        self.seen@
    }

    /// A node that has seen nothing yet.
    pub fn new(node_id: NodeId, neighbors: &Vec<NodeId>, num_peers: u64) -> (node: Node)
        ensures
            node.wf(),
            node.id() == node_id,
            node.neighbor_set() == neighbors@.to_set(),
            node.fan_out() == num_peers,
            node.seen() == Set::<u64>::empty(),
    {
        Node { node_id, neighbors: without_repeats(neighbors), num_peers, seen: HashSet::new() }
    }

    /// The neighbors but `sender`, each once.
    fn candidates(&self, sender: NodeId) -> (candidates: Vec<NodeId>)
        requires
            self.wf(),
        ensures
            candidates@.no_duplicates(),
            candidates@.to_set() == forwarding_candidates(self.neighbor_set(), sender),
    {
        let mut candidates: Vec<NodeId> = Vec::new();
        let mut i: usize = 0;
        while i < self.neighbors.len()
            invariant
                i <= self.neighbors.len(),
                self.neighbors@.no_duplicates(),
                forall|a: int|
                    0 <= a < candidates@.len() ==> exists|b: int|
                        0 <= b < i && self.neighbors@[b] == #[trigger] candidates@[a],
                forall|b: int|
                    0 <= b < i && self.neighbors@[b] != sender ==> candidates@.contains(
                        #[trigger] self.neighbors@[b],
                    ),
                forall|a: int| 0 <= a < candidates@.len() ==> #[trigger] candidates@[a] != sender,
                candidates@.no_duplicates(),
            decreases self.neighbors.len() - i,
        {
            let node = self.neighbors[i];
            if node != sender {
                let ghost before = candidates@;
                assert(!before.contains(node)) by {
                    if before.contains(node) {
                        let a = choose|a: int| 0 <= a < before.len() && before[a] == node;
                        let b = choose|b: int| 0 <= b < i && self.neighbors@[b] == before[a];
                        assert(self.neighbors@[b] == self.neighbors@[i as int]);
                    }
                }
                candidates.push(node);
                assert forall|b: int|
                    0 <= b < i + 1 && self.neighbors@[b] != sender implies candidates@.contains(
                    #[trigger] self.neighbors@[b],
                ) by {
                    if b < i {
                        let a = choose|a: int|
                            0 <= a < before.len() && before[a] == self.neighbors@[b];
                        assert(candidates@[a] == self.neighbors@[b]);
                    } else {
                        assert(candidates@[before.len() as int] == node);
                    }
                }
                assert forall|a: int| 0 <= a < candidates@.len() implies exists|b: int|
                    0 <= b < i + 1 && self.neighbors@[b] == #[trigger] candidates@[a] by {
                    if a < before.len() {
                        let b = choose|b: int| 0 <= b < i && self.neighbors@[b] == before[a];
                        assert(self.neighbors@[b] == candidates@[a]);
                    } else {
                        assert(self.neighbors@[i as int] == candidates@[a]);
                    }
                }
            }
            i += 1;
        }
        assert(candidates@.to_set() =~= forwarding_candidates(self.neighbor_set(), sender)) by {
            assert forall|x: NodeId|
                candidates@.to_set().contains(x) <==> forwarding_candidates(
                    self.neighbor_set(),
                    sender,
                ).contains(x) by {
                if candidates@.contains(x) {
                    let a = choose|a: int| 0 <= a < candidates@.len() && candidates@[a] == x;
                    let b = choose|b: int|
                        0 <= b < self.neighbors@.len() && self.neighbors@[b] == candidates@[a];
                    assert(self.neighbors@.contains(x));
                }
                if self.neighbors@.contains(x) && x != sender {
                    let b = choose|b: int| 0 <= b < self.neighbors@.len() && self.neighbors@[b] == x;
                    assert(candidates@.contains(self.neighbors@[b]));
                }
            }
        }
        candidates
    }

    /// Takes in one packet. A packet seen before is discarded and changes
    /// nothing. Any other is remembered and reported; with hops left it is
    /// also forwarded, one hop shorter and under this node's name, to
    /// neighbors drawn at random from all but the one it came from.
    pub fn handle_packet(&mut self, packet: GossipPacket) -> (action: Action)
        requires
            old(self).wf(),
        ensures
            final(self).wf(),
            final(self).id() == old(self).id(),
            final(self).neighbor_set() == old(self).neighbor_set(),
            final(self).fan_out() == old(self).fan_out(),
            action_allowed(
                old(self).id(),
                old(self).neighbor_set(),
                old(self).fan_out(),
                old(self).seen(),
                packet,
                action,
            ),
            final(self).seen() == old(self).seen().insert(packet.id.0),
    {
        broadcast use group_hash_axioms;

        let is_new_message = self.seen.insert(packet.id.0);
        if !is_new_message {
            assert(self.seen@ =~= old(self).seen@);
            return Action::Discard;
        }
        if packet.ttl == 0 {
            return Action::Deliver { report: packet.id };
        }
        let considered_neighbors = self.candidates(packet.source_id);
        let packet_to_send = GossipPacket::new(
            packet.id,
            self.node_id,
            packet.ttl.saturating_sub(1),
            packet.order,
        );
        proof {
            considered_neighbors@.unique_seq_to_set();
        }
        let neighbor_count = if considered_neighbors.len() as u64 <= self.num_peers {
            considered_neighbors.len()
        } else {
            self.num_peers as usize
        };
        let targets = random_neighbors(&considered_neighbors, neighbor_count);
        Action::Forward { report: packet.id, packet: packet_to_send, targets }
    }

    /// Takes in one packet in its Borsh form; `None`, and no change, where
    /// the bytes hold no packet. What is to be forwarded has a Borsh form.
    pub fn handle_bytes(&mut self, bytes: &SerialiedPacket) -> (action: Option<Action>)
        requires
            old(self).wf(),
        ensures
            final(self).wf(),
            final(self).id() == old(self).id(),
            final(self).neighbor_set() == old(self).neighbor_set(),
            final(self).fan_out() == old(self).fan_out(),
            action is None <==> borsh_decoding(bytes@) is None,
            action is None ==> final(self).seen() == old(self).seen(),
            action matches Some(taken) ==> {
                &&& action_allowed(
                    old(self).id(),
                    old(self).neighbor_set(),
                    old(self).fan_out(),
                    old(self).seen(),
                    borsh_decoding(bytes@)->0,
                    taken,
                )
                &&& final(self).seen() == old(self).seen().insert(borsh_decoding(bytes@)->0.id.0)
                &&& taken matches Action::Forward { packet: sent, .. } ==> sent.order.is_numeric()
            },
    {
        match bytes.try_borsh_deserialize() {
            Some(packet) => Some(self.handle_packet(packet)),
            None => None,
        }
    }
}

} // verus!

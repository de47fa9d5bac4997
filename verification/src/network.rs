//! Node identities and the directed neighbor relation between them.
use crate::sampling::{choose_multiple, lemma_draw_is_distinct};
use vstd::prelude::*;

verus! {

/// Identity of a node.
#[derive(Debug, Eq, Hash, PartialEq, Clone, Copy, Structural)]
pub struct NodeId(pub u64);

impl NodeId {
    pub fn new(id: u64) -> (node: Self)
        ensures
            node == NodeId(id),
    {
        Self(id)
    }
}

/// One node together with the nodes it forwards to.
pub struct Adjacency {
    node: NodeId,
    neighbors: Vec<NodeId>,
}

/// A directed neighbor relation. A node being a neighbor of another does not
/// make the other a neighbor of the first.
pub struct Network {
    entries: Vec<Adjacency>,
}

/// The relation a list of `(node, neighbors)` pairs describes; where a node is
/// listed twice the later pair counts.
pub open spec fn adjacency_map(list: Seq<(NodeId, Vec<NodeId>)>) -> Map<NodeId, Set<NodeId>>
    decreases list.len(),
{
    if list.len() == 0 {
        Map::empty()
    } else {
        adjacency_map(list.drop_last()).insert(list.last().0, list.last().1@.to_set())
    }
}

/// The nodes `0 .. num_nodes`.
pub open spec fn population(num_nodes: u64) -> Set<NodeId> {
    Set::new(|node: NodeId| node.0 < num_nodes)
}

spec fn topology(entries: Seq<Adjacency>) -> Map<NodeId, Set<NodeId>>
    decreases entries.len(),
{
    if entries.len() == 0 {
        Map::empty()
    } else {
        topology(entries.drop_last()).insert(
            entries.last().node,
            entries.last().neighbors@.to_set(),
        )
    }
}

spec fn keys_distinct(entries: Seq<Adjacency>) -> bool {
    forall|i: int, j: int|
        0 <= i < entries.len() && 0 <= j < entries.len() && i != j ==> entries[i].node
            != entries[j].node
}

spec fn lists_distinct(entries: Seq<Adjacency>) -> bool {
    forall|i: int| 0 <= i < entries.len() ==> (#[trigger] entries[i]).neighbors@.no_duplicates()
}

proof fn lemma_topology_dom(entries: Seq<Adjacency>)
    ensures
        topology(entries).dom().finite(),
        forall|node: NodeId|
            topology(entries).dom().contains(node) <==> exists|i: int|
                0 <= i < entries.len() && (#[trigger] entries[i]).node == node,
    decreases entries.len(),
{
    if entries.len() > 0 {
        let rest = entries.drop_last();
        lemma_topology_dom(rest);
        assert forall|node: NodeId|
            topology(entries).dom().contains(node) <==> exists|i: int|
                0 <= i < entries.len() && (#[trigger] entries[i]).node == node by {
            if topology(entries).dom().contains(node) {
                if node == entries.last().node {
                    assert(entries[entries.len() - 1].node == node);
                } else {
                    let i = choose|i: int| 0 <= i < rest.len() && (#[trigger] rest[i]).node == node;
                    assert(entries[i].node == node);
                }
            }
            if exists|i: int| 0 <= i < entries.len() && (#[trigger] entries[i]).node == node {
                let i = choose|i: int|
                    0 <= i < entries.len() && (#[trigger] entries[i]).node == node;
                if i < rest.len() {
                    assert(rest[i].node == node);
                }
            }
        }
    }
}

proof fn lemma_topology_at(entries: Seq<Adjacency>, i: int)
    requires
        keys_distinct(entries),
        0 <= i < entries.len(),
    ensures
        topology(entries).dom().contains(entries[i].node),
        topology(entries)[entries[i].node] == entries[i].neighbors@.to_set(),
    decreases entries.len(),
{
    let rest = entries.drop_last();
    if i < entries.len() - 1 {
        assert(keys_distinct(rest)) by {
            assert forall|a: int, b: int|
                0 <= a < rest.len() && 0 <= b < rest.len() && a != b implies rest[a].node
                != rest[b].node by {
                assert(rest[a] == entries[a] && rest[b] == entries[b]);
            }
        }
        lemma_topology_at(rest, i);
        assert(rest[i] == entries[i]);
        assert(entries[i].node != entries[entries.len() - 1].node);
    }
}

proof fn lemma_topology_is(entries: Seq<Adjacency>, relation: Map<NodeId, Set<NodeId>>)
    requires
        keys_distinct(entries),
        forall|node: NodeId|
            relation.dom().contains(node) <==> exists|i: int|
                0 <= i < entries.len() && (#[trigger] entries[i]).node == node,
        forall|i: int|
            0 <= i < entries.len() ==> relation[(#[trigger] entries[i]).node]
                == entries[i].neighbors@.to_set(),
    ensures
        topology(entries) == relation,
{
    lemma_topology_dom(entries);
    assert forall|node: NodeId| topology(entries).dom().contains(node) implies topology(
        entries,
    )[node] == relation[node] by {
        let i = choose|i: int| 0 <= i < entries.len() && (#[trigger] entries[i]).node == node;
        lemma_topology_at(entries, i);
    }
    assert(topology(entries) =~= relation);
}

pub(crate) fn contains(list: &Vec<NodeId>, node: NodeId) -> (found: bool)
    ensures
        found == list@.contains(node),
{
    let mut i: usize = 0;
    while i < list.len()
        invariant
            i <= list.len(),
            forall|j: int| 0 <= j < i ==> list[j] != node,
        decreases list.len() - i,
    {
        if list[i] == node {
            return true;
        }
        i += 1;
    }
    false
}

pub(crate) fn without_repeats(list: &Vec<NodeId>) -> (kept: Vec<NodeId>)
    ensures
        kept@.no_duplicates(),
        kept@.to_set() == list@.to_set(),
{
    let mut kept: Vec<NodeId> = Vec::new();
    let mut i: usize = 0;
    while i < list.len()
        invariant
            i <= list.len(),
            kept@.no_duplicates(),
            kept@.to_set() == list@.take(i as int).to_set(),
        decreases list.len() - i,
    {
        let node = list[i];
        let ghost before = kept@;
        assert(list@.take(i + 1) =~= list@.take(i as int).push(node));
        if !contains(&kept, node) {
            kept.push(node);
            assert(kept@.no_duplicates());
        }
        assert(kept@.to_set() =~= list@.take(i + 1).to_set()) by {
            assert forall|x: NodeId| kept@.to_set().contains(x) <==> list@.take(
                i + 1,
            ).to_set().contains(x) by {
                let longer = list@.take(i as int).push(node);
                if kept@.contains(x) {
                    if x == node {
                        assert(longer[i as int] == x);
                    } else {
                        if kept@.len() > before.len() {
                            let j = choose|j: int| 0 <= j < kept@.len() && kept@[j] == x;
                            assert(before[j] == x);
                        }
                        assert(before.to_set().contains(x));
                        assert(list@.take(i as int).contains(x));
                        let j = choose|j: int| 0 <= j < i && list@.take(i as int)[j] == x;
                        assert(longer[j] == x);
                    }
                }
                if longer.contains(x) {
                    let j = choose|j: int| 0 <= j < longer.len() && longer[j] == x;
                    if j < i {
                        assert(list@.take(i as int)[j] == x);
                        assert(list@.take(i as int).to_set().contains(x));
                        assert(before.contains(x));
                        let k = choose|k: int| 0 <= k < before.len() && before[k] == x;
                        assert(kept@[k] == x);
                    } else {
                        assert(x == node);
                        if kept@.len() > before.len() {
                            assert(kept@[before.len() as int] == node);
                        }
                    }
                }
            }
        }
        i += 1;
    }
    assert(list@.take(list.len() as int) =~= list@);
    kept
}

impl Network {
    /// No node is held twice, and no neighbor list names a node twice.
    pub closed spec fn wf(&self) -> bool {
        keys_distinct(self.entries@) && lists_distinct(self.entries@)
    }

    /// The relation as a map from each node to the set of its neighbors.
    pub closed spec fn view(&self) -> Map<NodeId, Set<NodeId>> {
        topology(self.entries@)
    }

    /// A network without nodes.
    pub fn empty() -> (network: Network)
        ensures
            network.wf(),
            network@ == Map::<NodeId, Set<NodeId>>::empty(),
    {
        Network { entries: Vec::new() }
    }

    /// The network that a list of `(node, neighbors)` pairs describes. A node
    /// that is listed again replaces its earlier entry, and a neighbor named
    /// twice counts once.
    pub fn new(neighbors: Vec<(NodeId, Vec<NodeId>)>) -> (network: Network)
        ensures
            network.wf(),
            network@ == adjacency_map(neighbors@),
    {
        let mut network = Network::empty();
        let mut i: usize = 0;
        while i < neighbors.len()
            invariant
                i <= neighbors.len(),
                network.wf(),
                network@ == adjacency_map(neighbors@.take(i as int)),
            decreases neighbors.len() - i,
        {
            assert(neighbors@.take(i + 1).drop_last() =~= neighbors@.take(i as int));
            network.insert(neighbors[i].0, &neighbors[i].1);
            i += 1;
        }
        assert(neighbors@.take(neighbors.len() as int) =~= neighbors@);
        network
    }

    /// Sets the neighbors of one node, which joins the network if it is new.
    pub fn insert(&mut self, node_id: NodeId, neighbors: &Vec<NodeId>)
        requires
            old(self).wf(),
        ensures
            final(self).wf(),
            final(self)@ == old(self)@.insert(node_id, neighbors@.to_set()),
    {
        proof {
            lemma_topology_dom(self.entries@);
        }
        let ghost before = self.entries@;
        let entry = Adjacency { node: node_id, neighbors: without_repeats(neighbors) };
        match self.find(node_id) {
            Some(at) => {
                self.entries.set(at, entry);
                proof {
                    let after = self.entries@;
                    let relation = topology(before).insert(node_id, neighbors@.to_set());
                    assert(keys_distinct(after)) by {
                        assert forall|a: int, b: int|
                            0 <= a < after.len() && 0 <= b < after.len() && a != b implies after[a].node
                            != after[b].node by {
                            assert(after[a].node == before[a].node);
                            assert(after[b].node == before[b].node);
                        }
                    }
                    assert forall|node: NodeId|
                        relation.dom().contains(node) <==> exists|i: int|
                            0 <= i < after.len() && (#[trigger] after[i]).node == node by {
                        if relation.dom().contains(node) {
                            if node == node_id {
                                assert(after[at as int].node == node);
                            } else {
                                let i = choose|i: int|
                                    0 <= i < before.len() && (#[trigger] before[i]).node == node;
                                assert(after[i].node == node);
                            }
                        }
                        if exists|i: int|
                            0 <= i < after.len() && (#[trigger] after[i]).node == node {
                            let i = choose|i: int|
                                0 <= i < after.len() && (#[trigger] after[i]).node == node;
                            assert(before[i].node == node);
                        }
                    }
                    assert forall|i: int| 0 <= i < after.len() implies relation[(
                    #[trigger] after[i]).node] == after[i].neighbors@.to_set() by {
                        if i != at {
                            assert(after[i] == before[i]);
                            lemma_topology_at(before, i);
                        }
                    }
                    lemma_topology_is(after, relation);
                }
            },
            None => {
                self.entries.push(entry);
                proof {
                    let after = self.entries@;
                    assert(after.drop_last() =~= before);
                    assert(keys_distinct(after)) by {
                        assert forall|a: int, b: int|
                            0 <= a < after.len() && 0 <= b < after.len() && a != b implies after[a].node
                            != after[b].node by {
                            if a < before.len() {
                                assert(before[a].node == after[a].node);
                            }
                            if b < before.len() {
                                assert(before[b].node == after[b].node);
                            }
                        }
                    }
                }
            },
        }
    }

    /// Draws a network of `num_nodes` nodes in which every node gets
    /// `num_neighbors` neighbors, sampled without replacement from the other
    /// nodes and independently of every other node's draw.
    pub fn generate_network(num_nodes: u64, num_neighbors: u64) -> (network: Network)
        requires
            num_neighbors < num_nodes,
            num_nodes <= usize::MAX,
        ensures
            network.wf(),
            network@.dom() == population(num_nodes),
            forall|node: NodeId| #[trigger]
                population(num_nodes).contains(node) ==> {
                    &&& network@[node].finite()
                    &&& network@[node].len() == num_neighbors
                    &&& !network@[node].contains(node)
                    &&& network@[node].subset_of(population(num_nodes))
                },
    {
        let mut entries: Vec<Adjacency> = Vec::new();
        let mut i: u64 = 0;
        while i < num_nodes
            invariant
                i <= num_nodes,
                num_neighbors < num_nodes <= usize::MAX,
                entries.len() == i,
                forall|t: int|
                    0 <= t < i ==> {
                        &&& (#[trigger] entries[t]).node == NodeId(t as u64)
                        &&& entries[t].neighbors@.no_duplicates()
                        &&& entries[t].neighbors@.len() == num_neighbors
                        &&& forall|x: NodeId|
                            entries[t].neighbors@.contains(x) ==> x.0 < num_nodes && x.0 != t
                    },
            decreases num_nodes - i,
        {
            let possible_neighbors = Network::others(i, num_nodes);
            let neighbors = choose_multiple(&possible_neighbors, num_neighbors as usize);
            proof {
                lemma_draw_is_distinct(possible_neighbors@, neighbors@);
            }
            entries.push(Adjacency { node: NodeId(i), neighbors });
            i += 1;
        }
        let network = Network { entries };
        proof {
            lemma_topology_dom(network.entries@);
            assert(network@.dom() =~= population(num_nodes)) by {
                assert forall|node: NodeId| population(num_nodes).contains(node) implies network@.dom().contains(
                    node,
                ) by {
                    assert(network.entries@[node.0 as int].node == node);
                }
            }
            assert forall|node: NodeId| #[trigger]
                population(num_nodes).contains(node) implies {
                &&& network@[node].finite()
                &&& network@[node].len() == num_neighbors
                &&& !network@[node].contains(node)
                &&& network@[node].subset_of(population(num_nodes))
            } by {
                let t = node.0 as int;
                assert(network.entries@[t].node == node);
                lemma_topology_at(network.entries@, t);
                let list = network.entries@[t].neighbors@;
                vstd::seq_lib::seq_to_set_is_finite(list);
                list.unique_seq_to_set();
            }
        }
        network
    }

    /// The nodes `0 .. num_nodes` but `node`, in rising order.
    fn others(node: u64, num_nodes: u64) -> (others: Vec<NodeId>)
        requires
            node < num_nodes <= usize::MAX,
        ensures
            others@.no_duplicates(),
            others@.len() == num_nodes - 1,
            forall|x: NodeId| others@.contains(x) ==> x.0 < num_nodes && x.0 != node,
    {
        let mut others: Vec<NodeId> = Vec::new();
        let mut j: u64 = 0;
        while j < num_nodes
            invariant
                j <= num_nodes,
                node < num_nodes <= usize::MAX,
                others@.len() == if j <= node {
                    j as int
                } else {
                    j - 1
                },
                forall|a: int| 0 <= a < others@.len() ==> (#[trigger] others@[a]).0 < j && others@[a].0 != node,
                forall|a: int, b: int|
                    0 <= a < b < others@.len() ==> (#[trigger] others@[a]).0 < (#[trigger] others@[b]).0,
            decreases num_nodes - j,
        {
            if j != node {
                others.push(NodeId(j));
            }
            j += 1;
        }
        others
    }

    fn find(&self, node_id: NodeId) -> (at: Option<usize>)
        ensures
            match at {
                Some(i) => i < self.entries.len() && self.entries[i as int].node == node_id,
                None => !self@.dom().contains(node_id),
            },
    {
        let mut i: usize = 0;
        while i < self.entries.len()
            invariant
                i <= self.entries.len(),
                forall|j: int| 0 <= j < i ==> self.entries[j].node != node_id,
            decreases self.entries.len() - i,
        {
            if self.entries[i].node == node_id {
                return Some(i);
            }
            i += 1;
        }
        proof {
            lemma_topology_dom(self.entries@);
        }
        None
    }

    /// The nodes of the network, each once.
    pub fn nodes(&self) -> (nodes: Vec<NodeId>)
        requires
            self.wf(),
        ensures
            nodes@.no_duplicates(),
            nodes@.to_set() == self@.dom(),
    {
        proof {
            lemma_topology_dom(self.entries@);
        }
        let mut nodes: Vec<NodeId> = Vec::new();
        let mut i: usize = 0;
        while i < self.entries.len()
            invariant
                i <= self.entries.len(),
                nodes.len() == i,
                forall|j: int| 0 <= j < i ==> nodes[j] == self.entries[j].node,
            decreases self.entries.len() - i,
        {
            nodes.push(self.entries[i].node);
            i += 1;
        }
        assert(nodes@.no_duplicates());
        assert(nodes@.to_set() =~= self@.dom()) by {
            assert forall|node: NodeId| nodes@.to_set().contains(node) <==> self@.dom().contains(
                node,
            ) by {
                if nodes@.to_set().contains(node) {
                    let j = choose|j: int| 0 <= j < nodes.len() && nodes[j] == node;
                    assert(self.entries[j].node == node);
                }
                if self@.dom().contains(node) {
                    let j = choose|j: int|
                        0 <= j < self.entries.len() && (#[trigger] self.entries[j]).node == node;
                    assert(nodes[j] == node);
                }
            }
        }
        nodes
    }

    /// The neighbors of a node, each once; none for a node the network does
    /// not hold.
    pub fn neighbors(&self, node_id: NodeId) -> (neighbors: Vec<NodeId>)
        requires
            self.wf(),
        ensures
            neighbors@.no_duplicates(),
            neighbors@.to_set() == if self@.dom().contains(node_id) {
                self@[node_id]
            } else {
                Set::empty()
            },
    {
        match self.find(node_id) {
            Some(at) => {
                proof {
                    lemma_topology_at(self.entries@, at as int);
                }
                let list = &self.entries[at].neighbors;
                let mut neighbors: Vec<NodeId> = Vec::new();
                let mut i: usize = 0;
                while i < list.len()
                    invariant
                        i <= list.len(),
                        neighbors@ == list@.take(i as int),
                    decreases list.len() - i,
                {
                    neighbors.push(list[i]);
                    assert(list@.take(i + 1) =~= list@.take(i as int).push(list[i as int]));
                    i += 1;
                }
                assert(list@.take(list.len() as int) =~= list@);
                neighbors
            },
            None => {
                let neighbors: Vec<NodeId> = Vec::new();
                assert(neighbors@.to_set() =~= Set::empty());
                neighbors
            },
        }
    }

    /// One node to inject messages at, or `None` for a network without nodes.
    pub fn entry_node(&self) -> (entry: Option<NodeId>)
        ensures
            entry is None <==> self@.dom().is_empty(),
            entry matches Some(node) ==> self@.dom().contains(node),
    {
        proof {
            lemma_topology_dom(self.entries@);
        }
        if self.entries.len() == 0 {
            assert(self@.dom() =~= Set::empty());
            None
        } else {
            let node = self.entries[0].node;
            assert(self.entries@[0].node == node);
            assert(self@.dom().contains(node));
            Some(node)
        }
    }
}

} // verus!

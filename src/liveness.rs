//! Liveness of the registered nodes: the outcomes of one probe per node,
//! reduced to a map from node identifier to whether the node answered.
use vstd::prelude::*;
use crate::assoc::{
    assoc_map, keys_of, keys_unique, lemma_assoc_absent, lemma_assoc_at, lemma_assoc_dom, lemma_assoc_push,
    lemma_assoc_update,
};
use crate::deploy::{nodes_view, Node};

verus! {

pub open spec fn state_views(e: Seq<(String, bool)>) -> Seq<(Seq<char>, bool)> {
    e.map_values(|p: (String, bool)| (p.0@, p.1))
}

/// Identifiers of the nodes, in order.
pub open spec fn node_ids(nodes: Seq<Node>) -> Seq<Seq<char>> {
    nodes_view(nodes).map_values(|n: (Seq<char>, Seq<char>, Seq<char>)| n.0)
}

/// The liveness map of nodes `ids` whose probes gave `alive`: each
/// identifier maps to its probe's outcome; where an identifier occurs twice,
/// the later probe counts.
pub open spec fn liveness(ids: Seq<Seq<char>>, alive: Seq<bool>) -> Map<Seq<char>, bool> {
    assoc_map(Seq::new(ids.len(), |i: int| (ids[i], alive[i])))
}

/// Whether each node answered its probe, by node identifier.
#[derive(Debug, Clone)]
pub struct NodeStates {
    entries: Vec<(String, bool)>,
}

impl View for NodeStates {
    type V = Map<Seq<char>, bool>;

    closed spec fn view(&self) -> Map<Seq<char>, bool> {
        assoc_map(state_views(self.entries@))
    }
}

impl NodeStates {
    /// No identifier occurs twice.
    pub closed spec fn wf(&self) -> bool {
        keys_unique(state_views(self.entries@))
    }

    fn position(&self, id: &String) -> (r: Option<usize>)
        ensures
            r matches Some(i) ==> i < self.entries@.len() && state_views(self.entries@)[i as int].0 == id@,
            r is None ==> forall|i: int|
                0 <= i < self.entries@.len() ==> (#[trigger] state_views(self.entries@)[i]).0 != id@,
    {
        let mut i: usize = 0;
        while i < self.entries.len()
            invariant
                i <= self.entries@.len(),
                forall|j: int| 0 <= j < i ==> (#[trigger] state_views(self.entries@)[j]).0 != id@,
            decreases self.entries@.len() - i,
        {
            if self.entries[i].0 == *id {
                return Some(i);
            }
            i = i + 1;
        }
        None
    }

    fn set(&mut self, id: String, up: bool)
        requires
            old(self).wf(),
        ensures
            final(self).wf(),
            final(self)@ == old(self)@.insert(id@, up),
    {
        let ghost e = state_views(self.entries@);
        match self.position(&id) {
            Some(i) => {
                proof {
                    lemma_assoc_update(e, i as int, up);
                }
                self.entries.remove(i);
                self.entries.insert(i, (id, up));
                assert(state_views(self.entries@) =~= e.update(i as int, (e[i as int].0, up)));
            },
            None => {
                proof {
                    lemma_assoc_push(e, id@, up);
                }
                self.entries.push((id, up));
                assert(state_views(self.entries@) =~= e.push((id@, up)));
            },
        }
    }

    /// Whether the node `node_id` answered; `None` for a node not probed.
    pub fn get(&self, node_id: &str) -> (r: Option<bool>)
        requires
            self.wf(),
        ensures
            self@.contains_key(node_id@) ==> r == Some(self@[node_id@]),
            !self@.contains_key(node_id@) ==> r is None,
    {
        let k = String::from_str(node_id);
        match self.position(&k) {
            Some(i) => {
                proof {
                    lemma_assoc_at(state_views(self.entries@), i as int);
                }
                Some(self.entries[i].1)
            },
            None => {
                proof {
                    lemma_assoc_absent(state_views(self.entries@), node_id@);
                }
                None
            },
        }
    }

    /// Number of nodes in the map.
    pub fn len(&self) -> (r: usize)
        requires
            self.wf(),
        ensures
            r == self@.dom().len(),
    {
        proof {
            let e = state_views(self.entries@);
            lemma_assoc_dom(e);
            assert(keys_of(e).no_duplicates());
            keys_of(e).unique_seq_to_set();
        }
        self.entries.len()
    }
}

/// Reduces the probes of the registered nodes to their liveness map:
/// `alive[i]` tells whether `nodes[i]` answered its probe.
pub fn reduce_liveness(nodes: &Vec<Node>, alive: &Vec<bool>) -> (r: NodeStates)
    requires
        alive@.len() == nodes@.len(),
    ensures
        r.wf(),
        r@ == liveness(node_ids(nodes@), alive@),
{
    let ghost ids = node_ids(nodes@);
    let ghost pairs = Seq::new(ids.len(), |i: int| (ids[i], alive@[i]));
    let mut states = NodeStates { entries: Vec::new() };
    assert(state_views(states.entries@) =~= Seq::empty());
    let mut i: usize = 0;
    while i < nodes.len()
        invariant
            alive@.len() == nodes@.len(),
            ids == node_ids(nodes@),
            pairs == Seq::new(ids.len(), |i: int| (ids[i], alive@[i])),
            i <= nodes@.len(),
            states.wf(),
            states@ == assoc_map(pairs.subrange(0, i as int)),
        decreases nodes@.len() - i,
    {
        assert(pairs.subrange(0, i + 1).drop_last() =~= pairs.subrange(0, i as int));
        assert(ids[i as int] == nodes@[i as int].node_id@);
        states.set(nodes[i].node_id.clone(), alive[i]);
        i = i + 1;
    }
    assert(pairs.subrange(0, nodes@.len() as int) =~= pairs);
    states
}

/// The liveness map holds every probed identifier and nothing else; each
/// identifier appears once, since a map has one value per key.
pub proof fn liveness_covers_registry(ids: Seq<Seq<char>>, alive: Seq<bool>)
    requires
        alive.len() == ids.len(),
    ensures
        liveness(ids, alive).dom() == ids.to_set(),
{
    let pairs = Seq::new(ids.len(), |i: int| (ids[i], alive[i]));
    lemma_assoc_dom(pairs);
    assert(keys_of(pairs) =~= ids);
}

/// How a node's liveness is shown: `active` for a node that answered its
/// probe, `inactive` for one that did not or was not probed.
pub fn status_label(states: &NodeStates, node_id: &str) -> (r: &'static str)
    requires
        states.wf(),
    ensures
        (states@.contains_key(node_id@) && states@[node_id@]) ==> r@ == "active"@,
        !(states@.contains_key(node_id@) && states@[node_id@]) ==> r@ == "inactive"@,
{
    match states.get(node_id) {
        Some(true) => "active",
        _ => "inactive",
    }
}

} // verus!

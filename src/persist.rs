use vstd::prelude::*;

use crate::error::Error;
use crate::eval::same_ports;
use crate::graph::{source_in, NodeGraph};
use crate::ids::NodeId;
use crate::node::InputTyped;
use crate::registry::NodeRegistry;

verus! {

broadcast use vstd::seq_lib::group_seq_properties;

/// What persists of a node: its kind and the state of each input port.
#[derive(Debug)]
pub struct NodeRecord {
    pub node_type: u128,
    pub inputs: Vec<InputTyped>,
}

/// Graph `g` holds, slot by slot, the kinds and port states of `recs`.
pub open spec fn holds_records(g: NodeGraph, recs: Seq<Option<NodeRecord>>) -> bool {
    &&& g.nodes@.len() == recs.len()
    &&& forall|i: int| 0 <= i < recs.len() ==> match #[trigger] recs[i] {
        None => g.nodes@[i] is None,
        Some(r) => g.nodes@[i] is Some && g.nodes@[i]->Some_0.node_type == r.node_type
            && g.nodes@[i]->Some_0.inputs@ == r.inputs@,
    }
}

/// Slot `x` of the records holds a node.
pub open spec fn slot_held(recs: Seq<Option<NodeRecord>>, x: NodeId) -> bool {
    x.0 < recs.len() && recs[x.0 as int] is Some
}

/// Every record's kind is registered and declares as many inputs as the
/// record has ports.
pub open spec fn kinds_known(registry: NodeRegistry, recs: Seq<Option<NodeRecord>>) -> bool {
    forall|i: int| 0 <= i < recs.len() && (#[trigger] recs[i]) is Some ==> {
        let rec = recs[i]->Some_0;
        &&& registry.def(rec.node_type) is Some
        &&& registry.def(rec.node_type)->Some_0.inputs@.len() == rec.inputs@.len()
    }
}

/// Every connection of the records, and the output, names a slot that holds
/// a record.
pub open spec fn links_held(recs: Seq<Option<NodeRecord>>, output: Option<NodeId>) -> bool {
    &&& forall|i: int, k: int| 0 <= i < recs.len() && (#[trigger] recs[i]) is Some && 0 <= k < recs[i]->Some_0.inputs@.len()
        && (#[trigger] recs[i]->Some_0.inputs@[k]).connected is Some
        ==> slot_held(recs, recs[i]->Some_0.inputs@[k].connected->Some_0.0.node)
    &&& match output {
        Some(o) => slot_held(recs, o),
        None => true,
    }
}

/// Two graphs that hold the same records hold the same nodes.
pub proof fn lemma_records_same_ports(g1: NodeGraph, g2: NodeGraph, recs: Seq<Option<NodeRecord>>)
    requires
        holds_records(g1, recs),
        holds_records(g2, recs),
    ensures
        same_ports(g1, g2),
{
    assert forall|id: NodeId| match #[trigger] g1.node(id) {
        None => g2.node(id) is None,
        Some(n1) => g2.node(id) is Some && g2.node(id)->Some_0.node_type == n1.node_type
            && g2.node(id)->Some_0.inputs@ == n1.inputs@,
    } by {
        if id.0 < recs.len() {
            let i = id.0 as int;
            assert(recs[i] is None ==> g1.nodes@[i] is None);
        }
    }
}

fn copy_ports(ports: &Vec<InputTyped>) -> (r: Vec<InputTyped>)
    ensures
        r@ == ports@,
{
    let mut r: Vec<InputTyped> = Vec::new();
    let mut i: usize = 0;
    while i < ports.len()
        invariant
            i <= ports@.len(),
            r@ == ports@.subrange(0, i as int),
        decreases ports@.len() - i,
    {
        r.push(ports[i].duplicate());
        i = i + 1;
        assert(r@ =~= ports@.subrange(0, i as int));
    }
    assert(ports@.subrange(0, i as int) =~= ports@);
    r
}

impl NodeGraph {
    /// The kind and port states of every node, slot by slot.
    pub fn port_states(&self) -> (r: Vec<Option<NodeRecord>>)
        ensures
            holds_records(*self, r@),
    {
        let mut r: Vec<Option<NodeRecord>> = Vec::new();
        let mut i: usize = 0;
        while i < self.nodes.len()
            invariant
                i <= self.nodes@.len(),
                r@.len() == i,
                forall|j: int| 0 <= j < i ==> match #[trigger] r@[j] {
                    None => self.nodes@[j] is None,
                    Some(rec) => self.nodes@[j] is Some && self.nodes@[j]->Some_0.node_type == rec.node_type
                        && self.nodes@[j]->Some_0.inputs@ == rec.inputs@,
                },
            decreases self.nodes@.len() - i,
        {
            match &self.nodes[i] {
                Some(n) => r.push(Some(NodeRecord { node_type: n.node_type, inputs: copy_ports(&n.inputs) })),
                None => r.push(None),
            }
            i = i + 1;
        }
        r
    }

    /// Rebuilds a graph from records: each node is made by its kind's
    /// factory and takes the recorded port states. Fails on an unknown kind,
    /// on a record whose port count differs from its kind's, and on a
    /// connection or output that names no node of the records.
    pub fn from_port_states(registry: &NodeRegistry, recs: Vec<Option<NodeRecord>>, output: Option<NodeId>) -> (r: Result<NodeGraph, Error>)
        requires
            registry.wf(),
            forall|i: int| 0 <= i < registry.defs@.len() ==> (#[trigger] registry.defs@[i]).inputs@.len() <= u32::MAX,
            recs@.len() <= u64::MAX,
        ensures
            r is Ok <==> kinds_known(*registry, recs@) && links_held(recs@, output),
            match r {
                Ok(g) => g.wf() && holds_records(g, recs@) && g.output == output,
                Err(_) => true,
            },
    {
        let ghost rs = recs@;
        let n = recs.len();
        let mut g = NodeGraph::new();
        let mut i: usize = 0;
        while i < n
            invariant
                n == rs.len(),
                n <= u64::MAX,
                recs@.len() == n,
                rs == recs@,
                i <= n,
                registry.wf(),
                forall|j: int| 0 <= j < registry.defs@.len() ==> (#[trigger] registry.defs@[j]).inputs@.len() <= u32::MAX,
                forall|j: int| 0 <= j < i && (#[trigger] rs[j]) is Some ==> {
                    let rec = rs[j]->Some_0;
                    &&& registry.def(rec.node_type) is Some
                    &&& registry.def(rec.node_type)->Some_0.inputs@.len() == rec.inputs@.len()
                },
                g.nodes@.len() == i,
                g.output is None,
                forall|j: int| 0 <= j < i ==> match #[trigger] rs[j] {
                    None => g.nodes@[j] is None,
                    Some(rec) => g.nodes@[j] is Some && g.nodes@[j]->Some_0.node_type == rec.node_type
                        && g.nodes@[j]->Some_0.inputs@ == rec.inputs@,
                },
                forall|j: int| 0 <= j < i && (#[trigger] g.nodes@[j]) is Some ==> {
                    let m = g.nodes@[j]->Some_0;
                    m.id.0 == j && m.wf()
                },
            decreases n - i,
        {
            match &recs[i] {
                None => g.nodes.push(None),
                Some(rec) => {
                    let made = registry.new_by_id(rec.node_type);
                    if made.is_err() {
                        proof {
                            assert(rs[i as int] is Some);
                            assert(!kinds_known(*registry, rs));
                        }
                        return Err(Error::MissingDefinition);
                    }
                    let mut node = made.unwrap();
                    if node.inputs.len() != rec.inputs.len() {
                        proof {
                            assert(rs[i as int] is Some);
                            assert(!kinds_known(*registry, rs));
                        }
                        return Err(Error::UnknownInput);
                    }
                    node.inputs = copy_ports(&rec.inputs);
                    node.id = NodeId(i as u64);
                    g.nodes.push(Some(node));
                },
            }
            i = i + 1;
        }
        assert(kinds_known(*registry, rs));
        let mut j: usize = 0;
        while j < n
            invariant
                kinds_known(*registry, rs),
                rs == recs@,
                n == rs.len(),
                g.nodes@.len() == n,
                n <= u64::MAX,
                j <= n,
                g.output is None,
                holds_records(g, rs),
                forall|a: int| 0 <= a < n && (#[trigger] g.nodes@[a]) is Some ==> {
                    let m = g.nodes@[a]->Some_0;
                    &&& m.id.0 == a
                    &&& m.wf()
                    &&& (a < j ==> forall|k: int| 0 <= k < m.inputs@.len() ==> source_in(g.nodes@, #[trigger] m.inputs@[k]))
                },
            decreases n - j,
        {
            match &g.nodes[j] {
                None => {},
                Some(m) => {
                    let mut k: usize = 0;
                    while k < m.inputs.len()
                        invariant
                            g.nodes@.len() == n,
                            n == rs.len(),
                            rs == recs@,
                            holds_records(g, rs),
                            j < n,
                            g.nodes@[j as int] == Some(*m),
                            k <= m.inputs@.len(),
                            forall|b: int| 0 <= b < k ==> source_in(g.nodes@, #[trigger] m.inputs@[b]),
                        decreases m.inputs@.len() - k,
                    {
                        if let Some((o, _)) = m.inputs[k].connected {
                            if !g.contains(o.node) {
                                proof {
                                    assert(rs[j as int] is Some);
                                    assert(rs[j as int]->Some_0.inputs@[k as int] == m.inputs@[k as int]);
                                    assert(!slot_held(rs, o.node));
                                    assert(!links_held(rs, output));
                                }
                                return Err(Error::MissingNode(o.node));
                            }
                        }
                        k = k + 1;
                    }
                },
            }
            j = j + 1;
        }
        proof {
            assert forall|i: int, k: int| 0 <= i < rs.len() && (#[trigger] rs[i]) is Some && 0 <= k < rs[i]->Some_0.inputs@.len()
                && (#[trigger] rs[i]->Some_0.inputs@[k]).connected is Some
                implies slot_held(rs, rs[i]->Some_0.inputs@[k].connected->Some_0.0.node) by {
                assert(g.nodes@[i] is Some);
                let m = g.nodes@[i]->Some_0;
                assert(m.inputs@[k] == rs[i]->Some_0.inputs@[k]);
                assert(source_in(g.nodes@, m.inputs@[k]));
            }
        }
        if let Some(o) = output {
            if !g.contains(o) {
                return Err(Error::MissingNode(o));
            }
        }
        g.output = output;
        Ok(g)
    }
}

} // verus!

use vstd::prelude::*;

use crate::definition::resolve_key;
use crate::error::Error;
use crate::ids::{InputId, NodeId, OutputId};
use crate::node::{port_after, severed, severed_all, InputTyped, Node};
use crate::value::{Input, InputKey};

verus! {

broadcast use vstd::seq_lib::group_seq_properties;

/// An arena of nodes and the designated output node. Node `NodeId(k)` lives
/// in slot `k`; a removed node leaves its slot empty, so ids are never reused.
/// Connections are kept in each node's own input state; the connection index
/// is read from there, so the two always agree.
#[derive(Debug)]
pub struct NodeGraph {
    pub nodes: Vec<Option<Node>>,
    pub output: Option<NodeId>,
    /// Counts edits, to tell when the graph needs recompiling.
    pub changed: usize,
}

/// Does port `p` read from a node of graph `nodes`.
pub open spec fn source_in(nodes: Seq<Option<Node>>, p: InputTyped) -> bool {
    match p.connected {
        Some((o, _)) => o.node.0 < nodes.len() && nodes[o.node.0 as int] is Some,
        None => true,
    }
}

/// Setting input `key` of node `id` of graph `g0` to `value` gives graph
/// `g1` and result `r`: a missing node, a connection to a missing node, an
/// unknown key and a state the port refuses all fail and change nothing;
/// disconnecting a port that is not connected succeeds and changes nothing;
/// otherwise the port takes its new state, the node is marked updated, and the
/// output the port was connected to before is returned.
pub open spec fn set_outcome(g0: NodeGraph, id: NodeId, key: InputKey, value: Input, g1: NodeGraph, r: Result<Option<OutputId>, Error>) -> bool {
    match g0.node(id) {
        None => r == Err::<Option<OutputId>, Error>(Error::MissingNode(id)) && g1 == g0,
        Some(n) => match connect_target(value) {
            Some(t) if g0.node(t) is None =>
                r == Err::<Option<OutputId>, Error>(Error::MissingNode(t)) && g1 == g0,
            _ => match resolve_key(n.keys(), key) {
                None => r == Err::<Option<OutputId>, Error>(Error::UnknownInput) && g1 == g0,
                Some(i) => if value is Disconnect && n.inputs@[i].connected is None {
                    r == Ok::<Option<OutputId>, Error>(None) && g1 == g0
                } else {
                    match port_after(n.inputs@[i], value) {
                    Err(e) => r == Err::<Option<OutputId>, Error>(e) && g1 == g0,
                    Ok((p, prev)) => {
                        &&& r == Ok::<Option<OutputId>, Error>(prev)
                        &&& g1.node(id) is Some
                        &&& g1.node(id)->Some_0 == (Node { inputs: g1.node(id)->Some_0.inputs, updated: true, ..n })
                        &&& g1.node(id)->Some_0.inputs@ == n.inputs@.update(i, p)
                        &&& forall|x: NodeId| x != id ==> g1.node(x) == g0.node(x)
                    },
                    }
                },
            },
        },
    }
}

/// The slot of a node id that is below `len`.
pub(crate) fn slot_of(id: NodeId, len: usize) -> (r: usize)
    requires
        id.0 < len,
    ensures
        r == id.0,
{
    id.0 as usize
}

/// Input `inp` of graph `g` is connected to output `out`.
pub open spec fn is_connection(g: NodeGraph, inp: InputId, out: OutputId) -> bool {
    match g.node(inp.node) {
        Some(n) => inp.idx < n.inputs@.len() && n.inputs@[inp.idx as int].connected is Some
            && n.inputs@[inp.idx as int].connected->Some_0.0 == out,
        None => false,
    }
}

/// The node that an edit connects to, if it is a connection.
pub open spec fn connect_target(value: Input) -> Option<NodeId> {
    match value {
        Input::Connect(o, _) => Some(o.node),
        _ => None,
    }
}

impl NodeGraph {
    /// The node with id `id`.
    pub open spec fn node(&self, id: NodeId) -> Option<Node> {
        if id.0 < self.nodes@.len() { self.nodes@[id.0 as int] } else { None }
    }

    /// Every node sits in the slot of its id and is well formed, every
    /// connection reads from a node of the graph, and the output node exists.
    pub open spec fn wf(&self) -> bool {
        &&& self.nodes@.len() <= u64::MAX
        &&& forall|i: int| 0 <= i < self.nodes@.len() && (#[trigger] self.nodes@[i]) is Some ==> {
            let n = self.nodes@[i]->Some_0;
            &&& n.id.0 == i
            &&& n.wf()
            &&& forall|k: int| 0 <= k < n.inputs@.len() ==> source_in(self.nodes@, #[trigger] n.inputs@[k])
        }
        &&& match self.output {
            Some(o) => self.node(o) is Some,
            None => true,
        }
    }

    /// An empty graph.
    pub fn new() -> (r: Self)
        ensures
            r.wf(),
            r.nodes@.len() == 0,
            r.output is None,
    {
        NodeGraph { nodes: Vec::new(), output: None, changed: 0 }
    }

    fn touch(&mut self)
        ensures
            final(self).nodes@ == old(self).nodes@,
            final(self).output == old(self).output,
    {
        self.changed = self.changed.wrapping_add(1);
    }

    /// The edit counter.
    pub fn changed_counter(&self) -> (r: usize)
        ensures
            r == self.changed,
    {
        self.changed
    }

    /// Is `id` a node of the graph.
    pub fn contains(&self, id: NodeId) -> (r: bool)
        ensures
            r == self.node(id) is Some,
    {
        id.0 < self.nodes.len() as u64 && self.nodes[id.0 as usize].is_some()
    }

    /// Adds a node under a fresh id, which it returns.
    pub fn add(&mut self, node: Node) -> (r: NodeId)
        requires
            old(self).wf(),
            old(self).nodes@.len() < u64::MAX,
            node.wf(),
            forall|k: int| 0 <= k < node.inputs@.len() ==> source_in(old(self).nodes@, #[trigger] node.inputs@[k]),
        ensures
            final(self).wf(),
            r.0 == old(self).nodes@.len(),
            final(self).node(r) == Some(Node { id: r, ..node }),
            forall|x: NodeId| x != r ==> final(self).node(x) == old(self).node(x),
            final(self).output == old(self).output,
    {
        let id = NodeId(self.nodes.len() as u64);
        let mut node = node;
        node.id = id;
        let ghost before = self.nodes@;
        self.nodes.push(Some(node));
        self.touch();
        proof {
            assert forall|i: int| 0 <= i < self.nodes@.len() && (#[trigger] self.nodes@[i]) is Some implies {
                let n = self.nodes@[i]->Some_0;
                &&& n.id.0 == i
                &&& n.wf()
                &&& forall|k: int| 0 <= k < n.inputs@.len() ==> source_in(self.nodes@, #[trigger] n.inputs@[k])
            } by {
                let n = self.nodes@[i]->Some_0;
                if i < before.len() {
                    assert(before[i] is Some);
                    assert forall|k: int| 0 <= k < n.inputs@.len() implies source_in(self.nodes@, #[trigger] n.inputs@[k]) by {
                        assert(source_in(before, n.inputs@[k]));
                    }
                } else {
                    assert forall|k: int| 0 <= k < n.inputs@.len() implies source_in(self.nodes@, #[trigger] n.inputs@[k]) by {
                        assert(source_in(before, node.inputs@[k]));
                    }
                }
            }
        }
        id
    }

    /// The node with id `id`.
    pub fn get(&self, id: NodeId) -> (r: Result<&Node, Error>)
        ensures
            match self.node(id) {
                Some(n) => r is Ok && *r->Ok_0 == n,
                None => r == Err::<&Node, Error>(Error::MissingNode(id)),
            },
    {
        if id.0 < self.nodes.len() as u64 {
            match &self.nodes[id.0 as usize] {
                Some(n) => Ok(n),
                None => Err(Error::MissingNode(id)),
            }
        } else {
            Err(Error::MissingNode(id))
        }
    }

    /// Designates the output node; `None` clears it.
    pub fn set_output(&mut self, output: Option<NodeId>) -> (r: Result<(), Error>)
        requires
            old(self).wf(),
        ensures
            final(self).wf(),
            final(self).nodes@ == old(self).nodes@,
            match output {
                Some(id) => if old(self).node(id) is Some {
                    r is Ok && final(self).output == output
                } else {
                    r == Err::<(), Error>(Error::MissingNode(id)) && final(self).output == old(self).output
                },
                None => r is Ok && final(self).output is None,
            },
    {
        if let Some(id) = output {
            if !self.contains(id) {
                return Err(Error::MissingNode(id));
            }
        }
        self.touch();
        self.output = output;
        Ok(())
    }

    /// The designated output node.
    pub fn output(&self) -> (r: Option<NodeId>)
        ensures
            r == self.output,
    {
        self.output
    }

    /// The id of the input port that `key` names on node `id`.
    pub fn get_input_id(&self, id: NodeId, key: &InputKey) -> (r: Result<InputId, Error>)
        requires
            self.wf(),
        ensures
            match self.node(id) {
                None => r == Err::<InputId, Error>(Error::MissingNode(id)),
                Some(n) => match resolve_key(n.keys(), *key) {
                    Some(i) => r == Ok::<InputId, Error>(InputId { node: id, idx: i as u32 }),
                    None => r == Err::<InputId, Error>(Error::UnknownInput),
                },
            },
    {
        let node = self.get(id)?;
        let idx = node.get_input_idx(key)?;
        Ok(InputId { node: id, idx })
    }

    /// The state of the input port that `key` names on node `id`.
    pub fn get_node_input(&self, id: NodeId, key: &InputKey) -> (r: Result<Input, Error>)
        requires
            self.wf(),
        ensures
            match self.node(id) {
                None => r == Err::<Input, Error>(Error::MissingNode(id)),
                Some(n) => match resolve_key(n.keys(), *key) {
                    Some(i) => r == Ok::<Input, Error>(crate::node::port_input(n.inputs@[i])),
                    None => r == Err::<Input, Error>(Error::UnknownInput),
                },
            },
    {
        let node = self.get(id)?;
        node.get_input(key)
    }

    /// Sets the input that `key` names on node `id`, and returns the output it
    /// was connected to before. A connection must lead to a node of the graph.
    /// A refused edit leaves the graph as it was.
    pub fn set_node_input(&mut self, id: NodeId, key: &InputKey, value: Input) -> (r: Result<Option<OutputId>, Error>)
        requires
            old(self).wf(),
        ensures
            final(self).wf(),
            final(self).output == old(self).output,
            set_outcome(*old(self), id, *key, value, *final(self), r),
    {
        let node = self.get(id)?;
        if let Input::Connect(o, _) = &value {
            if !self.contains(o.node) {
                return Err(Error::MissingNode(o.node));
            }
        }
        let i = node.get_input_idx(key)? as usize;
        if let Input::Disconnect = value {
            if node.inputs[i].connected.is_none() {
                return Ok(None);
            }
        }
        let (p, prev) = node.inputs[i].after(value)?;
        let slot = slot_of(id, self.nodes.len());
        assert(self.nodes@[slot as int] == Some(*node));
        let mut taken: Option<Node> = None;
        self.nodes.set_and_swap(slot, &mut taken);
        let ghost old_nodes = old(self).nodes@;
        match taken {
            Some(mut n) => {
                n.inputs.set(i, p);
                n.updated = true;
                self.nodes.set(slot, Some(n));
            },
            None => {},
        }
        self.touch();
        proof {
            assert forall|j: int| 0 <= j < self.nodes@.len() && (#[trigger] self.nodes@[j]) is Some implies {
                let m = self.nodes@[j]->Some_0;
                &&& m.id.0 == j
                &&& m.wf()
                &&& forall|k: int| 0 <= k < m.inputs@.len() ==> source_in(self.nodes@, #[trigger] m.inputs@[k])
            } by {
                let m = self.nodes@[j]->Some_0;
                assert(old_nodes[j] is Some);
                assert forall|k: int| 0 <= k < m.inputs@.len() implies source_in(self.nodes@, #[trigger] m.inputs@[k]) by {
                    if j != slot || k != i {
                        assert(source_in(old_nodes, old_nodes[j]->Some_0.inputs@[k]));
                    }
                }
            }
        }
        Ok(prev)
    }

    /// Sets an input port by id.
    pub fn set_input(&mut self, input_id: InputId, value: Input) -> (r: Result<Option<OutputId>, Error>)
        requires
            old(self).wf(),
        ensures
            final(self).wf(),
            final(self).output == old(self).output,
            set_outcome(*old(self), input_id.node, InputKey::Idx(input_id.idx), value, *final(self), r),
    {
        self.set_node_input(input_id.node, &InputKey::Idx(input_id.idx), value)
    }

    /// Disconnects an input port.
    pub fn disconnect(&mut self, input: InputId) -> (r: Result<(), Error>)
        requires
            old(self).wf(),
        ensures
            final(self).wf(),
            final(self).output == old(self).output,
            exists|s: Result<Option<OutputId>, Error>| set_outcome(*old(self), input.node, InputKey::Idx(input.idx), Input::Disconnect, *final(self), s)
                && (r is Ok <==> s is Ok) && (s is Err ==> r == Err::<(), Error>(s->Err_0)),
    {
        let s = self.set_input(input, Input::Disconnect);
        match s {
            Ok(_) => Ok(()),
            Err(e) => Err(e),
        }
    }

    /// Connects an input port to an output of declared type `dt`.
    pub fn connect(&mut self, input: InputId, output: OutputId, dt: crate::types::DataType) -> (r: Result<(), Error>)
        requires
            old(self).wf(),
        ensures
            final(self).wf(),
            final(self).output == old(self).output,
            exists|s: Result<Option<OutputId>, Error>| set_outcome(*old(self), input.node, InputKey::Idx(input.idx), Input::Connect(output, Some(dt)), *final(self), s)
                && (r is Ok <==> s is Ok) && (s is Err ==> r == Err::<(), Error>(s->Err_0)),
    {
        let s = self.set_input(input, Input::Connect(output, Some(dt)));
        match s {
            Ok(_) => Ok(()),
            Err(e) => Err(e),
        }
    }

    /// Removes node `id`, first disconnecting every input of another node that
    /// reads from it; clears the designated output if it was that node.
    pub fn remove(&mut self, id: NodeId) -> (r: Option<Node>)
        requires
            old(self).wf(),
        ensures
            final(self).wf(),
            r == old(self).node(id),
            final(self).node(id) is None,
            final(self).nodes@.len() == old(self).nodes@.len(),
            old(self).node(id) is None ==> *final(self) == *old(self),
            old(self).node(id) is Some ==> forall|x: NodeId| x != id ==> match #[trigger] old(self).node(x) {
                None => final(self).node(x) is None,
                Some(n) => final(self).node(x) is Some
                    && final(self).node(x)->Some_0 == (Node { inputs: final(self).node(x)->Some_0.inputs, ..n })
                    && final(self).node(x)->Some_0.inputs@ == severed_all(n.inputs@, id),
            },
            final(self).output == if old(self).output == Some(id) { None } else { old(self).output },
    {
        if !self.contains(id) {
            return None;
        }
        let ghost old_nodes = old(self).nodes@;
        let slot = slot_of(id, self.nodes.len());
        let mut j: usize = 0;
        while j < self.nodes.len()
            invariant
                self.wf(),
                self.output == old(self).output,
                self.nodes@.len() == old_nodes.len(),
                j <= old_nodes.len(),
                slot < old_nodes.len(),
                old_nodes[slot as int] is Some,
                self.nodes@[slot as int] == old_nodes[slot as int],
                forall|k: int| 0 <= k < old_nodes.len() ==> (#[trigger] self.nodes@[k] is Some <==> old_nodes[k] is Some),
                forall|k: int| j <= k < old_nodes.len() ==> #[trigger] self.nodes@[k] == old_nodes[k],
                forall|k: int| 0 <= k < j && k != slot && #[trigger] old_nodes[k] is Some ==> {
                    let n = old_nodes[k]->Some_0;
                    &&& self.nodes@[k]->Some_0 == (Node { inputs: self.nodes@[k]->Some_0.inputs, ..n })
                    &&& self.nodes@[k]->Some_0.inputs@ == severed_all(n.inputs@, id)
                },
            decreases old_nodes.len() - j,
        {
            if j != slot {
                let mut taken: Option<Node> = None;
                let ghost before = self.nodes@;
                self.nodes.set_and_swap(j, &mut taken);
                match taken {
                    Some(mut n) => {
                        n.sever(id);
                        self.nodes.set(j, Some(n));
                    },
                    None => {
                        self.nodes.set(j, None);
                    },
                }
                proof {
                    assert forall|i: int| 0 <= i < self.nodes@.len() && (#[trigger] self.nodes@[i]) is Some implies {
                        let m = self.nodes@[i]->Some_0;
                        &&& m.id.0 == i
                        &&& m.wf()
                        &&& forall|k: int| 0 <= k < m.inputs@.len() ==> source_in(self.nodes@, #[trigger] m.inputs@[k])
                    } by {
                        let m = self.nodes@[i]->Some_0;
                        assert(before[i] is Some);
                        assert forall|k: int| 0 <= k < m.inputs@.len() implies source_in(self.nodes@, #[trigger] m.inputs@[k]) by {
                            assert(source_in(before, before[i]->Some_0.inputs@[k]));
                        }
                    }
                }
            }
            j = j + 1;
        }
        let ghost mid = self.nodes@;
        let mut taken: Option<Node> = None;
        self.nodes.set_and_swap(slot, &mut taken);
        if let Some(o) = self.output {
            if o == id {
                self.output = None;
            }
        }
        self.touch();
        proof {
            assert forall|i: int| 0 <= i < self.nodes@.len() && (#[trigger] self.nodes@[i]) is Some implies {
                let m = self.nodes@[i]->Some_0;
                &&& m.id.0 == i
                &&& m.wf()
                &&& forall|k: int| 0 <= k < m.inputs@.len() ==> source_in(self.nodes@, #[trigger] m.inputs@[k])
            } by {
                let m = self.nodes@[i]->Some_0;
                assert(mid[i] is Some);
                assert(old_nodes[i] is Some);
                assert forall|k: int| 0 <= k < m.inputs@.len() implies source_in(self.nodes@, #[trigger] m.inputs@[k]) by {
                    let n = old_nodes[i]->Some_0;
                    assert(source_in(old_nodes, n.inputs@[k]));
                    assert(m.inputs@[k] == severed(n.inputs@[k], id));
                }
            }
            assert forall|x: NodeId| x != id implies match #[trigger] old(self).node(x) {
                None => self.node(x) is None,
                Some(n) => self.node(x) is Some
                    && self.node(x)->Some_0 == (Node { inputs: self.node(x)->Some_0.inputs, ..n })
                    && self.node(x)->Some_0.inputs@ == severed_all(n.inputs@, id),
            } by {
                if x.0 < old_nodes.len() {
                    assert(x.0 != slot);
                }
            }
        }
        taken
    }


    /// The connection index: every connected input with the output it reads,
    /// by node slot and port order.
    pub fn connections(&self) -> (r: Vec<(InputId, OutputId)>)
        requires
            self.wf(),
        ensures
            forall|i: int| 0 <= i < r@.len() ==> is_connection(*self, (#[trigger] r@[i]).0, r@[i].1),
            forall|inp: InputId, out: OutputId| #[trigger] is_connection(*self, inp, out) ==> r@.contains((inp, out)),
    {
        let mut r: Vec<(InputId, OutputId)> = Vec::new();
        let mut j: usize = 0;
        while j < self.nodes.len()
            invariant
                self.wf(),
                j <= self.nodes@.len(),
                forall|i: int| 0 <= i < r@.len() ==> is_connection(*self, (#[trigger] r@[i]).0, r@[i].1),
                forall|inp: InputId, out: OutputId| #[trigger] is_connection(*self, inp, out) && inp.node.0 < j ==> r@.contains((inp, out)),
            decreases self.nodes@.len() - j,
        {
            match &self.nodes[j] {
                None => {},
                Some(n) => {
                    let id = NodeId(j as u64);
                    assert(self.node(id) == Some(*n));
                    let mut k: usize = 0;
                    while k < n.inputs.len()
                        invariant
                            self.wf(),
                            j < self.nodes@.len(),
                            self.node(id) == Some(*n),
                            id.0 == j,
                            k <= n.inputs@.len(),
                            n.inputs@.len() <= u32::MAX,
                            forall|i: int| 0 <= i < r@.len() ==> is_connection(*self, (#[trigger] r@[i]).0, r@[i].1),
                            forall|inp: InputId, out: OutputId| #[trigger] is_connection(*self, inp, out) && (inp.node.0 < j || (inp.node.0 == j && inp.idx < k)) ==> r@.contains((inp, out)),
                        decreases n.inputs@.len() - k,
                    {
                        if let Some((o, _)) = n.inputs[k].connected {
                            let inp = InputId { node: id, idx: k as u32 };
                            let ghost before = r@;
                            r.push((inp, o));
                            proof {
                                assert(r@[before.len() as int] == (inp, o));
                                assert forall|a: InputId, b: OutputId| #[trigger] is_connection(*self, a, b) && (a.node.0 < j || (a.node.0 == j && a.idx < k + 1)) implies r@.contains((a, b)) by {
                                    if a.node.0 == j && a.idx == k {
                                        assert(a == inp);
                                        assert(r@[before.len() as int] == (a, b));
                                    } else {
                                        assert(before.contains((a, b)));
                                        let w = choose|w: int| 0 <= w < before.len() && before[w] == (a, b);
                                        assert(r@[w] == (a, b));
                                    }
                                }
                            }
                        }
                        k = k + 1;
                    }
                },
            }
            j = j + 1;
        }
        r
    }


    /// Sets the parameter named `name` of node `id`; a refused setting leaves
    /// the graph as it was.
    pub fn set_node_param(&mut self, id: NodeId, name: &str, value: crate::parameters::ParameterValue) -> (r: Result<(), Error>)
        requires
            old(self).wf(),
        ensures
            final(self).wf(),
            final(self).output == old(self).output,
            match old(self).node(id) {
                None => r == Err::<(), Error>(Error::MissingNode(id)) && *final(self) == *old(self),
                Some(n) => match crate::definition::first_index(crate::definition::texts(n.param_keys@), name@) {
                    None => r == Err::<(), Error>(Error::UnknownParameter) && *final(self) == *old(self),
                    Some(i) => match crate::parameters::parameter_accepts(n.param_types@[i], value) {
                        Err(e) => r == Err::<(), Error>(e) && *final(self) == *old(self),
                        Ok(_) => {
                            &&& r is Ok
                            &&& final(self).node(id) is Some
                            &&& final(self).node(id)->Some_0 == (Node { params: final(self).node(id)->Some_0.params, updated: true, ..n })
                            &&& final(self).node(id)->Some_0.params@ == n.params@.update(i, value)
                            &&& forall|x: NodeId| x != id ==> final(self).node(x) == old(self).node(x)
                        },
                    },
                },
            },
    {
        let node = self.get(id)?;
        let key = String::from_str(name);
        let i = match crate::definition::find_name(&node.param_keys, &key) {
            Some(i) => i,
            None => {
                return Err(Error::UnknownParameter);
            },
        };
        node.param_types[i].validate(&value)?;
        let slot = slot_of(id, self.nodes.len());
        assert(self.nodes@[slot as int] == Some(*node));
        let mut taken: Option<Node> = None;
        self.nodes.set_and_swap(slot, &mut taken);
        let ghost old_nodes = old(self).nodes@;
        match taken {
            Some(mut n) => {
                n.params.set(i, value);
                n.updated = true;
                self.nodes.set(slot, Some(n));
            },
            None => {},
        }
        self.touch();
        proof {
            assert forall|j: int| 0 <= j < self.nodes@.len() && (#[trigger] self.nodes@[j]) is Some implies {
                let m = self.nodes@[j]->Some_0;
                &&& m.id.0 == j
                &&& m.wf()
                &&& forall|k: int| 0 <= k < m.inputs@.len() ==> source_in(self.nodes@, #[trigger] m.inputs@[k])
            } by {
                let m = self.nodes@[j]->Some_0;
                assert(old_nodes[j] is Some);
                assert forall|k: int| 0 <= k < m.inputs@.len() implies source_in(self.nodes@, #[trigger] m.inputs@[k]) by {
                    assert(source_in(old_nodes, old_nodes[j]->Some_0.inputs@[k]));
                }
            }
        }
        Ok(())
    }

}

} // verus!

use vstd::prelude::*;

use crate::compiled::CompiledValue;
use crate::error::Error;
use crate::types::DataType;
use crate::graph::NodeGraph;
use crate::ids::NodeId;
use crate::node::Node;
use crate::value::Value;

verus! {

/// The compile-time logic of the node kinds in a graph.
pub trait NodeImpl {
    /// The target-language text of a literal value.
    fn literal(&self, value: &Value) -> CompiledValue;

    /// The variable prefix, expression and type of each output of `node`,
    /// from the compiled values of its inputs in declared order, after its
    /// dynamic inputs were brought to one concrete type.
    fn compile(&self, node: &Node, inputs: &Vec<CompiledValue>) -> Result<Vec<(String, String, DataType)>, Error>;
}

/// Kind logic may be called on any input and gives the same result for the
/// same kind and input values: what a node computes is a function of them.
pub open spec fn deterministic<F: Fn(u128, Vec<Value>) -> Result<Value, Error>>(f: F) -> bool {
    &&& forall|kind: u128, v: Vec<Value>| #[trigger] f.requires((kind, v))
    &&& forall|kind: u128, v1: Vec<Value>, v2: Vec<Value>, r1: Result<Value, Error>, r2: Result<Value, Error>|
        v1@ == v2@ && #[trigger] f.ensures((kind, v1), r1) && #[trigger] f.ensures((kind, v2), r2) ==> r1 == r2
}

/// Kind logic that never fails.
pub open spec fn total<F: Fn(u128, Vec<Value>) -> Result<Value, Error>>(f: F) -> bool {
    forall|kind: u128, v: Vec<Value>, r: Result<Value, Error>| #[trigger] f.ensures((kind, v), r) ==> r is Ok
}

/// Kind logic `f` may return `r` for kind `kind` and input values `vs`.
pub open spec fn produces<F: Fn(u128, Vec<Value>) -> Result<Value, Error>>(f: F, kind: u128, vs: Seq<Value>, r: Result<Value, Error>) -> bool {
    exists|v: Vec<Value>| v@ == vs && #[trigger] f.ensures((kind, v), r)
}

/// What kind logic `f` computes for a node of kind `kind` from input values `vs`.
pub open spec fn kind_result<F: Fn(u128, Vec<Value>) -> Result<Value, Error>>(f: F, kind: u128, vs: Seq<Value>) -> Result<Value, Error> {
    choose|r: Result<Value, Error>| #[trigger] produces(f, kind, vs, r)
}

/// The value of node `id` when evaluated to a depth of at most `fuel` nodes:
/// its kind's logic applied to its input values. Running out of depth is a
/// cycle.
pub open spec fn node_value<F: Fn(u128, Vec<Value>) -> Result<Value, Error>>(f: F, g: NodeGraph, id: NodeId, fuel: nat) -> Result<Value, Error>
    decreases fuel, 0nat,
{
    if fuel == 0 {
        Err(Error::Cycle(id))
    } else {
        match g.node(id) {
            None => Err(Error::MissingNode(id)),
            Some(n) => match input_values(f, g, n, n.inputs@.len(), (fuel - 1) as nat) {
                Err(e) => Err(e),
                Ok(vs) => kind_result(f, n.node_type, vs),
            },
        }
    }
}

/// The values of the first `count` inputs of `n`, in order; the first
/// failure among them, if any.
pub open spec fn input_values<F: Fn(u128, Vec<Value>) -> Result<Value, Error>>(f: F, g: NodeGraph, n: Node, count: nat, fuel: nat) -> Result<Seq<Value>, Error>
    decreases fuel, count,
{
    if count == 0 || count > n.inputs@.len() {
        Ok(Seq::empty())
    } else {
        match input_values(f, g, n, (count - 1) as nat, fuel) {
            Err(e) => Err(e),
            Ok(vs) => match n.inputs@[count - 1].connected {
                Some((o, _)) => match node_value(f, g, o.node, fuel) {
                    Err(e) => Err(e),
                    Ok(v) => Ok(vs.push(v)),
                },
                None => Ok(vs.push(n.inputs@[count - 1].value)),
            },
        }
    }
}

/// A node's value does not change with more depth once it has one.
pub proof fn lemma_node_value_mono<F: Fn(u128, Vec<Value>) -> Result<Value, Error>>(f: F, g: NodeGraph, id: NodeId, f1: nat, f2: nat)
    requires
        f1 <= f2,
        node_value(f, g, id, f1) is Ok,
    ensures
        node_value(f, g, id, f2) == node_value(f, g, id, f1),
    decreases f1, 0nat,
{
    if f1 > 0 {
        let n = g.node(id)->Some_0;
        lemma_input_values_mono(f, g, n, n.inputs@.len(), (f1 - 1) as nat, (f2 - 1) as nat);
    }
}

/// Input values do not change with more depth once they are computed.
pub proof fn lemma_input_values_mono<F: Fn(u128, Vec<Value>) -> Result<Value, Error>>(f: F, g: NodeGraph, n: Node, count: nat, f1: nat, f2: nat)
    requires
        f1 <= f2,
        input_values(f, g, n, count, f1) is Ok,
    ensures
        input_values(f, g, n, count, f2) == input_values(f, g, n, count, f1),
    decreases f1, count,
{
    if count > 0 && count <= n.inputs@.len() {
        lemma_input_values_mono(f, g, n, (count - 1) as nat, f1, f2);
        match n.inputs@[count - 1].connected {
            Some((o, _)) => {
                lemma_node_value_mono(f, g, o.node, f1, f2);
            },
            None => {},
        }
    }
}

/// Two successful evaluations of a node agree, whatever depth they used.
pub proof fn lemma_evaluate_deterministic<F: Fn(u128, Vec<Value>) -> Result<Value, Error>>(f: F, g: NodeGraph, id: NodeId, f1: nat, f2: nat)
    requires
        node_value(f, g, id, f1) is Ok,
        node_value(f, g, id, f2) is Ok,
    ensures
        node_value(f, g, id, f1) == node_value(f, g, id, f2),
{
    if f1 <= f2 {
        lemma_node_value_mono(f, g, id, f1, f2);
    } else {
        lemma_node_value_mono(f, g, id, f2, f1);
    }
}

/// Node `a` reads from node `b`: an input of `a` is connected to an output of `b`.
pub open spec fn reads_from(g: NodeGraph, a: NodeId, b: NodeId) -> bool {
    match g.node(a) {
        Some(n) => exists|j: int| 0 <= j < n.inputs@.len() && #[trigger] n.inputs@[j].connected is Some
            && n.inputs@[j].connected->Some_0.0.node == b,
        None => false,
    }
}

/// `path` returns to its start, each node reading from the next.
pub open spec fn is_cycle(g: NodeGraph, path: Seq<NodeId>) -> bool {
    &&& path.len() >= 2
    &&& path[0] == path.last()
    &&& forall|i: int| 0 <= i < path.len() - 1 ==> #[trigger] reads_from(g, path[i], path[i + 1])
}

/// Where the first `count` inputs of a node have values, every connected one
/// among them reads from a node that has a value.
pub proof fn lemma_inputs_ok<F: Fn(u128, Vec<Value>) -> Result<Value, Error>>(f: F, g: NodeGraph, n: Node, count: nat, fuel: nat, j: int)
    requires
        input_values(f, g, n, count, fuel) is Ok,
        0 <= j < count <= n.inputs@.len(),
        n.inputs@[j].connected is Some,
    ensures
        node_value(f, g, n.inputs@[j].connected->Some_0.0.node, fuel) is Ok,
    decreases count,
{
    if j < count - 1 {
        lemma_inputs_ok(f, g, n, (count - 1) as nat, fuel, j);
    }
}

/// An input without a value leaves the node's inputs without values.
pub proof fn lemma_input_err<F: Fn(u128, Vec<Value>) -> Result<Value, Error>>(f: F, g: NodeGraph, n: Node, count: nat, fuel: nat, j: int)
    requires
        0 <= j < count <= n.inputs@.len(),
        n.inputs@[j].connected is Some,
        node_value(f, g, n.inputs@[j].connected->Some_0.0.node, fuel) is Err,
    ensures
        input_values(f, g, n, count, fuel) is Err,
    decreases count,
{
    if j < count - 1 {
        lemma_input_err(f, g, n, (count - 1) as nat, fuel, j);
    }
}

/// No node on a cycle of connections has a value, at any depth.
pub proof fn lemma_cycle_never_evaluates<F: Fn(u128, Vec<Value>) -> Result<Value, Error>>(f: F, g: NodeGraph, path: Seq<NodeId>, fuel: nat)
    requires
        is_cycle(g, path),
    ensures
        forall|i: int| 0 <= i < path.len() ==> (#[trigger] node_value(f, g, path[i], fuel)) is Err,
    decreases fuel,
{
    if fuel > 0 {
        lemma_cycle_never_evaluates(f, g, path, (fuel - 1) as nat);
        assert forall|i: int| 0 <= i < path.len() implies (#[trigger] node_value(f, g, path[i], fuel)) is Err by {
            let a = if i < path.len() - 1 { i } else { 0 };
            assert(path[a] == path[i]);
            assert(reads_from(g, path[a], path[a + 1]));
            if node_value(f, g, path[i], fuel) is Ok {
                let n = g.node(path[a])->Some_0;
                let j = choose|j: int| 0 <= j < n.inputs@.len() && #[trigger] n.inputs@[j].connected is Some
                    && n.inputs@[j].connected->Some_0.0.node == path[a + 1];
                lemma_inputs_ok(f, g, n, n.inputs@.len(), (fuel - 1) as nat, j);
                assert(node_value(f, g, path[a + 1], (fuel - 1) as nat) is Err);
            }
        }
    }
}

/// Where the designated output node lies on a cycle of connections, no
/// evaluation of the graph yields a value; with kind logic that never fails
/// (`total`), the contract of `evaluate` then leaves only a cycle error.
pub proof fn lemma_cycle_fails<F: Fn(u128, Vec<Value>) -> Result<Value, Error>>(f: F, g: NodeGraph, path: Seq<NodeId>)
    requires
        is_cycle(g, path),
        g.output == Some(path[0]),
    ensures
        forall|d: nat| (#[trigger] node_value(f, g, path[0], d)) is Err,
{
    assert forall|d: nat| (#[trigger] node_value(f, g, path[0], d)) is Err by {
        lemma_cycle_never_evaluates(f, g, path, d);
    }
}

/// Two graphs hold the same nodes in the same slots: the same kinds with the
/// same port states.
pub open spec fn same_ports(g1: NodeGraph, g2: NodeGraph) -> bool {
    forall|id: NodeId| match #[trigger] g1.node(id) {
        None => g2.node(id) is None,
        Some(n1) => g2.node(id) is Some && g2.node(id)->Some_0.node_type == n1.node_type
            && g2.node(id)->Some_0.inputs@ == n1.inputs@,
    }
}

/// Nodes with the same kinds and port states have the same values.
pub proof fn lemma_same_ports_value<F: Fn(u128, Vec<Value>) -> Result<Value, Error>>(f: F, g1: NodeGraph, g2: NodeGraph, id: NodeId, fuel: nat)
    requires
        same_ports(g1, g2),
    ensures
        node_value(f, g1, id, fuel) == node_value(f, g2, id, fuel),
    decreases fuel, 0nat,
{
    if fuel > 0 {
        match g1.node(id) {
            Some(n1) => {
                let n2 = g2.node(id)->Some_0;
                lemma_same_ports_inputs(f, g1, g2, n1, n2, n1.inputs@.len(), (fuel - 1) as nat);
            },
            None => {},
        }
    }
}

/// Ports with the same states read the same values.
pub proof fn lemma_same_ports_inputs<F: Fn(u128, Vec<Value>) -> Result<Value, Error>>(f: F, g1: NodeGraph, g2: NodeGraph, n1: Node, n2: Node, count: nat, fuel: nat)
    requires
        same_ports(g1, g2),
        n1.inputs@ == n2.inputs@,
    ensures
        input_values(f, g1, n1, count, fuel) == input_values(f, g2, n2, count, fuel),
    decreases fuel, count,
{
    if count > 0 && count <= n1.inputs@.len() {
        lemma_same_ports_inputs(f, g1, g2, n1, n2, (count - 1) as nat, fuel);
        match n1.inputs@[count - 1].connected {
            Some((o, _)) => {
                lemma_same_ports_value(f, g1, g2, o.node, fuel);
            },
            None => {},
        }
    }
}

/// Round trip: a graph rebuilt from the kinds and port states of another, with
/// the same output node, evaluates to the same value.
pub proof fn lemma_round_trip<F: Fn(u128, Vec<Value>) -> Result<Value, Error>>(f: F, g1: NodeGraph, g2: NodeGraph, f1: nat, f2: nat)
    requires
        same_ports(g1, g2),
        g1.output == g2.output,
        g1.output is Some,
        node_value(f, g1, g1.output->Some_0, f1) is Ok,
        node_value(f, g2, g2.output->Some_0, f2) is Ok,
    ensures
        node_value(f, g1, g1.output->Some_0, f1) == node_value(f, g2, g2.output->Some_0, f2),
{
    let id = g1.output->Some_0;
    lemma_same_ports_value(f, g1, g2, id, f2);
    lemma_evaluate_deterministic(f, g1, id, f1, f2);
}

/// Where a node evaluated at this point of one run.
#[derive(Debug)]
pub enum NodeEvalState {
    NotStarted,
    Processing,
    Cached(Value),
}

/// The per-run state of an evaluation: one entry per node slot of the graph.
pub struct NodeGraphExecution {
    pub nodes: Vec<NodeEvalState>,
    /// The nodes whose logic ran in this run, in order.
    pub computed: Ghost<Seq<NodeId>>,
}

/// Node `x` is a cache-eligible node of `g`.
pub open spec fn cached_kind(g: NodeGraph, x: NodeId) -> bool {
    g.node(x) is Some && g.node(x)->Some_0.cache_output
}

/// No cache-eligible node occurs twice in `log`.
pub open spec fn computed_once(g: NodeGraph, log: Seq<NodeId>) -> bool {
    forall|i: int, j: int| 0 <= i < j < log.len() && #[trigger] log[i] == #[trigger] log[j] ==> !cached_kind(g, log[i])
}

/// The depth budget of an evaluation of `g`: one more than its node slots.
pub open spec fn budget(g: NodeGraph) -> nat {
    if g.nodes@.len() < usize::MAX { (g.nodes@.len() + 1) as nat } else { g.nodes@.len() }
}

/// Node `id` has a value when evaluated to a depth of at most `fuel`.
pub open spec fn has_value_within<F: Fn(u128, Vec<Value>) -> Result<Value, Error>>(f: F, g: NodeGraph, id: NodeId, fuel: nat) -> bool {
    exists|d: nat| d <= fuel && (#[trigger] node_value(f, g, id, d)) is Ok
}

/// `chain` is a path of reads that ends at a node reading from `id`.
pub open spec fn leads_to(g: NodeGraph, chain: Seq<NodeId>, id: NodeId) -> bool {
    &&& forall|i: int| 0 <= i < chain.len() - 1 ==> #[trigger] reads_from(g, chain[i], chain[i + 1])
    &&& chain.len() > 0 ==> reads_from(g, chain.last(), id)
}

/// A node reached again along a path of reads lies on a cycle, so it has no
/// value.
pub proof fn lemma_revisit_has_no_value<F: Fn(u128, Vec<Value>) -> Result<Value, Error>>(f: F, g: NodeGraph, chain: Seq<NodeId>, id: NodeId, j: int, d: nat)
    requires
        leads_to(g, chain, id),
        0 <= j < chain.len(),
        chain[j] == id,
    ensures
        node_value(f, g, id, d) is Err,
{
    let path = chain.subrange(j, chain.len() as int).push(id);
    assert(path[0] == id);
    assert forall|i: int| 0 <= i < path.len() - 1 implies #[trigger] reads_from(g, path[i], path[i + 1]) by {
        if i < path.len() - 2 {
            assert(path[i] == chain[j + i]);
            assert(path[i + 1] == chain[j + i + 1]);
        } else {
            assert(path[i] == chain.last());
        }
    }
    assert(is_cycle(g, path));
    lemma_cycle_never_evaluates(f, g, path, d);
}

impl NodeGraphExecution {
    /// The cache holds only values that the nodes have.
    pub open spec fn inv<F: Fn(u128, Vec<Value>) -> Result<Value, Error>>(&self, f: F, g: NodeGraph) -> bool {
        &&& self.nodes@.len() == g.nodes@.len()
        &&& forall|i: int| 0 <= i < self.nodes@.len() ==> match #[trigger] self.nodes@[i] {
            NodeEvalState::Cached(v) => exists|d: nat| #[trigger] node_value(f, g, NodeId(i as u64), d) == Ok::<Value, Error>(v),
            _ => true,
        }
    }

    /// A cache-eligible node has run its logic only once it is cached, and
    /// at most once.
    pub open spec fn log_inv(&self, g: NodeGraph) -> bool {
        &&& computed_once(g, self.computed@)
        &&& forall|i: int| 0 <= i < self.nodes@.len() && cached_kind(g, NodeId(i as u64)) && !(#[trigger] self.nodes@[i] is Cached)
            ==> !self.computed@.contains(NodeId(i as u64))
    }

    /// Entries that are being computed or cached stay so.
    pub open spec fn keeps_progress(&self, old: NodeGraphExecution) -> bool {
        forall|i: int| 0 <= i < old.nodes@.len() ==> (#[trigger] old.nodes@[i] is Processing ==> self.nodes@[i] is Processing)
            && (old.nodes@[i] is Cached ==> self.nodes@[i] is Cached)
    }

    /// An empty run.
    pub fn new() -> (r: Self)
        ensures
            r.nodes@.len() == 0,
            r.computed@.len() == 0,
    {
        NodeGraphExecution { nodes: Vec::new(), computed: Ghost(Seq::empty()) }
    }

    /// Forgets everything, sized for `graph`.
    pub fn clear<F: Fn(u128, Vec<Value>) -> Result<Value, Error>>(&mut self, graph: &NodeGraph, eval: &F)
        ensures
            final(self).inv(*eval, *graph),
            forall|i: int| 0 <= i < final(self).nodes@.len() ==> (#[trigger] final(self).nodes@[i]) is NotStarted,
            final(self).computed@.len() == 0,
    {
        self.computed = Ghost(Seq::empty());
        self.nodes = Vec::new();
        let mut i: usize = 0;
        while i < graph.nodes.len()
            invariant
                i <= graph.nodes@.len(),
                self.nodes@.len() == i,
                self.computed@.len() == 0,
                forall|j: int| 0 <= j < i ==> self.nodes@[j] is NotStarted,
            decreases graph.nodes@.len() - i,
        {
            self.nodes.push(NodeEvalState::NotStarted);
            i = i + 1;
        }
    }

    /// Evaluates the graph's designated output node in a fresh run. The
    /// result is the output node's value; where that value exists within the
    /// depth budget, the run is owed it.
    pub fn eval_graph<F: Fn(u128, Vec<Value>) -> Result<Value, Error>>(&mut self, graph: &NodeGraph, eval: &F) -> (r: Result<Value, Error>)
        requires
            graph.wf(),
            deterministic(*eval),
        ensures
            match graph.output {
                None => r == Err::<Value, Error>(Error::MissingOutputNode),
                Some(id) => {
                    &&& r is Ok ==> exists|d: nat| #[trigger] node_value(*eval, *graph, id, d) == r
                    &&& has_value_within(*eval, *graph, id, budget(*graph)) ==> r is Ok
                    &&& r is Err ==> !has_value_within(*eval, *graph, id, budget(*graph))
                    &&& total(*eval) && r is Err ==> r->Err_0 is Cycle
                },
            },
            r is Ok ==> computed_once(*graph, final(self).computed@),
    {
        self.clear(graph, eval);
        let id = match graph.output() {
            Some(id) => id,
            None => {
                return Err(Error::MissingOutputNode);
            },
        };
        let n = graph.nodes.len();
        let fuel = if n < usize::MAX { n + 1 } else { n };
        assert(self.processing_on(Seq::empty()));
        self.eval_at(graph, eval, id, fuel, Ghost(Seq::empty()))
    }

    /// Evaluates node `id`, following at most `fuel` nodes deep, within the
    /// current run, which must not be in the middle of computing a node.
    pub fn eval_node<F: Fn(u128, Vec<Value>) -> Result<Value, Error>>(&mut self, graph: &NodeGraph, eval: &F, id: NodeId, fuel: usize) -> (r: Result<Value, Error>)
        requires
            graph.wf(),
            deterministic(*eval),
            old(self).inv(*eval, *graph),
        ensures
            r is Ok && old(self).log_inv(*graph) ==> final(self).log_inv(*graph),
            final(self).inv(*eval, *graph),
            r is Ok ==> exists|d: nat| #[trigger] node_value(*eval, *graph, id, d) == r,
            graph.node(id) is None ==> r == Err::<Value, Error>(Error::MissingNode(id)),
            final(self).slots_kept(*old(self), *graph),
            cached_kind(*graph, id) ==> old(self).cache_step(*graph, id, *final(self), r),
            (forall|i: int| 0 <= i < old(self).nodes@.len() ==> !(#[trigger] old(self).nodes@[i] is Processing))
                ==> (has_value_within(*eval, *graph, id, fuel as nat) ==> r is Ok),
    {
        proof {
            if forall|i: int| 0 <= i < self.nodes@.len() ==> !(#[trigger] self.nodes@[i] is Processing) {
                assert(self.processing_on(Seq::empty()));
            }
        }
        self.eval_at(graph, eval, id, fuel, Ghost(Seq::empty()))
    }

    /// Slots of nodes that are not cache-eligible are never touched.
    pub open spec fn slots_kept(&self, old: NodeGraphExecution, g: NodeGraph) -> bool {
        &&& self.nodes@.len() == old.nodes@.len()
        &&& forall|i: int| 0 <= i < old.nodes@.len() && !cached_kind(g, NodeId(i as u64)) ==> #[trigger] self.nodes@[i] == old.nodes@[i]
    }

    /// The state machine of a cache-eligible node `id`, from this run state to
    /// `after` with result `r`: reached while being processed, a cycle error
    /// with nothing changed and no logic run; cached, its value with nothing
    /// changed and no logic run; and on
    /// success, its slot holds the value.
    pub open spec fn cache_step(&self, g: NodeGraph, id: NodeId, after: NodeGraphExecution, r: Result<Value, Error>) -> bool {
        &&& self.nodes@[id.0 as int] is Processing ==> r == Err::<Value, Error>(Error::Cycle(id)) && after.nodes@ == self.nodes@
            && after.computed@ == self.computed@
        &&& self.nodes@[id.0 as int] is Cached ==> r == Ok::<Value, Error>(self.nodes@[id.0 as int]->Cached_0)
            && after.nodes@ == self.nodes@ && after.computed@ == self.computed@
        &&& r is Ok ==> after.nodes@[id.0 as int] == NodeEvalState::Cached(r->Ok_0)
    }

    /// Every node still being computed lies on `chain`.
    pub open spec fn processing_on(&self, chain: Seq<NodeId>) -> bool {
        forall|i: int| 0 <= i < self.nodes@.len() && (#[trigger] self.nodes@[i]) is Processing ==> chain.contains(NodeId(i as u64))
    }

    /// No node is left being computed that was not before.
    pub open spec fn no_new_processing(&self, old: NodeGraphExecution) -> bool {
        forall|i: int| 0 <= i < self.nodes@.len() && (#[trigger] self.nodes@[i]) is Processing ==> old.nodes@[i] is Processing
    }

    /// Evaluates node `id` below the nodes of `chain`, which are being
    /// evaluated. A cache-eligible node is computed once per run: a second
    /// visit returns its value, and a visit while it is still being computed
    /// is a cycle.
    fn eval_at<F: Fn(u128, Vec<Value>) -> Result<Value, Error>>(&mut self, graph: &NodeGraph, eval: &F, id: NodeId, fuel: usize, chain: Ghost<Seq<NodeId>>) -> (r: Result<Value, Error>)
        requires
            graph.wf(),
            deterministic(*eval),
            old(self).inv(*eval, *graph),
            leads_to(*graph, chain@, id),
        ensures
            final(self).inv(*eval, *graph),
            final(self).nodes@.len() == old(self).nodes@.len(),
            r is Ok && old(self).log_inv(*graph) ==> final(self).log_inv(*graph),
            r is Ok ==> final(self).keeps_progress(*old(self)),
            r is Ok ==> exists|d: nat| #[trigger] node_value(*eval, *graph, id, d) == r,
            r is Ok ==> final(self).no_new_processing(*old(self)),
            graph.node(id) is None ==> r == Err::<Value, Error>(Error::MissingNode(id)),
            old(self).processing_on(chain@) && has_value_within(*eval, *graph, id, fuel as nat) ==> r is Ok,
            old(self).processing_on(chain@) && r is Err ==> !has_value_within(*eval, *graph, id, fuel as nat),
            final(self).slots_kept(*old(self), *graph),
            total(*eval) && graph.node(id) is Some && r is Err ==> r->Err_0 is Cycle,
            cached_kind(*graph, id) ==> old(self).cache_step(*graph, id, *final(self), r),
        decreases fuel, 1nat,
    {
        let node = graph.get(id)?;
        if node.cache_output {
            let slot = crate::graph::slot_of(id, graph.nodes.len());
            match &self.nodes[slot] {
                NodeEvalState::Processing => {
                    proof {
                        if old(self).processing_on(chain@) && has_value_within(*eval, *graph, id, fuel as nat) {
                            assert(chain@.contains(NodeId(slot as u64)));
                            let j = choose|j: int| 0 <= j < chain@.len() && chain@[j] == id;
                            let d = choose|d: nat| d <= fuel && (#[trigger] node_value(*eval, *graph, id, d)) is Ok;
                            lemma_revisit_has_no_value(*eval, *graph, chain@, id, j, d);
                        }
                    }
                    return Err(Error::Cycle(id));
                },
                NodeEvalState::Cached(v) => {
                    assert(NodeId(slot as u64) == id);
                    return Ok(v.duplicate());
                },
                NodeEvalState::NotStarted => {},
            }
        }
        if fuel == 0 {
            proof {
                if has_value_within(*eval, *graph, id, fuel as nat) {
                    let d = choose|d: nat| d <= fuel && (#[trigger] node_value(*eval, *graph, id, d)) is Ok;
                }
            }
            return Err(Error::Cycle(id));
        }
        if node.cache_output {
            let slot = crate::graph::slot_of(id, graph.nodes.len());
            let ghost before = self.nodes@;
            self.nodes.set(slot, NodeEvalState::Processing);
            proof {
                if old(self).processing_on(chain@) {
                assert forall|i: int| 0 <= i < self.nodes@.len() && (#[trigger] self.nodes@[i]) is Processing implies chain@.push(id).contains(NodeId(i as u64)) by {
                    if i == slot {
                        assert(chain@.push(id).last() == id);
                    } else {
                        assert(chain@.contains(NodeId(i as u64)));
                        let w = choose|w: int| 0 <= w < chain@.len() && chain@[w] == NodeId(i as u64);
                        assert(chain@.push(id)[w] == NodeId(i as u64));
                    }
                }
                }
            }
            let ghost mid = self.nodes@;
            proof {
                assert(NodeId(slot as u64) == id);
                if old(self).log_inv(*graph) {
                assert forall|i: int| 0 <= i < self.nodes@.len() && cached_kind(*graph, NodeId(i as u64)) && !(#[trigger] self.nodes@[i] is Cached)
                    implies !self.computed@.contains(NodeId(i as u64)) by {
                    assert(!(before[i] is Cached));
                }
                }
            }
            let v = self.compute(graph, eval, node, id, fuel, Ghost(chain@.push(id)))?;
            let ghost after = self.nodes@;
            self.nodes.set(slot, NodeEvalState::Cached(v.duplicate()));
            assert(NodeId(slot as u64) == id);
            proof {
                assert forall|i: int| 0 <= i < self.nodes@.len() && (#[trigger] self.nodes@[i]) is Processing implies old(self).nodes@[i] is Processing by {
                    assert(i != slot);
                    assert(mid[i] is Processing);
                }
                let log = self.computed@;
                if old(self).log_inv(*graph) {
                assert forall|a: int, b: int| 0 <= a < b < log.len() && #[trigger] log[a] == #[trigger] log[b] implies !cached_kind(*graph, log[a]) by {
                    if b == log.len() - 1 {
                        assert(log.drop_last()[a] == id);
                        assert(log.drop_last().contains(id));
                    } else {
                        assert(log.drop_last()[a] == log[a]);
                        assert(log.drop_last()[b] == log[b]);
                    }
                }
                assert forall|i: int| 0 <= i < self.nodes@.len() && cached_kind(*graph, NodeId(i as u64)) && !(#[trigger] self.nodes@[i] is Cached)
                    implies !self.computed@.contains(NodeId(i as u64)) by {
                    assert(i != slot);
                    assert(!(after[i] is Cached));
                    if self.computed@.contains(NodeId(i as u64)) {
                        let w = choose|w: int| 0 <= w < log.len() && log[w] == NodeId(i as u64);
                        if w < log.len() - 1 {
                            assert(log.drop_last()[w] == NodeId(i as u64));
                        }
                    }
                }
                }
                assert forall|i: int| 0 <= i < old(self).nodes@.len() implies (#[trigger] old(self).nodes@[i] is Processing ==> self.nodes@[i] is Processing)
                    && (old(self).nodes@[i] is Cached ==> self.nodes@[i] is Cached) by {
                    if i != slot {
                        assert(mid[i] == old(self).nodes@[i]);
                    }
                }
            }
            Ok(v)
        } else {
            proof {
                if old(self).processing_on(chain@) {
                assert forall|i: int| 0 <= i < self.nodes@.len() && (#[trigger] self.nodes@[i]) is Processing implies chain@.push(id).contains(NodeId(i as u64)) by {
                    let w = choose|w: int| 0 <= w < chain@.len() && chain@[w] == NodeId(i as u64);
                    assert(chain@.push(id)[w] == NodeId(i as u64));
                }
                }
            }
            let r = self.compute(graph, eval, node, id, fuel, Ghost(chain@.push(id)));
            proof {
                if r is Ok && old(self).log_inv(*graph) {
                    let log = self.computed@;
                    assert(!cached_kind(*graph, id));
                    assert forall|a: int, b: int| 0 <= a < b < log.len() && #[trigger] log[a] == #[trigger] log[b] implies !cached_kind(*graph, log[a]) by {
                        if b < log.len() - 1 {
                            assert(log.drop_last()[a] == log[a]);
                            assert(log.drop_last()[b] == log[b]);
                        }
                    }
                    assert forall|i: int| 0 <= i < self.nodes@.len() && cached_kind(*graph, NodeId(i as u64)) && !(#[trigger] self.nodes@[i] is Cached)
                        implies !self.computed@.contains(NodeId(i as u64)) by {
                        if self.computed@.contains(NodeId(i as u64)) {
                            let w = choose|w: int| 0 <= w < log.len() && log[w] == NodeId(i as u64);
                            if w < log.len() - 1 {
                                assert(log.drop_last()[w] == NodeId(i as u64));
                            }
                        }
                    }
                }
            }
            r
        }
    }

    /// Evaluates every input of `node`, then applies the node's logic.
    fn compute<F: Fn(u128, Vec<Value>) -> Result<Value, Error>>(&mut self, graph: &NodeGraph, eval: &F, node: &Node, id: NodeId, fuel: usize, chain: Ghost<Seq<NodeId>>) -> (r: Result<Value, Error>)
        requires
            graph.wf(),
            deterministic(*eval),
            fuel > 0,
            graph.node(id) == Some(*node),
            old(self).inv(*eval, *graph),
            cached_kind(*graph, id) ==> old(self).nodes@[id.0 as int] is Processing,
            chain@.len() > 0,
            chain@.last() == id,
            forall|i: int| 0 <= i < chain@.len() - 1 ==> #[trigger] reads_from(*graph, chain@[i], chain@[i + 1]),
        ensures
            final(self).inv(*eval, *graph),
            final(self).nodes@.len() == old(self).nodes@.len(),
            r is Ok ==> final(self).keeps_progress(*old(self)),
            r is Ok && old(self).log_inv(*graph) ==> {
                &&& final(self).computed@.len() > 0
                &&& final(self).computed@.last() == id
                &&& computed_once(*graph, final(self).computed@.drop_last())
                &&& (cached_kind(*graph, id) ==> !final(self).computed@.drop_last().contains(id))
                &&& forall|i: int| 0 <= i < final(self).nodes@.len() && cached_kind(*graph, NodeId(i as u64))
                    && !(#[trigger] final(self).nodes@[i] is Cached) && NodeId(i as u64) != id
                    ==> !final(self).computed@.drop_last().contains(NodeId(i as u64))
            },
            r is Ok ==> exists|d: nat| #[trigger] node_value(*eval, *graph, id, d) == r,
            r is Ok ==> final(self).no_new_processing(*old(self)),
            old(self).processing_on(chain@) && has_value_within(*eval, *graph, id, fuel as nat) ==> r is Ok,
            old(self).processing_on(chain@) && r is Err ==> !has_value_within(*eval, *graph, id, fuel as nat),
            final(self).slots_kept(*old(self), *graph),
            total(*eval) && graph.node(id) is Some && r is Err ==> r->Err_0 is Cycle,
        decreases fuel, 0nat,
    {
        let ghost f = *eval;
        let ghost g = *graph;
        let ghost start = self.nodes@;
        let ghost pc = old(self).processing_on(chain@);
        let ghost lg = old(self).log_inv(g);
        let ghost owed = pc && has_value_within(f, g, id, fuel as nat);
        let ghost dv: nat = if owed { choose|d: nat| d <= fuel && (#[trigger] node_value(f, g, id, d)) is Ok } else { 0 };
        let mut vals: Vec<Value> = Vec::new();
        let ghost mut fmax: nat = 0;
        let mut i: usize = 0;
        while i < node.inputs.len()
            invariant
                graph.wf(),
                deterministic(*eval),
                f == *eval,
                g == *graph,
                fuel > 0,
                graph.node(id) == Some(*node),
                i <= node.inputs@.len(),
                self.inv(f, g),
                self.nodes@.len() == start.len(),
                start == old(self).nodes@,
                lg ==> self.log_inv(g),
                lg == old(self).log_inv(g),
                pc == old(self).processing_on(chain@),
                forall|j: int| 0 <= j < start.len() && !cached_kind(g, NodeId(j as u64)) ==> #[trigger] self.nodes@[j] == start[j],
                cached_kind(g, id) ==> self.nodes@[id.0 as int] is Processing,
                forall|j: int| 0 <= j < start.len() ==> (#[trigger] start[j] is Processing ==> self.nodes@[j] is Processing)
                    && (start[j] is Cached ==> self.nodes@[j] is Cached),
                owed == (pc && has_value_within(f, g, id, fuel as nat)),
                pc ==> self.processing_on(chain@),
                forall|j: int| 0 <= j < self.nodes@.len() && (#[trigger] self.nodes@[j]) is Processing ==> start[j] is Processing,
                chain@.len() > 0,
                chain@.last() == id,
                forall|j: int| 0 <= j < chain@.len() - 1 ==> #[trigger] reads_from(*graph, chain@[j], chain@[j + 1]),
                input_values(f, g, *node, i as nat, fmax) == Ok::<Seq<Value>, Error>(vals@),
                owed ==> dv <= fuel && node_value(f, g, id, dv) is Ok,
            decreases node.inputs@.len() - i,
        {
            match node.inputs[i].connected {
                Some((o, _)) => {
                    proof {
                        assert(reads_from(g, id, o.node));
                        if owed {
                            let nn = g.node(id)->Some_0;
                            assert(input_values(f, g, nn, nn.inputs@.len(), (dv - 1) as nat) is Ok);
                            lemma_inputs_ok(f, g, nn, nn.inputs@.len(), (dv - 1) as nat, i as int);
                            assert(has_value_within(f, g, o.node, (fuel - 1) as nat));
                        }
                    }
                    let ghost pre = self.nodes@;
                    let v = self.eval_at(graph, eval, o.node, fuel - 1, Ghost(chain@))?;
                    proof {
                        assert forall|j: int| 0 <= j < start.len() implies (#[trigger] start[j] is Processing ==> self.nodes@[j] is Processing)
                            && (start[j] is Cached ==> self.nodes@[j] is Cached) by {
                            assert(pre[j] is Processing ==> self.nodes@[j] is Processing);
                            assert(pre[j] is Cached ==> self.nodes@[j] is Cached);
                        }
                        assert forall|j: int| 0 <= j < start.len() && !cached_kind(g, NodeId(j as u64)) implies #[trigger] self.nodes@[j] == start[j] by {
                            assert(self.nodes@[j] == pre[j]);
                        }
                        if pc {
                            assert forall|j: int| 0 <= j < self.nodes@.len() && (#[trigger] self.nodes@[j]) is Processing implies chain@.contains(NodeId(j as u64)) by {
                                assert(pre[j] is Processing);
                            }
                        }
                    }
                    proof {
                        let d = choose|d: nat| node_value(f, g, o.node, d) == Ok::<Value, Error>(v);
                        let m = if d > fmax { d } else { fmax };
                        lemma_node_value_mono(f, g, o.node, d, m);
                        lemma_input_values_mono(f, g, *node, i as nat, fmax, m);
                        fmax = m;
                        assert forall|j: int| 0 <= j < self.nodes@.len() && (#[trigger] self.nodes@[j]) is Processing implies start[j] is Processing by {
                            assert(pre[j] is Processing);
                        }
                    }
                    vals.push(v);
                },
                None => {
                    vals.push(node.inputs[i].value.duplicate());
                },
            }
            i = i + 1;
        }
        let ghost args = vals;
        let ghost log = self.computed@;
        let r = eval(node.node_type, vals);
        self.computed = Ghost(self.computed@.push(id));
        proof {
            assert(self.computed@.drop_last() =~= log);
            if cached_kind(g, id) {
                assert(id.0 < self.nodes@.len());
                assert(NodeId(id.0 as int as u64) == id);
            }
            assert(f.ensures((node.node_type, args), r));
            let c = kind_result(f, node.node_type, args@);
            assert(produces(f, node.node_type, args@, r));
            let w = choose|v: Vec<Value>| v@ == args@ && #[trigger] f.ensures((node.node_type, v), c);
            assert(c == r);
            assert(node_value(f, g, id, fmax + 1) == r);
            if owed {
                let nn = g.node(id)->Some_0;
                assert(nn == *node);
                let m: nat = if fmax > (dv - 1) as nat { fmax } else { (dv - 1) as nat };
                lemma_input_values_mono(f, g, nn, nn.inputs@.len(), fmax, m);
                lemma_input_values_mono(f, g, nn, nn.inputs@.len(), (dv - 1) as nat, m);
                assert(node_value(f, g, id, dv) == kind_result(f, node.node_type, args@));
            }
        }
        r
    }
}

/// Evaluates the graph's designated output node: its value, which the call
/// is owed wherever that value exists within the depth budget.
pub fn evaluate<F: Fn(u128, Vec<Value>) -> Result<Value, Error>>(graph: &NodeGraph, eval: &F) -> (r: Result<Value, Error>)
    requires
        graph.wf(),
        deterministic(*eval),
    ensures
        match graph.output {
            None => r == Err::<Value, Error>(Error::MissingOutputNode),
            Some(id) => {
                &&& r is Ok ==> exists|d: nat| #[trigger] node_value(*eval, *graph, id, d) == r
                &&& has_value_within(*eval, *graph, id, budget(*graph)) ==> r is Ok
                &&& r is Err ==> !has_value_within(*eval, *graph, id, budget(*graph))
                &&& total(*eval) && r is Err ==> r->Err_0 is Cycle
            },
        },
{
    let mut run = NodeGraphExecution::new();
    run.eval_graph(graph, eval)
}

} // verus!

use vstd::prelude::*;

use crate::block::{resolves, CodeBlock, OutputState};
use crate::compiled::CompiledValue;
use crate::compiler::NodeGraphCompile;
use crate::concrete::NodeConcreteType;
use crate::error::Error;
use crate::inputs::prepare_inputs;
use crate::eval::NodeImpl;
use crate::graph::NodeGraph;
use crate::ids::{NodeId, OutputId};
use crate::types::DataType;

verus! {

/// Is `id` in the list.
fn listed(v: &Vec<NodeId>, id: NodeId) -> (r: bool)
    ensures
        r == v@.contains(id),
{
    let mut i: usize = 0;
    while i < v.len()
        invariant
            i <= v@.len(),
            forall|j: int| 0 <= j < i ==> v@[j] != id,
        decreases v@.len() - i,
    {
        if v[i] == id {
            return true;
        }
        i = i + 1;
    }
    false
}

/// Growth composes.
pub proof fn lemma_grows_trans(a: NodeGraphCompile, b: NodeGraphCompile, c: NodeGraphCompile)
    requires
        b.grows_from(a),
        c.grows_from(b),
    ensures
        c.grows_from(a),
{
    assert(c.compiling@.subrange(0, a.compiling@.len() as int) =~= a.compiling@) by {
        assert(c.compiling@.subrange(0, a.compiling@.len() as int) =~= c.compiling@.subrange(0, b.compiling@.len() as int).subrange(0, a.compiling@.len() as int));
    }
    assert forall|x: NodeId| #[trigger] c.compile_log@.contains(x) && !a.compile_log@.contains(x) implies !a.compiling@.contains(x) by {
        if a.compiling@.contains(x) {
            let w = choose|w: int| 0 <= w < a.compiling@.len() && a.compiling@[w] == x;
            assert(b.compiling@.subrange(0, a.compiling@.len() as int)[w] == x);
            assert(b.compiling@[w] == x);
            assert(b.compiling@.contains(x));
        }
    }
}

/// Compiler-level common subexpressions: once an output of a compiled node
/// was resolved in the current block, resolving it again gives the same
/// variable and type and leaves every block as it was.
pub proof fn lemma_shared_output_once(c0: NodeGraphCompile, id: OutputId, c1: NodeGraphCompile, r1: Result<CompiledValue, Error>, c2: NodeGraphCompile, r2: Result<CompiledValue, Error>)
    requires
        c0.wf(),
        c0.current() is Some,
        c0.resolved_again(id, c1, r1),
        c1.resolved_again(id, c2, r2),
        r1 is Ok,
    ensures
        r2 is Ok,
        r2->Ok_0.value@ == r1->Ok_0.value@,
        r2->Ok_0.dt == r1->Ok_0.dt,
        c2.blocks@ == c1.blocks@,
{
    let b = c0.current()->Some_0.0 - 1;
    assert(c0.stack@[c0.stack@.len() - 1].0 >= 1);
    assert(c1.current() == c0.current());
    crate::block::lemma_resolve_twice(c0.blocks@[b], id, c1.blocks@[b], r1, c2.blocks@[b], r2);
    assert(c2.blocks@ =~= c1.blocks@);
}

/// The prefix, expression text and type of each output a kind registers.
pub open spec fn out_views(s: Seq<(String, String, DataType)>) -> Seq<(Seq<char>, Seq<char>, DataType)> {
    s.map_values(|t: (String, String, DataType)| (t.0@, t.1@, t.2))
}

/// Block `b` holds the outputs `outs` of node `id` as registered, not yet
/// emitted, output `k` at index `k`.
pub open spec fn registered_in(b: CodeBlock, id: NodeId, outs: Seq<(Seq<char>, Seq<char>, DataType)>) -> bool {
    forall|k: int| 0 <= k < outs.len() ==> #[trigger] b.output(OutputId { node: id, idx: k as u32 })
        == Some(OutputState::Lazy { prefix: outs[k].0, code: outs[k].1, dt: outs[k].2 })
}

impl NodeGraphCompile {
    /// The compilation keeps the blocks, their names and the block stack.
    pub open spec fn same_frame(&self, old: NodeGraphCompile) -> bool {
        &&& self.wf()
        &&& self.stack@ == old.stack@
        &&& self.names@ == old.names@
        &&& self.blocks@.len() == old.blocks@.len()
    }

    /// Nodes compiled before stay compiled, the nodes being compiled before
    /// are still being compiled, and the compile logic newly ran on none of
    /// them.
    pub open spec fn grows_from(&self, old: NodeGraphCompile) -> bool {
        &&& forall|x: NodeId| #[trigger] old.compiled@.contains(x) ==> self.compiled@.contains(x)
        &&& self.compiling@.len() >= old.compiling@.len()
        &&& self.compiling@.subrange(0, old.compiling@.len() as int) =~= old.compiling@
        &&& forall|x: NodeId| #[trigger] self.compile_log@.contains(x) && !old.compile_log@.contains(x) ==> !old.compiling@.contains(x)
    }

    /// Resolving output `id` of a node already compiled, from this state to
    /// `after` with result `r`: the current block alone changes, as resolving
    /// in it does, so a second reference yields the same name and emits nothing.
    pub open spec fn resolved_again(&self, id: OutputId, after: NodeGraphCompile, r: Result<CompiledValue, Error>) -> bool {
        let b = self.current()->Some_0.0 - 1;
        &&& resolves(self.blocks@[b], id, after.blocks@[b], r)
        &&& after.blocks@ == self.blocks@.update(b, after.blocks@[b])
        &&& after.compiled@ == self.compiled@
        &&& after.compiling@ == self.compiling@
        &&& after.compile_log@ == self.compile_log@
        &&& after.stack@ == self.stack@
    }

    /// A successful step leaves the nodes being compiled as they were, and
    /// newly compiles none of them.
    pub open spec fn nested_in(&self, old: NodeGraphCompile) -> bool {
        &&& self.compiling@ == old.compiling@
        &&& forall|x: NodeId| #[trigger] self.compiled@.contains(x) ==> old.compiled@.contains(x) || !old.compiling@.contains(x)
    }

    /// Registers an output in the current block without emitting anything.
    pub fn add_output(&mut self, id: OutputId, prefix: &str, code: String, dt: DataType) -> (r: Result<(), Error>)
        requires
            old(self).wf(),
        ensures
            final(self).same_frame(*old(self)),
            final(self).compiled@ == old(self).compiled@,
            final(self).compiling@ == old(self).compiling@,
            match old(self).current() {
                None => r == Err::<(), Error>(Error::NoCurrentBlock),
                Some(b) => r is Ok && final(self).blocks@[b.0 - 1].output(id)
                    == Some(OutputState::Lazy { prefix: prefix@, code: code@, dt }),
            },
    {
        let b = self.current_block_id()?;
        let idx = (b.0 - 1) as usize;
        self.blocks[idx].add_output(id, prefix, code, dt);
        Ok(())
    }

    /// Registers the outputs that node `id`'s kind produced, output `k` under
    /// index `k`, in the current block, without emitting anything.
    pub fn register_outputs(&mut self, id: NodeId, outs: &Vec<(String, String, DataType)>) -> (r: Result<(), Error>)
        requires
            old(self).wf(),
        ensures
            final(self).same_frame(*old(self)),
            final(self).compiled@ == old(self).compiled@,
            final(self).compiling@ == old(self).compiling@,
            final(self).compile_log@ == old(self).compile_log@,
            match old(self).current() {
                None => r == Err::<(), Error>(Error::NoCurrentBlock) && *final(self) == *old(self),
                Some(b) => if outs@.len() > u32::MAX {
                    r == Err::<(), Error>(Error::TooManyLocals) && *final(self) == *old(self)
                } else {
                    &&& r is Ok
                    &&& registered_in(final(self).blocks@[b.0 - 1], id, out_views(outs@))
                    &&& final(self).blocks@ == old(self).blocks@.update(b.0 - 1, final(self).blocks@[b.0 - 1])
                    &&& final(self).blocks@[b.0 - 1].code@ == old(self).blocks@[b.0 - 1].code@
                    &&& final(self).blocks@[b.0 - 1].counter == old(self).blocks@[b.0 - 1].counter
                    &&& forall|o: OutputId| o.node != id ==> #[trigger] final(self).blocks@[b.0 - 1].output(o)
                        == old(self).blocks@[b.0 - 1].output(o)
                },
            },
    {
        let b = self.current_block_id()?;
        if outs.len() > u32::MAX as usize {
            return Err(Error::TooManyLocals);
        }
        let idx = (b.0 - 1) as usize;
        let ghost ov = out_views(outs@);
        let mut k: usize = 0;
        while k < outs.len()
            invariant
                self.same_frame(*old(self)),
                self.compiled@ == old(self).compiled@,
                self.compiling@ == old(self).compiling@,
                self.compile_log@ == old(self).compile_log@,
                idx == b.0 - 1,
                old(self).current() == Some(b),
                idx < self.blocks@.len(),
                outs@.len() <= u32::MAX,
                ov == out_views(outs@),
                k <= outs@.len(),
                self.blocks@ == old(self).blocks@.update(idx as int, self.blocks@[idx as int]),
                self.blocks@[idx as int].code@ == old(self).blocks@[idx as int].code@,
                self.blocks@[idx as int].counter == old(self).blocks@[idx as int].counter,
                forall|o: OutputId| o.node != id ==> #[trigger] self.blocks@[idx as int].output(o) == old(self).blocks@[idx as int].output(o),
                forall|j: int| 0 <= j < k ==> #[trigger] self.blocks@[idx as int].output(OutputId { node: id, idx: j as u32 })
                    == Some(OutputState::Lazy { prefix: ov[j].0, code: ov[j].1, dt: ov[j].2 }),
            decreases outs@.len() - k,
        {
            let o = OutputId { node: id, idx: k as u32 };
            self.blocks[idx].add_output(o, outs[k].0.as_str(), outs[k].1.clone(), outs[k].2);
            proof {
                assert forall|j: int| 0 <= j < k + 1 implies #[trigger] self.blocks@[idx as int].output(OutputId { node: id, idx: j as u32 })
                    == Some(OutputState::Lazy { prefix: ov[j].0, code: ov[j].1, dt: ov[j].2 }) by {
                    if j < k {
                        assert(OutputId { node: id, idx: j as u32 } != o);
                    }
                }
            }
            k = k + 1;
        }
        Ok(())
    }

    /// Makes sure the node of `id` is compiled, then resolves `id` in the
    /// current block: its first reference emits it, later ones reuse it.
    pub fn resolve_output<K: NodeImpl>(&mut self, graph: &NodeGraph, kinds: &K, id: OutputId) -> (r: Result<CompiledValue, Error>)
        requires
            old(self).wf(),
            graph.wf(),
        ensures
            final(self).same_frame(*old(self)),
            old(self).current() is None ==> r is Err,
            r is Ok ==> final(self).compiled@.contains(id.node) && final(self).blocks@[old(self).current()->Some_0.0 - 1].output(id)
                == Some(OutputState::Emitted { name: r->Ok_0.value@, dt: r->Ok_0.dt }),
            old(self).current() is Some && old(self).compiled@.contains(id.node)
                && old(self).blocks@[old(self).current()->Some_0.0 - 1].counter < usize::MAX
                ==> old(self).resolved_again(id, *final(self), r),
    {
        let fuel = Self::depth(graph);
        self.resolve_at(graph, kinds, id, fuel)
    }

    /// Compiles the graph's designated output node.
    pub fn compile_graph<K: NodeImpl>(&mut self, graph: &NodeGraph, kinds: &K) -> (r: Result<(), Error>)
        requires
            old(self).wf(),
            graph.wf(),
        ensures
            final(self).same_frame(*old(self)),
            final(self).grows_from(*old(self)),
            graph.output is None ==> r == Err::<(), Error>(Error::MissingOutputNode) && *final(self) == *old(self),
            graph.output is Some && old(self).compiled@.contains(graph.output->Some_0) ==> r is Ok && *final(self) == *old(self),
            graph.output is Some && graph.node(graph.output->Some_0) is None ==> r == Err::<(), Error>(
                Error::MissingNode(graph.output->Some_0),
            ),
            r is Ok ==> final(self).compiled@.contains(graph.output->Some_0),
            r is Ok && !old(self).compiled@.contains(graph.output->Some_0) ==> exists|outs: Seq<(Seq<char>, Seq<char>, DataType)>|
                #[trigger] registered_in(final(self).blocks@[old(self).current()->Some_0.0 - 1], graph.output->Some_0, outs),
    {
        let id = match graph.output() {
            Some(id) => id,
            None => {
                return Err(Error::MissingOutputNode);
            },
        };
        self.compile_node(graph, kinds, id)
    }

    /// Compiles node `id` once: a compiled node is skipped and nothing
    /// changes, and reaching a node again while it is being compiled is a
    /// cycle. Otherwise its inputs are resolved, prepared by `prepare_inputs`,
    /// handed to the kind's compile logic, and what it returns is registered
    /// by `register_outputs` in the current block. Over the life of the
    /// compiler the compile logic runs at most once per node (`compile_log`
    /// holds no node twice).
    pub fn compile_node<K: NodeImpl>(&mut self, graph: &NodeGraph, kinds: &K, id: NodeId) -> (r: Result<(), Error>)
        requires
            old(self).wf(),
            graph.wf(),
        ensures
            final(self).same_frame(*old(self)),
            final(self).grows_from(*old(self)),
            old(self).compiled@.contains(id) ==> r is Ok && *final(self) == *old(self),
            r is Ok ==> final(self).compiled@.contains(id),
            graph.node(id) is None && !old(self).compiled@.contains(id) ==> r == Err::<(), Error>(Error::MissingNode(id)),
            graph.node(id) is Some && !old(self).compiled@.contains(id) && old(self).compiling@.contains(id)
                ==> r == Err::<(), Error>(Error::Cycle(id)),
            r is Ok && !old(self).compiled@.contains(id) ==> old(self).current() is Some,
            r is Ok && !old(self).compiled@.contains(id) ==> exists|outs: Seq<(Seq<char>, Seq<char>, DataType)>|
                #[trigger] registered_in(final(self).blocks@[old(self).current()->Some_0.0 - 1], id, outs),
    {
        let fuel = Self::depth(graph);
        self.compile_at(graph, kinds, id, fuel)
    }

    fn depth(graph: &NodeGraph) -> (r: usize)
        ensures
            r == crate::eval::budget(*graph),
    {
        let n = graph.nodes.len();
        if n < usize::MAX { n + 1 } else { n }
    }

    fn resolve_at<K: NodeImpl>(&mut self, graph: &NodeGraph, kinds: &K, id: OutputId, fuel: usize) -> (r: Result<CompiledValue, Error>)
        requires
            old(self).wf(),
            graph.wf(),
        ensures
            final(self).same_frame(*old(self)),
            final(self).grows_from(*old(self)),
            old(self).current() is None ==> r is Err,
            r is Ok ==> final(self).compiled@.contains(id.node) && final(self).blocks@[old(self).current()->Some_0.0 - 1].output(id)
                == Some(OutputState::Emitted { name: r->Ok_0.value@, dt: r->Ok_0.dt }),
            r is Ok ==> final(self).nested_in(*old(self)),
            old(self).current() is Some && old(self).compiled@.contains(id.node)
                && old(self).blocks@[old(self).current()->Some_0.0 - 1].counter < usize::MAX
                ==> old(self).resolved_again(id, *final(self), r),
        decreases fuel, 1nat,
    {
        self.compile_at(graph, kinds, id.node, fuel)?;
        let b = self.current_block_id()?;
        let idx = (b.0 - 1) as usize;
        if self.blocks[idx].counter == usize::MAX {
            return Err(Error::TooManyLocals);
        }
        let r = self.blocks[idx].resolve_output(id);
        proof {
            if r is Ok {
                crate::block::lemma_lookup_push(self.blocks@[idx as int].outputs@.drop_last(), self.blocks@[idx as int].outputs@.last(), id);
            }
        }
        r
    }

    fn compile_at<K: NodeImpl>(&mut self, graph: &NodeGraph, kinds: &K, id: NodeId, fuel: usize) -> (r: Result<(), Error>)
        requires
            old(self).wf(),
            graph.wf(),
        ensures
            final(self).same_frame(*old(self)),
            final(self).grows_from(*old(self)),
            old(self).compiled@.contains(id) ==> r is Ok && *final(self) == *old(self),
            r is Ok ==> final(self).compiled@.contains(id),
            graph.node(id) is None && !old(self).compiled@.contains(id) ==> r == Err::<(), Error>(Error::MissingNode(id)),
            r is Ok ==> final(self).nested_in(*old(self)),
            graph.node(id) is Some && !old(self).compiled@.contains(id) && old(self).compiling@.contains(id)
                ==> r == Err::<(), Error>(Error::Cycle(id)),
            r is Ok && !old(self).compiled@.contains(id) ==> old(self).current() is Some,
            r is Ok && !old(self).compiled@.contains(id) ==> exists|outs: Seq<(Seq<char>, Seq<char>, DataType)>|
                #[trigger] registered_in(final(self).blocks@[old(self).current()->Some_0.0 - 1], id, outs),
        decreases fuel, 0nat,
    {
        if listed(&self.compiled, id) {
            return Ok(());
        }
        let node = graph.get(id)?;
        if fuel == 0 || listed(&self.compiling, id) {
            return Err(Error::Cycle(id));
        }
        proof {
            assert(!self.compile_log@.contains(id));
        }
        self.compiling.push(id);
        proof {
            assert forall|x: NodeId| #[trigger] self.compiled@.contains(x) implies old(self).compiled@.contains(x) || !self.compiling@.contains(x) by {}
            assert forall|x: NodeId| #[trigger] self.compile_log@.contains(x) implies self.compiled@.contains(x) || self.compiling@.contains(x) by {
                if !self.compiled@.contains(x) {
                    let w = choose|w: int| 0 <= w < old(self).compiling@.len() && old(self).compiling@[w] == x;
                    assert(self.compiling@[w] == x);
                }
            }
        }
        let mut raws: Vec<CompiledValue> = Vec::new();
        let mut declared: Vec<DataType> = Vec::new();
        let mut connected: Vec<bool> = Vec::new();
        let mut i: usize = 0;
        while i < node.inputs.len()
            invariant
                self.same_frame(*old(self)),
                self.grows_from(*old(self)),
                !old(self).compiled@.contains(id),
                !old(self).compiling@.contains(id),
                !self.compile_log@.contains(id),
                self.compiling@ == old(self).compiling@.push(id),
                forall|x: NodeId| #[trigger] self.compiled@.contains(x) ==> old(self).compiled@.contains(x) || !self.compiling@.contains(x),
                graph.wf(),
                graph.node(id) == Some(*node),
                fuel > 0,
                i <= node.inputs@.len(),
                raws@.len() == i,
                declared@.len() == i,
                connected@.len() == i,
            decreases node.inputs@.len() - i,
        {
            let port = &node.inputs[i];
            let v = match port.connected {
                Some((o, _)) => {
                    let ghost pre = *self;
                    let rv = self.resolve_at(graph, kinds, o, fuel - 1);
                    proof {
                        lemma_grows_trans(*old(self), pre, *self);
                    }
                    let v = rv?;
                    proof {
                        assert(pre.compiling@[old(self).compiling@.len() as int] == id);
                        assert(pre.compiling@.contains(id));
                        assert(self.compiling@.contains(id));
                        assert(!self.compile_log@.contains(id));
                    }
                    v
                },
                None => kinds.literal(&port.value),
            };
            raws.push(v);
            declared.push(port.declared);
            connected.push(port.connected.is_some());
            i = i + 1;
        }
        let vals = prepare_inputs(raws, &declared, &connected)?;
        let outputs = kinds.compile(node, &vals)?;
        let ghost log0 = self.compile_log@;
        self.compile_log = Ghost(self.compile_log@.push(id));
        proof {
            assert(self.compiling@[old(self).compiling@.len() as int] == id);
            assert(self.compiling@.contains(id));
            assert forall|x: NodeId| #[trigger] self.compile_log@.contains(x) && !old(self).compile_log@.contains(x) implies !old(self).compiling@.contains(x) by {
                if x != id {
                    let w = choose|w: int| 0 <= w < self.compile_log@.len() && self.compile_log@[w] == x;
                    assert(log0[w] == x);
                    assert(log0.contains(x));
                }
            }
            assert forall|x: NodeId| #[trigger] self.compile_log@.contains(x) implies self.compiled@.contains(x) || self.compiling@.contains(x) by {
                if x != id {
                    let w = choose|w: int| 0 <= w < self.compile_log@.len() && self.compile_log@[w] == x;
                    assert(log0[w] == x);
                    assert(log0.contains(x));
                }
            }
            assert(self.compile_log@.drop_last().no_duplicates());
        }
        let ghost mid = *self;
        self.register_outputs(id, &outputs)?;
        let ghost before = self.compiled@;
        self.compiling.pop();
        assert(self.compiling@ =~= old(self).compiling@);
        assert(!before.contains(id));
        self.compiled.push(id);
        assert(self.compiled@.last() == id);
        assert(self.compiled@.contains(id));
        proof {
            assert forall|x: NodeId| #[trigger] self.compiled@.contains(x) implies old(self).compiled@.contains(x) || !old(self).compiling@.contains(x) by {
                if x != id {
                    let w = choose|w: int| 0 <= w < self.compiled@.len() && self.compiled@[w] == x;
                    assert(before[w] == x);
                    assert(before.contains(x));
                    if !old(self).compiled@.contains(x) {
                        assert(!old(self).compiling@.push(id).contains(x));
                        if old(self).compiling@.contains(x) {
                            let v = choose|v: int| 0 <= v < old(self).compiling@.len() && old(self).compiling@[v] == x;
                            assert(old(self).compiling@.push(id)[v] == x);
                        }
                    }
                }
            }
            assert forall|x: NodeId| #[trigger] self.compile_log@.contains(x) implies self.compiled@.contains(x) || self.compiling@.contains(x) by {
                if x != id {
                    assert(mid.compiled@.contains(x) || mid.compiling@.contains(x));
                    if mid.compiled@.contains(x) {
                        let w = choose|w: int| 0 <= w < before.len() && before[w] == x;
                        assert(self.compiled@[w] == x);
                    } else {
                        let w = choose|w: int| 0 <= w < mid.compiling@.len() && mid.compiling@[w] == x;
                        assert(w < old(self).compiling@.len());
                        assert(self.compiling@[w] == x);
                    }
                }
            }
            assert(registered_in(self.blocks@[old(self).current()->Some_0.0 - 1], id, out_views(outputs@)));
            assert forall|x: NodeId| #[trigger] old(self).compiled@.contains(x) implies self.compiled@.contains(x) by {
                assert(mid.compiled@.contains(x));
                assert(before.contains(x));
                let w = choose|w: int| 0 <= w < before.len() && before[w] == x;
                assert(self.compiled@[w] == x);
            }
            assert(self.compiling@.subrange(0, old(self).compiling@.len() as int) =~= old(self).compiling@);
        }
        Ok(())
    }
}

} // verus!

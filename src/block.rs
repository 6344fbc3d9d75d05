use vstd::prelude::*;

use crate::compiled::CompiledValue;
use crate::error::Error;
use crate::ids::{NodeId, OutputId};
use crate::text::{decimal, push_decimal};
use crate::types::DataType;

verus! {

broadcast use vstd::seq_lib::group_seq_properties;

/// The state of one node output within a block.
#[derive(Clone, Debug)]
pub enum NodeOutput {
    /// Registered but not emitted yet: variable prefix, expression, type.
    LazyCode(String, String, DataType),
    /// Emitted: reference the variable.
    Compiled(CompiledValue),
}

/// What a node output is in a block, in terms of text.
pub enum OutputState {
    Lazy { prefix: Seq<char>, code: Seq<char>, dt: DataType },
    Emitted { name: Seq<char>, dt: DataType },
}

impl View for NodeOutput {
    type V = OutputState;

    open spec fn view(&self) -> OutputState {
        match self {
            NodeOutput::LazyCode(p, c, dt) => OutputState::Lazy { prefix: p@, code: c@, dt: *dt },
            NodeOutput::Compiled(v) => OutputState::Emitted { name: v.value@, dt: v.dt },
        }
    }
}

/// An ordered buffer of generated statements with its own variable counter
/// and the state of the outputs registered in it.
#[derive(Debug)]
pub struct CodeBlock {
    pub code: Vec<String>,
    pub variables: Vec<(String, DataType)>,
    /// Later entries for the same output replace earlier ones.
    pub outputs: Vec<(OutputId, NodeOutput)>,
    pub counter: usize,
}

/// The current state of output `id` in an output log: its last entry.
pub open spec fn lookup_output(s: Seq<(OutputId, NodeOutput)>, id: OutputId) -> Option<NodeOutput>
    decreases s.len(),
{
    if s.len() == 0 {
        None
    } else if s.last().0 == id {
        Some(s.last().1)
    } else {
        lookup_output(s.drop_last(), id)
    }
}

/// Pushing an entry makes it the current state of its output and leaves the
/// others as they were.
pub proof fn lemma_lookup_push(s: Seq<(OutputId, NodeOutput)>, e: (OutputId, NodeOutput), o: OutputId)
    ensures
        lookup_output(s.push(e), o) == if e.0 == o { Some(e.1) } else { lookup_output(s, o) },
{
    assert(s.push(e).drop_last() =~= s);
}

/// Resolving output `id` in block `b0` gives block `b1` and result `r`: an
/// unknown output fails and changes nothing; an emitted output gives its
/// variable and changes nothing; a registered one is emitted as a fresh local,
/// which it then refers to.
pub open spec fn resolves(b0: CodeBlock, id: OutputId, b1: CodeBlock, r: Result<CompiledValue, Error>) -> bool {
    match b0.output(id) {
        None => r == Err::<CompiledValue, Error>(Error::UnknownOutput) && b1 == b0,
        Some(OutputState::Emitted { name, dt }) => match r {
            Ok(v) => v.value@ == name && v.dt == dt && b1 == b0,
            Err(_) => false,
        },
        Some(OutputState::Lazy { prefix, code, dt }) => match r {
            Ok(v) => {
                &&& b1.counter == b0.counter + 1
                &&& v.value@ == local_name(prefix, b1.counter as nat)
                &&& v.dt == dt
                &&& b1.code@ == b0.code@.push(b1.code@.last())
                &&& b1.code@.last()@ == let_line(v.value@, code)
                &&& b1.output(id) == Some(OutputState::Emitted { name: v.value@, dt })
                &&& forall|o: OutputId| o != id ==> b1.output(o) == b0.output(o)
            },
            Err(_) => false,
        },
    }
}

/// Common subexpressions: once an output has been resolved, resolving it
/// again yields the same variable and emits nothing, so every reference site
/// shares one statement.
pub proof fn lemma_resolve_twice(b0: CodeBlock, id: OutputId, b1: CodeBlock, r1: Result<CompiledValue, Error>, b2: CodeBlock, r2: Result<CompiledValue, Error>)
    requires
        resolves(b0, id, b1, r1),
        resolves(b1, id, b2, r2),
        r1 is Ok,
    ensures
        r2 is Ok,
        r2->Ok_0.value@ == r1->Ok_0.value@,
        r2->Ok_0.dt == r1->Ok_0.dt,
        b2 == b1,
        b1.code@.len() <= b0.code@.len() + 1,
{
}

/// The name of the `n`-th local of a block.
pub open spec fn local_name(prefix: Seq<char>, n: nat) -> Seq<char> {
    prefix + "_"@ + decimal(n)
}

/// The statement that declares a local.
pub open spec fn let_line(name: Seq<char>, code: Seq<char>) -> Seq<char> {
    "\n  let "@ + name + " = "@ + code + ";"@
}

/// The text of a list of statements.
pub open spec fn joined(code: Seq<String>) -> Seq<char> {
    code.map_values(|s: String| s@).flatten()
}

impl CodeBlock {
    /// The block's statements.
    pub open spec fn lines(&self) -> Seq<String> {
        self.code@
    }

    /// The current state of an output in this block.
    pub open spec fn output(&self, id: OutputId) -> Option<OutputState> {
        match lookup_output(self.outputs@, id) {
            Some(o) => Some(o@),
            None => None,
        }
    }

    /// The block's text.
    pub open spec fn text(&self) -> Seq<char> {
        joined(self.code@)
    }

    pub open spec fn local_count(&self) -> nat {
        self.counter as nat
    }

    /// An empty block.
    pub fn new() -> (r: Self)
        ensures
            r.lines() == Seq::<String>::empty(),
            r.local_count() == 0,
            forall|id: OutputId| r.output(id) is None,
    {
        CodeBlock { code: Vec::new(), variables: Vec::new(), outputs: Vec::new(), counter: 0 }
    }

    /// Declares a fresh local `<prefix>_<n>` holding `code` and returns its name.
    pub fn add_local(&mut self, prefix: &str, code: String, dt: DataType) -> (r: String)
        requires
            old(self).counter < usize::MAX,
        ensures
            final(self).counter == old(self).counter + 1,
            r@ == local_name(prefix@, final(self).counter as nat),
            final(self).code@ == old(self).code@.push(final(self).code@.last()),
            final(self).code@.last()@ == let_line(r@, code@),
            final(self).outputs@ == old(self).outputs@,
    {
        self.counter = self.counter + 1;
        let mut name = String::from_str(prefix);
        name.append("_");
        push_decimal(&mut name, self.counter);
        let mut line = String::from_str("\n  let ");
        line.append(name.as_str());
        line.append(" = ");
        line.append(code.as_str());
        line.append(";");
        self.code.push(line);
        self.variables.push((name.clone(), dt));
        name
    }

    /// Registers an output without emitting anything.
    pub fn add_output(&mut self, id: OutputId, prefix: &str, code: String, dt: DataType)
        ensures
            final(self).output(id) == Some(OutputState::Lazy { prefix: prefix@, code: code@, dt }),
            forall|o: OutputId| o != id ==> final(self).output(o) == old(self).output(o),
            final(self).code@ == old(self).code@,
            final(self).counter == old(self).counter,
    {
        let ghost before = self.outputs@;
        let entry = (id, NodeOutput::LazyCode(String::from_str(prefix), code, dt));
        self.outputs.push(entry);
        proof {
            assert forall|o: OutputId| o != id implies self.output(o) == old(self).output(o) by {
                lemma_lookup_push(before, entry, o);
            }
            lemma_lookup_push(before, entry, id);
        }
    }

    /// The index of the entry that holds the current state of `id`.
    fn find_output(&self, id: OutputId) -> (r: Option<usize>)
        ensures
            match r {
                Some(i) => i < self.outputs@.len() && self.outputs@[i as int].0 == id
                    && lookup_output(self.outputs@, id) == Some(self.outputs@[i as int].1),
                None => lookup_output(self.outputs@, id) is None,
            },
    {
        let ghost s = self.outputs@;
        let mut i: usize = self.outputs.len();
        assert(s.subrange(0, i as int) =~= s);
        while i > 0
            invariant
                i <= s.len(),
                s == self.outputs@,
                lookup_output(s, id) == lookup_output(s.subrange(0, i as int), id),
            decreases i,
        {
            assert(s.subrange(0, i as int).drop_last() =~= s.subrange(0, i - 1));
            if self.outputs[i - 1].0 == id {
                return Some(i - 1);
            }
            i = i - 1;
        }
        None
    }

    /// Looks up an output; on its first reference, emits a local for its
    /// expression and remembers the name. Later references return that same
    /// name and emit nothing.
    pub fn resolve_output(&mut self, id: OutputId) -> (r: Result<CompiledValue, Error>)
        requires
            old(self).counter < usize::MAX,
        ensures
            resolves(*old(self), id, *final(self), r),
    {
        match self.find_output(id) {
            None => Err(Error::UnknownOutput),
            Some(i) => {
                let (prefix, code, dt) = match &self.outputs[i].1 {
                    NodeOutput::Compiled(v) => {
                        return Ok(CompiledValue { value: v.value.clone(), dt: v.dt });
                    },
                    NodeOutput::LazyCode(p, c, dt) => (p.clone(), c.clone(), *dt),
                };
                let name = self.add_local(prefix.as_str(), code, dt);
                let value = CompiledValue { value: name.clone(), dt };
                let ghost before = self.outputs@;
                let entry = (id, NodeOutput::Compiled(CompiledValue { value: name, dt }));
                self.outputs.push(entry);
                proof {
                    assert forall|o: OutputId| o != id implies self.output(o) == old(self).output(o) by {
                        lemma_lookup_push(before, entry, o);
                    }
                    lemma_lookup_push(before, entry, id);
                }
                Ok(value)
            },
        }
    }

    /// Emits `code` as a local named `out_<n>` of type `Vec4` and records it as
    /// the first output of `node`.
    pub fn append_output(&mut self, node: NodeId, code: String)
        requires
            old(self).counter < usize::MAX,
        ensures
            final(self).counter == old(self).counter + 1,
            final(self).code@ == old(self).code@.push(final(self).code@.last()),
            final(self).code@.last()@ == let_line(local_name("out"@, final(self).counter as nat), code@),
            final(self).output(OutputId { node, idx: 0 }) == Some(OutputState::Emitted {
                name: local_name("out"@, final(self).counter as nat),
                dt: DataType::Vec4,
            }),
            forall|o: OutputId| o != (OutputId { node, idx: 0 }) ==> final(self).output(o) == old(self).output(o),
    {
        let id = OutputId { node, idx: 0 };
        let name = self.add_local("out", code, DataType::Vec4);
        let ghost before = self.outputs@;
        let entry = (id, NodeOutput::Compiled(CompiledValue { value: name, dt: DataType::Vec4 }));
        self.outputs.push(entry);
        proof {
            assert forall|o: OutputId| o != id implies self.output(o) == old(self).output(o) by {
                lemma_lookup_push(before, entry, o);
            }
            lemma_lookup_push(before, entry, id);
        }
    }

    /// Appends a raw statement.
    pub fn append(&mut self, code: String)
        ensures
            final(self).code@ == old(self).code@.push(code),
            final(self).outputs@ == old(self).outputs@,
            final(self).counter == old(self).counter,
    {
        self.code.push(code);
    }

    /// Forgets all statements, locals and outputs.
    pub fn clear(&mut self)
        ensures
            final(self).code@.len() == 0,
            final(self).outputs@.len() == 0,
            final(self).counter == 0,
    {
        self.code.clear();
        self.variables.clear();
        self.outputs.clear();
        self.counter = 0;
    }

    /// The block's statements, concatenated.
    pub fn dump(&self) -> (r: String)
        ensures
            r@ == self.text(),
    {
        let mut out = String::new();
        let mut i: usize = 0;
        while i < self.code.len()
            invariant
                i <= self.code@.len(),
                out@ == joined(self.code@.subrange(0, i as int)),
            decreases self.code@.len() - i,
        {
            proof {
                lemma_joined_push(self.code@, i as int);
            }
            out.append(self.code[i].as_str());
            i = i + 1;
        }
        assert(self.code@.subrange(0, i as int) =~= self.code@);
        out
    }
}

/// The text of one more statement is the text so far, then that statement's.
pub proof fn lemma_joined_push(s: Seq<String>, i: int)
    requires
        0 <= i < s.len(),
    ensures
        joined(s.subrange(0, i + 1)) == joined(s.subrange(0, i)) + s[i]@,
{
    let f = |x: String| x@;
    assert(s.subrange(0, i + 1).map_values(f) =~= s.subrange(0, i).map_values(f).push(s[i]@));
    s.subrange(0, i).map_values(f).lemma_flatten_push(s[i]@);
}

} // verus!

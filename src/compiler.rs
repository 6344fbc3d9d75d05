use vstd::prelude::*;

use crate::block::{CodeBlock, OutputState};
use crate::definition::{find_name, first_index, texts};
use crate::error::Error;
use crate::ids::{CodeBlockId, NodeId, OutputId};
use crate::types::DataType;

verus! {

broadcast use vstd::seq_lib::group_seq_properties;

/// The state of one compilation: named blocks in creation order, the stack of
/// open blocks, and the nodes already compiled.
pub struct NodeGraphCompile {
    /// Block `CodeBlockId(k)` is `blocks[k - 1]`.
    pub blocks: Vec<CodeBlock>,
    /// The name of each block.
    pub names: Vec<String>,
    pub stack: Vec<CodeBlockId>,
    /// Nodes whose outputs are registered.
    pub compiled: Vec<NodeId>,
    /// Nodes being compiled, innermost last.
    pub compiling: Vec<NodeId>,
    /// The nodes whose kind's compile logic ran, in order.
    pub compile_log: Ghost<Seq<NodeId>>,
}

/// The block that is on top of a stack.
pub open spec fn top(stack: Seq<CodeBlockId>) -> Option<CodeBlockId> {
    if stack.len() == 0 { None } else { Some(stack.last()) }
}

/// The stack after a pop that expects `expect` on top, and the outcome: the
/// popped id, or a stack error where it is not the expected one.
pub open spec fn pop_result(stack: Seq<CodeBlockId>, expect: Option<CodeBlockId>) -> (Seq<CodeBlockId>, Result<Option<CodeBlockId>, Error>) {
    let rest = if stack.len() == 0 { stack } else { stack.drop_last() };
    if top(stack) == expect {
        (rest, Ok(expect))
    } else {
        (rest, Err(Error::BlockStack { expected: expect, found: top(stack) }))
    }
}

/// The text of a sequence of blocks, in order.
pub open spec fn blocks_text(blocks: Seq<CodeBlock>) -> Seq<char> {
    blocks.map_values(|b: CodeBlock| b.text()).flatten()
}

/// Block discipline: popping a block that was just pushed restores the block
/// that was current before; popping any other id instead is a stack error.
pub proof fn lemma_block_discipline(stack: Seq<CodeBlockId>, id: CodeBlockId, other: CodeBlockId)
    requires
        other != id,
    ensures
        pop_result(stack.push(id), Some(id)) == (stack, Ok::<Option<CodeBlockId>, Error>(Some(id))),
        top(pop_result(stack.push(id), Some(id)).0) == top(stack),
        pop_result(stack.push(id), Some(other)).1 == Err::<Option<CodeBlockId>, Error>(
            Error::BlockStack { expected: Some(other), found: Some(id) },
        ),
{
    assert(stack.push(id).drop_last() =~= stack);
}

impl NodeGraphCompile {
    pub open spec fn wf(&self) -> bool {
        &&& self.compiled@.no_duplicates()
        &&& self.compile_log@.no_duplicates()
        &&& forall|x: NodeId| #[trigger] self.compile_log@.contains(x) ==> self.compiled@.contains(x) || self.compiling@.contains(x)
        &&& self.names@.len() == self.blocks@.len()
        &&& self.blocks@.len() < u32::MAX
        &&& forall|i: int| 0 <= i < self.stack@.len() ==> 1 <= #[trigger] self.stack@[i].0 <= self.blocks@.len()
    }

    /// The block with id `id`, if it was defined.
    pub open spec fn block(&self, id: CodeBlockId) -> Option<CodeBlock> {
        if 1 <= id.0 <= self.blocks@.len() { Some(self.blocks@[id.0 - 1]) } else { None }
    }

    /// The block on top of the stack.
    pub open spec fn current(&self) -> Option<CodeBlockId> {
        top(self.stack@)
    }

    /// No blocks, nothing compiled.
    pub fn new() -> (r: Self)
        ensures
            r.wf(),
            r.blocks@.len() == 0,
            r.stack@.len() == 0,
            r.compiled@.len() == 0,
    {
        NodeGraphCompile {
            blocks: Vec::new(),
            names: Vec::new(),
            stack: Vec::new(),
            compiled: Vec::new(),
            compiling: Vec::new(),
            compile_log: Ghost(Seq::empty()),
        }
    }

    /// The id of the block named `name`, defining an empty one at the end
    /// where none has that name yet.
    pub fn define_block(&mut self, name: &str) -> (r: CodeBlockId)
        requires
            old(self).wf(),
            old(self).blocks@.len() + 1 < u32::MAX,
        ensures
            final(self).wf(),
            final(self).stack@ == old(self).stack@,
            final(self).compiled@ == old(self).compiled@,
            1 <= r.0 <= final(self).blocks@.len(),
            match first_index(texts(old(self).names@), name@) {
                Some(i) => r.0 == i + 1 && final(self).blocks@ == old(self).blocks@
                    && final(self).names@ == old(self).names@,
                None => r.0 == old(self).blocks@.len() + 1
                    && final(self).blocks@.len() == old(self).blocks@.len() + 1
                    && final(self).blocks@.drop_last() == old(self).blocks@
                    && final(self).blocks@.last().code@.len() == 0
                    && final(self).blocks@.last().counter == 0
                    && (forall|o: OutputId| final(self).blocks@.last().output(o) is None)
                    && final(self).names@.drop_last() == old(self).names@
                    && final(self).names@.last()@ == name@,
            },
    {
        let key = String::from_str(name);
        match find_name(&self.names, &key) {
            Some(i) => CodeBlockId((i + 1) as u32),
            None => {
                let id = CodeBlockId((self.blocks.len() + 1) as u32);
                self.blocks.push(CodeBlock::new());
                self.names.push(key);
                assert(self.blocks@.drop_last() =~= old(self).blocks@);
                assert(self.names@.drop_last() =~= old(self).names@);
                id
            },
        }
    }

    /// Makes a defined block the current one.
    pub fn push(&mut self, id: CodeBlockId)
        requires
            old(self).wf(),
            old(self).block(id) is Some,
        ensures
            final(self).wf(),
            final(self).stack@ == old(self).stack@.push(id),
            final(self).blocks@ == old(self).blocks@,
            final(self).names@ == old(self).names@,
            final(self).compiled@ == old(self).compiled@,
    {
        self.stack.push(id);
    }

    /// Defines the block named `name` (or finds it) and makes it current.
    pub fn push_new_block(&mut self, name: &str) -> (r: CodeBlockId)
        requires
            old(self).wf(),
            old(self).blocks@.len() + 1 < u32::MAX,
        ensures
            final(self).wf(),
            final(self).stack@ == old(self).stack@.push(r),
            final(self).block(r) is Some,
            final(self).compiled@ == old(self).compiled@,
            match first_index(texts(old(self).names@), name@) {
                Some(i) => r.0 == i + 1 && final(self).blocks@ == old(self).blocks@
                    && final(self).names@ == old(self).names@,
                None => r.0 == old(self).blocks@.len() + 1
                    && final(self).blocks@.drop_last() == old(self).blocks@
                    && final(self).names@.drop_last() == old(self).names@
                    && final(self).names@.last()@ == name@,
            },
    {
        let id = self.define_block(name);
        self.push(id);
        id
    }

    /// Closes the current block, which must be `expect`. The top of the stack
    /// is removed either way; a mismatch is reported as a stack error.
    pub fn pop(&mut self, expect: Option<CodeBlockId>) -> (r: Result<Option<CodeBlockId>, Error>)
        requires
            old(self).wf(),
        ensures
            final(self).wf(),
            (final(self).stack@, r) == pop_result(old(self).stack@, expect),
            final(self).blocks@ == old(self).blocks@,
            final(self).names@ == old(self).names@,
            final(self).compiled@ == old(self).compiled@,
    {
        let id = self.stack.pop();
        let same = match (id, expect) {
            (Some(a), Some(b)) => a.0 == b.0,
            (None, None) => true,
            _ => false,
        };
        if same {
            Ok(id)
        } else {
            Err(Error::BlockStack { expected: expect, found: id })
        }
    }

    /// The id of the current block.
    pub fn current_block_id(&self) -> (r: Result<CodeBlockId, Error>)
        ensures
            match self.current() {
                Some(id) => r == Ok::<CodeBlockId, Error>(id),
                None => r == Err::<CodeBlockId, Error>(Error::NoCurrentBlock),
            },
    {
        if self.stack.len() == 0 {
            Err(Error::NoCurrentBlock)
        } else {
            Ok(self.stack[self.stack.len() - 1])
        }
    }

    /// The current block.
    pub fn current_block(&self) -> (r: Result<&CodeBlock, Error>)
        requires
            self.wf(),
        ensures
            match self.current() {
                Some(id) => r is Ok && self.block(id) == Some(*r->Ok_0),
                None => r == Err::<&CodeBlock, Error>(Error::NoCurrentBlock),
            },
    {
        let id = self.current_block_id()?;
        Ok(&self.blocks[(id.0 - 1) as usize])
    }

    /// The block named `name`.
    pub fn get_block(&self, name: &str) -> (r: Option<&CodeBlock>)
        requires
            self.wf(),
        ensures
            match first_index(texts(self.names@), name@) {
                Some(i) => r is Some && *r->Some_0 == self.blocks@[i],
                None => r is None,
            },
    {
        let key = String::from_str(name);
        match find_name(&self.names, &key) {
            Some(i) => if i < self.blocks.len() { Some(&self.blocks[i]) } else { None },
            None => None,
        }
    }

    /// The block with id `id`.
    pub fn get_block_by_id(&self, id: CodeBlockId) -> (r: Option<&CodeBlock>)
        ensures
            match self.block(id) {
                Some(b) => r is Some && *r->Some_0 == b,
                None => r is None,
            },
    {
        if 1 <= id.0 && (id.0 as usize) <= self.blocks.len() {
            Some(&self.blocks[(id.0 - 1) as usize])
        } else {
            None
        }
    }

    /// Appends a raw statement to the block named `name`.
    pub fn append_code(&mut self, name: &str, code: String) -> (r: Result<(), Error>)
        requires
            old(self).wf(),
        ensures
            final(self).wf(),
            final(self).stack@ == old(self).stack@,
            final(self).names@ == old(self).names@,
            final(self).compiled@ == old(self).compiled@,
            match first_index(texts(old(self).names@), name@) {
                Some(i) => r is Ok && final(self).blocks@ == old(self).blocks@.update(i, final(self).blocks@[i])
                    && final(self).blocks@[i].code@ == old(self).blocks@[i].code@.push(code)
                    && final(self).blocks@[i].outputs@ == old(self).blocks@[i].outputs@
                    && final(self).blocks@[i].counter == old(self).blocks@[i].counter,
                None => r == Err::<(), Error>(Error::UndefinedBlock) && final(self).blocks@ == old(self).blocks@,
            },
    {
        let key = String::from_str(name);
        match find_name(&self.names, &key) {
            Some(i) => {
                self.blocks[i].append(code);
                assert(self.blocks@.len() == old(self).blocks@.len());
                Ok(())
            },
            None => Err(Error::UndefinedBlock),
        }
    }

    /// All blocks' statements, in block-creation order.
    pub fn dump(&self) -> (r: String)
        ensures
            r@ == blocks_text(self.blocks@),
    {
        let mut out = String::new();
        let mut i: usize = 0;
        while i < self.blocks.len()
            invariant
                i <= self.blocks@.len(),
                out@ == blocks_text(self.blocks@.subrange(0, i as int)),
            decreases self.blocks@.len() - i,
        {
            proof {
                let f = |b: CodeBlock| b.text();
                assert(self.blocks@.subrange(0, i + 1).map_values(f) =~= self.blocks@.subrange(0, i as int).map_values(f).push(self.blocks@[i as int].text()));
                self.blocks@.subrange(0, i as int).map_values(f).lemma_flatten_push(self.blocks@[i as int].text());
            }
            let text = self.blocks[i].dump();
            out.append(text.as_str());
            i = i + 1;
        }
        assert(self.blocks@.subrange(0, i as int) =~= self.blocks@);
        out
    }

    /// Empties every block, keeping the blocks themselves.
    pub fn clear(&mut self)
        requires
            old(self).wf(),
        ensures
            final(self).wf(),
            final(self).blocks@.len() == old(self).blocks@.len(),
            forall|i: int| 0 <= i < final(self).blocks@.len() ==> (#[trigger] final(self).blocks@[i]).code@.len() == 0
                && final(self).blocks@[i].outputs@.len() == 0,
            final(self).names@ == old(self).names@,
            final(self).stack@ == old(self).stack@,
            final(self).compiled@ == old(self).compiled@,
    {
        let mut i: usize = 0;
        while i < self.blocks.len()
            invariant
                self.wf(),
                i <= self.blocks@.len(),
                self.blocks@.len() == old(self).blocks@.len(),
                self.names@ == old(self).names@,
                self.stack@ == old(self).stack@,
                self.compiled@ == old(self).compiled@,
                forall|j: int| 0 <= j < i ==> (#[trigger] self.blocks@[j]).code@.len() == 0
                    && self.blocks@[j].outputs@.len() == 0,
            decreases self.blocks@.len() - i,
        {
            self.blocks[i].clear();
            i = i + 1;
        }
    }
}

} // verus!

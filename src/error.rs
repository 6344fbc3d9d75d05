use vstd::prelude::*;

use crate::ids::{CodeBlockId, NodeId};
use crate::types::DataType;

verus! {

/// Every failure of the engine, as a plain value.
#[derive(Clone, Debug, PartialEq, Eq)]
pub enum Error {
    /// A lookup named a node that is not (or no longer) in the graph.
    MissingNode(NodeId),
    /// The graph has no designated output node.
    MissingOutputNode,
    /// An input key names no declared input of the node.
    UnknownInput,
    /// A literal value whose type the port does not accept.
    WrongLiteralType { expected: DataType, got: DataType },
    /// A connection whose declared type the port cannot take.
    IncompatibleConnection { port: DataType, output: DataType },
    /// A cache-eligible node was reached again while it was being evaluated.
    Cycle(NodeId),
    /// A block was popped that is not the top of the block stack.
    BlockStack { expected: Option<CodeBlockId>, found: Option<CodeBlockId> },
    /// No rule converts between the two types.
    Conversion { from: DataType, to: DataType },
    /// The block stack is empty.
    NoCurrentBlock,
    /// A block name that was never defined.
    UndefinedBlock,
    /// An output was resolved before its node registered it.
    UnknownOutput,
    /// A value kind that the operation does not accept.
    Unsupported(DataType),
    /// A swizzle mask that names components the input does not have.
    InvalidSwizzle,
    /// A block has used up its variable counter.
    TooManyLocals,
    /// A parameter value of the wrong kind or type.
    WrongParameter,
    /// A selection that is not among the allowed values.
    InvalidSelection,
    /// A parameter name that the node does not declare.
    UnknownParameter,
    /// No registered node kind has that id or name.
    MissingDefinition,
    /// A failure reported by a node kind's own logic.
    Node,
}

} // verus!

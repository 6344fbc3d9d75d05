//! A typed node-graph engine: build a graph of typed operations, then either
//! evaluate it to a value or compile it to shader-like source text.

pub mod block;
pub mod color;
pub mod compile;
pub mod compiled;
pub mod compiler;
pub mod concrete;
pub mod definition;
pub mod error;
pub mod eval;
pub mod filter;
pub mod inputs;
pub mod graph;
pub mod ids;
pub mod node;
mod outside;
pub mod parameters;
pub mod persist;
pub mod registry;
pub mod swizzle;
pub mod text;
pub mod types;
pub mod value;

pub use block::{CodeBlock, NodeOutput};
pub use color::{
    color_rgb_to_u32, decode_color, u32_to_color, DecodedColor, NamedColor, NodeFrameDragState,
    NodeFrameState, ResizeState,
};
pub use compiled::CompiledValue;
pub use compiler::NodeGraphCompile;
pub use concrete::{NodeConcreteType, OutputTyped};
pub use definition::{InputDefinition, NodeDefinition, OutputDefinition, PortDefinition};
pub use error::Error;
pub use eval::{evaluate, NodeEvalState, NodeGraphExecution, NodeImpl};
pub use filter::NodeFilter;
pub use graph::NodeGraph;
pub use ids::{CodeBlockId, InputId, NodeId, OutputId};
pub use node::{InputTyped, Node};
pub use parameters::{ParameterDataType, ParameterDefinition, ParameterValue};
pub use persist::NodeRecord;
pub use registry::NodeRegistry;
pub use swizzle::{is_swizzle, is_swizzle_limit, SwizzleMask};
pub use types::{DataType, DataTypeClass, DynamicSize};
pub use value::{Input, InputKey, TextureHandle, Value};

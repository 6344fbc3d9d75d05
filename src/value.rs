use vstd::prelude::*;

use crate::ids::{NodeId, OutputId};
use crate::types::{class_of, DataType, DataTypeClass};

verus! {

/// The bit pattern of `1.0` in IEEE-754 single precision.
pub const ONE_BITS: u32 = 0x3f80_0000;

/// A texture bound by id and name.
#[derive(Clone, Debug, PartialEq, Eq)]
pub struct TextureHandle {
    pub id: u128,
    pub name: String,
}

/// A concrete value of exactly one data type. Floating-point components are
/// held as their IEEE-754 single-precision bit patterns; matrices are stored
/// column by column.
#[derive(Clone, Debug, PartialEq, Eq)]
pub enum Value {
    I32(i32),
    U32(u32),
    F32(u32),
    Vec2([u32; 2]),
    Vec3([u32; 3]),
    Vec4([u32; 4]),
    Mat2([u32; 4]),
    Mat3([u32; 9]),
    Mat4([u32; 16]),
    Texture2D(Option<TextureHandle>),
    Texture2DArray(Option<TextureHandle>),
    Texture3D(Option<TextureHandle>),
    Cubemap(Option<TextureHandle>),
}

/// The data type of a value.
pub open spec fn type_of(v: Value) -> DataType {
    match v {
        Value::I32(_) => DataType::I32,
        Value::U32(_) => DataType::U32,
        Value::F32(_) => DataType::F32,
        Value::Vec2(_) => DataType::Vec2,
        Value::Vec3(_) => DataType::Vec3,
        Value::Vec4(_) => DataType::Vec4,
        Value::Mat2(_) => DataType::Mat2,
        Value::Mat3(_) => DataType::Mat3,
        Value::Mat4(_) => DataType::Mat4,
        Value::Texture2D(_) => DataType::Texture2D,
        Value::Texture2DArray(_) => DataType::Texture2DArray,
        Value::Texture3D(_) => DataType::Texture3D,
        Value::Cubemap(_) => DataType::Cubemap,
    }
}

/// The type of the default value of a port type: dynamic vectors default to
/// `Vec4`, dynamic matrices to `Mat4`.
pub open spec fn default_type(dt: DataType) -> DataType {
    match dt {
        DataType::Dynamic | DataType::DynamicVector => DataType::Vec4,
        DataType::DynamicMatrix => DataType::Mat4,
        _ => dt,
    }
}

/// Does a port of type `port` take a literal value of type `got`: the same
/// type, or a scalar or vector for a dynamic (vector) port, or a matrix for a
/// dynamic matrix port.
pub open spec fn accepts_literal(port: DataType, got: DataType) -> bool {
    ||| port == got
    ||| ((port == DataType::Dynamic || port == DataType::DynamicVector) && !(got == DataType::DynamicVector) && (
        class_of(got) == DataTypeClass::Scalar || class_of(got) == DataTypeClass::Vector))
    ||| (port == DataType::DynamicMatrix && class_of(got) == DataTypeClass::Matrix && got != DataType::DynamicMatrix)
}

fn dup_handle(h: &Option<TextureHandle>) -> (r: Option<TextureHandle>)
    ensures
        r == *h,
{
    match h {
        Some(t) => Some(TextureHandle { id: t.id, name: t.name.clone() }),
        None => None,
    }
}

impl Value {
    /// The value's data type.
    pub fn data_type(&self) -> (r: DataType)
        ensures
            r == type_of(*self),
    {
        match self {
            Value::I32(_) => DataType::I32,
            Value::U32(_) => DataType::U32,
            Value::F32(_) => DataType::F32,
            Value::Vec2(_) => DataType::Vec2,
            Value::Vec3(_) => DataType::Vec3,
            Value::Vec4(_) => DataType::Vec4,
            Value::Mat2(_) => DataType::Mat2,
            Value::Mat3(_) => DataType::Mat3,
            Value::Mat4(_) => DataType::Mat4,
            Value::Texture2D(_) => DataType::Texture2D,
            Value::Texture2DArray(_) => DataType::Texture2DArray,
            Value::Texture3D(_) => DataType::Texture3D,
            Value::Cubemap(_) => DataType::Cubemap,
        }
    }

    /// A copy of the value.
    pub fn duplicate(&self) -> (r: Value)
        ensures
            r == *self,
    {
        match self {
            Value::I32(v) => Value::I32(*v),
            Value::U32(v) => Value::U32(*v),
            Value::F32(v) => Value::F32(*v),
            Value::Vec2(v) => Value::Vec2(*v),
            Value::Vec3(v) => Value::Vec3(*v),
            Value::Vec4(v) => Value::Vec4(*v),
            Value::Mat2(v) => Value::Mat2(*v),
            Value::Mat3(v) => Value::Mat3(*v),
            Value::Mat4(v) => Value::Mat4(*v),
            Value::Texture2D(h) => Value::Texture2D(dup_handle(h)),
            Value::Texture2DArray(h) => Value::Texture2DArray(dup_handle(h)),
            Value::Texture3D(h) => Value::Texture3D(dup_handle(h)),
            Value::Cubemap(h) => Value::Cubemap(dup_handle(h)),
        }
    }

    /// The default value of a port type: zero scalars and vectors, identity
    /// matrices, unbound textures.
    pub fn default_for(dt: DataType) -> (r: Value)
        ensures
            type_of(r) == default_type(dt),
    {
        let o = ONE_BITS;
        match dt {
            DataType::I32 => Value::I32(0),
            DataType::U32 => Value::U32(0),
            DataType::F32 => Value::F32(0),
            DataType::Vec2 => Value::Vec2([0, 0]),
            DataType::Vec3 => Value::Vec3([0, 0, 0]),
            DataType::Vec4 | DataType::Dynamic | DataType::DynamicVector => Value::Vec4([0, 0, 0, 0]),
            DataType::Mat2 => Value::Mat2([o, 0, 0, o]),
            DataType::Mat3 => Value::Mat3([o, 0, 0, 0, o, 0, 0, 0, o]),
            DataType::Mat4 | DataType::DynamicMatrix => Value::Mat4([o, 0, 0, 0, 0, o, 0, 0, 0, 0, o, 0, 0, 0, 0, o]),
            DataType::Texture2D => Value::Texture2D(None),
            DataType::Texture2DArray => Value::Texture2DArray(None),
            DataType::Texture3D => Value::Texture3D(None),
            DataType::Cubemap => Value::Cubemap(None),
        }
    }
}

/// The new state of an input port.
#[derive(Clone, Debug, PartialEq, Eq)]
pub enum Input {
    Disconnect,
    Connect(OutputId, Option<DataType>),
    Value(Value),
}

impl Input {
    /// A connection to the first output of `node`, with no declared type.
    pub fn from_node(node: NodeId) -> (r: Input)
        ensures
            r == Input::Connect(OutputId { node, idx: 0 }, None),
    {
        Input::Connect(OutputId { node, idx: 0 }, None)
    }
}

/// Names an input port by position or by declared name.
#[derive(Clone, Debug, PartialEq, Eq)]
pub enum InputKey {
    Idx(u32),
    Name(String),
}

} // verus!

use vstd::prelude::*;

verus! {

/// The broad class of a data type.
#[derive(Clone, Copy, Debug, PartialEq, Eq, Structural)]
pub enum DataTypeClass {
    Scalar,
    Vector,
    Matrix,
    Dynamic,
    Texture,
}

/// The closed set of port and value types.
#[derive(Clone, Copy, Debug, PartialEq, Eq, Hash, Structural)]
pub enum DataType {
    I32,
    U32,
    F32,
    Vec2,
    Vec3,
    Vec4,
    Mat2,
    Mat3,
    Mat4,
    Dynamic,
    DynamicVector,
    DynamicMatrix,
    Texture2D,
    Texture2DArray,
    Texture3D,
    Cubemap,
}

/// Is the type one of the three polymorphic placeholders.
pub open spec fn spec_is_dynamic(dt: DataType) -> bool {
    dt == DataType::Dynamic || dt == DataType::DynamicVector || dt == DataType::DynamicMatrix
}

/// The class that a type belongs to.
pub open spec fn class_of(dt: DataType) -> DataTypeClass {
    match dt {
        DataType::I32 | DataType::U32 | DataType::F32 => DataTypeClass::Scalar,
        DataType::Vec2 | DataType::Vec3 | DataType::Vec4 | DataType::DynamicVector => DataTypeClass::Vector,
        DataType::Mat2 | DataType::Mat3 | DataType::Mat4 | DataType::DynamicMatrix => DataTypeClass::Matrix,
        DataType::Dynamic => DataTypeClass::Dynamic,
        _ => DataTypeClass::Texture,
    }
}

/// Scalars and vectors convert into each other implicitly.
pub open spec fn is_scalar_or_vector(dt: DataType) -> bool {
    class_of(dt) == DataTypeClass::Scalar || class_of(dt) == DataTypeClass::Vector
}

/// The implicit compatibility rule between a port type and a connected type:
/// identical types, anything against a `Dynamic`, scalars and vectors among
/// themselves, and matrices only where one side is a dynamic matrix.
pub open spec fn compatible(a: DataType, b: DataType) -> bool {
    ||| a == b
    ||| class_of(a) == DataTypeClass::Dynamic
    ||| class_of(b) == DataTypeClass::Dynamic
    ||| (is_scalar_or_vector(a) && is_scalar_or_vector(b))
    ||| (class_of(a) == DataTypeClass::Matrix && class_of(b) == DataTypeClass::Matrix && (
        a == DataType::DynamicMatrix || b == DataType::DynamicMatrix))
}

impl DataType {
    /// Is this data type dynamic.
    pub fn is_dynamic(&self) -> (r: bool)
        ensures
            r == spec_is_dynamic(*self),
    {
        match self {
            DataType::Dynamic | DataType::DynamicVector | DataType::DynamicMatrix => true,
            _ => false,
        }
    }

    /// Returns the data type's class.
    pub fn class(&self) -> (r: DataTypeClass)
        ensures
            r == class_of(*self),
    {
        match self {
            DataType::I32 | DataType::U32 | DataType::F32 => DataTypeClass::Scalar,
            DataType::Vec2 | DataType::Vec3 | DataType::Vec4 | DataType::DynamicVector => DataTypeClass::Vector,
            DataType::Mat2 | DataType::Mat3 | DataType::Mat4 | DataType::DynamicMatrix => DataTypeClass::Matrix,
            DataType::Dynamic => DataTypeClass::Dynamic,
            _ => DataTypeClass::Texture,
        }
    }

    /// Check if a value of type `other` may be connected to a port of this type.
    pub fn is_compatible(&self, other: &DataType) -> (r: bool)
        ensures
            r == compatible(*self, *other),
    {
        if *self == *other {
            return true;
        }
        let a = self.class();
        let b = other.class();
        match (a, b) {
            (DataTypeClass::Dynamic, _) | (_, DataTypeClass::Dynamic) => true,
            (DataTypeClass::Scalar | DataTypeClass::Vector, DataTypeClass::Scalar | DataTypeClass::Vector) => true,
            (DataTypeClass::Matrix, DataTypeClass::Matrix) => {
                matches!(self, DataType::DynamicMatrix) || matches!(other, DataType::DynamicMatrix)
            },
            _ => false,
        }
    }
}

/// The width of a vector or matrix, for dynamic ports.
#[derive(Clone, Copy, Debug, PartialEq, Eq, Structural)]
pub enum DynamicSize {
    D1,
    D2,
    D3,
    D4,
}

/// The number of components or columns of a size.
pub open spec fn size_len(s: DynamicSize) -> nat {
    match s {
        DynamicSize::D1 => 1,
        DynamicSize::D2 => 2,
        DynamicSize::D3 => 3,
        DynamicSize::D4 => 4,
    }
}

impl DynamicSize {
    /// The number of components or columns.
    pub fn len(&self) -> (r: usize)
        ensures
            r == size_len(*self),
    {
        match self {
            DynamicSize::D1 => 1,
            DynamicSize::D2 => 2,
            DynamicSize::D3 => 3,
            DynamicSize::D4 => 4,
        }
    }
}

} // verus!

use vstd::prelude::*;

use crate::compiled::{converted, CompiledValue};
use crate::error::Error;
use crate::types::{class_of, spec_is_dynamic, DataType, DataTypeClass, DynamicSize, size_len};

verus! {

/// Collects the shapes of what is connected to the dynamic inputs of one node,
/// to pick one concrete type for all of them.
#[derive(Clone, Copy, Debug)]
pub struct NodeConcreteType {
    /// The smallest width of a connected vector or matrix; scalars do not count.
    pub min: Option<DynamicSize>,
    pub scalars: usize,
    pub vectors: usize,
    pub matrixes: usize,
}

/// The width that a concrete vector or matrix type contributes.
pub open spec fn width_of(dt: DataType) -> Option<DynamicSize> {
    match dt {
        DataType::Vec2 | DataType::Mat2 => Some(DynamicSize::D2),
        DataType::Vec3 | DataType::Mat3 => Some(DynamicSize::D3),
        DataType::Vec4 | DataType::Mat4 => Some(DynamicSize::D4),
        _ => None,
    }
}

/// The smaller of a running minimum and a new width.
pub open spec fn narrowed(min: Option<DynamicSize>, w: DynamicSize) -> Option<DynamicSize> {
    match min {
        Some(m) => if size_len(w) < size_len(m) { Some(w) } else { Some(m) },
        None => Some(w),
    }
}

/// The vector type of a width (two components at the least).
pub open spec fn vector_of(min: DynamicSize) -> DataType {
    match min {
        DynamicSize::D3 => DataType::Vec3,
        DynamicSize::D4 => DataType::Vec4,
        _ => DataType::Vec2,
    }
}

/// The matrix type of a width (two columns at the least).
pub open spec fn matrix_of(min: DynamicSize) -> DataType {
    match min {
        DynamicSize::D3 => DataType::Mat3,
        DynamicSize::D4 => DataType::Mat4,
        _ => DataType::Mat2,
    }
}

/// The resolved type: a matrix where matrices and no vectors were seen, else a
/// vector where any vector was seen, else a scalar; the width is the minimum.
pub open spec fn resolved(c: NodeConcreteType) -> Option<DataType> {
    if c.matrixes > 0 && c.vectors == 0 {
        match c.min {
            Some(DynamicSize::D2) => Some(DataType::Mat2),
            Some(DynamicSize::D3) => Some(DataType::Mat3),
            Some(DynamicSize::D4) => Some(DataType::Mat4),
            _ => None,
        }
    } else if c.vectors > 0 {
        match c.min {
            Some(DynamicSize::D2) => Some(DataType::Vec2),
            Some(DynamicSize::D3) => Some(DataType::Vec3),
            Some(DynamicSize::D4) => Some(DataType::Vec4),
            _ => None,
        }
    } else if c.scalars > 0 {
        match c.min {
            None | Some(DynamicSize::D1) => Some(DataType::F32),
            _ => None,
        }
    } else {
        None
    }
}

/// The state after one more input of type `dt` was seen.
pub open spec fn with_input(c: NodeConcreteType, dt: DataType) -> NodeConcreteType {
    match class_of(dt) {
        DataTypeClass::Scalar => NodeConcreteType { scalars: (c.scalars + 1) as usize, ..c },
        DataTypeClass::Vector => if dt == DataType::DynamicVector { c } else {
            NodeConcreteType { vectors: (c.vectors + 1) as usize, min: narrowed(c.min, width_of(dt).unwrap()), ..c }
        },
        DataTypeClass::Matrix => if dt == DataType::DynamicMatrix { c } else {
            NodeConcreteType { matrixes: (c.matrixes + 1) as usize, min: narrowed(c.min, width_of(dt).unwrap()), ..c }
        },
        _ => c,
    }
}

/// The type that a value of type `dt` is coerced to, for a given minimum width.
pub open spec fn coerce_target(min: DynamicSize, dt: DataType) -> Option<DataType> {
    match class_of(dt) {
        DataTypeClass::Scalar | DataTypeClass::Vector => Some(vector_of(min)),
        DataTypeClass::Matrix => Some(matrix_of(min)),
        _ => None,
    }
}

impl NodeConcreteType {
    /// Nothing seen yet.
    pub fn new() -> (r: Self)
        ensures
            r.min is None && r.scalars == 0 && r.vectors == 0 && r.matrixes == 0,
    {
        NodeConcreteType { min: None, scalars: 0, vectors: 0, matrixes: 0 }
    }

    /// Has any input been seen.
    pub fn has_dynamic(&self) -> (r: bool)
        ensures
            r == (self.scalars + self.vectors + self.matrixes > 0),
    {
        self.scalars > 0 || self.vectors > 0 || self.matrixes > 0
    }

    /// The concrete type that the dynamic ports resolve to, if any.
    pub fn data_type(&self) -> (r: Option<DataType>)
        ensures
            r == resolved(*self),
    {
        if self.matrixes > 0 && self.vectors == 0 {
            match self.min {
                Some(DynamicSize::D2) => Some(DataType::Mat2),
                Some(DynamicSize::D3) => Some(DataType::Mat3),
                Some(DynamicSize::D4) => Some(DataType::Mat4),
                _ => None,
            }
        } else if self.vectors > 0 {
            match self.min {
                Some(DynamicSize::D2) => Some(DataType::Vec2),
                Some(DynamicSize::D3) => Some(DataType::Vec3),
                Some(DynamicSize::D4) => Some(DataType::Vec4),
                _ => None,
            }
        } else if self.scalars > 0 {
            match self.min {
                None | Some(DynamicSize::D1) => Some(DataType::F32),
                _ => None,
            }
        } else {
            None
        }
    }

    /// Coerces a compiled value to the resolved width: scalars and vectors to
    /// the vector type, matrices to the matrix type. Nothing changes while no
    /// vector or matrix was seen.
    pub fn convert(&self, value: &mut CompiledValue) -> (r: Result<(), Error>)
        ensures
            match self.min {
                None => r is Ok && *final(value) == *old(value),
                Some(min) => match coerce_target(min, old(value).dt) {
                    None => r == Err::<(), Error>(Error::Unsupported(old(value).dt)) && *final(value) == *old(value),
                    Some(to) => match converted(old(value).dt, to, old(value).value@) {
                        Some((text, dt)) => r is Ok && final(value).value@ == text && final(value).dt == dt,
                        None => r == Err::<(), Error>(Error::Conversion { from: old(value).dt, to })
                            && *final(value) == *old(value),
                    },
                },
            },
    {
        match self.min {
            None => Ok(()),
            Some(min) => {
                let (vec_dt, mat_dt) = match min {
                    DynamicSize::D3 => (DataType::Vec3, DataType::Mat3),
                    DynamicSize::D4 => (DataType::Vec4, DataType::Mat4),
                    _ => (DataType::Vec2, DataType::Mat2),
                };
                match value.dt.class() {
                    DataTypeClass::Scalar | DataTypeClass::Vector => value.convert(vec_dt),
                    DataTypeClass::Matrix => value.convert(mat_dt),
                    _ => Err(Error::Unsupported(value.dt)),
                }
            },
        }
    }

    /// Records one more connected input of type `dt`.
    pub fn add_input_type(&mut self, dt: DataType)
        requires
            old(self).scalars < usize::MAX,
            old(self).vectors < usize::MAX,
            old(self).matrixes < usize::MAX,
        ensures
            *final(self) == with_input(*old(self), dt),
    {
        let min: usize = match self.min {
            Some(m) => m.len(),
            None => 5,
        };
        match dt {
            DataType::I32 | DataType::U32 | DataType::F32 => {
                self.scalars = self.scalars + 1;
            },
            DataType::Vec2 | DataType::Vec3 | DataType::Vec4 => {
                self.vectors = self.vectors + 1;
                let w = Self::width(dt);
                if w.len() < min {
                    self.min = Some(w);
                }
            },
            DataType::Mat2 | DataType::Mat3 | DataType::Mat4 => {
                self.matrixes = self.matrixes + 1;
                let w = Self::width(dt);
                if w.len() < min {
                    self.min = Some(w);
                }
            },
            _ => {},
        }
    }

    fn width(dt: DataType) -> (r: DynamicSize)
        requires
            width_of(dt) is Some,
        ensures
            width_of(dt) == Some(r),
    {
        match dt {
            DataType::Vec2 | DataType::Mat2 => DynamicSize::D2,
            DataType::Vec3 | DataType::Mat3 => DynamicSize::D3,
            _ => DynamicSize::D4,
        }
    }
}

/// The output side of a port: its declared type and, for a dynamic
/// declaration, the concrete type it currently resolves to.
#[derive(Clone, Copy, Debug)]
pub struct OutputTyped {
    pub declared: DataType,
    pub concrete_type: Option<DataType>,
}

/// The concrete type that an output of the declared type takes on.
pub open spec fn output_resolution(declared: DataType, c: NodeConcreteType) -> Option<DataType> {
    match declared {
        DataType::Dynamic => resolved(c),
        DataType::DynamicVector => match c.min {
            Some(DynamicSize::D2) => Some(DataType::Vec2),
            Some(DynamicSize::D3) => Some(DataType::Vec3),
            Some(DynamicSize::D4) => Some(DataType::Vec4),
            _ => Some(DataType::F32),
        },
        DataType::DynamicMatrix => match c.min {
            Some(DynamicSize::D2) => Some(DataType::Mat2),
            Some(DynamicSize::D3) => Some(DataType::Mat3),
            Some(DynamicSize::D4) => Some(DataType::Mat4),
            _ => None,
        },
        _ => None,
    }
}

impl OutputTyped {
    /// An output of the declared type, not resolved yet.
    pub fn new(declared: DataType) -> (r: Self)
        ensures
            r.declared == declared && r.concrete_type is None,
    {
        OutputTyped { declared, concrete_type: None }
    }

    /// The resolved type where there is one, else the declared type.
    pub fn data_type(&self) -> (r: DataType)
        ensures
            r == match self.concrete_type { Some(t) => t, None => self.declared },
    {
        match self.concrete_type {
            Some(t) => t,
            None => self.declared,
        }
    }

    /// Is the declared type dynamic.
    pub fn is_dynamic(&self) -> (r: bool)
        ensures
            r == spec_is_dynamic(self.declared),
    {
        self.declared.is_dynamic()
    }

    /// Resolves the output from what the node's dynamic inputs saw; tells
    /// whether the resolved type changed.
    pub fn update_concrete_type(&mut self, concrete_type: &NodeConcreteType) -> (r: bool)
        ensures
            final(self).declared == old(self).declared,
            final(self).concrete_type == output_resolution(old(self).declared, *concrete_type),
            r == (output_resolution(old(self).declared, *concrete_type) != old(self).concrete_type),
    {
        let new_type = match self.declared {
            DataType::Dynamic => concrete_type.data_type(),
            DataType::DynamicVector => match concrete_type.min {
                Some(DynamicSize::D2) => Some(DataType::Vec2),
                Some(DynamicSize::D3) => Some(DataType::Vec3),
                Some(DynamicSize::D4) => Some(DataType::Vec4),
                _ => Some(DataType::F32),
            },
            DataType::DynamicMatrix => match concrete_type.min {
                Some(DynamicSize::D2) => Some(DataType::Mat2),
                Some(DynamicSize::D3) => Some(DataType::Mat3),
                Some(DynamicSize::D4) => Some(DataType::Mat4),
                _ => None,
            },
            _ => None,
        };
        let changed = match (new_type, self.concrete_type) {
            (Some(a), Some(b)) => a != b,
            (None, None) => false,
            _ => true,
        };
        self.concrete_type = new_type;
        changed
    }
}

} // verus!

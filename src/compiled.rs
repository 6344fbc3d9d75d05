use vstd::prelude::*;

use crate::error::Error;
use crate::types::{class_of, DataType, DataTypeClass};

verus! {

/// A piece of generated expression text together with its type.
#[derive(Clone, Debug, PartialEq, Eq)]
pub struct CompiledValue {
    pub value: String,
    pub dt: DataType,
}

/// `p`, then `v`, then `s`.
pub open spec fn wrapped(p: Seq<char>, v: Seq<char>, s: Seq<char>) -> Seq<char> {
    p + v + s
}

/// Concatenates `p`, `v` and `s` into a new string.
pub fn wrap(p: &str, v: &str, s: &str) -> (r: String)
    ensures
        r@ == wrapped(p@, v@, s@),
{
    let mut r = String::from_str(p);
    r.append(v);
    r.append(s);
    r
}

/// Is a concrete (not dynamic) scalar or vector type.
pub open spec fn concrete_scalar_or_vector(dt: DataType) -> bool {
    class_of(dt) == DataTypeClass::Scalar || dt == DataType::Vec2 || dt == DataType::Vec3
        || dt == DataType::Vec4
}

/// Is a concrete matrix type.
pub open spec fn concrete_matrix(dt: DataType) -> bool {
    dt == DataType::Mat2 || dt == DataType::Mat3 || dt == DataType::Mat4
}

/// The name of the cast function for a scalar type.
pub open spec fn cast_name(dt: DataType) -> Seq<char> {
    match dt {
        DataType::I32 => "i32("@,
        DataType::U32 => "u32("@,
        _ => "f32("@,
    }
}

/// The conversion table: the text and the type that converting the
/// expression `v` of type `from` to type `to` yields, or `None` where no rule
/// exists. Converting to a dynamic type of a matching class leaves the value
/// as it is.
pub open spec fn converted(from: DataType, to: DataType, v: Seq<char>) -> Option<(Seq<char>, DataType)> {
    if from == to {
        Some((v, from))
    } else if concrete_scalar_or_vector(from) && (to == DataType::Dynamic || to == DataType::DynamicVector) {
        Some((v, from))
    } else if concrete_matrix(from) && (to == DataType::Dynamic || to == DataType::DynamicMatrix) {
        Some((v, from))
    } else if class_of(from) == DataTypeClass::Scalar {
        match to {
            DataType::I32 | DataType::U32 | DataType::F32 => Some((wrapped(cast_name(to), v, ")"@), to)),
            DataType::Vec2 => Some((wrapped("vec2<f32>("@, v, ", 0.)"@), to)),
            DataType::Vec3 => Some((wrapped("vec3<f32>("@, v, ", 0., 0.)"@), to)),
            DataType::Vec4 => Some((wrapped("vec4<f32>("@, v, ", 0., 0., 1.)"@), to)),
            _ => None,
        }
    } else if from == DataType::Vec2 || from == DataType::Vec3 || from == DataType::Vec4 {
        match (from, to) {
            (_, DataType::I32) | (_, DataType::U32) | (_, DataType::F32) => Some((wrapped(cast_name(to), v, ".x)"@), to)),
            (DataType::Vec2, DataType::Vec3) => Some((wrapped("vec3<f32>("@, v, ".xy, 0.)"@), to)),
            (DataType::Vec2, DataType::Vec4) => Some((wrapped("vec4<f32>("@, v, ".xy, 0., 1.)"@), to)),
            (DataType::Vec3, DataType::Vec2) => Some((wrapped("vec2<f32>("@, v, ".xy)"@), to)),
            (DataType::Vec3, DataType::Vec4) => Some((wrapped("vec4<f32>("@, v, ".xyz, 1.)"@), to)),
            (DataType::Vec4, DataType::Vec2) => Some((wrapped("vec2<f32>("@, v, ".xy)"@), to)),
            (DataType::Vec4, DataType::Vec3) => Some((wrapped("vec3<f32>("@, v, ".xyz)"@), to)),
            _ => None,
        }
    } else {
        match (from, to) {
            (DataType::Mat3, DataType::Mat2) | (DataType::Mat4, DataType::Mat2) => Some((
                "mat2x2<f32>("@ + v + "[0].xy, "@ + v + "[1].xy)"@,
                to,
            )),
            (DataType::Mat4, DataType::Mat3) => Some((
                "mat3x3<f32>("@ + v + "[0].xyz, "@ + v + "[1].xyz, "@ + v + "[2].xyz)"@,
                to,
            )),
            _ => None,
        }
    }
}

/// Rows of the conversion table: a scalar widens to `vec4` with a zero-filled
/// middle and a `1.` in the last component; `Mat4` narrows to `Mat2` from the
/// first two components of its first two columns; a matrix never widens.
pub proof fn lemma_conversion_table(v: Seq<char>, s: DataType)
    requires
        class_of(s) == DataTypeClass::Scalar,
    ensures
        converted(s, DataType::Vec4, v) == Some(("vec4<f32>("@ + v + ", 0., 0., 1.)"@, DataType::Vec4)),
        converted(DataType::Mat4, DataType::Mat2, v) == Some((
            "mat2x2<f32>("@ + v + "[0].xy, "@ + v + "[1].xy)"@,
            DataType::Mat2,
        )),
        converted(DataType::Mat2, DataType::Mat3, v) is None,
        converted(DataType::Mat2, DataType::Mat4, v) is None,
        converted(DataType::Mat3, DataType::Mat4, v) is None,
{
}

/// The text of a scalar cast.
fn cast(to: DataType, v: &str, s: &str) -> (r: String)
    requires
        class_of(to) == DataTypeClass::Scalar,
    ensures
        r@ == wrapped(cast_name(to), v@, s@),
{
    match to {
        DataType::I32 => wrap("i32(", v, s),
        DataType::U32 => wrap("u32(", v, s),
        _ => wrap("f32(", v, s),
    }
}

impl CompiledValue {
    /// Converts the value to type `to_dt` by the conversion table, or fails
    /// where the table has no rule, leaving the value unchanged.
    pub fn convert(&mut self, to_dt: DataType) -> (r: Result<(), Error>)
        ensures
            match converted(old(self).dt, to_dt, old(self).value@) {
                Some((text, dt)) => r is Ok && final(self).value@ == text && final(self).dt == dt,
                None => r == Err::<(), Error>(Error::Conversion { from: old(self).dt, to: to_dt })
                    && *final(self) == *old(self),
            },
    {
        let from = self.dt;
        if from == to_dt {
            return Ok(());
        }
        let v = self.value.as_str();
        let text = match (from, to_dt) {
            (DataType::I32 | DataType::U32 | DataType::F32 | DataType::Vec2 | DataType::Vec3
            | DataType::Vec4, DataType::Dynamic | DataType::DynamicVector) => {
                return Ok(());
            },
            (DataType::Mat2 | DataType::Mat3 | DataType::Mat4, DataType::Dynamic
            | DataType::DynamicMatrix) => {
                return Ok(());
            },
            (DataType::I32 | DataType::U32 | DataType::F32, DataType::I32 | DataType::U32
            | DataType::F32) => cast(to_dt, v, ")"),
            (DataType::I32 | DataType::U32 | DataType::F32, DataType::Vec2) => wrap("vec2<f32>(", v, ", 0.)"),
            (DataType::I32 | DataType::U32 | DataType::F32, DataType::Vec3) => wrap("vec3<f32>(", v, ", 0., 0.)"),
            (DataType::I32 | DataType::U32 | DataType::F32, DataType::Vec4) => wrap("vec4<f32>(", v, ", 0., 0., 1.)"),
            (DataType::Vec2 | DataType::Vec3 | DataType::Vec4, DataType::I32 | DataType::U32
            | DataType::F32) => cast(to_dt, v, ".x)"),
            (DataType::Vec2, DataType::Vec3) => wrap("vec3<f32>(", v, ".xy, 0.)"),
            (DataType::Vec2, DataType::Vec4) => wrap("vec4<f32>(", v, ".xy, 0., 1.)"),
            (DataType::Vec3, DataType::Vec2) => wrap("vec2<f32>(", v, ".xy)"),
            (DataType::Vec3, DataType::Vec4) => wrap("vec4<f32>(", v, ".xyz, 1.)"),
            (DataType::Vec4, DataType::Vec2) => wrap("vec2<f32>(", v, ".xy)"),
            (DataType::Vec4, DataType::Vec3) => wrap("vec3<f32>(", v, ".xyz)"),
            (DataType::Mat3 | DataType::Mat4, DataType::Mat2) => {
                let mut t = wrap("mat2x2<f32>(", v, "[0].xy, ");
                t.append(v);
                t.append("[1].xy)");
                t
            },
            (DataType::Mat4, DataType::Mat3) => {
                let mut t = wrap("mat3x3<f32>(", v, "[0].xyz, ");
                t.append(v);
                t.append("[1].xyz, ");
                t.append(v);
                t.append("[2].xyz)");
                t
            },
            _ => {
                return Err(Error::Conversion { from, to: to_dt });
            },
        };
        self.value = text;
        self.dt = to_dt;
        Ok(())
    }
}

} // verus!

use vstd::prelude::*;

use crate::compiled::{wrap, wrapped, CompiledValue};
use crate::error::Error;
use crate::outside::push_char;
use crate::types::DataType;

verus! {

broadcast use vstd::seq_lib::group_seq_properties;

/// A component selector such as `xyz` or `rgba`.
#[derive(Clone, Debug, PartialEq, Eq)]
pub struct SwizzleMask(pub String);

/// Does `ch` name a vector component.
pub open spec fn swizzle_char(ch: char) -> bool {
    ch == 'x' || ch == 'y' || ch == 'z' || ch == 'w' || ch == 'r' || ch == 'g' || ch == 'b' || ch == 'a'
}

/// Does `ch` name a component of a value with `len` components.
pub open spec fn swizzle_within(len: nat, ch: char) -> bool {
    ||| ch == 'x' || ch == 'r'
    ||| ((ch == 'y' || ch == 'g') && len > 1)
    ||| ((ch == 'z' || ch == 'b') && len > 2)
    ||| ((ch == 'w' || ch == 'a') && len > 3)
}

/// The component characters of `m`, in order.
pub open spec fn keep_swizzle(m: Seq<char>) -> Seq<char>
    decreases m.len(),
{
    if m.len() == 0 {
        m
    } else if swizzle_char(m.last()) {
        keep_swizzle(m.drop_last()).push(m.last())
    } else {
        keep_swizzle(m.drop_last())
    }
}

/// A mask as `filter` leaves it: its component characters, at most four.
pub open spec fn filtered_mask(m: Seq<char>) -> Seq<char> {
    let k = keep_swizzle(m);
    if k.len() > 4 { k.subrange(0, 4) } else { k }
}

/// The number of components of a type a swizzle applies to.
pub open spec fn swizzle_width(dt: DataType) -> Option<nat> {
    match dt {
        DataType::I32 | DataType::U32 | DataType::F32 => Some(1),
        DataType::Vec2 => Some(2),
        DataType::Vec3 => Some(3),
        DataType::Vec4 => Some(4),
        _ => None,
    }
}

/// The type a mask of `n` characters selects from a value of type `dt`.
pub open spec fn swizzle_type(n: nat, dt: DataType) -> DataType {
    if n == 4 { DataType::Vec4 } else if n == 3 { DataType::Vec3 } else if n == 2 { DataType::Vec2 } else { dt }
}

/// The text of a swizzle of `v`: a scalar is repeated into a vector
/// constructor; a vector is swizzled by the mask.
pub open spec fn swizzle_text(v: Seq<char>, width: nat, out: DataType, mask: Seq<char>) -> Seq<char> {
    if width == 1 {
        match out {
            DataType::Vec4 => "vec4<f32>("@ + v + ", "@ + v + ", "@ + v + ", "@ + v + ")"@,
            DataType::Vec3 => "vec3<f32>("@ + v + ", "@ + v + ", "@ + v + ")"@,
            DataType::Vec2 => "vec2<f32>("@ + v + ", "@ + v + ")"@,
            _ => v,
        }
    } else {
        v + "."@ + mask
    }
}

/// Does `ch` name a vector component.
pub fn is_swizzle(ch: char) -> (r: bool)
    ensures
        r == swizzle_char(ch),
{
    match ch {
        'x' | 'y' | 'z' | 'w' => true,
        'r' | 'g' | 'b' | 'a' => true,
        _ => false,
    }
}

/// Does `ch` name a component of a value with `len` components.
pub fn is_swizzle_limit(len: usize, ch: char) -> (r: bool)
    ensures
        r == swizzle_within(len as nat, ch),
{
    match ch {
        'x' | 'r' => true,
        'y' | 'g' => len > 1,
        'z' | 'b' => len > 2,
        'w' | 'a' => len > 3,
        _ => false,
    }
}

/// `s` repeated `n` times, separated by `, `, inside a vector constructor.
fn splat(ctor: &str, v: &str, n: usize) -> (r: String)
    requires
        2 <= n <= 4,
    ensures
        n == 4 ==> r@ == ctor@ + v@ + ", "@ + v@ + ", "@ + v@ + ", "@ + v@ + ")"@,
        n == 3 ==> r@ == ctor@ + v@ + ", "@ + v@ + ", "@ + v@ + ")"@,
        n == 2 ==> r@ == ctor@ + v@ + ", "@ + v@ + ")"@,
{
    let mut r = wrap(ctor, v, ", ");
    r.append(v);
    if n > 2 {
        r.append(", ");
        r.append(v);
    }
    if n > 3 {
        r.append(", ");
        r.append(v);
    }
    r.append(")");
    r
}

impl SwizzleMask {
    /// Applies the mask to a compiled scalar or vector. Fails on other types
    /// and on masks that name components the input does not have.
    pub fn compile(&self, input: CompiledValue) -> (r: Result<CompiledValue, Error>)
        ensures
            match swizzle_width(input.dt) {
                None => r == Err::<CompiledValue, Error>(Error::Unsupported(input.dt)),
                Some(w) => if forall|i: int| 0 <= i < self.0@.len() ==> swizzle_within(w, #[trigger] self.0@[i]) {
                    match r {
                        Ok(out) => out.dt == swizzle_type(self.0@.len(), input.dt)
                            && out.value@ == swizzle_text(input.value@, w, out.dt, self.0@),
                        Err(_) => false,
                    }
                } else {
                    r == Err::<CompiledValue, Error>(Error::InvalidSwizzle)
                },
            },
    {
        let len: usize = match input.dt {
            DataType::I32 | DataType::U32 | DataType::F32 => 1,
            DataType::Vec2 => 2,
            DataType::Vec3 => 3,
            DataType::Vec4 => 4,
            _ => {
                return Err(Error::Unsupported(input.dt));
            },
        };
        assert(swizzle_width(input.dt) == Some(len as nat));
        let mask = self.0.as_str();
        let n = mask.unicode_len();
        let mut i: usize = 0;
        while i < n
            invariant
                n == self.0@.len(),
                i <= n,
                mask@ == self.0@,
                swizzle_width(input.dt) == Some(len as nat),
                forall|j: int| 0 <= j < i ==> swizzle_within(len as nat, #[trigger] self.0@[j]),
            decreases n - i,
        {
            let c = mask.get_char(i);
            if !is_swizzle_limit(len, c) {
                assert(!swizzle_within(len as nat, self.0@[i as int]));
                return Err(Error::InvalidSwizzle);
            }
            i = i + 1;
        }
        let out_dt = if n == 4 {
            DataType::Vec4
        } else if n == 3 {
            DataType::Vec3
        } else if n == 2 {
            DataType::Vec2
        } else {
            input.dt
        };
        let v = input.value.as_str();
        let out = if len == 1 {
            match out_dt {
                DataType::Vec4 => splat("vec4<f32>(", v, 4),
                DataType::Vec3 => splat("vec3<f32>(", v, 3),
                DataType::Vec2 => splat("vec2<f32>(", v, 2),
                _ => input.value.clone(),
            }
        } else {
            wrap(v, ".", mask)
        };
        Ok(CompiledValue { value: out, dt: out_dt })
    }

    /// Keeps only the component characters of the mask, at most four.
    pub fn filter(&mut self)
        ensures
            final(self).0@ == filtered_mask(old(self).0@),
    {
        let m = self.0.as_str();
        let n = m.unicode_len();
        let mut kept = String::new();
        let mut i: usize = 0;
        while i < n
            invariant
                n == m@.len(),
                i <= n,
                kept@ == keep_swizzle(m@.subrange(0, i as int)),
            decreases n - i,
        {
            let c = m.get_char(i);
            assert(m@.subrange(0, i + 1).drop_last() =~= m@.subrange(0, i as int));
            if is_swizzle(c) {
                push_char(&mut kept, c);
            }
            i = i + 1;
        }
        assert(m@.subrange(0, n as int) =~= m@);
        let k = kept.as_str();
        let kn = k.unicode_len();
        if kn > 4 {
            let mut short = String::new();
            let mut j: usize = 0;
            while j < 4
                invariant
                    kn == k@.len(),
                    kn > 4,
                    j <= 4,
                    short@ == k@.subrange(0, j as int),
                decreases 4 - j,
            {
                push_char(&mut short, k.get_char(j));
                j = j + 1;
                assert(short@ =~= k@.subrange(0, j as int));
            }
            self.0 = short;
        } else {
            self.0 = kept;
        }
    }
}

} // verus!

use vstd::prelude::*;

use crate::compiled::{converted, CompiledValue};
use crate::concrete::{coerce_target, with_input, NodeConcreteType};
use crate::error::Error;
use crate::types::{spec_is_dynamic, DataType};

verus! {

broadcast use vstd::seq_lib::group_seq_properties;

/// The text and type of a compiled value.
pub open spec fn cv_view(v: CompiledValue) -> (Seq<char>, DataType) {
    (v.value@, v.dt)
}

/// The texts and types of compiled values.
pub open spec fn views(s: Seq<CompiledValue>) -> Seq<(Seq<char>, DataType)> {
    s.map_values(|v: CompiledValue| cv_view(v))
}

/// Each value converted to its port's declared type, in order; the first
/// conversion that has no rule fails.
pub open spec fn converted_all(raws: Seq<(Seq<char>, DataType)>, decl: Seq<DataType>) -> Result<Seq<(Seq<char>, DataType)>, Error>
    decreases raws.len(),
{
    if raws.len() == 0 {
        Ok(Seq::empty())
    } else {
        match converted_all(raws.drop_last(), decl) {
            Err(e) => Err(e),
            Ok(vs) => {
                let to = decl[raws.len() - 1];
                match converted(raws.last().1, to, raws.last().0) {
                    None => Err(Error::Conversion { from: raws.last().1, to }),
                    Some(t) => Ok(vs.push(t)),
                }
            },
        }
    }
}

/// What the connected dynamic inputs among the first `n` saw, by the types
/// of their values as they arrived.
pub open spec fn concrete_of(raws: Seq<(Seq<char>, DataType)>, decl: Seq<DataType>, conn: Seq<bool>, n: nat) -> NodeConcreteType
    decreases n,
{
    if n == 0 {
        NodeConcreteType { min: None, scalars: 0, vectors: 0, matrixes: 0 }
    } else {
        let c = concrete_of(raws, decl, conn, (n - 1) as nat);
        if conn[n - 1] && spec_is_dynamic(decl[n - 1]) { with_input(c, raws[n - 1].1) } else { c }
    }
}

/// What coercing one value to the resolved width gives.
pub open spec fn coerced(c: NodeConcreteType, v: (Seq<char>, DataType)) -> Result<(Seq<char>, DataType), Error> {
    match c.min {
        None => Ok(v),
        Some(min) => match coerce_target(min, v.1) {
            None => Err(Error::Unsupported(v.1)),
            Some(to) => match converted(v.1, to, v.0) {
                Some(t) => Ok(t),
                None => Err(Error::Conversion { from: v.1, to }),
            },
        },
    }
}

/// The values of dynamic ports coerced to the resolved width, in order; the
/// others as they are.
pub open spec fn unified(c: NodeConcreteType, decl: Seq<DataType>, vs: Seq<(Seq<char>, DataType)>) -> Result<Seq<(Seq<char>, DataType)>, Error>
    decreases vs.len(),
{
    if vs.len() == 0 {
        Ok(Seq::empty())
    } else {
        match unified(c, decl, vs.drop_last()) {
            Err(e) => Err(e),
            Ok(us) => if spec_is_dynamic(decl[vs.len() - 1]) {
                match coerced(c, vs.last()) {
                    Err(e) => Err(e),
                    Ok(t) => Ok(us.push(t)),
                }
            } else {
                Ok(us.push(vs.last()))
            },
        }
    }
}

/// The input values a node kind's compile logic receives: each arrived value
/// converted to its port's type; then, where a connected dynamic input was
/// seen, every dynamic input coerced to the one resolved width.
pub open spec fn prepared(raws: Seq<(Seq<char>, DataType)>, decl: Seq<DataType>, conn: Seq<bool>) -> Result<Seq<(Seq<char>, DataType)>, Error> {
    match converted_all(raws, decl) {
        Err(e) => Err(e),
        Ok(vs) => {
            let c = concrete_of(raws, decl, conn, raws.len());
            if c.scalars + c.vectors + c.matrixes > 0 { unified(c, decl, vs) } else { Ok(vs) }
        },
    }
}

/// A failure among the first values is the failure of all of them.
pub proof fn lemma_converted_all_err(raws: Seq<(Seq<char>, DataType)>, decl: Seq<DataType>, i: int, k: int)
    requires
        0 <= i <= k <= raws.len(),
        converted_all(raws.subrange(0, i), decl) is Err,
    ensures
        converted_all(raws.subrange(0, k), decl) == converted_all(raws.subrange(0, i), decl),
    decreases k - i,
{
    if k > i {
        lemma_converted_all_err(raws, decl, i, k - 1);
        assert(raws.subrange(0, k).drop_last() =~= raws.subrange(0, k - 1));
    }
}

/// A failure among the first values is the failure of all of them.
pub proof fn lemma_unified_err(c: NodeConcreteType, decl: Seq<DataType>, vs: Seq<(Seq<char>, DataType)>, i: int, k: int)
    requires
        0 <= i <= k <= vs.len(),
        unified(c, decl, vs.subrange(0, i)) is Err,
    ensures
        unified(c, decl, vs.subrange(0, k)) == unified(c, decl, vs.subrange(0, i)),
    decreases k - i,
{
    if k > i {
        lemma_unified_err(c, decl, vs, i, k - 1);
        assert(vs.subrange(0, k).drop_last() =~= vs.subrange(0, k - 1));
    }
}

/// Builds the input values for a node kind's compile logic from the values
/// that arrived at its ports (resolved outputs or literals), the ports'
/// declared types and which ports are connected.
pub fn prepare_inputs(raws: Vec<CompiledValue>, declared: &Vec<DataType>, connected: &Vec<bool>) -> (r: Result<Vec<CompiledValue>, Error>)
    requires
        declared@.len() == raws@.len(),
        connected@.len() == raws@.len(),
    ensures
        match prepared(views(raws@), declared@, connected@) {
            Ok(vs) => r is Ok && views(r->Ok_0@) == vs,
            Err(e) => r == Err::<Vec<CompiledValue>, Error>(e),
        },
{
    let ghost rv = views(raws@);
    let n = raws.len();
    let mut concrete = NodeConcreteType::new();
    let mut vals: Vec<CompiledValue> = Vec::new();
    let mut i: usize = 0;
    assert(rv.subrange(0, 0) =~= Seq::<(Seq<char>, DataType)>::empty());
    assert(views(vals@) =~= Seq::<(Seq<char>, DataType)>::empty());
    while i < n
        invariant
            n == raws@.len(),
            rv == views(raws@),
            vals@.len() == i,
            declared@.len() == n,
            connected@.len() == n,
            i <= n,
            converted_all(rv.subrange(0, i as int), declared@) == Ok::<Seq<(Seq<char>, DataType)>, Error>(views(vals@)),
            concrete == concrete_of(rv, declared@, connected@, i as nat),
            concrete.scalars <= i,
            concrete.vectors <= i,
            concrete.matrixes <= i,
        decreases n - i,
    {
        assert(rv.subrange(0, i + 1).drop_last() =~= rv.subrange(0, i as int));
        assert(rv[i as int] == cv_view(raws@[i as int]));
        let raw = &raws[i];
        if connected[i] && declared[i].is_dynamic() {
            concrete.add_input_type(raw.dt);
        }
        let mut v = CompiledValue { value: raw.value.clone(), dt: raw.dt };
        let ghost before = vals@;
        let c = v.convert(declared[i]);
        if c.is_err() {
            proof {
                lemma_converted_all_err(rv, declared@, i + 1, n as int);
                assert(rv.subrange(0, n as int) =~= rv);
            }
            return Err(c.unwrap_err());
        }
        vals.push(v);
        assert(views(vals@) =~= views(before).push(cv_view(v)));
        i = i + 1;
    }
    assert(rv.subrange(0, n as int) =~= rv);
    if !concrete.has_dynamic() {
        return Ok(vals);
    }
    let ghost vs = views(vals@);
    let mut j: usize = 0;
    while j < n
        invariant
            n == vals@.len(),
            declared@.len() == n,
            j <= n,
            vs.len() == n,
            concrete.scalars + concrete.vectors + concrete.matrixes > 0,
            concrete == concrete_of(rv, declared@, connected@, n as nat),
            rv.len() == n,
            rv == views(raws@),
            raws@.len() == n,
            converted_all(rv, declared@) == Ok::<Seq<(Seq<char>, DataType)>, Error>(vs),
            unified(concrete, declared@, vs.subrange(0, j as int)) == Ok::<Seq<(Seq<char>, DataType)>, Error>(views(vals@).subrange(0, j as int)),
            views(vals@).subrange(j as int, n as int) == vs.subrange(j as int, n as int),
        decreases n - j,
    {
        assert(vs.subrange(0, j + 1).drop_last() =~= vs.subrange(0, j as int));
        assert(vs[j as int] == views(vals@).subrange(j as int, n as int)[0]);
        let ghost pre = views(vals@);
        if declared[j].is_dynamic() {
            let mut v = CompiledValue { value: String::new(), dt: DataType::F32 };
            vals.set_and_swap(j, &mut v);
            assert(cv_view(v) == vs[j as int]);
            let c = concrete.convert(&mut v);
            if c.is_err() {
                proof {
                    let sub = vs.subrange(0, j + 1);
                    assert(sub.drop_last() =~= vs.subrange(0, j as int));
                    assert(sub.last() == vs[j as int]);
                    assert(coerced(concrete, vs[j as int]) == Err::<(Seq<char>, DataType), Error>(c->Err_0));
                    assert(unified(concrete, declared@, sub) == Err::<Seq<(Seq<char>, DataType)>, Error>(c->Err_0));
                    lemma_unified_err(concrete, declared@, vs, j + 1, n as int);
                    assert(vs.subrange(0, n as int) =~= vs);
                }
                return Err(c.unwrap_err());
            }
            vals.set(j, v);
        }
        assert(views(vals@).subrange(0, j + 1) =~= pre.subrange(0, j as int).push(views(vals@)[j as int]));
        assert(views(vals@).subrange(j + 1, n as int) =~= vs.subrange(j + 1, n as int)) by {
            assert forall|k: int| j + 1 <= k < n implies views(vals@)[k] == pre[k] by {}
            assert(pre.subrange(j as int, n as int).subrange(1, n - j) =~= vs.subrange(j + 1, n as int));
        }
        j = j + 1;
    }
    assert(vs.subrange(0, n as int) =~= vs);
    assert(views(vals@).subrange(0, n as int) =~= views(vals@));
    Ok(vals)
}

} // verus!

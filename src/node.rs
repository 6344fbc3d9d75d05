use vstd::prelude::*;

use crate::concrete::OutputTyped;
use crate::definition::{find_key, find_name, first_index, resolve_key, texts, NodeDefinition};
use crate::parameters::{parameter_accepts, ParameterDataType, ParameterValue};
use crate::error::Error;
use crate::ids::{NodeId, OutputId};
use crate::types::{compatible, DataType};
use crate::value::{accepts_literal, default_type, type_of, Input, InputKey, Value};

verus! {

broadcast use vstd::seq_lib::group_seq_properties;

/// The state of one input port: its declared type, its literal value, and
/// the output it is connected to, if any. While connected, the literal is
/// kept but not used.
#[derive(Clone, Debug)]
pub struct InputTyped {
    pub declared: DataType,
    pub value: Value,
    pub connected: Option<(OutputId, Option<DataType>)>,
}

/// The port after `input` was applied to it, with the output it was connected
/// to before; or the reason the port refuses it.
pub open spec fn port_after(p: InputTyped, input: Input) -> Result<(InputTyped, Option<OutputId>), Error> {
    let prev = match p.connected { Some(c) => Some(c.0), None => None };
    match input {
        Input::Disconnect => Ok((InputTyped { connected: None, ..p }, prev)),
        Input::Value(v) => if accepts_literal(p.declared, type_of(v)) {
            Ok((InputTyped { value: v, connected: None, ..p }, prev))
        } else {
            Err(Error::WrongLiteralType { expected: p.declared, got: type_of(v) })
        },
        Input::Connect(o, dt) => match dt {
            Some(t) => if compatible(p.declared, t) {
                Ok((InputTyped { connected: Some((o, dt)), ..p }, prev))
            } else {
                Err(Error::IncompatibleConnection { port: p.declared, output: t })
            },
            None => Ok((InputTyped { connected: Some((o, dt)), ..p }, prev)),
        },
    }
}

/// What a port reads as, as an `Input`.
pub open spec fn port_input(p: InputTyped) -> Input {
    match p.connected {
        Some((o, dt)) => Input::Connect(o, dt),
        None => Input::Value(p.value),
    }
}

impl InputTyped {
    /// A disconnected port holding its type's default value.
    pub fn new(declared: DataType) -> (r: Self)
        ensures
            r.declared == declared,
            type_of(r.value) == default_type(declared),
            r.connected is None,
    {
        InputTyped { declared, value: Value::default_for(declared), connected: None }
    }

    /// A copy of the port.
    pub fn duplicate(&self) -> (r: Self)
        ensures
            r == *self,
    {
        InputTyped { declared: self.declared, value: self.value.duplicate(), connected: self.connected }
    }

    pub fn is_connected(&self) -> (r: bool)
        ensures
            r == self.connected is Some,
    {
        self.connected.is_some()
    }

    pub fn as_input(&self) -> (r: Input)
        ensures
            r == port_input(*self),
    {
        match self.connected {
            Some((o, dt)) => Input::Connect(o, dt),
            None => Input::Value(self.value.duplicate()),
        }
    }

    /// The port after `input` was applied, with the output it was connected
    /// to before, or the reason it refuses `input`.
    pub fn after(&self, input: Input) -> (r: Result<(InputTyped, Option<OutputId>), Error>)
        ensures
            r == port_after(*self, input),
    {
        let prev = match self.connected {
            Some(c) => Some(c.0),
            None => None,
        };
        match input {
            Input::Disconnect => Ok((InputTyped { declared: self.declared, value: self.value.duplicate(), connected: None }, prev)),
            Input::Value(v) => {
                let got = v.data_type();
                if !Self::accepts(self.declared, got) {
                    return Err(Error::WrongLiteralType { expected: self.declared, got });
                }
                Ok((InputTyped { declared: self.declared, value: v, connected: None }, prev))
            },
            Input::Connect(o, dt) => {
                if let Some(t) = dt {
                    if !self.declared.is_compatible(&t) {
                        return Err(Error::IncompatibleConnection { port: self.declared, output: t });
                    }
                }
                Ok((InputTyped { declared: self.declared, value: self.value.duplicate(), connected: Some((o, dt)) }, prev))
            },
        }
    }

    /// Applies a new state; a refused state leaves the port as it was.
    pub fn set_input(&mut self, input: Input) -> (r: Result<Option<OutputId>, Error>)
        ensures
            match port_after(*old(self), input) {
                Ok((p, prev)) => r == Ok::<Option<OutputId>, Error>(prev) && *final(self) == p,
                Err(e) => r == Err::<Option<OutputId>, Error>(e) && *final(self) == *old(self),
            },
    {
        let (p, prev) = self.after(input)?;
        *self = p;
        Ok(prev)
    }

    /// Does a port of type `port` take a literal of type `got`.
    pub fn accepts(port: DataType, got: DataType) -> (r: bool)
        ensures
            r == accepts_literal(port, got),
    {
        if port == got {
            return true;
        }
        match port {
            DataType::Dynamic | DataType::DynamicVector => match got {
                DataType::I32 | DataType::U32 | DataType::F32 | DataType::Vec2 | DataType::Vec3
                | DataType::Vec4 => true,
                _ => false,
            },
            DataType::DynamicMatrix => match got {
                DataType::Mat2 | DataType::Mat3 | DataType::Mat4 => true,
                _ => false,
            },
            _ => false,
        }
    }
}

/// A node instance: its kind, its input ports in declared order, and its
/// outputs.
#[derive(Clone, Debug)]
pub struct Node {
    pub id: NodeId,
    pub name: String,
    pub node_type: u128,
    pub cache_output: bool,
    /// The key of each input, in positional order.
    pub input_names: Vec<String>,
    pub inputs: Vec<InputTyped>,
    pub outputs: Vec<OutputTyped>,
    /// The key of each parameter, in declared order.
    pub param_keys: Vec<String>,
    /// The declared type of each parameter.
    pub param_types: Vec<ParameterDataType>,
    /// The current setting of each parameter.
    pub params: Vec<ParameterValue>,
    /// Set by every edit; cleared by whoever consumes it.
    pub updated: bool,
}

impl Node {
    pub open spec fn wf(&self) -> bool {
        &&& self.input_names@.len() == self.inputs@.len()
        &&& self.inputs@.len() <= u32::MAX
        &&& self.param_keys@.len() == self.param_types@.len()
        &&& self.params@.len() == self.param_types@.len()
    }

    /// The input keys, in order.
    pub open spec fn keys(&self) -> Seq<Seq<char>> {
        texts(self.input_names@)
    }

    /// Instantiates a kind: one disconnected port per declared input, holding
    /// its type's default, and one unresolved output per declared output.
    pub fn new(def: &NodeDefinition) -> (r: Node)
        requires
            def.inputs@.len() <= u32::MAX,
        ensures
            r.wf(),
            r.node_type == def.id,
            r.cache_output == def.cache_output,
            r.name@ == def.name@,
            r.keys() == def.input_keys(),
            r.inputs@.len() == def.inputs@.len(),
            forall|i: int| 0 <= i < r.inputs@.len() ==> (#[trigger] r.inputs@[i]).declared == def.inputs@[i].1.value_type
                && r.inputs@[i].connected is None,
            r.outputs@.len() == def.outputs@.len(),
            forall|i: int| 0 <= i < r.outputs@.len() ==> (#[trigger] r.outputs@[i]).declared == def.outputs@[i].1.value_type
                && r.outputs@[i].concrete_type is None,
            texts(r.param_keys@) == def.parameter_keys(),
    {
        let mut inputs: Vec<InputTyped> = Vec::new();
        let mut i: usize = 0;
        while i < def.inputs.len()
            invariant
                i <= def.inputs@.len(),
                inputs@.len() == i,
                forall|j: int| 0 <= j < i ==> (#[trigger] inputs@[j]).declared == def.inputs@[j].1.value_type
                    && inputs@[j].connected is None,
            decreases def.inputs@.len() - i,
        {
            inputs.push(InputTyped::new(def.inputs[i].1.value_type));
            i = i + 1;
        }
        let mut outputs: Vec<OutputTyped> = Vec::new();
        let mut k: usize = 0;
        while k < def.outputs.len()
            invariant
                k <= def.outputs@.len(),
                outputs@.len() == k,
                forall|j: int| 0 <= j < k ==> (#[trigger] outputs@[j]).declared == def.outputs@[j].1.value_type
                    && outputs@[j].concrete_type is None,
            decreases def.outputs@.len() - k,
        {
            outputs.push(OutputTyped::new(def.outputs[k].1.value_type));
            k = k + 1;
        }
        let mut param_keys: Vec<String> = Vec::new();
        let mut param_types: Vec<ParameterDataType> = Vec::new();
        let mut params: Vec<ParameterValue> = Vec::new();
        let mut p: usize = 0;
        while p < def.parameters.len()
            invariant
                p <= def.parameters@.len(),
                param_keys@.len() == p,
                param_types@.len() == p,
                params@.len() == p,
                texts(param_keys@) == def.parameter_keys().subrange(0, p as int),
            decreases def.parameters@.len() - p,
        {
            let ghost before = param_keys@;
            param_keys.push(def.parameters[p].0.clone());
            param_types.push(def.parameters[p].1.param_type.duplicate());
            params.push(def.parameters[p].1.default_value());
            assert(param_keys@ == before.push(def.parameters@[p as int].0));
            assert(texts(param_keys@) =~= texts(before).push(def.parameters@[p as int].0@));
            p = p + 1;
            assert(texts(param_keys@) =~= def.parameter_keys().subrange(0, p as int));
        }
        assert(def.parameter_keys().subrange(0, p as int) =~= def.parameter_keys());
        Node {
            id: NodeId(0),
            name: def.name.clone(),
            node_type: def.id,
            cache_output: def.cache_output,
            input_names: def.input_key_list(),
            inputs,
            outputs,
            param_keys,
            param_types,
            params,
            updated: true,
        }
    }

    /// The position of the input that `key` names.
    pub fn get_input_idx(&self, key: &InputKey) -> (r: Result<u32, Error>)
        requires
            self.wf(),
        ensures
            match resolve_key(self.keys(), *key) {
                Some(i) => r == Ok::<u32, Error>(i as u32),
                None => r == Err::<u32, Error>(Error::UnknownInput),
            },
    {
        find_key(&self.input_names, key)
    }

    /// The current state of the input that `key` names.
    pub fn get_input(&self, key: &InputKey) -> (r: Result<Input, Error>)
        requires
            self.wf(),
        ensures
            match resolve_key(self.keys(), *key) {
                Some(i) => r == Ok::<Input, Error>(port_input(self.inputs@[i])),
                None => r == Err::<Input, Error>(Error::UnknownInput),
            },
    {
        let i = self.get_input_idx(key)?;
        Ok(self.inputs[i as usize].as_input())
    }

    /// Sets the input that `key` names; returns the output it was connected to.
    /// A refused edit leaves the node as it was.
    pub fn set_input(&mut self, key: &InputKey, value: Input) -> (r: Result<Option<OutputId>, Error>)
        requires
            old(self).wf(),
        ensures
            final(self).wf(),
            match resolve_key(old(self).keys(), *key) {
                None => r == Err::<Option<OutputId>, Error>(Error::UnknownInput) && *final(self) == *old(self),
                Some(i) => match port_after(old(self).inputs@[i], value) {
                    Ok((p, prev)) => r == Ok::<Option<OutputId>, Error>(prev)
                        && *final(self) == (Node { inputs: final(self).inputs, updated: true, ..*old(self) })
                        && final(self).inputs@ == old(self).inputs@.update(i, p),
                    Err(e) => r == Err::<Option<OutputId>, Error>(e) && *final(self) == *old(self),
                },
            },
    {
        let i = self.get_input_idx(key)? as usize;
        let (p, prev) = self.inputs[i].after(value)?;
        self.inputs.set(i, p);
        self.updated = true;
        Ok(prev)
    }

    /// The current setting of the parameter named `name`.
    pub fn get_param(&self, name: &str) -> (r: Result<&ParameterValue, Error>)
        requires
            self.wf(),
        ensures
            match first_index(texts(self.param_keys@), name@) {
                Some(i) => r is Ok && *r->Ok_0 == self.params@[i],
                None => r == Err::<&ParameterValue, Error>(Error::UnknownParameter),
            },
    {
        let key = String::from_str(name);
        match find_name(&self.param_keys, &key) {
            Some(i) => Ok(&self.params[i]),
            None => Err(Error::UnknownParameter),
        }
    }

    /// Sets the parameter named `name` to a setting its type accepts; a
    /// refused setting leaves the node as it was.
    pub fn set_param(&mut self, name: &str, value: ParameterValue) -> (r: Result<(), Error>)
        requires
            old(self).wf(),
        ensures
            final(self).wf(),
            match first_index(texts(old(self).param_keys@), name@) {
                None => r == Err::<(), Error>(Error::UnknownParameter) && *final(self) == *old(self),
                Some(i) => match parameter_accepts(old(self).param_types@[i], value) {
                    Ok(_) => r is Ok && final(self).params@ == old(self).params@.update(i, value)
                        && *final(self) == (Node { params: final(self).params, updated: true, ..*old(self) }),
                    Err(e) => r == Err::<(), Error>(e) && *final(self) == *old(self),
                },
            },
    {
        let key = String::from_str(name);
        match find_name(&self.param_keys, &key) {
            Some(i) => {
                self.param_types[i].validate(&value)?;
                self.params.set(i, value);
                self.updated = true;
                Ok(())
            },
            None => Err(Error::UnknownParameter),
        }
    }

    /// Disconnects every input that reads from node `target`.
    pub fn sever(&mut self, target: NodeId)
        requires
            old(self).wf(),
        ensures
            final(self).wf(),
            *final(self) == (Node { inputs: final(self).inputs, ..*old(self) }),
            final(self).inputs@ == severed_all(old(self).inputs@, target),
    {
        let mut k: usize = 0;
        while k < self.inputs.len()
            invariant
                self.wf(),
                k <= self.inputs@.len(),
                self.inputs@.len() == old(self).inputs@.len(),
                *self == (Node { inputs: self.inputs, ..*old(self) }),
                forall|j: int| 0 <= j < k ==> self.inputs@[j] == severed(old(self).inputs@[j], target),
                forall|j: int| k <= j < self.inputs@.len() ==> self.inputs@[j] == old(self).inputs@[j],
            decreases self.inputs@.len() - k,
        {
            let hit = match self.inputs[k].connected {
                Some((o, _)) => o.node == target,
                None => false,
            };
            if hit {
                let p = InputTyped { declared: self.inputs[k].declared, value: self.inputs[k].value.duplicate(), connected: None };
                self.inputs.set(k, p);
            }
            k = k + 1;
        }
        assert(self.inputs@ =~= severed_all(old(self).inputs@, target));
    }
}

/// Ports with any connection to node `id` removed.
pub open spec fn severed_all(s: Seq<InputTyped>, id: NodeId) -> Seq<InputTyped> {
    Seq::new(s.len(), |k: int| severed(s[k], id))
}

/// A port with any connection to node `id` removed.
pub open spec fn severed(p: InputTyped, id: NodeId) -> InputTyped {
    match p.connected {
        Some((o, _)) => if o.node == id { InputTyped { connected: None, ..p } } else { p },
        None => p,
    }
}

} // verus!

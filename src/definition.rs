use vstd::prelude::*;

use crate::error::Error;
use crate::outside::{title_case, title_case_of, uuid_v5, uuid_v5_of};
use crate::value::{default_type, type_of, Input, InputKey, Value};
use crate::parameters::{ParameterDataType, ParameterDefinition};
use crate::types::DataType;

verus! {

broadcast use vstd::seq_lib::group_seq_properties;

/// The namespace under which node kinds derive their stable ids.
pub const NAMESPACE_NODE_IMPL: u128 = 0x9dee91a8_5af8_11ee_948b_5364d73b1803;

/// A declared input or output port.
#[derive(Clone, Debug)]
pub struct PortDefinition {
    /// Display name, the field name in title case.
    pub name: String,
    pub field_name: String,
    pub value_type: DataType,
    /// Display color as `0xRRGGBB`.
    pub color: Option<u32>,
}

pub type InputDefinition = PortDefinition;

pub type OutputDefinition = PortDefinition;

impl PortDefinition {
    /// A port for the field `field_name`, keyed by its display name.
    pub fn new(field_name: &str, value_type: DataType) -> (r: (String, PortDefinition))
        ensures
            r.0@ == title_case_of(field_name@),
            r.1.name@ == title_case_of(field_name@),
            r.1.field_name@ == field_name@,
            r.1.value_type == value_type,
            r.1.color is None,
    {
        let name = title_case(field_name);
        (name.clone(), PortDefinition { name, field_name: String::from_str(field_name), value_type, color: None })
    }

    /// Checks an input state against the declaration: a literal must have the
    /// declared type exactly; other states are not checked here.
    pub fn validate(&self, input: &Input) -> (r: Result<(), Error>)
        ensures
            match *input {
                Input::Value(v) => if type_of(v) == self.value_type {
                    r is Ok
                } else {
                    r == Err::<(), Error>(Error::WrongLiteralType { expected: self.value_type, got: type_of(v) })
                },
                _ => r is Ok,
            },
    {
        match input {
            Input::Value(v) => {
                let got = v.data_type();
                if got == self.value_type {
                    Ok(())
                } else {
                    Err(Error::WrongLiteralType { expected: self.value_type, got })
                }
            },
            _ => Ok(()),
        }
    }

    /// The default value of the port's type.
    pub fn default_value(&self) -> (r: Value)
        ensures
            type_of(r) == default_type(self.value_type),
    {
        Value::default_for(self.value_type)
    }

    pub fn set_color(&mut self, color: Option<u32>)
        ensures
            final(self).color == color,
            final(self).value_type == old(self).value_type,
            final(self).name == old(self).name,
            final(self).field_name == old(self).field_name,
    {
        self.color = color;
    }
}

/// The template of a node kind: a stable id derived from its unique path,
/// ordered port declarations, and how the engine treats it.
#[derive(Clone, Debug)]
pub struct NodeDefinition {
    pub id: u128,
    pub name: String,
    pub package: String,
    pub description: String,
    pub category: Vec<String>,
    /// Inputs, keyed by display name, in positional order.
    pub inputs: Vec<(String, InputDefinition)>,
    /// Outputs, keyed by display name, in positional order.
    pub outputs: Vec<(String, OutputDefinition)>,
    /// Parameters, keyed by display name.
    pub parameters: Vec<(String, ParameterDefinition)>,
    /// Whether the evaluator memoizes this kind's result within one run.
    pub cache_output: bool,
}

/// Does a `::` separator start at position `i`.
pub open spec fn sep_at(path: Seq<char>, i: int) -> bool {
    0 <= i && i + 1 < path.len() && path[i] == ':' && path[i + 1] == ':'
}

/// The text before the first `::` of a path, or the whole path.
pub open spec fn package_of(path: Seq<char>) -> Seq<char> {
    if exists|i: int| #[trigger] sep_at(path, i) {
        let k = choose|i: int| #[trigger] sep_at(path, i) && forall|j: int| 0 <= j < i ==> !sep_at(path, j);
        path.subrange(0, k)
    } else {
        path
    }
}

/// Is `i` the first position of `name` in `keys`.
pub open spec fn is_first(keys: Seq<Seq<char>>, name: Seq<char>, i: int) -> bool {
    0 <= i < keys.len() && keys[i] == name && forall|j: int| 0 <= j < i ==> keys[j] != name
}

/// The first position of `name` in `keys`.
pub open spec fn first_index(keys: Seq<Seq<char>>, name: Seq<char>) -> Option<int> {
    if exists|i: int| is_first(keys, name, i) {
        Some(choose|i: int| is_first(keys, name, i))
    } else {
        None
    }
}

/// The first position is unique.
pub proof fn lemma_first_index(keys: Seq<Seq<char>>, name: Seq<char>, i: int)
    requires
        is_first(keys, name, i),
    ensures
        first_index(keys, name) == Some(i),
{
    let k = choose|k: int| is_first(keys, name, k);
    if k < i {
        assert(keys[k] != name);
    } else if k > i {
        assert(keys[i] != name);
    }
}

/// A name absent from `keys` has no position.
pub proof fn lemma_first_index_none(keys: Seq<Seq<char>>, name: Seq<char>)
    requires
        forall|j: int| 0 <= j < keys.len() ==> keys[j] != name,
    ensures
        first_index(keys, name) is None,
{
}

/// The texts of a list of strings.
pub open spec fn texts(keys: Seq<String>) -> Seq<Seq<char>> {
    keys.map_values(|s: String| s@)
}

/// The position that an input key names among `n` ports with these keys.
pub open spec fn resolve_key(keys: Seq<Seq<char>>, key: InputKey) -> Option<int> {
    match key {
        InputKey::Idx(i) => if i < keys.len() { Some(i as int) } else { None },
        InputKey::Name(name) => first_index(keys, name@),
    }
}

/// Finds the first position of `name` among `keys`.
pub fn find_name(keys: &Vec<String>, name: &String) -> (r: Option<usize>)
    ensures
        match r {
            Some(i) => i < keys@.len() && first_index(texts(keys@), name@) == Some(i as int),
            None => first_index(texts(keys@), name@) is None,
        },
{
    let ghost ks = texts(keys@);
    let mut i: usize = 0;
    while i < keys.len()
        invariant
            i <= keys@.len(),
            ks == texts(keys@),
            forall|j: int| 0 <= j < i ==> ks[j] != name@,
        decreases keys@.len() - i,
    {
        if keys[i] == *name {
            proof {
                lemma_first_index(ks, name@, i as int);
            }
            return Some(i);
        }
        i = i + 1;
    }
    proof {
        lemma_first_index_none(ks, name@);
    }
    None
}

/// Finds the position of `key` among `keys`.
pub fn find_key(keys: &Vec<String>, key: &InputKey) -> (r: Result<u32, Error>)
    requires
        keys@.len() <= u32::MAX,
    ensures
        match resolve_key(texts(keys@), *key) {
            Some(i) => r == Ok::<u32, Error>(i as u32),
            None => r == Err::<u32, Error>(Error::UnknownInput),
        },
{
    match key {
        InputKey::Idx(i) => {
            if (*i as usize) < keys.len() {
                Ok(*i)
            } else {
                Err(Error::UnknownInput)
            }
        },
        InputKey::Name(name) => {
            match find_name(keys, name) {
                Some(i) => Ok(i as u32),
                None => Err(Error::UnknownInput),
            }
        },
    }
}

fn package_name(path: &str) -> (r: String)
    ensures
        r@ == package_of(path@),
{
    let n = path.unicode_len();
    let mut out = String::new();
    let mut i: usize = 0;
    while i < n
        invariant
            n == path@.len(),
            i <= n,
            out@ == path@.subrange(0, i as int),
            forall|j: int| 0 <= j < i ==> !sep_at(path@, j),
        decreases n - i,
    {
        let c = path.get_char(i);
        if c == ':' && i + 1 < n && path.get_char(i + 1) == ':' {
            proof {
                let p = path@;
                assert(sep_at(p, i as int));
                let k = choose|k: int| #[trigger] sep_at(p, k) && forall|j: int| 0 <= j < k ==> !sep_at(p, j);
                assert(k == i as int) by {
                    if k < i { } else if k > i { }
                }
            }
            return out;
        }
        crate::outside::push_char(&mut out, c);
        i = i + 1;
    }
    assert(out@ =~= path@);
    out
}

impl NodeDefinition {
    /// A kind named `name` with no ports, whose id derives from `kind_path`
    /// and whose package is the path's first segment.
    pub fn new(name: &str, kind_path: &str) -> (r: NodeDefinition)
        ensures
            r.id == uuid_v5_of(NAMESPACE_NODE_IMPL, kind_path@),
            r.name@ == name@,
            r.package@ == package_of(kind_path@),
            r.inputs@.len() == 0,
            r.outputs@.len() == 0,
            !r.cache_output,
    {
        NodeDefinition {
            id: uuid_v5(NAMESPACE_NODE_IMPL, kind_path),
            name: String::from_str(name),
            package: package_name(kind_path),
            description: String::new(),
            category: Vec::new(),
            inputs: Vec::new(),
            outputs: Vec::new(),
            parameters: Vec::new(),
            cache_output: false,
        }
    }

    /// The input keys, in order.
    pub open spec fn input_keys(&self) -> Seq<Seq<char>> {
        self.inputs@.map_values(|p: (String, InputDefinition)| p.0@)
    }

    /// Declares one more input for the field `field_name`.
    pub fn add_input(&mut self, field_name: &str, value_type: DataType)
        ensures
            final(self).inputs@.len() == old(self).inputs@.len() + 1,
            final(self).inputs@.drop_last() == old(self).inputs@,
            final(self).inputs@.last().0@ == title_case_of(field_name@),
            final(self).inputs@.last().1.value_type == value_type,
            final(self).outputs@ == old(self).outputs@,
            final(self).id == old(self).id,
            final(self).cache_output == old(self).cache_output,
    {
        let p = PortDefinition::new(field_name, value_type);
        self.inputs.push(p);
        assert(self.inputs@.drop_last() =~= old(self).inputs@);
    }

    /// Declares one more output for the field `field_name`.
    pub fn add_output(&mut self, field_name: &str, value_type: DataType)
        ensures
            final(self).outputs@.len() == old(self).outputs@.len() + 1,
            final(self).outputs@.drop_last() == old(self).outputs@,
            final(self).outputs@.last().0@ == title_case_of(field_name@),
            final(self).outputs@.last().1.value_type == value_type,
            final(self).inputs@ == old(self).inputs@,
            final(self).id == old(self).id,
            final(self).cache_output == old(self).cache_output,
    {
        let p = PortDefinition::new(field_name, value_type);
        self.outputs.push(p);
        assert(self.outputs@.drop_last() =~= old(self).outputs@);
    }

    /// Declares one more parameter for the field `field_name`.
    pub fn add_parameter(&mut self, field_name: &str, param_type: ParameterDataType)
        ensures
            final(self).parameters@.len() == old(self).parameters@.len() + 1,
            final(self).parameters@.drop_last() == old(self).parameters@,
            final(self).parameters@.last().0@ == title_case_of(field_name@),
            final(self).parameters@.last().1.param_type == param_type,
            final(self).inputs@ == old(self).inputs@,
            final(self).outputs@ == old(self).outputs@,
            final(self).id == old(self).id,
            final(self).cache_output == old(self).cache_output,
    {
        let p = ParameterDefinition::new(field_name, param_type);
        self.parameters.push(p);
        assert(self.parameters@.drop_last() =~= old(self).parameters@);
    }

    /// The parameter keys, in order.
    pub open spec fn parameter_keys(&self) -> Seq<Seq<char>> {
        self.parameters@.map_values(|p: (String, ParameterDefinition)| p.0@)
    }

    /// The position of the input that `key` names.
    pub fn get_input_idx(&self, key: &InputKey) -> (r: Result<u32, Error>)
        requires
            self.inputs@.len() <= u32::MAX,
        ensures
            match resolve_key(self.input_keys(), *key) {
                Some(i) => r == Ok::<u32, Error>(i as u32),
                None => r == Err::<u32, Error>(Error::UnknownInput),
            },
    {
        let keys = self.input_key_list();
        find_key(&keys, key)
    }

    /// The input keys as a list.
    pub fn input_key_list(&self) -> (r: Vec<String>)
        ensures
            r@.len() == self.inputs@.len(),
            texts(r@) == self.input_keys(),
    {
        let mut r: Vec<String> = Vec::new();
        let mut i: usize = 0;
        while i < self.inputs.len()
            invariant
                i <= self.inputs@.len(),
                r@.len() == i,
                texts(r@) == self.input_keys().subrange(0, i as int),
            decreases self.inputs@.len() - i,
        {
            let ghost before = r@;
            r.push(self.inputs[i].0.clone());
            assert(r@ == before.push(self.inputs@[i as int].0));
            assert(texts(r@) =~= texts(before).push(self.inputs@[i as int].0@));
            i = i + 1;
            assert(texts(r@) =~= self.input_keys().subrange(0, i as int));
        }
        assert(self.input_keys().subrange(0, i as int) =~= self.input_keys());
        r
    }

    /// The declaration of the input that `key` names.
    pub fn get_input(&self, key: &InputKey) -> (r: Option<&InputDefinition>)
        requires
            self.inputs@.len() <= u32::MAX,
        ensures
            match resolve_key(self.input_keys(), *key) {
                Some(i) => r is Some && *r->Some_0 == self.inputs@[i].1,
                None => r is None,
            },
    {
        match self.get_input_idx(key) {
            Ok(i) => Some(&self.inputs[i as usize].1),
            Err(_) => None,
        }
    }

    /// The declaration of the output named `name`.
    pub fn get_output(&self, name: &str) -> (r: Option<&OutputDefinition>)
        ensures
            match first_index(self.outputs@.map_values(|p: (String, OutputDefinition)| p.0@), name@) {
                Some(i) => r is Some && *r->Some_0 == self.outputs@[i].1,
                None => r is None,
            },
    {
        let mut keys: Vec<String> = Vec::new();
        let mut i: usize = 0;
        while i < self.outputs.len()
            invariant
                i <= self.outputs@.len(),
                keys@.len() == i,
                texts(keys@) == self.outputs@.map_values(|p: (String, OutputDefinition)| p.0@).subrange(0, i as int),
            decreases self.outputs@.len() - i,
        {
            let ghost before = keys@;
            keys.push(self.outputs[i].0.clone());
            assert(texts(keys@) =~= texts(before).push(self.outputs@[i as int].0@));
            i = i + 1;
            assert(texts(keys@) =~= self.outputs@.map_values(|p: (String, OutputDefinition)| p.0@).subrange(0, i as int));
        }
        assert(self.outputs@.map_values(|p: (String, OutputDefinition)| p.0@).subrange(0, i as int) =~= self.outputs@.map_values(|p: (String, OutputDefinition)| p.0@));
        let key = String::from_str(name);
        match find_name(&keys, &key) {
            Some(k) => Some(&self.outputs[k].1),
            None => None,
        }
    }

    /// Sets the display color of input `idx`; an index past the inputs
    /// changes nothing.
    pub fn set_input_color(&mut self, idx: u32, color: Option<u32>)
        ensures
            final(self).inputs@.len() == old(self).inputs@.len(),
            (idx as int) < old(self).inputs@.len() ==> final(self).inputs@[idx as int].1.color == color
                && final(self).inputs@[idx as int].1.value_type == old(self).inputs@[idx as int].1.value_type,
            forall|i: int| 0 <= i < final(self).inputs@.len() && i != idx ==> final(self).inputs@[i] == old(self).inputs@[i],
            final(self).outputs@ == old(self).outputs@,
    {
        let i = idx as usize;
        if i < self.inputs.len() {
            self.inputs[i].1.set_color(color);
        }
    }

    /// Sets the display color of output `idx`; an index past the outputs
    /// changes nothing.
    pub fn set_output_color(&mut self, idx: u32, color: Option<u32>)
        ensures
            final(self).outputs@.len() == old(self).outputs@.len(),
            (idx as int) < old(self).outputs@.len() ==> final(self).outputs@[idx as int].1.color == color
                && final(self).outputs@[idx as int].1.value_type == old(self).outputs@[idx as int].1.value_type,
            forall|i: int| 0 <= i < final(self).outputs@.len() && i != idx ==> final(self).outputs@[i] == old(self).outputs@[i],
            final(self).inputs@ == old(self).inputs@,
    {
        let i = idx as usize;
        if i < self.outputs.len() {
            self.outputs[i].1.set_color(color);
        }
    }

    /// Does the kind's name contain the filter text, ignoring case.
    pub fn matches(&self, filter: &crate::filter::NodeFilter) -> (r: bool)
        ensures
            r == crate::filter::is_infix(
                crate::outside::lower_of(self.name@),
                crate::outside::lower_of(filter.name@),
            ),
    {
        filter.matches(self.name.as_str())
    }
}

} // verus!

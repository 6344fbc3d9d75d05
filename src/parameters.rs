use vstd::prelude::*;

use crate::definition::{find_name, first_index, texts};
use crate::error::Error;
use crate::outside::{title_case, title_case_of};
use crate::swizzle::{filtered_mask, SwizzleMask};
use crate::types::DataType;
use crate::value::{default_type, type_of, Value};

verus! {

broadcast use vstd::seq_lib::group_seq_properties;

/// What a parameter holds.
#[derive(Clone, Debug, PartialEq, Eq)]
pub enum ParameterDataType {
    /// A value of one data type.
    Value(DataType),
    /// Free text, with its default.
    Text(String),
    /// One of a list of names; the first is the default.
    Select(Vec<String>),
}

/// A parameter's current setting.
#[derive(Clone, Debug, PartialEq, Eq)]
pub enum ParameterValue {
    Value(Value),
    Text(String),
    Selected(String),
}

/// A declared parameter.
#[derive(Clone, Debug)]
pub struct ParameterDefinition {
    pub name: String,
    pub field_name: String,
    pub param_type: ParameterDataType,
}

/// Does a parameter of type `t` take the setting `v`: a value of the declared
/// type, any text for a text parameter, or one of the allowed selections.
pub open spec fn parameter_accepts(t: ParameterDataType, v: ParameterValue) -> Result<(), Error> {
    match (t, v) {
        (ParameterDataType::Value(dt), ParameterValue::Value(val)) => if dt == type_of(val) {
            Ok(())
        } else {
            Err(Error::WrongParameter)
        },
        (ParameterDataType::Text(_), ParameterValue::Text(_)) => Ok(()),
        (ParameterDataType::Select(vs), ParameterValue::Selected(s)) => if texts(vs@).contains(s@) {
            Ok(())
        } else {
            Err(Error::InvalidSelection)
        },
        _ => Err(Error::WrongParameter),
    }
}

impl ParameterDataType {
    /// The default setting: the type's default value, the default text, or
    /// the first selection (empty where there is none).
    pub fn default_value(&self) -> (r: ParameterValue)
        ensures
            match *self {
                ParameterDataType::Value(dt) => r is Value && type_of(r->Value_0) == default_type(dt),
                ParameterDataType::Text(s) => r == ParameterValue::Text(s),
                ParameterDataType::Select(vs) => r is Selected && if vs@.len() > 0 {
                    r->Selected_0@ == vs@[0]@
                } else {
                    r->Selected_0@.len() == 0
                },
            },
    {
        match self {
            ParameterDataType::Value(dt) => ParameterValue::Value(Value::default_for(*dt)),
            ParameterDataType::Text(s) => ParameterValue::Text(s.clone()),
            ParameterDataType::Select(vs) => {
                if vs.len() > 0 {
                    ParameterValue::Selected(vs[0].clone())
                } else {
                    ParameterValue::Selected(String::new())
                }
            },
        }
    }
}

impl ParameterDataType {
    /// A copy of the type; a selection list is copied name by name.
    pub fn duplicate(&self) -> (r: ParameterDataType)
        ensures
            match *self {
                ParameterDataType::Select(vs) => r is Select && r->Select_0@ == vs@,
                _ => r == *self,
            },
    {
        match self {
            ParameterDataType::Value(dt) => ParameterDataType::Value(*dt),
            ParameterDataType::Text(s) => ParameterDataType::Text(s.clone()),
            ParameterDataType::Select(vs) => {
                let mut out: Vec<String> = Vec::new();
                let mut i: usize = 0;
                while i < vs.len()
                    invariant
                        i <= vs@.len(),
                        out@ == vs@.subrange(0, i as int),
                    decreases vs@.len() - i,
                {
                    out.push(vs[i].clone());
                    i = i + 1;
                    assert(out@ =~= vs@.subrange(0, i as int));
                }
                assert(vs@.subrange(0, i as int) =~= vs@);
                ParameterDataType::Select(out)
            },
        }
    }
}

impl ParameterValue {
    /// The parameter type this setting belongs to; a selection is the list of
    /// itself alone.
    pub fn parameter_data_type(&self) -> (r: ParameterDataType)
        ensures
            match *self {
                ParameterValue::Value(v) => r == ParameterDataType::Value(type_of(v)),
                ParameterValue::Text(s) => r == ParameterDataType::Text(s),
                ParameterValue::Selected(s) => r is Select && r->Select_0@ == seq![s],
            },
    {
        match self {
            ParameterValue::Value(v) => ParameterDataType::Value(v.data_type()),
            ParameterValue::Text(s) => ParameterDataType::Text(s.clone()),
            ParameterValue::Selected(s) => {
                let mut vs: Vec<String> = Vec::new();
                vs.push(s.clone());
                assert(vs@ =~= seq![*s]);
                ParameterDataType::Select(vs)
            },
        }
    }
}

impl ParameterDefinition {
    /// A parameter for the field `field_name`, keyed by its display name.
    pub fn new(field_name: &str, param_type: ParameterDataType) -> (r: (String, ParameterDefinition))
        ensures
            r.0@ == title_case_of(field_name@),
            r.1.name@ == title_case_of(field_name@),
            r.1.field_name@ == field_name@,
            r.1.param_type == param_type,
    {
        let name = title_case(field_name);
        (name.clone(), ParameterDefinition { name, field_name: String::from_str(field_name), param_type })
    }

    /// The default setting.
    pub fn default_value(&self) -> (r: ParameterValue)
        ensures
            match self.param_type {
                ParameterDataType::Value(dt) => r is Value && type_of(r->Value_0) == default_type(dt),
                ParameterDataType::Text(s) => r == ParameterValue::Text(s),
                ParameterDataType::Select(vs) => r is Selected,
            },
    {
        self.param_type.default_value()
    }

    /// Checks a setting against the declaration.
    pub fn validate(&self, value: &ParameterValue) -> (r: Result<(), Error>)
        ensures
            r == parameter_accepts(self.param_type, *value),
    {
        self.param_type.validate(value)
    }
}

impl ParameterDataType {
    /// Checks a setting against the type.
    pub fn validate(&self, value: &ParameterValue) -> (r: Result<(), Error>)
        ensures
            r == parameter_accepts(*self, *value),
    {
        match (self, value) {
            (ParameterDataType::Value(dt), ParameterValue::Value(val)) => {
                if *dt == val.data_type() {
                    Ok(())
                } else {
                    Err(Error::WrongParameter)
                }
            },
            (ParameterDataType::Text(_), ParameterValue::Text(_)) => Ok(()),
            (ParameterDataType::Select(vs), ParameterValue::Selected(s)) => {
                match find_name(vs, s) {
                    Some(_) => Ok(()),
                    None => {
                        proof {
                            if texts(vs@).contains(s@) {
                                let i = choose|i: int| 0 <= i < texts(vs@).len() && texts(vs@)[i] == s@;
                                lemma_first_exists(texts(vs@), s@, i);
                            }
                        }
                        Err(Error::InvalidSelection)
                    },
                }
            },
            _ => Err(Error::WrongParameter),
        }
    }
}

/// A name that occurs has a first occurrence.
proof fn lemma_first_exists(keys: Seq<Seq<char>>, name: Seq<char>, i: int)
    requires
        0 <= i < keys.len(),
        keys[i] == name,
    ensures
        exists|j: int| crate::definition::is_first(keys, name, j),
    decreases i,
{
    if exists|j: int| 0 <= j < i && keys[j] == name {
        let j = choose|j: int| 0 <= j < i && keys[j] == name;
        lemma_first_exists(keys, name, j);
    } else {
        assert(crate::definition::is_first(keys, name, i));
    }
}

impl SwizzleMask {
    /// The mask as a text setting.
    pub fn get_param(&self) -> (r: ParameterValue)
        ensures
            r is Text && r->Text_0@ == self.0@,
    {
        ParameterValue::Text(self.0.clone())
    }

    /// Takes a text setting, filtered to a valid mask.
    pub fn set_param(&mut self, value: ParameterValue) -> (r: Result<(), Error>)
        ensures
            match value {
                ParameterValue::Text(t) => r is Ok && final(self).0@ == filtered_mask(t@),
                _ => r == Err::<(), Error>(Error::WrongParameter) && *final(self) == *old(self),
            },
    {
        match value {
            ParameterValue::Text(t) => {
                self.0 = t;
                self.filter();
                Ok(())
            },
            _ => Err(Error::WrongParameter),
        }
    }
}

} // verus!

//! Dynamically typed configuration values and their mathematical model.

use vstd::prelude::*;

verus! {

/// Mathematical model of a configuration value: a closed set of shapes over
/// sequences, integers and booleans.
pub enum Value {
    Null,
    Text(Seq<char>),
    Number(int),
    Bool(bool),
    List(Seq<Value>),
    Record(Seq<(Seq<char>, Value)>),
}

/// A configuration value as supplied by the host.
///
/// `Object` keeps its entries in the order in which they were written.
#[derive(Debug, PartialEq, Eq)]
pub enum ConfigKeyValue {
    String(String),
    Number(i32),
    Bool(bool),
    Array(Vec<ConfigKeyValue>),
    Object(Vec<(String, ConfigKeyValue)>),
    Null,
}

/// The model of a configuration value: each shape by the value of the same
/// shape, a list item by item and a record entry by entry, in order.
pub open spec fn value_model(value: ConfigKeyValue) -> Value
    decreases value,
{
    match value {
        ConfigKeyValue::String(text) => Value::Text(text@),
        ConfigKeyValue::Number(number) => Value::Number(number as int),
        ConfigKeyValue::Bool(flag) => Value::Bool(flag),
        ConfigKeyValue::Array(items) => Value::List(
            Seq::new(
                items.len() as nat,
                |i: int|
                    if 0 <= i < items.len() {
                        value_model(items[i])
                    } else {
                        Value::Null
                    },
            ),
        ),
        ConfigKeyValue::Object(entries) => Value::Record(
            Seq::new(
                entries.len() as nat,
                |i: int|
                    if 0 <= i < entries.len() {
                        (entries[i].0@, value_model(entries[i].1))
                    } else {
                        (Seq::<char>::empty(), Value::Null)
                    },
            ),
        ),
        ConfigKeyValue::Null => Value::Null,
    }
}

impl View for ConfigKeyValue {
    type V = Value;

    open spec fn view(&self) -> Value {
        value_model(*self)
    }
}

/// A copy of a value, part by part.
fn copy_of(value: &ConfigKeyValue) -> (copy: ConfigKeyValue)
    ensures
        copy@ == value@,
    decreases value,
{
    match value {
        ConfigKeyValue::String(text) => ConfigKeyValue::String(text.clone()),
        ConfigKeyValue::Number(number) => ConfigKeyValue::Number(*number),
        ConfigKeyValue::Bool(flag) => ConfigKeyValue::Bool(*flag),
        ConfigKeyValue::Null => ConfigKeyValue::Null,
        ConfigKeyValue::Array(items) => {
            let mut copies: Vec<ConfigKeyValue> = Vec::new();
            let mut i: usize = 0;
            while i < items.len()
                invariant
                    i <= items.len(),
                    copies@.len() == i,
                    *value == ConfigKeyValue::Array(*items),
                    forall|j: int| 0 <= j < i ==> (#[trigger] copies@[j])@ == items@[j]@,
                decreases items.len() - i,
            {
                assert(decreases_to!(value => value->Array_0));
                copies.push(copy_of(&items[i]));
                i += 1;
            }
            let copy = ConfigKeyValue::Array(copies);
            assert(copy@->List_0 =~= value@->List_0);
            copy
        },
        ConfigKeyValue::Object(entries) => {
            let mut copies: Vec<(String, ConfigKeyValue)> = Vec::new();
            let mut i: usize = 0;
            while i < entries.len()
                invariant
                    i <= entries.len(),
                    copies@.len() == i,
                    *value == ConfigKeyValue::Object(*entries),
                    forall|j: int|
                        0 <= j < i ==> (#[trigger] copies@[j]).0@ == entries@[j].0@ && copies@[j].1@
                            == entries@[j].1@,
                decreases entries.len() - i,
            {
                assert(decreases_to!(value => value->Object_0));
                copies.push((entries[i].0.clone(), copy_of(&entries[i].1)));
                i += 1;
            }
            let copy = ConfigKeyValue::Object(copies);
            assert(copy@->Record_0 =~= value@->Record_0);
            copy
        },
    }
}

impl Clone for ConfigKeyValue {
    fn clone(&self) -> (copy: Self)
        ensures
            copy@ == self@,
    {
        copy_of(self)
    }
}

} // verus!

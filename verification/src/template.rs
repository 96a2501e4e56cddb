use rand::rngs::ThreadRng;
use serde_json::Value;
use vstd::hash_map::StringHashMap;
use vstd::prelude::*;
use crate::config::{Config, Type};
use crate::error::{Error, ErrorView};
use crate::json::json_model;
use crate::mapping::{looked_up, lookup_type, mapped, mapped_type, text_outcome};
use crate::model::DataStructure;
use crate::sample::{
    admits, data_structure_to_json_with_value, data_structure_to_minimum_json_with_value,
    data_structure_to_random_json_with_value, sample, SampleMode,
};
use crate::typing::{data_structure_to_json, json_outcome, typed};

verus! {

/// An argument as a template hands it to a function: left out, of a shape
/// that the function cannot read, or given.
#[derive(Debug)]
pub enum Argument<T> {
    Missing,
    Invalid,
    Given(T),
}

/// What the free lookup gives for a key: the text that the table holds
/// under it.
pub open spec fn extended_text(table: Map<Seq<char>, String>, key: Argument<String>) -> Result<
    Seq<char>,
    ErrorView,
> {
    match key {
        Argument::Missing => Err(ErrorView::ArgumentMissing),
        Argument::Invalid => Err(ErrorView::ArgumentInvalid),
        Argument::Given(k) => if table.contains_key(k@) {
            Ok(table[k@]@)
        } else {
            Err(ErrorView::UnknownKey { key: k@ })
        },
    }
}

/// Gives the text that the free lookups of a configuration hold under a
/// key.
pub fn extended(table: &StringHashMap<String>, key: Argument<String>) -> (res: Result<
    String,
    Error,
>)
    ensures
        text_outcome(res) == extended_text(table@, key),
{
    match key {
        Argument::Missing => Err(Error::ArgumentMissing),
        Argument::Invalid => Err(Error::ArgumentInvalid),
        Argument::Given(k) => match table.get(k.as_str()) {
            Some(found) => Ok(found.clone()),
            None => Err(Error::UnknownKey { key: k }),
        },
    }
}

/// Tells whether the free lookups of a configuration hold a key.
pub fn key_exists(table: &StringHashMap<String>, key: Argument<String>) -> (res: Result<bool, Error>)
    ensures
        match key {
            Argument::Missing => res == Err::<bool, Error>(Error::ArgumentMissing),
            Argument::Invalid => res == Err::<bool, Error>(Error::ArgumentInvalid),
            Argument::Given(k) => res == Ok::<bool, Error>(table@.contains_key(k@)),
        },
{
    match key {
        Argument::Missing => Err(Error::ArgumentMissing),
        Argument::Invalid => Err(Error::ArgumentInvalid),
        Argument::Given(k) => Ok(table.contains_key(k.as_str())),
    }
}

/// The format that a call names: none where the argument is left out or
/// null.
pub open spec fn named_format(format: Argument<Option<String>>) -> Option<Seq<char>> {
    match format {
        Argument::Given(Some(f)) => Some(f@),
        _ => None,
    }
}

/// What the type table gives for a kind and a format named by a template.
pub open spec fn mapped_by_name(
    types: Map<Seq<char>, Type>,
    kind: Argument<String>,
    format: Argument<Option<String>>,
) -> Result<Seq<char>, ErrorView> {
    match kind {
        Argument::Missing => Err(ErrorView::ArgumentMissing),
        Argument::Invalid => Err(ErrorView::ArgumentInvalid),
        Argument::Given(name) => if format is Invalid {
            Err(ErrorView::ArgumentInvalid)
        } else {
            looked_up(types, name@, named_format(format))
        },
    }
}

/// Gives the type that a type table holds for a kind and a format named by
/// a template. A format left out, or given as null, asks for the default.
pub fn map_type(
    types: &StringHashMap<Type>,
    kind: Argument<String>,
    format: Argument<Option<String>>,
) -> (res: Result<String, Error>)
    ensures
        text_outcome(res) == mapped_by_name(types@, kind, format),
{
    match kind {
        Argument::Missing => Err(Error::ArgumentMissing),
        Argument::Invalid => Err(Error::ArgumentInvalid),
        Argument::Given(name) => match format {
            Argument::Invalid => Err(Error::ArgumentInvalid),
            Argument::Missing => lookup_type(types, name.as_str(), &None),
            Argument::Given(given) => lookup_type(types, name.as_str(), &given),
        },
    }
}

/// Gives the type of the target language that a configuration holds for a
/// node handed over by a template.
pub fn map_type_new(config: &Config, structure: Argument<DataStructure>) -> (res: Result<
    String,
    Error,
>)
    ensures
        text_outcome(res) == (match structure {
            Argument::Missing => Err(ErrorView::ArgumentMissing),
            Argument::Invalid => Err(ErrorView::ArgumentInvalid),
            Argument::Given(node) => mapped(node@, *config),
        }),
{
    match structure {
        Argument::Missing => Err(Error::ArgumentMissing),
        Argument::Invalid => Err(Error::ArgumentInvalid),
        Argument::Given(node) => mapped_type(&node, config),
    }
}

/// The tree that a template has to hand over where a function works on the
/// root of a body, or the failure of the call.
pub open spec fn root_argument(structure: Argument<DataStructure>) -> Result<
    DataStructure,
    ErrorView,
> {
    match structure {
        Argument::Missing => Err(ErrorView::ArgumentMissing),
        Argument::Invalid => Err(ErrorView::ArgumentInvalid),
        Argument::Given(node) => if node.is_root {
            Ok(node)
        } else {
            Err(ErrorView::RootExpected)
        },
    }
}

/// Checks that a template has handed over the root of a body.
fn take_root(structure: Argument<DataStructure>) -> (res: Result<DataStructure, Error>)
    ensures
        match root_argument(structure) {
            Ok(node) => res == Ok::<DataStructure, Error>(node),
            Err(e) => res matches Err(failure) && failure@ == e,
        },
{
    match structure {
        Argument::Missing => Err(Error::ArgumentMissing),
        Argument::Invalid => Err(Error::ArgumentInvalid),
        Argument::Given(node) => {
            if node.is_root {
                Ok(node)
            } else {
                Err(Error::RootExpected)
            }
        },
    }
}

/// Makes the tree of the root of a body with the configured type of each
/// scalar in place of the scalar.
pub fn json_typing(config: &Config, structure: Argument<DataStructure>) -> (res: Result<
    Value,
    Error,
>)
    ensures
        json_outcome(res) == (match root_argument(structure) {
            Ok(node) => typed(node@, *config),
            Err(e) => Err(e),
        }),
{
    match take_root(structure) {
        Err(e) => Err(e),
        Ok(node) => data_structure_to_json(&node, config),
    }
}

/// Makes the sample of the root of a body with every field of every
/// object.
pub fn json_value(config: &Config, structure: Argument<DataStructure>) -> (res: Result<
    Value,
    Error,
>)
    ensures
        json_outcome(res) == (match root_argument(structure) {
            Ok(node) => Ok(sample(node@, SampleMode::Full)),
            Err(e) => Err(e),
        }),
{
    match take_root(structure) {
        Err(e) => Err(e),
        Ok(node) => Ok(data_structure_to_json_with_value(&node, config)),
    }
}

/// Makes the sample of the root of a body with the required fields of every
/// object and no others.
pub fn json_minimum_value(config: &Config, structure: Argument<DataStructure>) -> (res: Result<
    Value,
    Error,
>)
    ensures
        json_outcome(res) == (match root_argument(structure) {
            Ok(node) => Ok(sample(node@, SampleMode::Minimal)),
            Err(e) => Err(e),
        }),
{
    match take_root(structure) {
        Err(e) => Err(e),
        Ok(node) => Ok(data_structure_to_minimum_json_with_value(&node, config)),
    }
}

/// Makes a sample of the root of a body in which every required field
/// stands and every other field stands or not as a coin falls.
pub fn json_value_random(
    config: &Config,
    structure: Argument<DataStructure>,
    random: &mut ThreadRng,
) -> (res: Result<Value, Error>)
    ensures
        match root_argument(structure) {
            Ok(node) => res matches Ok(value) && admits(node@, json_model(value)),
            Err(e) => res matches Err(failure) && failure@ == e,
        },
{
    match take_root(structure) {
        Err(e) => Err(e),
        Ok(node) => Ok(data_structure_to_random_json_with_value(&node, config, random)),
    }
}

} // verus!

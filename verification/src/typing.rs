use serde_json::Value;
use vstd::prelude::*;
use crate::config::Config;
use crate::error::{Error, ErrorView};
use crate::json::{
    json_fields, json_fields_insert, json_fields_new, json_list, json_model, json_models,
    json_object, json_text, no_fields, JsonModel,
};
use crate::mapping::{looked_up, property_to_type};
use crate::model::{kind_name, nodes_of, DataStructure, Node, PropertyType};

verus! {

/// A tree with the type of each scalar in place of the scalar: an object
/// with a field for each child, an array with its first child, and for a
/// scalar the type that the table holds for its kind and format. The first
/// scalar without a type fails the whole.
pub open spec fn typed(node: Node, config: Config) -> Result<JsonModel, ErrorView>
    decreases node,
{
    match node.property_type {
        PropertyType::Object => match typed_fields(node.properties, config) {
            Err(e) => Err(e),
            Ok(fields) => Ok(JsonModel::Fields(fields)),
        },
        PropertyType::Array => if node.properties.len() > 0 {
            match typed(node.properties[0], config) {
                Err(e) => Err(e),
                Ok(item) => Ok(JsonModel::List(seq![item])),
            }
        } else {
            Ok(JsonModel::List(Seq::empty()))
        },
        _ => match looked_up(config.types@, kind_name(node.property_type), node.format) {
            Err(e) => Err(e),
            Ok(found) => Ok(JsonModel::Text(found)),
        },
    }
}

/// The fields that the children of an object give, each under its name, a
/// later child in place of an earlier one of the same name; or the failure
/// of the first child that has one.
pub open spec fn typed_fields(children: Seq<Node>, config: Config) -> Result<
    Map<Seq<char>, JsonModel>,
    ErrorView,
>
    decreases children,
{
    if children.len() == 0 {
        Ok(no_fields())
    } else {
        match typed_fields(children.drop_last(), config) {
            Err(e) => Err(e),
            Ok(front) => match typed(children.last(), config) {
                Err(e) => Err(e),
                Ok(value) => Ok(front.insert(children.last().name, value)),
            },
        }
    }
}

/// Once a child fails, the children that follow do not change the outcome.
proof fn lemma_typed_failure_stays(children: Seq<Node>, config: Config, upto: int)
    requires
        0 <= upto <= children.len(),
        typed_fields(children.take(upto), config) is Err,
    ensures
        typed_fields(children, config) == typed_fields(children.take(upto), config),
    decreases children.len(),
{
    if upto == children.len() {
        assert(children.take(upto) =~= children);
    } else {
        let front = children.drop_last();
        assert(front.take(upto) =~= children.take(upto));
        lemma_typed_failure_stays(front, config, upto);
    }
}

/// The value of the outcome of a typing.
pub open spec fn json_outcome(res: Result<Value, Error>) -> Result<JsonModel, ErrorView> {
    match res {
        Ok(v) => Ok(json_model(v)),
        Err(e) => Err(e@),
    }
}

/// Makes the tree of a data structure with the configured type of each
/// scalar in place of the scalar.
pub fn data_structure_to_json(data_structure: &DataStructure, config: &Config) -> (res: Result<
    Value,
    Error,
>)
    ensures
        json_outcome(res) == typed(data_structure@, *config),
    decreases *data_structure,
{
    proof {
        data_structure.lemma_view_children();
    }
    match data_structure.property_type {
        PropertyType::Object => {
            let mut fields = json_fields_new();
            let mut i: usize = 0;
            proof {
                assert(data_structure@.properties.take(0) =~= Seq::<Node>::empty());
            }
            while i < data_structure.properties.len()
                invariant
                    i <= data_structure.properties.len(),
                    data_structure@.property_type == PropertyType::Object,
                    data_structure@.properties == nodes_of(data_structure.properties@),
                    typed_fields(data_structure@.properties.take(i as int), *config) == Ok::<
                        Map<Seq<char>, JsonModel>,
                        ErrorView,
                    >(json_fields(fields)),
                decreases data_structure.properties.len() - i,
            {
                let child = &data_structure.properties[i];
                proof {
                    let upto = data_structure@.properties.take(i + 1);
                    assert(upto.drop_last() =~= data_structure@.properties.take(i as int));
                    assert(upto.last() == child@);
                }
                match data_structure_to_json(child, config) {
                    Err(e) => {
                        proof {
                            lemma_typed_failure_stays(data_structure@.properties, *config, i + 1);
                        }
                        return Err(e);
                    },
                    Ok(value) => {
                        json_fields_insert(&mut fields, child.name.clone(), value);
                    },
                }
                i += 1;
            }
            proof {
                assert(data_structure@.properties.take(i as int) =~= data_structure@.properties);
            }
            Ok(json_object(fields))
        },
        PropertyType::Array => {
            let mut items: Vec<Value> = Vec::new();
            if data_structure.properties.len() > 0 {
                match data_structure_to_json(&data_structure.properties[0], config) {
                    Err(e) => {
                        return Err(e);
                    },
                    Ok(item) => {
                        items.push(item);
                        proof {
                            assert(json_models(items@) =~= seq![json_model(item)]);
                        }
                    },
                }
            } else {
                proof {
                    assert(json_models(items@) =~= Seq::<JsonModel>::empty());
                }
            }
            Ok(json_list(items))
        },
        _ => {
            let kind = data_structure.property_type.name();
            match property_to_type(kind.as_str(), &data_structure.format, config) {
                Err(e) => Err(e),
                Ok(found) => Ok(json_text(found)),
            }
        },
    }
}

} // verus!

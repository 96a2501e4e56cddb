use rand::rngs::ThreadRng;
use serde_json::Value;
use crate::config::Config;
use vstd::prelude::*;
use vstd::string::StringExecFns;
use crate::json::{
    coin, json_fields, json_fields_insert, json_fields_new, json_list, json_model, json_models,
    json_object, json_text, no_fields, JsonModel,
};
use crate::model::{nodes_of, BoundView, DataStructure, Int64FloatOrUsize, Node, PropertyType};
use crate::text::{decimal, decimal_of_i64, decimal_of_usize, text_is, text_of};

verus! {

/// Which fields of an object a sample holds.
#[derive(Clone, Copy, Debug, PartialEq, Eq, Structural)]
pub enum SampleMode {
    /// Every field.
    Full,
    /// The required fields only.
    Minimal,
}

/// The least value of a 32-bit float, as a 64-bit float prints it.
pub open spec fn float_floor() -> Seq<char> {
    "-340282346638528860000000000000000000000"@
}

/// The greatest value of a 32-bit float, as a 64-bit float prints it.
pub open spec fn float_ceiling() -> Seq<char> {
    "340282346638528860000000000000000000000"@
}

/// A bound as a sentinel writes it.
pub open spec fn bound_text(bound: BoundView) -> Seq<char> {
    match bound {
        BoundView::Int(i) => decimal(i as int),
        BoundView::UInt(u) => decimal(u as int),
        BoundView::Float(t) => t,
    }
}

/// The lower bound that a sentinel of a numeric node names: the declared
/// one, or else that of the width which the format gives. A number is as
/// wide as a 32-bit float unless its format is `Double`, which is given the
/// range of 64-bit integers; an integer is 32 bits wide unless its format is
/// `Int64`.
pub open spec fn lower_text(node: Node) -> Seq<char> {
    match node.min {
        Some(bound) => bound_text(bound),
        None => if node.property_type == PropertyType::Number {
            if node.format == Some("Double"@) {
                decimal(i64::MIN as int)
            } else {
                float_floor()
            }
        } else {
            if node.format == Some("Int64"@) {
                decimal(i64::MIN as int)
            } else {
                decimal(i32::MIN as int)
            }
        },
    }
}

/// The upper bound that a sentinel of a numeric node names.
pub open spec fn upper_text(node: Node) -> Seq<char> {
    match node.max {
        Some(bound) => bound_text(bound),
        None => if node.property_type == PropertyType::Number {
            if node.format == Some("Double"@) {
                decimal(i64::MAX as int)
            } else {
                float_ceiling()
            }
        } else {
            if node.format == Some("Int64"@) {
                decimal(i64::MAX as int)
            } else {
                decimal(i32::MAX as int)
            }
        },
    }
}

/// The sentinel that stands for a value of a scalar node.
pub open spec fn sentinel(node: Node) -> Seq<char> {
    match node.property_type {
        PropertyType::Number => "@Float|"@ + lower_text(node) + "~"@ + upper_text(node),
        PropertyType::Integer => "@Number|"@ + lower_text(node) + "~"@ + upper_text(node),
        PropertyType::Boolean => "@Bool"@,
        _ => if node.format == Some("Date"@) {
            "@Date"@
        } else if node.format == Some("DateTime"@) {
            "@DateTime"@
        } else if node.format == Some("Byte"@) {
            "byte data"@
        } else if node.format == Some("Binary"@) {
            "binary data"@
        } else {
            "@Sentence"@
        },
    }
}

/// The sample of a node: an object with a field for each of its children
/// that the mode includes, an array with the sample of its first child, or
/// the sentinel of a scalar.
pub open spec fn sample(node: Node, mode: SampleMode) -> JsonModel
    decreases node,
{
    match node.property_type {
        PropertyType::Object => JsonModel::Fields(sample_fields(node.properties, mode)),
        PropertyType::Array => if node.properties.len() > 0 {
            JsonModel::List(seq![sample(node.properties[0], mode)])
        } else {
            JsonModel::List(Seq::empty())
        },
        _ => JsonModel::Text(sentinel(node)),
    }
}

/// The fields that the children of an object give: each included child puts
/// its sample under its name, a later child in place of an earlier one of
/// the same name. The full mode includes every child, the minimal mode the
/// required ones.
pub open spec fn sample_fields(children: Seq<Node>, mode: SampleMode) -> Map<Seq<char>, JsonModel>
    decreases children,
{
    if children.len() == 0 {
        no_fields()
    } else {
        let front = sample_fields(children.drop_last(), mode);
        let child = children.last();
        if mode == SampleMode::Full || child.required {
            front.insert(child.name, sample(child, mode))
        } else {
            front
        }
    }
}

/// Whether `fields` is `front` with `value` put under `name`.
pub open spec fn placed(
    front: Map<Seq<char>, JsonModel>,
    name: Seq<char>,
    value: JsonModel,
    fields: Map<Seq<char>, JsonModel>,
) -> bool {
    fields == front.insert(name, value)
}

/// Whether a value is a sample of a node with some choice of its optional
/// fields: an object holds a field for every required child and for any of
/// the others, each with a sample of that child; an array holds a sample of
/// its first child; a scalar is its sentinel.
pub open spec fn admits(node: Node, value: JsonModel) -> bool
    decreases node,
{
    match node.property_type {
        PropertyType::Object => value matches JsonModel::Fields(fields) && admits_fields(
            node.properties,
            fields,
        ),
        PropertyType::Array => if node.properties.len() > 0 {
            value matches JsonModel::List(items) && items.len() == 1 && admits(
                node.properties[0],
                items[0],
            )
        } else {
            value == JsonModel::List(Seq::empty())
        },
        _ => value == JsonModel::Text(sentinel(node)),
    }
}

/// Whether some fields are what the children of an object give with some
/// choice of the optional ones: child by child, an optional child may be
/// left out, and any child may put a sample of itself under its name.
pub open spec fn admits_fields(children: Seq<Node>, fields: Map<Seq<char>, JsonModel>) -> bool
    decreases children,
{
    if children.len() == 0 {
        fields == no_fields()
    } else {
        let child = children.last();
        ||| (!child.required && admits_fields(children.drop_last(), fields))
        ||| exists|front: Map<Seq<char>, JsonModel>, value: JsonModel|
            #[trigger] placed(front, child.name, value, fields) && admits_fields(
                children.drop_last(),
                front,
            ) && admits(child, value)
    }
}

/// The samples of both modes are samples with a choice of the optional
/// fields: all of them, and none of them.
pub proof fn lemma_sample_admitted(node: Node, mode: SampleMode)
    ensures
        admits(node, sample(node, mode)),
    decreases node,
{
    match node.property_type {
        PropertyType::Object => {
            lemma_sample_fields_admitted(node.properties, mode);
        },
        PropertyType::Array => {
            if node.properties.len() > 0 {
                lemma_sample_admitted(node.properties[0], mode);
            }
        },
        _ => {},
    }
}

/// The fields of both modes are fields with a choice of the optional ones.
pub proof fn lemma_sample_fields_admitted(children: Seq<Node>, mode: SampleMode)
    ensures
        admits_fields(children, sample_fields(children, mode)),
    decreases children,
{
    if children.len() > 0 {
        let child = children.last();
        let front = sample_fields(children.drop_last(), mode);
        lemma_sample_fields_admitted(children.drop_last(), mode);
        if mode == SampleMode::Full || child.required {
            lemma_sample_admitted(child, mode);
            assert(placed(front, child.name, sample(child, mode), sample_fields(children, mode)));
        }
    }
}

/// Whatever the choice of the optional fields, every required child has its
/// field, and every field bears the name of a child.
pub proof fn lemma_admitted_shape(children: Seq<Node>, fields: Map<Seq<char>, JsonModel>)
    requires
        admits_fields(children, fields),
    ensures
        forall|i: int|
            0 <= i < children.len() && (#[trigger] children[i]).required ==> fields.contains_key(
                children[i].name,
            ),
        forall|key: Seq<char>| #[trigger]
            fields.contains_key(key) ==> exists|i: int|
                0 <= i < children.len() && (#[trigger] children[i]).name == key,
    decreases children,
{
    if children.len() > 0 {
        let child = children.last();
        let rest = children.drop_last();
        if !child.required && admits_fields(rest, fields) {
            lemma_admitted_shape(rest, fields);
            assert forall|i: int|
                0 <= i < children.len() && (#[trigger] children[i]).required implies fields.contains_key(
                children[i].name,
            ) by {
                if i < rest.len() {
                    assert(rest[i].required);
                }
            }
            assert forall|key: Seq<char>| #[trigger] fields.contains_key(key) implies exists|
                i: int,
            |
                0 <= i < children.len() && (#[trigger] children[i]).name == key by {
                let i = choose|i: int| 0 <= i < rest.len() && (#[trigger] rest[i]).name == key;
                assert(children[i].name == key);
            }
        } else {
            let (front, value) = choose|front: Map<Seq<char>, JsonModel>, value: JsonModel|
                #[trigger] placed(front, child.name, value, fields) && admits_fields(rest, front)
                    && admits(child, value);
            lemma_admitted_shape(rest, front);
            assert forall|i: int|
                0 <= i < children.len() && (#[trigger] children[i]).required implies fields.contains_key(
                children[i].name,
            ) by {
                if i < rest.len() {
                    assert(rest[i].required);
                }
            }
            assert forall|key: Seq<char>| #[trigger] fields.contains_key(key) implies exists|
                i: int,
            |
                0 <= i < children.len() && (#[trigger] children[i]).name == key by {
                if key == child.name {
                    assert(children[children.len() - 1].name == key);
                } else {
                    let i = choose|i: int| 0 <= i < rest.len() && (#[trigger] rest[i]).name == key;
                    assert(children[i].name == key);
                }
            }
        }
    }
}

/// Tells whether a format is the given one.
fn format_is(format: &Option<String>, name: &str) -> (res: bool)
    ensures
        res == (text_of(*format) == Some(name@)),
{
    match format {
        Some(f) => text_is(f.as_str(), name),
        None => false,
    }
}

/// Writes a bound as a sentinel holds it.
fn bound_string(bound: &Int64FloatOrUsize) -> (res: String)
    ensures
        res@ == bound_text(bound@),
{
    match bound {
        Int64FloatOrUsize::Int(i) => decimal_of_i64(*i),
        Int64FloatOrUsize::UInt(u) => decimal_of_usize(*u),
        Int64FloatOrUsize::Float(t) => t.clone(),
    }
}

fn lower_string(node: &DataStructure) -> (res: String)
    ensures
        res@ == lower_text(node@),
{
    match &node.min {
        Some(bound) => bound_string(bound),
        None => {
            if node.property_type == PropertyType::Number {
                if format_is(&node.format, "Double") {
                    decimal_of_i64(i64::MIN)
                } else {
                    "-340282346638528860000000000000000000000".to_owned()
                }
            } else {
                if format_is(&node.format, "Int64") {
                    decimal_of_i64(i64::MIN)
                } else {
                    decimal_of_i64(-2147483648)
                }
            }
        },
    }
}

fn upper_string(node: &DataStructure) -> (res: String)
    ensures
        res@ == upper_text(node@),
{
    match &node.max {
        Some(bound) => bound_string(bound),
        None => {
            if node.property_type == PropertyType::Number {
                if format_is(&node.format, "Double") {
                    decimal_of_i64(i64::MAX)
                } else {
                    "340282346638528860000000000000000000000".to_owned()
                }
            } else {
                if format_is(&node.format, "Int64") {
                    decimal_of_i64(i64::MAX)
                } else {
                    decimal_of_i64(2147483647)
                }
            }
        },
    }
}

/// Writes the sentinel that stands for a value of a scalar node.
pub fn sentinel_of(node: &DataStructure) -> (res: String)
    ensures
        res@ == sentinel(node@),
{
    match node.property_type {
        PropertyType::Number => {
            let mut out = "@Float|".to_owned();
            out.append(lower_string(node).as_str());
            out.append("~");
            out.append(upper_string(node).as_str());
            out
        },
        PropertyType::Integer => {
            let mut out = "@Number|".to_owned();
            out.append(lower_string(node).as_str());
            out.append("~");
            out.append(upper_string(node).as_str());
            out
        },
        PropertyType::Boolean => "@Bool".to_owned(),
        _ => {
            if format_is(&node.format, "Date") {
                "@Date".to_owned()
            } else if format_is(&node.format, "DateTime") {
                "@DateTime".to_owned()
            } else if format_is(&node.format, "Byte") {
                "byte data".to_owned()
            } else if format_is(&node.format, "Binary") {
                "binary data".to_owned()
            } else {
                "@Sentence".to_owned()
            }
        },
    }
}

/// Makes the sample of a tree in the given mode: an object for an object,
/// with a field for each child that the mode includes; an array with one
/// item for an array; a sentinel for a scalar.
pub fn synthesize(root: &DataStructure, mode: SampleMode) -> (res: Value)
    ensures
        json_model(res) == sample(root@, mode),
    decreases *root,
{
    proof {
        root.lemma_view_children();
    }
    match root.property_type {
        PropertyType::Object => {
            let mut fields = json_fields_new();
            let mut i: usize = 0;
            proof {
                assert(root@.properties.take(0) =~= Seq::<Node>::empty());
            }
            while i < root.properties.len()
                invariant
                    i <= root.properties.len(),
                    root@.properties == nodes_of(root.properties@),
                    json_fields(fields) == sample_fields(root@.properties.take(i as int), mode),
                decreases root.properties.len() - i,
            {
                let child = &root.properties[i];
                proof {
                    let upto = root@.properties.take(i + 1);
                    assert(upto.drop_last() =~= root@.properties.take(i as int));
                    assert(upto.last() == child@);
                }
                let included = match mode {
                    SampleMode::Full => true,
                    SampleMode::Minimal => child.required,
                };
                if included {
                    let value = synthesize(child, mode);
                    json_fields_insert(&mut fields, child.name.clone(), value);
                }
                i += 1;
            }
            proof {
                assert(root@.properties.take(i as int) =~= root@.properties);
            }
            json_object(fields)
        },
        PropertyType::Array => {
            let mut items: Vec<Value> = Vec::new();
            if root.properties.len() > 0 {
                let item = synthesize(&root.properties[0], mode);
                items.push(item);
                proof {
                    assert(json_models(items@) =~= seq![sample(root@.properties[0], mode)]);
                }
            } else {
                proof {
                    assert(json_models(items@) =~= Seq::<JsonModel>::empty());
                }
            }
            json_list(items)
        },
        _ => json_text(sentinel_of(root)),
    }
}

/// Decides whether a field is put into a sample: a required one always, any
/// other as the coin fell.
pub fn include_property(required: bool, coin: bool) -> (res: bool)
    ensures
        res == (required || coin),
{
    required || coin
}

/// Makes the sample of a tree with every field of every object.
pub fn data_structure_to_json_with_value(data_structure: &DataStructure, _config: &Config) -> (res:
    Value)
    ensures
        json_model(res) == sample(data_structure@, SampleMode::Full),
{
    synthesize(data_structure, SampleMode::Full)
}

/// Makes the sample of a tree with the required fields of every object and
/// no others.
pub fn data_structure_to_minimum_json_with_value(
    data_structure: &DataStructure,
    _config: &Config,
) -> (res: Value)
    ensures
        json_model(res) == sample(data_structure@, SampleMode::Minimal),
{
    synthesize(data_structure, SampleMode::Minimal)
}

/// Makes a sample of a tree in which every required field stands and every
/// other field stands or not as a coin falls, one throw for each field.
pub fn data_structure_to_random_json_with_value(
    data_structure: &DataStructure,
    _config: &Config,
    random: &mut ThreadRng,
) -> (res: Value)
    ensures
        admits(data_structure@, json_model(res)),
    decreases *data_structure,
{
    proof {
        data_structure.lemma_view_children();
    }
    match data_structure.property_type {
        PropertyType::Object => {
            let mut fields = json_fields_new();
            let mut i: usize = 0;
            proof {
                assert(data_structure@.properties.take(0) =~= Seq::<Node>::empty());
            }
            while i < data_structure.properties.len()
                invariant
                    i <= data_structure.properties.len(),
                    data_structure@.properties == nodes_of(data_structure.properties@),
                    admits_fields(data_structure@.properties.take(i as int), json_fields(fields)),
                decreases data_structure.properties.len() - i,
            {
                let child = &data_structure.properties[i];
                let ghost upto = data_structure@.properties.take(i + 1);
                proof {
                    assert(upto.drop_last() =~= data_structure@.properties.take(i as int));
                    assert(upto.last() == child@);
                }
                let throw = coin(random);
                if include_property(child.required, throw) {
                    let value = data_structure_to_random_json_with_value(child, _config, random);
                    let ghost front = json_fields(fields);
                    json_fields_insert(&mut fields, child.name.clone(), value);
                    proof {
                        assert(placed(front, child@.name, json_model(value), json_fields(fields)));
                    }
                }
                i += 1;
            }
            proof {
                assert(data_structure@.properties.take(i as int) =~= data_structure@.properties);
            }
            json_object(fields)
        },
        PropertyType::Array => {
            let mut items: Vec<Value> = Vec::new();
            if data_structure.properties.len() > 0 {
                let item = data_structure_to_random_json_with_value(
                    &data_structure.properties[0],
                    _config,
                    random,
                );
                items.push(item);
                proof {
                    assert(json_models(items@).len() == 1);
                    assert(json_models(items@)[0] == json_model(item));
                }
            } else {
                proof {
                    assert(json_models(items@) =~= Seq::<JsonModel>::empty());
                }
            }
            json_list(items)
        },
        _ => json_text(sentinel_of(data_structure)),
    }
}

} // verus!

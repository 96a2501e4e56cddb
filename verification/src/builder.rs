use indexmap::IndexMap;
use vstd::prelude::*;
use crate::error::{Error, ErrorView};
use crate::model::{
    blank, bound_of, nodes_of, BoundView, DataStructure, Int64FloatOrUsize, Node, PropertyType,
};
use crate::schema::{
    lemma_lookup_names, lookup, names, registered, registry_get, FormatSlot, IntegerFormat,
    NumberFormat, Property, Schema, SchemaKind, SchemaRef, StringFormat,
};
use crate::text::{
    contains_text, copy_text, copy_texts, joined, last_segment, last_segment_of, text_of, texts_of,
};

verus! {

/// The text that stands for a format of a string schema.
pub open spec fn string_format_text(slot: FormatSlot<StringFormat>) -> Option<Seq<char>> {
    match slot {
        FormatSlot::Known(StringFormat::Date) => Some("Date"@),
        FormatSlot::Known(StringFormat::DateTime) => Some("DateTime"@),
        FormatSlot::Known(StringFormat::Password) => Some("Password"@),
        FormatSlot::Known(StringFormat::Byte) => Some("Byte"@),
        FormatSlot::Known(StringFormat::Binary) => Some("Binary"@),
        FormatSlot::Unknown(other) => Some(other@),
        FormatSlot::Empty => None,
    }
}

/// The text that stands for a format of a number schema.
pub open spec fn number_format_text(slot: FormatSlot<NumberFormat>) -> Option<Seq<char>> {
    match slot {
        FormatSlot::Known(NumberFormat::Float) => Some("Float"@),
        FormatSlot::Known(NumberFormat::Double) => Some("Double"@),
        FormatSlot::Unknown(other) => Some(other@),
        FormatSlot::Empty => None,
    }
}

/// The text that stands for a format of an integer schema.
pub open spec fn integer_format_text(slot: FormatSlot<IntegerFormat>) -> Option<Seq<char>> {
    match slot {
        FormatSlot::Known(IntegerFormat::Int32) => Some("Int32"@),
        FormatSlot::Known(IntegerFormat::Int64) => Some("Int64"@),
        FormatSlot::Unknown(other) => Some(other@),
        FormatSlot::Empty => None,
    }
}

/// The bound that a declared floating-point number gives.
pub open spec fn float_bound(text: Option<String>) -> Option<BoundView> {
    match text {
        Some(t) => Some(BoundView::Float(t@)),
        None => None,
    }
}

/// The bound that a declared integer gives.
pub open spec fn int_bound(value: Option<i64>) -> Option<BoundView> {
    match value {
        Some(i) => Some(BoundView::Int(i)),
        None => None,
    }
}

/// The node that a schema or a reference gives, or the first failure met on
/// the way. `avail` holds the names that a reference may still lead to: a
/// reference to a registered name outside it closes a cycle. A referenced
/// schema is built under the name that the reference ends in, in place of
/// `name`.
pub open spec fn built(
    s: SchemaRef,
    entries: Seq<(Seq<char>, SchemaRef)>,
    name: Seq<char>,
    is_array: bool,
    avail: Set<Seq<char>>,
) -> Result<Node, ErrorView>
    decreases avail.len(), s,
    when avail.finite()
{
    match s {
        SchemaRef::Reference { reference } => {
            let target = last_segment(reference@);
            match lookup(entries, target) {
                None => Err(ErrorView::ReferenceNotFound),
                Some(found) => if avail.contains(target) {
                    built(found, entries, target, is_array, avail.remove(target))
                } else {
                    Err(ErrorView::CycleDetected)
                },
            }
        },
        SchemaRef::Item(schema) => built_item(schema, entries, name, is_array, avail),
    }
}

/// The node that a schema written in place gives, or the first failure met
/// on the way.
pub open spec fn built_item(
    schema: Schema,
    entries: Seq<(Seq<char>, SchemaRef)>,
    name: Seq<char>,
    is_array: bool,
    avail: Set<Seq<char>>,
) -> Result<Node, ErrorView>
    decreases avail.len(), schema,
    when avail.finite()
{
    let description = text_of(schema.description);
    match schema.kind {
        SchemaKind::String(text) => Ok(
            Node {
                format: string_format_text(text.format),
                pattern: text_of(text.pattern),
                min_length: text.min_length,
                max_length: text.max_length,
                ..blank(name, description, PropertyType::String)
            },
        ),
        SchemaKind::Number(number) => Ok(
            Node {
                format: number_format_text(number.format),
                min: float_bound(number.minimum),
                max: float_bound(number.maximum),
                ..blank(name, description, PropertyType::Number)
            },
        ),
        SchemaKind::Integer(integer) => Ok(
            Node {
                format: integer_format_text(integer.format),
                min: int_bound(integer.minimum),
                max: int_bound(integer.maximum),
                ..blank(name, description, PropertyType::Integer)
            },
        ),
        SchemaKind::Boolean => Ok(blank(name, description, PropertyType::Boolean)),
        SchemaKind::Object(object) => match built_children(object.properties@, entries, avail) {
            Err(e) => Err(e),
            Ok(children) => Ok(
                Node {
                    properties: children,
                    required_properties: texts_of(object.required@),
                    object_name: Some(name + "Object"@),
                    ..blank(
                        name,
                        description,
                        if is_array {
                            PropertyType::Array
                        } else {
                            PropertyType::Object
                        },
                    )
                },
            ),
        },
        SchemaKind::Array(array) => match array.items {
            None => Err(ErrorView::UnsupportedSchemaConstruct),
            Some(items) => match built(*items, entries, name + "Item"@, false, avail) {
                Err(e) => Err(e),
                Ok(child) => Ok(
                    Node {
                        properties: seq![child],
                        min_length: array.min_items,
                        max_length: array.max_items,
                        ..blank(name, description, PropertyType::Array)
                    },
                ),
            },
        },
        _ => Err(ErrorView::UnsupportedSchemaConstruct),
    }
}

/// The nodes that the properties of an object give, in their order, or the
/// failure of the first property that fails.
pub open spec fn built_children(
    properties: Seq<Property>,
    entries: Seq<(Seq<char>, SchemaRef)>,
    avail: Set<Seq<char>>,
) -> Result<Seq<Node>, ErrorView>
    decreases avail.len(), properties,
    when avail.finite()
{
    if properties.len() == 0 {
        Ok(Seq::empty())
    } else {
        match built_children(properties.drop_last(), entries, avail) {
            Err(e) => Err(e),
            Ok(front) => match built(
                properties.last().schema,
                entries,
                properties.last().name@,
                false,
                avail,
            ) {
                Err(e) => Err(e),
                Ok(child) => Ok(front.push(child)),
            },
        }
    }
}

/// Whether a tree is as the builder leaves it: no node is flagged as
/// required or marked as a root, and every array below the root holds
/// exactly one item.
pub open spec fn fresh(node: Node) -> bool
    decreases node,
{
    &&& !node.required
    &&& !node.is_root
    &&& forall|i: int|
        0 <= i < node.properties.len() ==> {
            &&& fresh(#[trigger] node.properties[i])
            &&& node.properties[i].property_type == PropertyType::Array
                ==> node.properties[i].properties.len() == 1
        }
}

/// Whether a tree is fresh and, where it is an array, holds exactly one
/// item.
pub open spec fn fresh_below(node: Node) -> bool {
    fresh(node) && (node.property_type == PropertyType::Array ==> node.properties.len() == 1)
}

/// What is built is fresh: the builder flags nothing as required, marks no
/// root, and gives every array one item. Only an object that is tagged as an
/// array at the root may hold any number of children.
pub proof fn lemma_built_is_fresh(
    s: SchemaRef,
    entries: Seq<(Seq<char>, SchemaRef)>,
    name: Seq<char>,
    is_array: bool,
    avail: Set<Seq<char>>,
)
    requires
        avail.finite(),
    ensures
        built(s, entries, name, is_array, avail) matches Ok(tree) ==> fresh(tree) && (!is_array
            ==> fresh_below(tree)),
    decreases avail.len(), s,
{
    match s {
        SchemaRef::Reference { reference } => {
            let target = last_segment(reference@);
            match lookup(entries, target) {
                None => {},
                Some(found) => {
                    if avail.contains(target) {
                        lemma_built_is_fresh(found, entries, target, is_array, avail.remove(target));
                    }
                },
            }
        },
        SchemaRef::Item(schema) => {
            lemma_built_item_is_fresh(schema, entries, name, is_array, avail);
        },
    }
}

/// What is built from a schema written in place is fresh.
pub proof fn lemma_built_item_is_fresh(
    schema: Schema,
    entries: Seq<(Seq<char>, SchemaRef)>,
    name: Seq<char>,
    is_array: bool,
    avail: Set<Seq<char>>,
)
    requires
        avail.finite(),
    ensures
        built_item(schema, entries, name, is_array, avail) matches Ok(tree) ==> fresh(tree) && (
        !is_array ==> fresh_below(tree)),
    decreases avail.len(), schema,
{
    match schema.kind {
        SchemaKind::Object(object) => {
            lemma_built_children_are_fresh(object.properties@, entries, avail);
        },
        SchemaKind::Array(array) => {
            match array.items {
                None => {},
                Some(items) => {
                    lemma_built_is_fresh(*items, entries, name + "Item"@, false, avail);
                },
            }
        },
        _ => {},
    }
}

/// The children that are built for an object are fresh.
pub proof fn lemma_built_children_are_fresh(
    properties: Seq<Property>,
    entries: Seq<(Seq<char>, SchemaRef)>,
    avail: Set<Seq<char>>,
)
    requires
        avail.finite(),
    ensures
        built_children(properties, entries, avail) matches Ok(children) ==> forall|i: int|
            0 <= i < children.len() ==> fresh_below(#[trigger] children[i]),
    decreases avail.len(), properties,
{
    if properties.len() > 0 {
        lemma_built_children_are_fresh(properties.drop_last(), entries, avail);
        lemma_built_is_fresh(
            properties.last().schema,
            entries,
            properties.last().name@,
            false,
            avail,
        );
    }
}

/// The value of an outcome: that of the node built, or that of the failure.
pub open spec fn outcome(res: Result<DataStructure, Error>) -> Result<Node, ErrorView> {
    match res {
        Ok(d) => Ok(d@),
        Err(e) => Err(e@),
    }
}

/// The registered names that are not on the path of references followed so
/// far.
pub open spec fn unvisited(entries: Seq<(Seq<char>, SchemaRef)>, visiting: Seq<Seq<char>>) -> Set<
    Seq<char>,
> {
    names(entries).difference(visiting.to_set())
}

/// Once a property fails, the properties that follow do not change the
/// outcome.
proof fn lemma_children_failure_stays(
    properties: Seq<Property>,
    entries: Seq<(Seq<char>, SchemaRef)>,
    avail: Set<Seq<char>>,
    upto: int,
)
    requires
        avail.finite(),
        0 <= upto <= properties.len(),
        built_children(properties.take(upto), entries, avail) is Err,
    ensures
        built_children(properties, entries, avail) == built_children(
            properties.take(upto),
            entries,
            avail,
        ),
    decreases properties.len(),
{
    if upto == properties.len() {
        assert(properties.take(upto) =~= properties);
    } else {
        let front = properties.drop_last();
        assert(front.take(upto) =~= properties.take(upto));
        lemma_children_failure_stays(front, entries, avail, upto);
    }
}

fn string_format_name(slot: &FormatSlot<StringFormat>) -> (res: Option<String>)
    ensures
        text_of(res) == string_format_text(*slot),
{
    match slot {
        FormatSlot::Known(StringFormat::Date) => Some("Date".to_owned()),
        FormatSlot::Known(StringFormat::DateTime) => Some("DateTime".to_owned()),
        FormatSlot::Known(StringFormat::Password) => Some("Password".to_owned()),
        FormatSlot::Known(StringFormat::Byte) => Some("Byte".to_owned()),
        FormatSlot::Known(StringFormat::Binary) => Some("Binary".to_owned()),
        FormatSlot::Unknown(other) => Some(other.clone()),
        FormatSlot::Empty => None,
    }
}

fn number_format_name(slot: &FormatSlot<NumberFormat>) -> (res: Option<String>)
    ensures
        text_of(res) == number_format_text(*slot),
{
    match slot {
        FormatSlot::Known(NumberFormat::Float) => Some("Float".to_owned()),
        FormatSlot::Known(NumberFormat::Double) => Some("Double".to_owned()),
        FormatSlot::Unknown(other) => Some(other.clone()),
        FormatSlot::Empty => None,
    }
}

fn integer_format_name(slot: &FormatSlot<IntegerFormat>) -> (res: Option<String>)
    ensures
        text_of(res) == integer_format_text(*slot),
{
    match slot {
        FormatSlot::Known(IntegerFormat::Int32) => Some("Int32".to_owned()),
        FormatSlot::Known(IntegerFormat::Int64) => Some("Int64".to_owned()),
        FormatSlot::Unknown(other) => Some(other.clone()),
        FormatSlot::Empty => None,
    }
}

fn float_bound_of(text: &Option<String>) -> (res: Option<Int64FloatOrUsize>)
    ensures
        bound_of(res) == float_bound(*text),
{
    match text {
        Some(t) => Some(Int64FloatOrUsize::Float(t.clone())),
        None => None,
    }
}

fn int_bound_of(value: Option<i64>) -> (res: Option<Int64FloatOrUsize>)
    ensures
        bound_of(res) == int_bound(value),
{
    match value {
        Some(i) => Some(Int64FloatOrUsize::Int(i)),
        None => None,
    }
}

/// Builds the node of a schema or of a reference, with the names of the
/// references that are being followed.
fn extract_under(
    schema: &SchemaRef,
    component_schemas: &IndexMap<String, SchemaRef>,
    name: &str,
    is_array: bool,
    visiting: &Vec<String>,
) -> (res: Result<DataStructure, Error>)
    ensures
        outcome(res) == built(
            *schema,
            registered(*component_schemas),
            name@,
            is_array,
            unvisited(registered(*component_schemas), texts_of(visiting@)),
        ),
    decreases unvisited(registered(*component_schemas), texts_of(visiting@)).len(), *schema,
{
    let ghost entries = registered(*component_schemas);
    let ghost avail = unvisited(entries, texts_of(visiting@));
    proof {
        lemma_lookup_names(entries, name@);
    }
    match schema {
        SchemaRef::Reference { reference } => {
            let target = last_segment_of(reference.as_str());
            proof {
                lemma_lookup_names(entries, target@);
            }
            match registry_get(component_schemas, target.as_str()) {
                None => Err(Error::ReferenceNotFound),
                Some(found) => {
                    if contains_text(visiting, &target) {
                        Err(Error::CycleDetected)
                    } else {
                        let mut deeper = copy_texts(visiting);
                        deeper.push(target.clone());
                        proof {
                            let before = texts_of(visiting@);
                            let after = texts_of(deeper@);
                            assert(after =~= before.push(target@));
                            assert forall|n: Seq<char>|
                                after.contains(n) <==> before.contains(n) || n == target@ by {
                                if before.contains(n) {
                                    let j = choose|j: int| 0 <= j < before.len() && before[j] == n;
                                    assert(after[j] == n);
                                }
                                if n == target@ {
                                    assert(after[before.len() as int] == n);
                                }
                            }
                            assert(unvisited(entries, after) =~= avail.remove(target@));
                        }
                        extract_under(found, component_schemas, target.as_str(), is_array, &deeper)
                    }
                },
            }
        },
        SchemaRef::Item(item) => extract_from_schema_under(
            item,
            component_schemas,
            name,
            is_array,
            visiting,
        ),
    }
}

/// Builds the node of a schema written in place, with the names of the
/// references that are being followed.
#[verifier::loop_isolation(false)]
fn extract_from_schema_under(
    schema: &Schema,
    component_schemas: &IndexMap<String, SchemaRef>,
    name: &str,
    is_array: bool,
    visiting: &Vec<String>,
) -> (res: Result<DataStructure, Error>)
    ensures
        outcome(res) == built_item(
            *schema,
            registered(*component_schemas),
            name@,
            is_array,
            unvisited(registered(*component_schemas), texts_of(visiting@)),
        ),
    decreases unvisited(registered(*component_schemas), texts_of(visiting@)).len(), *schema,
{
    let ghost entries = registered(*component_schemas);
    let ghost avail = unvisited(entries, texts_of(visiting@));
    proof {
        lemma_lookup_names(entries, name@);
    }
    let description = copy_text(&schema.description);
    match &schema.kind {
        SchemaKind::String(text) => {
            let mut node = DataStructure::new(name.to_owned(), description, PropertyType::String);
            node.format = string_format_name(&text.format);
            node.pattern = copy_text(&text.pattern);
            node.min_length = text.min_length;
            node.max_length = text.max_length;
            proof {
                node.lemma_view_children();
            }
            assert(node@.properties =~= Seq::<Node>::empty());
            Ok(node)
        },
        SchemaKind::Number(number) => {
            let mut node = DataStructure::new(name.to_owned(), description, PropertyType::Number);
            node.format = number_format_name(&number.format);
            node.min = float_bound_of(&number.minimum);
            node.max = float_bound_of(&number.maximum);
            assert(node@.properties =~= Seq::<Node>::empty());
            Ok(node)
        },
        SchemaKind::Integer(integer) => {
            let mut node = DataStructure::new(name.to_owned(), description, PropertyType::Integer);
            node.format = integer_format_name(&integer.format);
            node.min = int_bound_of(integer.minimum);
            node.max = int_bound_of(integer.maximum);
            assert(node@.properties =~= Seq::<Node>::empty());
            Ok(node)
        },
        SchemaKind::Boolean => Ok(
            DataStructure::new(name.to_owned(), description, PropertyType::Boolean),
        ),
        SchemaKind::Object(object) => {
            let mut children: Vec<DataStructure> = Vec::new();
            let mut i: usize = 0;
            proof {
                assert(object.properties@.take(0).len() == 0);
                assert(nodes_of(children@) =~= Seq::<Node>::empty());
            }
            while i < object.properties.len()
                invariant
                    i <= object.properties.len(),
                    avail.finite(),
                    built_children(object.properties@.take(i as int), entries, avail) == Ok::<
                        Seq<Node>,
                        ErrorView,
                    >(nodes_of(children@)),
                decreases object.properties.len() - i,
            {
                let property = &object.properties[i];
                let ghost upto = object.properties@.take(i + 1);
                proof {
                    assert(upto.drop_last() =~= object.properties@.take(i as int));
                    assert(upto.last() == *property);
                }
                match extract_under(
                    &property.schema,
                    component_schemas,
                    property.name.as_str(),
                    false,
                    visiting,
                ) {
                    Err(e) => {
                        proof {
                            lemma_children_failure_stays(
                                object.properties@,
                                entries,
                                avail,
                                i + 1,
                            );
                        }
                        return Err(e);
                    },
                    Ok(child) => {
                        let ghost before = nodes_of(children@);
                        let ghost child_view = child@;
                        children.push(child);
                        proof {
                            assert(nodes_of(children@) =~= before.push(child_view));
                            assert(built_children(upto, entries, avail) == Ok::<
                                Seq<Node>,
                                ErrorView,
                            >(before.push(child_view)));
                        }
                    },
                }
                i += 1;
            }
            proof {
                assert(object.properties@.take(i as int) =~= object.properties@);
            }
            let kind = if is_array {
                PropertyType::Array
            } else {
                PropertyType::Object
            };
            let mut node = DataStructure::new(name.to_owned(), description, kind);
            node.properties = children;
            node.required_properties = copy_texts(&object.required);
            node.object_name = Some(joined(name, "Object"));
            proof {
                node.lemma_view_children();
            }
            Ok(node)
        },
        SchemaKind::Array(array) => {
            match &array.items {
                None => Err(Error::UnsupportedSchemaConstruct),
                Some(items) => {
                    let item_name = joined(name, "Item");
                    match extract_under(
                        &**items,
                        component_schemas,
                        item_name.as_str(),
                        false,
                        visiting,
                    ) {
                        Err(e) => Err(e),
                        Ok(child) => {
                            let mut node = DataStructure::new(
                                name.to_owned(),
                                description,
                                PropertyType::Array,
                            );
                            let ghost child_view = child@;
                            node.properties.push(child);
                            node.min_length = array.min_items;
                            node.max_length = array.max_items;
                            proof {
                                node.lemma_view_children();
                                assert(node@.properties =~= seq![child_view]);
                            }
                            Ok(node)
                        },
                    }
                },
            }
        },
        _ => Err(Error::UnsupportedSchemaConstruct),
    }
}

/// Builds the node of a schema or of a reference to a registered schema.
///
/// A schema written in place is built under `name`; a referenced one under
/// the name that the reference ends in. An object reached with `is_array`
/// set is tagged as an array. Every node comes out with `required` unset.
/// The first failure met in document order is the one returned: a reference
/// to a name that the registry lacks, a reference that leads back to a
/// schema under construction, or a schema shape that the model does not
/// cover.
pub fn extract_model(
    schema: &SchemaRef,
    component_schemas: &IndexMap<String, SchemaRef>,
    name: &str,
    is_array: bool,
) -> (res: Result<DataStructure, Error>)
    ensures
        outcome(res) == built(
            *schema,
            registered(*component_schemas),
            name@,
            is_array,
            names(registered(*component_schemas)),
        ),
        outcome(res) matches Ok(tree) ==> fresh(tree),
{
    let visiting: Vec<String> = Vec::new();
    proof {
        let entries = registered(*component_schemas);
        assert(unvisited(entries, texts_of(visiting@)) =~= names(entries));
        lemma_lookup_names(entries, name@);
        lemma_built_is_fresh(*schema, entries, name@, is_array, names(entries));
    }
    extract_under(schema, component_schemas, name, is_array, &visiting)
}

/// Builds the node of a schema written in place, as `extract_model` does.
pub fn extract_model_from_schema(
    schema: &Schema,
    component_schemas: &IndexMap<String, SchemaRef>,
    name: &str,
    is_array: bool,
) -> (res: Result<DataStructure, Error>)
    ensures
        outcome(res) == built_item(
            *schema,
            registered(*component_schemas),
            name@,
            is_array,
            names(registered(*component_schemas)),
        ),
        outcome(res) matches Ok(tree) ==> fresh(tree),
{
    let visiting: Vec<String> = Vec::new();
    proof {
        let entries = registered(*component_schemas);
        assert(unvisited(entries, texts_of(visiting@)) =~= names(entries));
        lemma_lookup_names(entries, name@);
        lemma_built_item_is_fresh(*schema, entries, name@, is_array, names(entries));
    }
    extract_from_schema_under(schema, component_schemas, name, is_array, &visiting)
}

} // verus!

use indexmap::IndexMap;
use vstd::prelude::*;

verus! {

/// The format of a string schema.
#[derive(Clone, Copy, Debug, PartialEq, Eq, Structural)]
pub enum StringFormat {
    Date,
    DateTime,
    Password,
    Byte,
    Binary,
}

/// The format of a number schema.
#[derive(Clone, Copy, Debug, PartialEq, Eq, Structural)]
pub enum NumberFormat {
    Float,
    Double,
}

/// The format of an integer schema.
#[derive(Clone, Copy, Debug, PartialEq, Eq, Structural)]
pub enum IntegerFormat {
    Int32,
    Int64,
}

/// A format as a schema declares it: one of the known formats of its type,
/// some other text, or nothing.
#[derive(Debug)]
pub enum FormatSlot<T> {
    Known(T),
    Unknown(String),
    Empty,
}

/// What a string schema declares.
#[derive(Debug)]
pub struct StringSchema {
    pub format: FormatSlot<StringFormat>,
    pub pattern: Option<String>,
    pub min_length: Option<usize>,
    pub max_length: Option<usize>,
}

/// What a number schema declares. Each bound is the decimal text of the
/// declared number.
#[derive(Debug)]
pub struct NumberSchema {
    pub format: FormatSlot<NumberFormat>,
    pub minimum: Option<String>,
    pub maximum: Option<String>,
}

/// What an integer schema declares.
#[derive(Debug)]
pub struct IntegerSchema {
    pub format: FormatSlot<IntegerFormat>,
    pub minimum: Option<i64>,
    pub maximum: Option<i64>,
}

/// One declared property of an object schema.
#[derive(Debug)]
pub struct Property {
    pub name: String,
    pub schema: SchemaRef,
}

/// What an object schema declares: its properties in declaration order and
/// the names of the required ones.
#[derive(Debug)]
pub struct ObjectSchema {
    pub properties: Vec<Property>,
    pub required: Vec<String>,
}

/// What an array schema declares.
#[derive(Debug)]
pub struct ArraySchema {
    pub items: Option<Box<SchemaRef>>,
    pub min_items: Option<usize>,
    pub max_items: Option<usize>,
}

/// The shape of a schema: one of the six types, or a construct that the
/// model does not cover.
#[derive(Debug)]
pub enum SchemaKind {
    String(StringSchema),
    Number(NumberSchema),
    Integer(IntegerSchema),
    Object(ObjectSchema),
    Array(ArraySchema),
    Boolean,
    OneOf,
    AllOf,
    AnyOf,
    Not,
    Any,
}

/// A schema with its description.
#[derive(Debug)]
pub struct Schema {
    pub description: Option<String>,
    pub kind: SchemaKind,
}

/// A schema written in place, or a reference to a named one.
#[derive(Debug)]
pub enum SchemaRef {
    Reference { reference: String },
    Item(Schema),
}

/// `indexmap::IndexMap`, the ordered map that holds the named schemas.
#[verifier::external_type_specification]
#[verifier::external_body]
#[verifier::reject_recursive_types(K)]
#[verifier::reject_recursive_types(V)]
#[verifier::reject_recursive_types(S)]
pub struct ExIndexMap<K, V, S>(IndexMap<K, V, S>);

/// The entries of a registry in insertion order: each named schema with the
/// characters of its name.
pub uninterp spec fn registered(registry: IndexMap<String, SchemaRef>) -> Seq<
    (Seq<char>, SchemaRef),
>;

/// The schema that a list of entries holds under a name: that of the first
/// entry with that name.
pub open spec fn lookup(entries: Seq<(Seq<char>, SchemaRef)>, name: Seq<char>) -> Option<
    SchemaRef,
>
    decreases entries.len(),
{
    if entries.len() == 0 {
        None
    } else if entries[0].0 == name {
        Some(entries[0].1)
    } else {
        lookup(entries.drop_first(), name)
    }
}

/// The names under which a list of entries holds a schema.
pub open spec fn names(entries: Seq<(Seq<char>, SchemaRef)>) -> Set<Seq<char>> {
    entries.map_values(|e: (Seq<char>, SchemaRef)| e.0).to_set()
}

/// `IndexMap::get`: a reference to the value stored for the key, if it is
/// present, else `None`. A map holds each key in one entry only, so the
/// value stored for a key is that of the first entry with that key.
#[verifier::external_body]
pub(crate) fn registry_get<'a>(registry: &'a IndexMap<String, SchemaRef>, name: &str) -> (res:
    Option<&'a SchemaRef>)
    ensures
        res is Some <==> lookup(registered(*registry), name@) is Some,
        res matches Some(found) ==> lookup(registered(*registry), name@) == Some(*found),
{
    registry.get(name)
}

/// A name is among the names of a list of entries exactly if the list holds
/// a schema under it.
pub proof fn lemma_lookup_names(entries: Seq<(Seq<char>, SchemaRef)>, name: Seq<char>)
    ensures
        names(entries).contains(name) <==> lookup(entries, name) is Some,
        names(entries).finite(),
    decreases entries.len(),
{
    let keys = entries.map_values(|e: (Seq<char>, SchemaRef)| e.0);
    vstd::seq_lib::seq_to_set_is_finite(keys);
    if entries.len() == 0 {
    } else {
        let rest = entries.drop_first();
        let rest_keys = rest.map_values(|e: (Seq<char>, SchemaRef)| e.0);
        lemma_lookup_names(rest, name);
        assert(rest_keys =~= keys.drop_first());
        if entries[0].0 == name {
            assert(keys[0] == name);
        } else {
            if names(entries).contains(name) {
                let i = choose|i: int| 0 <= i < keys.len() && keys[i] == name;
                assert(rest_keys[i - 1] == name);
            }
            if names(rest).contains(name) {
                let i = choose|i: int| 0 <= i < rest_keys.len() && rest_keys[i] == name;
                assert(keys[i + 1] == name);
            }
        }
    }
}

} // verus!

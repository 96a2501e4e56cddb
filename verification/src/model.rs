use vstd::prelude::*;
use vstd::std_specs::cmp::PartialEqSpecImpl;
use vstd::std_specs::convert::FromSpecImpl;
use crate::text::{copy_text, copy_texts, same_text, same_texts, text_of, texts_of};

verus! {

/// The closed set of node kinds a data structure can have.
#[derive(Clone, Copy, Debug, PartialEq, Eq, Structural)]
pub enum PropertyType {
    String,
    Number,
    Integer,
    Boolean,
    Object,
    Array,
}

/// The name of a node kind, as a type table is keyed by it.
pub open spec fn kind_name(t: PropertyType) -> Seq<char> {
    match t {
        PropertyType::String => "String"@,
        PropertyType::Number => "Number"@,
        PropertyType::Integer => "Integer"@,
        PropertyType::Boolean => "Boolean"@,
        PropertyType::Object => "Object"@,
        PropertyType::Array => "Array"@,
    }
}

impl PropertyType {
    /// Gives the name of the kind.
    pub fn name(&self) -> (res: String)
        ensures
            res@ == kind_name(*self),
    {
        match self {
            PropertyType::String => "String".to_owned(),
            PropertyType::Number => "Number".to_owned(),
            PropertyType::Integer => "Integer".to_owned(),
            PropertyType::Boolean => "Boolean".to_owned(),
            PropertyType::Object => "Object".to_owned(),
            PropertyType::Array => "Array".to_owned(),
        }
    }
}

/// A numeric bound declared on a node. A floating-point bound is held as the
/// decimal text it is written with, so that the bound can be compared and
/// printed without any floating-point arithmetic.
#[derive(Debug)]
pub enum Int64FloatOrUsize {
    Int(i64),
    UInt(usize),
    Float(String),
}

/// The mathematical value of a bound.
pub enum BoundView {
    Int(i64),
    UInt(usize),
    Float(Seq<char>),
}

impl View for Int64FloatOrUsize {
    type V = BoundView;

    open spec fn view(&self) -> BoundView {
        match self {
            Int64FloatOrUsize::Int(i) => BoundView::Int(*i),
            Int64FloatOrUsize::UInt(u) => BoundView::UInt(*u),
            Int64FloatOrUsize::Float(t) => BoundView::Float(t@),
        }
    }
}

/// One node of the intermediate model: a property of an object, the item of
/// an array, or the root of a request or response body.
#[derive(Debug)]
pub struct DataStructure {
    pub name: String,
    pub description: Option<String>,
    pub format: Option<String>,
    pub required: bool,
    pub properties: Vec<DataStructure>,
    pub required_properties: Vec<String>,
    pub property_type: PropertyType,
    pub object_name: Option<String>,
    pub is_root: bool,
    pub pattern: Option<String>,
    pub min: Option<Int64FloatOrUsize>,
    pub max: Option<Int64FloatOrUsize>,
    pub min_length: Option<usize>,
    pub max_length: Option<usize>,
}

/// The mathematical value of a node: the same fields, with every string as
/// its sequence of characters and every list as a sequence.
pub struct Node {
    pub name: Seq<char>,
    pub description: Option<Seq<char>>,
    pub format: Option<Seq<char>>,
    pub required: bool,
    pub properties: Seq<Node>,
    pub required_properties: Seq<Seq<char>>,
    pub property_type: PropertyType,
    pub object_name: Option<Seq<char>>,
    pub is_root: bool,
    pub pattern: Option<Seq<char>>,
    pub min: Option<BoundView>,
    pub max: Option<BoundView>,
    pub min_length: Option<usize>,
    pub max_length: Option<usize>,
}

/// The value of an optional bound.
pub open spec fn bound_of(b: Option<Int64FloatOrUsize>) -> Option<BoundView> {
    match b {
        Some(v) => Some(v@),
        None => None,
    }
}

/// The value of a node, child by child.
pub open spec fn node_of(d: DataStructure) -> Node
    decreases d,
{
    Node {
        name: d.name@,
        description: text_of(d.description),
        format: text_of(d.format),
        required: d.required,
        properties: Seq::new(
            d.properties@.len(),
            |i: int|
                if 0 <= i < d.properties@.len() {
                    node_of(d.properties@[i])
                } else {
                    arbitrary()
                },
        ),
        required_properties: texts_of(d.required_properties@),
        property_type: d.property_type,
        object_name: text_of(d.object_name),
        is_root: d.is_root,
        pattern: text_of(d.pattern),
        min: bound_of(d.min),
        max: bound_of(d.max),
        min_length: d.min_length,
        max_length: d.max_length,
    }
}

impl View for DataStructure {
    type V = Node;

    open spec fn view(&self) -> Node {
        node_of(*self)
    }
}

impl Clone for Int64FloatOrUsize {
    fn clone(&self) -> (res: Self)
        ensures
            res@ == self@,
    {
        match self {
            Int64FloatOrUsize::Int(i) => Int64FloatOrUsize::Int(*i),
            Int64FloatOrUsize::UInt(u) => Int64FloatOrUsize::UInt(*u),
            Int64FloatOrUsize::Float(t) => Int64FloatOrUsize::Float(t.clone()),
        }
    }
}

impl PartialEq for Int64FloatOrUsize {
    fn eq(&self, other: &Self) -> (res: bool) {
        match (self, other) {
            (Int64FloatOrUsize::Int(a), Int64FloatOrUsize::Int(b)) => *a == *b,
            (Int64FloatOrUsize::UInt(a), Int64FloatOrUsize::UInt(b)) => *a == *b,
            (Int64FloatOrUsize::Float(a), Int64FloatOrUsize::Float(b)) => *a == *b,
            _ => false,
        }
    }
}

impl PartialEqSpecImpl for Int64FloatOrUsize {
    open spec fn obeys_eq_spec() -> bool {
        true
    }

    open spec fn eq_spec(&self, other: &Self) -> bool {
        self@ == other@
    }
}

impl Eq for Int64FloatOrUsize {

}

impl Default for Int64FloatOrUsize {
    fn default() -> (res: Self)
        ensures
            res@ == BoundView::UInt(0),
    {
        Int64FloatOrUsize::UInt(0)
    }
}

impl From<usize> for Int64FloatOrUsize {
    fn from(value: usize) -> (res: Self) {
        Int64FloatOrUsize::UInt(value)
    }
}

impl FromSpecImpl<usize> for Int64FloatOrUsize {
    open spec fn obeys_from_spec() -> bool {
        true
    }

    open spec fn from_spec(value: usize) -> Self {
        Int64FloatOrUsize::UInt(value)
    }
}

impl From<i64> for Int64FloatOrUsize {
    fn from(value: i64) -> (res: Self) {
        Int64FloatOrUsize::Int(value)
    }
}

impl FromSpecImpl<i64> for Int64FloatOrUsize {
    open spec fn obeys_from_spec() -> bool {
        true
    }

    open spec fn from_spec(value: i64) -> Self {
        Int64FloatOrUsize::Int(value)
    }
}

/// Copies an optional bound.
pub fn copy_bound(b: &Option<Int64FloatOrUsize>) -> (res: Option<Int64FloatOrUsize>)
    ensures
        bound_of(res) == bound_of(*b),
{
    match b {
        Some(v) => Some(v.clone()),
        None => None,
    }
}

/// Tells whether two optional bounds have the same value.
pub fn same_bound(a: &Option<Int64FloatOrUsize>, b: &Option<Int64FloatOrUsize>) -> (res: bool)
    ensures
        res == (bound_of(*a) == bound_of(*b)),
{
    match (a, b) {
        (Some(x), Some(y)) => *x == *y,
        (None, None) => true,
        _ => false,
    }
}

/// A node of the given name, description and type with nothing else set.
pub open spec fn blank(name: Seq<char>, description: Option<Seq<char>>, property_type: PropertyType) -> Node {
    Node {
        name,
        description,
        format: None,
        required: false,
        properties: Seq::empty(),
        required_properties: Seq::empty(),
        property_type,
        object_name: None,
        is_root: false,
        pattern: None,
        min: None,
        max: None,
        min_length: None,
        max_length: None,
    }
}


/// The values of a list of nodes.
pub open spec fn nodes_of(list: Seq<DataStructure>) -> Seq<Node> {
    list.map_values(|d: DataStructure| d@)
}

impl DataStructure {
    /// Makes a node of the given name, description and type with nothing
    /// else set.
    pub fn new(name: String, description: Option<String>, property_type: PropertyType) -> (res:
        Self)
        ensures
            res@ == blank(name@, text_of(description), property_type),
    {
        let res = DataStructure {
            name,
            description,
            format: None,
            required: false,
            properties: Vec::new(),
            required_properties: Vec::new(),
            property_type,
            object_name: None,
            is_root: false,
            pattern: None,
            min: None,
            max: None,
            min_length: None,
            max_length: None,
        };
        assert(res@.properties =~= Seq::<Node>::empty());
        assert(res@.required_properties =~= Seq::<Seq<char>>::empty());
        res
    }

    /// The value of a node lists the values of its children in order.
    pub proof fn lemma_view_children(&self)
        ensures
            self@.properties == nodes_of(self.properties@),
    {
        assert(self@.properties =~= nodes_of(self.properties@));
    }
}

impl Clone for DataStructure {
    fn clone(&self) -> (res: Self)
        ensures
            res@ == self@,
        decreases self,
    {
        let mut children: Vec<DataStructure> = Vec::new();
        let mut i: usize = 0;
        while i < self.properties.len()
            invariant
                i <= self.properties.len(),
                children.len() == i,
                forall|j: int| 0 <= j < i ==> children@[j]@ == self.properties@[j]@,
            decreases self.properties.len() - i,
        {
            let child = self.properties[i].clone();
            children.push(child);
            i += 1;
        }
        let res = DataStructure {
            name: self.name.clone(),
            description: copy_text(&self.description),
            format: copy_text(&self.format),
            required: self.required,
            properties: children,
            required_properties: copy_texts(&self.required_properties),
            property_type: self.property_type,
            object_name: copy_text(&self.object_name),
            is_root: self.is_root,
            pattern: copy_text(&self.pattern),
            min: copy_bound(&self.min),
            max: copy_bound(&self.max),
            min_length: self.min_length,
            max_length: self.max_length,
        };
        assert(res@.properties =~= self@.properties);
        res
    }
}

impl PartialEq for DataStructure {
    fn eq(&self, other: &Self) -> (res: bool)
        decreases self,
    {
        if !(self.name == other.name && same_text(&self.description, &other.description)
            && same_text(&self.format, &other.format) && self.required == other.required
            && same_texts(&self.required_properties, &other.required_properties)
            && self.property_type == other.property_type && same_text(
            &self.object_name,
            &other.object_name,
        ) && self.is_root == other.is_root && same_text(&self.pattern, &other.pattern)
            && same_bound(&self.min, &other.min) && same_bound(&self.max, &other.max)
            && self.min_length == other.min_length && self.max_length == other.max_length) {
            return false;
        }
        if self.properties.len() != other.properties.len() {
            assert(self@.properties.len() != other@.properties.len());
            return false;
        }
        let mut i: usize = 0;
        while i < self.properties.len()
            invariant
                i <= self.properties.len(),
                self.properties.len() == other.properties.len(),
                forall|j: int| 0 <= j < i ==> self.properties@[j]@ == other.properties@[j]@,
            decreases self.properties.len() - i,
        {
            if !self.properties[i].eq(&other.properties[i]) {
                assert(self@.properties[i as int] != other@.properties[i as int]);
                return false;
            }
            i += 1;
        }
        assert(self@.properties =~= other@.properties);
        true
    }
}

impl PartialEqSpecImpl for DataStructure {
    open spec fn obeys_eq_spec() -> bool {
        true
    }

    open spec fn eq_spec(&self, other: &Self) -> bool {
        self@ == other@
    }
}

impl Eq for DataStructure {

}

} // verus!

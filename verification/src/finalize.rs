use vstd::prelude::*;
use crate::model::{kind_name, DataStructure, Node, PropertyType};
use crate::text::{contains_text, texts_of};

verus! {

/// The object name that an array takes: that of its item, or the kind of its
/// item where the item has none; the kind of the array itself where it has
/// no item.
pub open spec fn array_object_name(node: Node) -> Seq<char> {
    if node.properties.len() > 0 {
        match node.properties[0].object_name {
            Some(n) => n,
            None => kind_name(node.properties[0].property_type),
        }
    } else {
        kind_name(node.property_type)
    }
}

/// A tree after the pass over it, with `required` as the flag of its root:
/// every array has taken its object name from its item as the item stood
/// before the pass reached it, and every child is flagged as required
/// exactly if its parent lists its name as required.
pub open spec fn processed_as(node: Node, required: bool) -> Node
    decreases node,
{
    Node {
        required,
        object_name: if node.property_type == PropertyType::Array {
            Some(array_object_name(node))
        } else {
            node.object_name
        },
        properties: Seq::new(
            node.properties.len(),
            |i: int|
                if 0 <= i < node.properties.len() {
                    processed_as(
                        node.properties[i],
                        node.required_properties.contains(node.properties[i].name),
                    )
                } else {
                    arbitrary()
                },
        ),
        ..node
    }
}

/// Whether every child in a tree is flagged as required exactly if its
/// parent lists its name as required.
pub open spec fn flags_agree(node: Node) -> bool
    decreases node,
{
    forall|i: int|
        0 <= i < node.properties.len() ==> {
            &&& (#[trigger] node.properties[i]).required == node.required_properties.contains(
                node.properties[i].name,
            )
            &&& flags_agree(node.properties[i])
        }
}

/// After the pass every child is flagged as required exactly if its parent
/// lists its name as required, whatever the flags were before.
pub proof fn lemma_processed_flags_agree(node: Node, required: bool)
    ensures
        flags_agree(processed_as(node, required)),
    decreases node,
{
    let after = processed_as(node, required);
    assert forall|i: int| 0 <= i < after.properties.len() implies {
        &&& (#[trigger] after.properties[i]).required == after.required_properties.contains(
            after.properties[i].name,
        )
        &&& flags_agree(after.properties[i])
    } by {
        lemma_processed_flags_agree(
            node.properties[i],
            node.required_properties.contains(node.properties[i].name),
        );
    }
}

/// Whether no node of a tree is marked as a root.
pub open spec fn unmarked(node: Node) -> bool
    decreases node,
{
    !node.is_root && forall|i: int|
        0 <= i < node.properties.len() ==> unmarked(#[trigger] node.properties[i])
}

/// The pass marks no node as a root.
pub proof fn lemma_processed_stays_unmarked(node: Node, required: bool)
    requires
        unmarked(node),
    ensures
        unmarked(processed_as(node, required)),
    decreases node,
{
    let after = processed_as(node, required);
    assert forall|i: int| 0 <= i < after.properties.len() implies unmarked(
        #[trigger] after.properties[i],
    ) by {
        assert(unmarked(node.properties[i]));
        lemma_processed_stays_unmarked(
            node.properties[i],
            node.required_properties.contains(node.properties[i].name),
        );
    }
}

/// A tree after the pass over it. The flag of the root stays as it was.
pub open spec fn processed(root: Node) -> Node {
    processed_as(root, root.required)
}

impl DataStructure {
    fn process_as(&mut self, required: bool)
        ensures
            final(self)@ == processed_as(old(self)@, required),
        decreases *old(self),
    {
        self.required = required;
        if self.property_type == PropertyType::Array {
            if self.properties.len() > 0 {
                self.object_name = match &self.properties[0].object_name {
                    Some(n) => Some(n.clone()),
                    None => Some(self.properties[0].property_type.name()),
                };
            } else {
                self.object_name = Some(self.property_type.name());
            }
        }
        let n = self.properties.len();
        let ghost mid = *self;
        let mut i: usize = 0;
        while i < n
            invariant
                i <= n,
                n == self.properties.len(),
                n == mid.properties.len(),
                mid.properties == old(self).properties,
                mid.required_properties == old(self).required_properties,
                *self == (DataStructure { properties: self.properties, ..mid }),
                forall|j: int| i <= j < n ==> self.properties@[j] == mid.properties@[j],
                forall|j: int|
                    0 <= j < i ==> (#[trigger] self.properties@[j])@ == processed_as(
                        mid.properties@[j]@,
                        texts_of(mid.required_properties@).contains(mid.properties@[j].name@),
                    ),
            decreases n - i,
        {
            let flag = contains_text(&self.required_properties, &self.properties[i].name);
            let ghost before = self.properties@;
            let child = &mut self.properties[i];
            assert(*child == old(self).properties@[i as int]);
            assert(decreases_to!(old(self).properties => old(self).properties[i as int]));
            assert(decreases_to!(*old(self) => old(self).properties));
            child.process_as(flag);
            assert(self.properties@ == before.update(i as int, self.properties@[i as int]));
            i += 1;
        }
        proof {
            let before = old(self)@;
            let after = self@;
            old(self).lemma_view_children();
            self.lemma_view_children();
            mid.lemma_view_children();
            assert(after.properties =~= processed_as(before, required).properties);
        }
    }

    /// Runs the pass that ends the building of a tree, once, from its root
    /// down: every array takes its object name from its item, and every
    /// child is flagged as required exactly if its parent lists its name as
    /// required. The flag of the root itself stays as it was.
    pub fn process_data(&mut self)
        ensures
            final(self)@ == processed(old(self)@),
            flags_agree(final(self)@),
    {
        let required = self.required;
        proof {
            lemma_processed_flags_agree(self@, required);
        }
        self.process_as(required);
    }
}

} // verus!

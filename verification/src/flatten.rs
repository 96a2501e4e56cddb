use vstd::prelude::*;
use crate::model::{nodes_of, DataStructure, Node, PropertyType};

verus! {

/// Whether a node is an object or an array: the kinds that are models of
/// their own.
pub open spec fn is_model(node: Node) -> bool {
    node.property_type == PropertyType::Object || node.property_type == PropertyType::Array
}

/// The list that the walk over a tree leaves, started with `acc`: a scalar
/// adds nothing; an object or array that `acc` already holds adds nothing;
/// any other object or array is appended, and then its children are walked
/// in their order.
pub open spec fn flattened_into(node: Node, acc: Seq<Node>) -> Seq<Node>
    decreases node,
{
    if !is_model(node) || acc.contains(node) {
        acc
    } else {
        flattened_children(node.properties, acc.push(node))
    }
}

/// The list that the walk over some trees, one after the other, leaves.
pub open spec fn flattened_children(children: Seq<Node>, acc: Seq<Node>) -> Seq<Node>
    decreases children,
{
    if children.len() == 0 {
        acc
    } else {
        flattened_into(children.last(), flattened_children(children.drop_last(), acc))
    }
}

/// The models of a tree: every object and array in it, in the order in which
/// a walk from the root down meets them, each once.
pub open spec fn flattened(root: Node) -> Seq<Node> {
    flattened_into(root, Seq::empty())
}

/// A walk keeps what the list held before it, in place, and adds no node
/// twice.
pub proof fn lemma_walk_extends(node: Node, acc: Seq<Node>)
    ensures
        acc.len() <= flattened_into(node, acc).len(),
        flattened_into(node, acc).take(acc.len() as int) == acc,
        acc.no_duplicates() ==> flattened_into(node, acc).no_duplicates(),
    decreases node,
{
    if !is_model(node) || acc.contains(node) {
        assert(acc.take(acc.len() as int) =~= acc);
    } else {
        let begun = acc.push(node);
        lemma_walk_children_extends(node.properties, begun);
        let out = flattened_children(node.properties, begun);
        assert(out.take(acc.len() as int) =~= out.take(begun.len() as int).take(acc.len() as int));
        assert(begun.take(acc.len() as int) =~= acc);
        if acc.no_duplicates() {
            assert(begun.no_duplicates()) by {
                assert forall|i: int, j: int|
                    0 <= i < begun.len() && 0 <= j < begun.len() && i != j implies begun[i]
                    != begun[j] by {
                    if i == acc.len() {
                        assert(acc[j] == begun[j]);
                    } else if j == acc.len() {
                        assert(acc[i] == begun[i]);
                    }
                }
            }
        }
    }
}

/// A walk over several trees keeps what the list held before it, in place,
/// and adds no node twice.
pub proof fn lemma_walk_children_extends(children: Seq<Node>, acc: Seq<Node>)
    ensures
        acc.len() <= flattened_children(children, acc).len(),
        flattened_children(children, acc).take(acc.len() as int) == acc,
        acc.no_duplicates() ==> flattened_children(children, acc).no_duplicates(),
    decreases children,
{
    if children.len() == 0 {
        assert(acc.take(acc.len() as int) =~= acc);
    } else {
        let front = flattened_children(children.drop_last(), acc);
        lemma_walk_children_extends(children.drop_last(), acc);
        lemma_walk_extends(children.last(), front);
        let out = flattened_into(children.last(), front);
        assert(out.take(acc.len() as int) =~= out.take(front.len() as int).take(acc.len() as int));
    }
}

/// Whether every entry of a list is an object or an array.
pub open spec fn all_models(list: Seq<Node>) -> bool {
    forall|i: int| 0 <= i < list.len() ==> is_model(#[trigger] list[i])
}

/// A walk adds objects and arrays only.
pub proof fn lemma_walk_adds_models(node: Node, acc: Seq<Node>)
    requires
        all_models(acc),
    ensures
        all_models(flattened_into(node, acc)),
    decreases node,
{
    if is_model(node) && !acc.contains(node) {
        lemma_walk_children_add_models(node.properties, acc.push(node));
    }
}

/// A walk over several trees adds objects and arrays only.
pub proof fn lemma_walk_children_add_models(children: Seq<Node>, acc: Seq<Node>)
    requires
        all_models(acc),
    ensures
        all_models(flattened_children(children, acc)),
    decreases children,
{
    if children.len() > 0 {
        lemma_walk_children_add_models(children.drop_last(), acc);
        lemma_walk_adds_models(children.last(), flattened_children(children.drop_last(), acc));
    }
}

/// The list of the models of a tree starts with the root, where the root is
/// an object or an array.
pub proof fn lemma_flatten_root_first(root: Node)
    requires
        is_model(root),
    ensures
        flattened(root).len() > 0,
        flattened(root)[0] == root,
{
    let begun = Seq::<Node>::empty().push(root);
    lemma_walk_children_extends(root.properties, begun);
    let out = flattened_children(root.properties, begun);
    assert(out.take(1)[0] == begun[0]);
}

/// No two entries of the list of the models of a tree are equal.
pub proof fn lemma_flatten_no_duplicates(root: Node)
    ensures
        flattened(root).no_duplicates(),
{
    lemma_walk_extends(root, Seq::empty());
}

/// Tells whether a list holds a node equal to the given one.
pub fn contains_node(list: &Vec<DataStructure>, node: &DataStructure) -> (res: bool)
    ensures
        res == nodes_of(list@).contains(node@),
{
    let mut i: usize = 0;
    while i < list.len()
        invariant
            i <= list.len(),
            forall|j: int| 0 <= j < i ==> list@[j]@ != node@,
        decreases list.len() - i,
    {
        if list[i] == *node {
            assert(nodes_of(list@)[i as int] == node@);
            return true;
        }
        i += 1;
    }
    assert(forall|j: int| 0 <= j < nodes_of(list@).len() ==> nodes_of(list@)[j] != node@);
    false
}

/// Walks a tree and appends to `responses` every object and array of it that
/// the list does not hold yet.
pub fn flatten_responses(response: &DataStructure, responses: &mut Vec<DataStructure>)
    ensures
        nodes_of(final(responses)@) == flattened_into(response@, nodes_of(old(responses)@)),
    decreases *response,
{
    let composite = match response.property_type {
        PropertyType::Object => true,
        PropertyType::Array => true,
        _ => false,
    };
    if !composite || contains_node(responses, response) {
        return ;
    }
    let ghost start = nodes_of(responses@);
    responses.push(response.clone());
    proof {
        response.lemma_view_children();
        assert(nodes_of(responses@) =~= start.push(response@));
        assert(response@.properties.take(0) =~= Seq::<Node>::empty());
    }
    let ghost begun = nodes_of(responses@);
    let mut i: usize = 0;
    while i < response.properties.len()
        invariant
            i <= response.properties.len(),
            response@.properties == nodes_of(response.properties@),
            nodes_of(responses@) == flattened_children(response@.properties.take(i as int), begun),
        decreases response.properties.len() - i,
    {
        proof {
            let upto = response@.properties.take(i + 1);
            assert(upto.drop_last() =~= response@.properties.take(i as int));
            assert(upto.last() == response.properties@[i as int]@);
        }
        flatten_responses(&response.properties[i], responses);
        i += 1;
    }
    proof {
        assert(response@.properties.take(i as int) =~= response@.properties);
    }
}

/// Lists the models of a tree: every object and array in it, in the order in
/// which a walk from the root down meets them, each once.
pub fn flatten(root: &DataStructure) -> (res: Vec<DataStructure>)
    ensures
        nodes_of(res@) == flattened(root@),
        is_model(root@) ==> res.len() > 0 && res@[0]@ == root@,
        nodes_of(res@).no_duplicates(),
        all_models(nodes_of(res@)),
{
    proof {
        lemma_flatten_no_duplicates(root@);
        lemma_walk_adds_models(root@, Seq::empty());
        if is_model(root@) {
            lemma_flatten_root_first(root@);
        }
    }
    let mut out: Vec<DataStructure> = Vec::new();
    assert(nodes_of(out@) =~= Seq::<Node>::empty());
    flatten_responses(root, &mut out);
    out
}

} // verus!

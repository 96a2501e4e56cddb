use vstd::prelude::*;
use crate::document::{EndpointExtracted, TemplateData};
use crate::flatten::{contains_node, flatten, flattened};
use crate::model::{nodes_of, DataStructure, Node};

verus! {

/// A list with those of some items appended that it does not hold yet, each
/// once, in their order.
pub open spec fn merged(acc: Seq<Node>, items: Seq<Node>) -> Seq<Node>
    decreases items.len(),
{
    if items.len() == 0 {
        acc
    } else {
        let front = merged(acc, items.drop_last());
        if front.contains(items.last()) {
            front
        } else {
            front.push(items.last())
        }
    }
}

/// A list with some lists of items merged into it, one after the other.
pub open spec fn merged_all(acc: Seq<Node>, lists: Seq<Seq<Node>>) -> Seq<Node>
    decreases lists.len(),
{
    if lists.len() == 0 {
        acc
    } else {
        merged(merged_all(acc, lists.drop_last()), lists.last())
    }
}

/// The models of the responses of some endpoints, endpoint by endpoint.
pub open spec fn response_lists(endpoints: Seq<EndpointExtracted>) -> Seq<Seq<Node>> {
    endpoints.map_values(|e: EndpointExtracted| nodes_of(e.flat_response@))
}

/// The models of the requests of some endpoints, endpoint by endpoint.
pub open spec fn request_lists(endpoints: Seq<EndpointExtracted>) -> Seq<Seq<Node>> {
    endpoints.map_values(|e: EndpointExtracted| nodes_of(e.flat_request@))
}

/// A list with the models of the responses of some endpoints merged into it,
/// endpoint by endpoint.
pub open spec fn combined_responses(acc: Seq<Node>, endpoints: Seq<EndpointExtracted>) -> Seq<Node> {
    merged_all(acc, response_lists(endpoints))
}

/// A list with the models of the requests of some endpoints merged into it,
/// endpoint by endpoint.
pub open spec fn combined_requests(acc: Seq<Node>, endpoints: Seq<EndpointExtracted>) -> Seq<Node> {
    merged_all(acc, request_lists(endpoints))
}

/// A merge keeps the list it starts from, in place; the outcome holds every
/// item merged; and it repeats no entry where the list repeated none.
pub proof fn lemma_merged_holds(acc: Seq<Node>, items: Seq<Node>)
    ensures
        acc.len() <= merged(acc, items).len(),
        merged(acc, items).take(acc.len() as int) == acc,
        forall|x: Node| acc.contains(x) ==> #[trigger] merged(acc, items).contains(x),
        forall|i: int| 0 <= i < items.len() ==> merged(acc, items).contains(#[trigger] items[i]),
        acc.no_duplicates() ==> merged(acc, items).no_duplicates(),
    decreases items.len(),
{
    let out = merged(acc, items);
    if items.len() == 0 {
        assert(acc.take(acc.len() as int) =~= acc);
    } else {
        let rest = items.drop_last();
        let front = merged(acc, rest);
        lemma_merged_holds(acc, rest);
        assert(out.take(acc.len() as int) =~= front.take(acc.len() as int));
        assert forall|x: Node| front.contains(x) implies out.contains(x) by {
            let k = choose|k: int| 0 <= k < front.len() && front[k] == x;
            assert(out[k] == x);
        }
        assert forall|i: int| 0 <= i < items.len() implies out.contains(#[trigger] items[i]) by {
            if i < rest.len() {
                assert(rest[i] == items[i]);
                assert(front.contains(rest[i]));
            } else {
                if !front.contains(items.last()) {
                    assert(out[front.len() as int] == items.last());
                }
            }
        }
    }
}

/// Merging items that the list already holds changes nothing.
pub proof fn lemma_merged_absorbs(acc: Seq<Node>, items: Seq<Node>)
    requires
        forall|i: int| 0 <= i < items.len() ==> acc.contains(#[trigger] items[i]),
    ensures
        merged(acc, items) == acc,
    decreases items.len(),
{
    if items.len() > 0 {
        let rest = items.drop_last();
        assert forall|i: int| 0 <= i < rest.len() implies acc.contains(#[trigger] rest[i]) by {
            assert(rest[i] == items[i]);
        }
        lemma_merged_absorbs(acc, rest);
        assert(acc.contains(items[items.len() - 1]));
    }
}

/// Merging a list into itself gives the list.
pub proof fn lemma_merge_idempotent(list: Seq<Node>)
    ensures
        merged(list, list) == list,
{
    assert forall|i: int| 0 <= i < list.len() implies list.contains(#[trigger] list[i]) by {}
    lemma_merged_absorbs(list, list);
}

/// What several merges leave holds what the list held before and every item
/// of every list merged, and repeats no entry where the list repeated none.
pub proof fn lemma_merged_all_holds(acc: Seq<Node>, lists: Seq<Seq<Node>>)
    ensures
        forall|x: Node| acc.contains(x) ==> #[trigger] merged_all(acc, lists).contains(x),
        forall|k: int, i: int|
            0 <= k < lists.len() && 0 <= i < lists[k].len() ==> merged_all(acc, lists).contains(
                #[trigger] lists[k][i],
            ),
        acc.no_duplicates() ==> merged_all(acc, lists).no_duplicates(),
    decreases lists.len(),
{
    if lists.len() > 0 {
        let rest = lists.drop_last();
        let front = merged_all(acc, rest);
        lemma_merged_all_holds(acc, rest);
        lemma_merged_holds(front, lists.last());
        let out = merged_all(acc, lists);
        assert forall|k: int, i: int|
            0 <= k < lists.len() && 0 <= i < lists[k].len() implies out.contains(
            #[trigger] lists[k][i],
        ) by {
            if k < rest.len() {
                assert(rest[k] == lists[k]);
                assert(front.contains(rest[k][i]));
            } else {
                assert(out.contains(lists.last()[i]));
            }
        }
    }
}

/// Merging lists whose items a list already holds changes nothing.
pub proof fn lemma_merged_all_absorbs(list: Seq<Node>, lists: Seq<Seq<Node>>)
    requires
        forall|k: int, i: int|
            0 <= k < lists.len() && 0 <= i < lists[k].len() ==> list.contains(
                #[trigger] lists[k][i],
            ),
    ensures
        merged_all(list, lists) == list,
    decreases lists.len(),
{
    if lists.len() > 0 {
        let rest = lists.drop_last();
        assert forall|k: int, i: int|
            0 <= k < rest.len() && 0 <= i < rest[k].len() implies list.contains(
            #[trigger] rest[k][i],
        ) by {
            assert(rest[k] == lists[k]);
            assert(list.contains(lists[k][i]));
        }
        lemma_merged_all_absorbs(list, rest);
        let last = lists.last();
        assert forall|i: int| 0 <= i < last.len() implies list.contains(#[trigger] last[i]) by {
            assert(list.contains(lists[lists.len() - 1][i]));
        }
        lemma_merged_absorbs(list, last);
    }
}

/// Merging the same lists a second time changes nothing.
pub proof fn lemma_merge_all_idempotent(acc: Seq<Node>, lists: Seq<Seq<Node>>)
    ensures
        merged_all(merged_all(acc, lists), lists) == merged_all(acc, lists),
{
    lemma_merged_all_holds(acc, lists);
    lemma_merged_all_absorbs(merged_all(acc, lists), lists);
}

/// Combining the responses a second time changes nothing, and the combined
/// list repeats no model where the list repeated none before.
pub proof fn lemma_combine_responses_idempotent(acc: Seq<Node>, endpoints: Seq<EndpointExtracted>)
    ensures
        combined_responses(combined_responses(acc, endpoints), endpoints) == combined_responses(
            acc,
            endpoints,
        ),
        acc.no_duplicates() ==> combined_responses(acc, endpoints).no_duplicates(),
{
    lemma_merge_all_idempotent(acc, response_lists(endpoints));
    lemma_merged_all_holds(acc, response_lists(endpoints));
}

/// Combining the requests a second time changes nothing, and the combined
/// list repeats no model where the list repeated none before.
pub proof fn lemma_combine_requests_idempotent(acc: Seq<Node>, endpoints: Seq<EndpointExtracted>)
    ensures
        combined_requests(combined_requests(acc, endpoints), endpoints) == combined_requests(
            acc,
            endpoints,
        ),
        acc.no_duplicates() ==> combined_requests(acc, endpoints).no_duplicates(),
{
    lemma_merge_all_idempotent(acc, request_lists(endpoints));
    lemma_merged_all_holds(acc, request_lists(endpoints));
}

/// Appends to a list those of some items that it does not hold yet.
pub fn merge_into(list: &mut Vec<DataStructure>, items: &Vec<DataStructure>)
    ensures
        nodes_of(final(list)@) == merged(nodes_of(old(list)@), nodes_of(items@)),
{
    let mut j: usize = 0;
    proof {
        assert(nodes_of(items@).take(0) =~= Seq::<Node>::empty());
    }
    while j < items.len()
        invariant
            j <= items.len(),
            nodes_of(list@) == merged(nodes_of(old(list)@), nodes_of(items@).take(j as int)),
        decreases items.len() - j,
    {
        proof {
            let upto = nodes_of(items@).take(j + 1);
            assert(upto.drop_last() =~= nodes_of(items@).take(j as int));
            assert(upto.last() == items@[j as int]@);
        }
        if !contains_node(list, &items[j]) {
            let ghost before = nodes_of(list@);
            list.push(items[j].clone());
            proof {
                assert(nodes_of(list@) =~= before.push(items@[j as int]@));
            }
        }
        j += 1;
    }
    proof {
        assert(nodes_of(items@).take(j as int) =~= nodes_of(items@));
    }
}

impl EndpointExtracted {
    /// Lists the models of the response, where the endpoint has one.
    pub fn flatten_responses(&mut self)
        ensures
            *final(self) == (EndpointExtracted {
                flat_response: final(self).flat_response,
                ..*old(self)
            }),
            match old(self).response {
                Some(response) => nodes_of(final(self).flat_response@) == flattened(response@),
                None => final(self).flat_response == old(self).flat_response,
            },
    {
        if let Some(response) = &self.response {
            let responses = flatten(response);
            self.flat_response = responses;
        }
    }

    /// Lists the models of the request, where the endpoint has one.
    pub fn flatten_requests(&mut self)
        ensures
            *final(self) == (EndpointExtracted {
                flat_request: final(self).flat_request,
                ..*old(self)
            }),
            match old(self).request {
                Some(request) => nodes_of(final(self).flat_request@) == flattened(request@),
                None => final(self).flat_request == old(self).flat_request,
            },
    {
        if let Some(request) = &self.request {
            let requests = flatten(request);
            self.flat_request = requests;
        }
    }
}

impl TemplateData {
    /// Merges the models of the responses of all endpoints into the list of
    /// responses: each model that the list does not hold yet is appended, in
    /// the order in which the endpoints list them.
    pub fn combine_responses(&mut self)
        ensures
            final(self).endpoints == old(self).endpoints,
            final(self).requests == old(self).requests,
            nodes_of(final(self).responses@) == combined_responses(
                nodes_of(old(self).responses@),
                old(self).endpoints@,
            ),
    {
        let ghost lists = response_lists(self.endpoints@);
        let mut i: usize = 0;
        proof {
            assert(lists.take(0) =~= Seq::<Seq<Node>>::empty());
        }
        while i < self.endpoints.len()
            invariant
                i <= self.endpoints.len(),
                self.endpoints == old(self).endpoints,
                self.requests == old(self).requests,
                lists == response_lists(self.endpoints@),
                nodes_of(self.responses@) == merged_all(
                    nodes_of(old(self).responses@),
                    lists.take(i as int),
                ),
            decreases self.endpoints.len() - i,
        {
            proof {
                let upto = lists.take(i + 1);
                assert(upto.drop_last() =~= lists.take(i as int));
                assert(upto.last() == nodes_of(self.endpoints@[i as int].flat_response@));
            }
            merge_into(&mut self.responses, &self.endpoints[i].flat_response);
            i += 1;
        }
        proof {
            assert(lists.take(i as int) =~= lists);
        }
    }

    /// Merges the models of the requests of all endpoints into the list of
    /// requests: each model that the list does not hold yet is appended, in
    /// the order in which the endpoints list them.
    pub fn combine_requests(&mut self)
        ensures
            final(self).endpoints == old(self).endpoints,
            final(self).responses == old(self).responses,
            nodes_of(final(self).requests@) == combined_requests(
                nodes_of(old(self).requests@),
                old(self).endpoints@,
            ),
    {
        let ghost lists = request_lists(self.endpoints@);
        let mut i: usize = 0;
        proof {
            assert(lists.take(0) =~= Seq::<Seq<Node>>::empty());
        }
        while i < self.endpoints.len()
            invariant
                i <= self.endpoints.len(),
                self.endpoints == old(self).endpoints,
                self.responses == old(self).responses,
                lists == request_lists(self.endpoints@),
                nodes_of(self.requests@) == merged_all(
                    nodes_of(old(self).requests@),
                    lists.take(i as int),
                ),
            decreases self.endpoints.len() - i,
        {
            proof {
                let upto = lists.take(i + 1);
                assert(upto.drop_last() =~= lists.take(i as int));
                assert(upto.last() == nodes_of(self.endpoints@[i as int].flat_request@));
            }
            merge_into(&mut self.requests, &self.endpoints[i].flat_request);
            i += 1;
        }
        proof {
            assert(lists.take(i as int) =~= lists);
        }
    }
}

} // verus!

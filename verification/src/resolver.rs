use indexmap::IndexMap;
use vstd::prelude::*;
use crate::builder::{built, built_item, unvisited};
use crate::error::{Error, ErrorView};
use crate::model::Node;
use crate::schema::{lemma_lookup_names, lookup, names, registered, registry_get, Schema, SchemaRef};
use crate::text::{contains_text, last_segment, last_segment_of, texts_of};

verus! {

/// Where a chain of references ends: the name of the last reference, the
/// schema registered under it, and the names that no reference of the chain
/// has used.
pub struct Resolution {
    pub name: Seq<char>,
    pub schema: Schema,
    pub remaining: Set<Seq<char>>,
}

/// The end of the chain of references that starts at `reference`, or the
/// failure that stops it: a name that the registry does not hold, or a name
/// that is registered but no longer in `avail`, which closes a cycle.
pub open spec fn resolved(
    reference: Seq<char>,
    entries: Seq<(Seq<char>, SchemaRef)>,
    avail: Set<Seq<char>>,
) -> Result<Resolution, ErrorView>
    decreases avail.len(),
    when avail.finite()
{
    let target = last_segment(reference);
    match lookup(entries, target) {
        None => Err(ErrorView::ReferenceNotFound),
        Some(found) => if avail.contains(target) {
            match found {
                SchemaRef::Item(schema) => Ok(
                    Resolution { name: target, schema, remaining: avail.remove(target) },
                ),
                SchemaRef::Reference { reference: next } => resolved(
                    next@,
                    entries,
                    avail.remove(target),
                ),
            }
        } else {
            Err(ErrorView::CycleDetected)
        },
    }
}

/// Follows a reference through the registry to the schema that it stands
/// for, and gives that schema with the name it is registered under.
pub fn resolve<'a>(reference: &'a str, component_schemas: &'a IndexMap<String, SchemaRef>) -> (res:
    Result<(String, &'a Schema), Error>)
    ensures
        match resolved(
            reference@,
            registered(*component_schemas),
            names(registered(*component_schemas)),
        ) {
            Ok(end) => res matches Ok(found) && found.0@ == end.name && *found.1 == end.schema,
            Err(e) => res matches Err(failure) && failure@ == e,
        },
{
    let ghost entries = registered(*component_schemas);
    let mut visiting: Vec<String> = Vec::new();
    let mut current: &'a str = reference;
    proof {
        lemma_lookup_names(entries, reference@);
        assert(unvisited(entries, texts_of(visiting@)) =~= names(entries));
    }
    loop
        invariant
            entries == registered(*component_schemas),
            names(entries).finite(),
            resolved(reference@, entries, names(entries)) == resolved(
                current@,
                entries,
                unvisited(entries, texts_of(visiting@)),
            ),
        decreases unvisited(entries, texts_of(visiting@)).len(),
    {
        let ghost avail = unvisited(entries, texts_of(visiting@));
        let target = last_segment_of(current);
        proof {
            lemma_lookup_names(entries, target@);
        }
        match registry_get(component_schemas, target.as_str()) {
            None => {
                return Err(Error::ReferenceNotFound);
            },
            Some(found) => {
                if contains_text(&visiting, &target) {
                    return Err(Error::CycleDetected);
                }
                match found {
                    SchemaRef::Item(schema) => {
                        return Ok((target, schema));
                    },
                    SchemaRef::Reference { reference: next } => {
                        let ghost before = texts_of(visiting@);
                        visiting.push(target);
                        proof {
                            let after = texts_of(visiting@);
                            assert(after =~= before.push(target@));
                            assert forall|n: Seq<char>|
                                after.contains(n) <==> before.contains(n) || n == target@ by {
                                if before.contains(n) {
                                    let j = choose|j: int| 0 <= j < before.len() && before[j] == n;
                                    assert(after[j] == n);
                                }
                                if n == target@ {
                                    assert(after[before.len() as int] == n);
                                }
                            }
                            assert(unvisited(entries, after) =~= avail.remove(target@));
                        }
                        current = next.as_str();
                    },
                }
            },
        }
    }
}

/// Building from a reference is resolving it and building the schema found,
/// under the name it is registered under and without the names that the
/// chain has used.
pub proof fn lemma_built_resolves_first(
    reference: String,
    entries: Seq<(Seq<char>, SchemaRef)>,
    name: Seq<char>,
    is_array: bool,
    avail: Set<Seq<char>>,
)
    requires
        avail.finite(),
    ensures
        built(SchemaRef::Reference { reference }, entries, name, is_array, avail) == (match resolved(
            reference@,
            entries,
            avail,
        ) {
            Ok(end) => built_item(end.schema, entries, end.name, is_array, end.remaining),
            Err(e) => Err::<Node, ErrorView>(e),
        }),
    decreases avail.len(),
{
    let target = last_segment(reference@);
    match lookup(entries, target) {
        None => {},
        Some(found) => {
            if avail.contains(target) {
                match found {
                    SchemaRef::Item(schema) => {},
                    SchemaRef::Reference { reference: next } => {
                        lemma_built_resolves_first(
                            next,
                            entries,
                            target,
                            is_array,
                            avail.remove(target),
                        );
                    },
                }
            }
        },
    }
}

/// Two schemas that are references to each other resolve to no schema: the
/// chain is found to be a cycle.
pub proof fn lemma_mutual_references_cycle(
    entries: Seq<(Seq<char>, SchemaRef)>,
    first: String,
    second: String,
)
    requires
        lookup(entries, last_segment(first@)) == Some(SchemaRef::Reference { reference: second }),
        lookup(entries, last_segment(second@)) == Some(SchemaRef::Reference { reference: first }),
    ensures
        resolved(first@, entries, names(entries)) == Err::<Resolution, ErrorView>(
            ErrorView::CycleDetected,
        ),
        resolved(second@, entries, names(entries)) == Err::<Resolution, ErrorView>(
            ErrorView::CycleDetected,
        ),
{
    let a = last_segment(first@);
    let b = last_segment(second@);
    lemma_lookup_names(entries, a);
    lemma_lookup_names(entries, b);
    let all = names(entries);
    if a == b {
        assert(!all.remove(a).contains(a));
    } else {
        assert(all.remove(a).contains(b));
        assert(!all.remove(a).remove(b).contains(a));
        assert(all.remove(b).contains(a));
        assert(!all.remove(b).remove(a).contains(b));
        assert(resolved(first@, entries, all.remove(a).remove(b)) == Err::<Resolution, ErrorView>(
            ErrorView::CycleDetected,
        ));
        assert(resolved(second@, entries, all.remove(a).remove(b)) == Err::<
            Resolution,
            ErrorView,
        >(ErrorView::CycleDetected)) by {
            assert(all.remove(a).remove(b) =~= all.remove(b).remove(a));
        }
        assert(resolved(second@, entries, all.remove(a)) == Err::<Resolution, ErrorView>(
            ErrorView::CycleDetected,
        ));
        assert(resolved(first@, entries, all.remove(b)) == Err::<Resolution, ErrorView>(
            ErrorView::CycleDetected,
        )) by {
            assert(resolved(first@, entries, all.remove(b).remove(a)) == Err::<
                Resolution,
                ErrorView,
            >(ErrorView::CycleDetected));
        }
    }
}

} // verus!

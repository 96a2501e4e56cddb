use vstd::hash_map::StringHashMap;
use vstd::prelude::*;
use vstd::string::{StringExecFns, StrSliceExecFns};
use crate::config::{occurs_at, placeholder, placeholder_at, Config, Type};
use crate::error::{Error, ErrorView};
use crate::model::{kind_name, DataStructure, Node, PropertyType};
use crate::text::{copy_text, text_of};

verus! {

/// A layout with `to` in place of every placeholder, taken from the left.
pub open spec fn substituted(layout: Seq<char>, to: Seq<char>) -> Seq<char>
    decreases layout.len(),
{
    if layout.len() == 0 {
        layout
    } else if occurs_at(layout, placeholder(), 0) {
        to + substituted(layout.skip(placeholder().len() as int), to)
    } else {
        seq![layout[0]] + substituted(layout.skip(1), to)
    }
}

/// Puts `to` in place of every placeholder of a layout.
pub fn substitute(layout: &str, to: &str) -> (res: String)
    ensures
        res@ == substituted(layout@, to@),
{
    let n = layout.unicode_len();
    let mut out = String::new();
    let mut at: usize = 0;
    proof {
        assert(layout@.skip(0) =~= layout@);
        assert(out@ + substituted(layout@, to@) =~= substituted(layout@, to@));
    }
    while at < n
        invariant
            at <= n,
            n == layout@.len(),
            out@ + substituted(layout@.skip(at as int), to@) == substituted(layout@, to@),
        decreases n - at,
    {
        let ghost rest = layout@.skip(at as int);
        let ghost done = out@;
        if placeholder_at(layout, at) {
            proof {
                assert(rest.subrange(0, 6) =~= layout@.subrange(at as int, at + 6));
                assert(rest.skip(6) =~= layout@.skip(at + 6));
            }
            out.append(to);
            at += 6;
            proof {
                assert(out@ + substituted(layout@.skip(at as int), to@) =~= done + substituted(
                    rest,
                    to@,
                ));
            }
        } else {
            proof {
                if rest.len() >= 6 {
                    assert(rest.subrange(0, 6) =~= layout@.subrange(at as int, at + 6));
                }
                assert(rest.skip(1) =~= layout@.skip(at + 1));
                assert(layout@.subrange(at as int, at + 1) =~= seq![rest[0]]);
            }
            out.append(layout.substring_char(at, at + 1));
            at += 1;
            proof {
                assert(out@ + substituted(layout@.skip(at as int), to@) =~= done + substituted(
                    rest,
                    to@,
                ));
            }
        }
    }
    proof {
        assert(out@ + Seq::<char>::empty() =~= out@);
    }
    out
}

/// The key under which the type table is asked for a node: its object name,
/// or the name of its kind where it has none.
pub open spec fn mapping_key(node: Node) -> Seq<char> {
    match node.object_name {
        Some(n) => n,
        None => kind_name(node.property_type),
    }
}

/// The failure of a lookup in the type table.
pub open spec fn missing(key: Seq<char>, format: Option<Seq<char>>) -> ErrorView {
    ErrorView::MissingTypeMapping { key, format }
}

/// What the type table gives for a key and a format: with a format, the type
/// that the entry under the key holds for it; without one, the default of
/// the entry. Where the table holds no such entry or format, the lookup
/// fails and names both.
pub open spec fn looked_up(
    types: Map<Seq<char>, Type>,
    key: Seq<char>,
    format: Option<Seq<char>>,
) -> Result<Seq<char>, ErrorView> {
    if !types.contains_key(key) {
        Err(missing(key, format))
    } else {
        match format {
            None => Ok(types[key].default@),
            Some(f) => match types[key].format {
                Some(table) => if table@.contains_key(f) {
                    Ok(table@[f]@)
                } else {
                    Err(missing(key, format))
                },
                None => Err(missing(key, format)),
            },
        }
    }
}

/// The type that a configuration gives for a node: what the type table gives
/// for the key and the format of the node, wrapped into the array layout
/// where the node is an array.
pub open spec fn mapped(node: Node, config: Config) -> Result<Seq<char>, ErrorView> {
    match looked_up(config.types@, mapping_key(node), node.format) {
        Err(e) => Err(e),
        Ok(found) => if node.property_type == PropertyType::Array {
            Ok(substituted(config.array_layout@, found))
        } else {
            Ok(found)
        },
    }
}

/// The value of the outcome of a lookup.
pub open spec fn text_outcome(res: Result<String, Error>) -> Result<Seq<char>, ErrorView> {
    match res {
        Ok(s) => Ok(s@),
        Err(e) => Err(e@),
    }
}

/// Asks a type table for the type under a key and a format.
pub fn lookup_type(types: &StringHashMap<Type>, key: &str, format: &Option<String>) -> (res:
    Result<String, Error>)
    ensures
        text_outcome(res) == looked_up(types@, key@, text_of(*format)),
{
    match types.get(key) {
        None => Err(Error::MissingTypeMapping { key: key.to_owned(), format: copy_text(format) }),
        Some(entry) => match format {
            None => Ok(entry.default.clone()),
            Some(f) => match &entry.format {
                Some(table) => match table.get(f.as_str()) {
                    Some(found) => Ok(found.clone()),
                    None => Err(
                        Error::MissingTypeMapping { key: key.to_owned(), format: copy_text(format) },
                    ),
                },
                None => Err(
                    Error::MissingTypeMapping { key: key.to_owned(), format: copy_text(format) },
                ),
            },
        },
    }
}

/// Gives the type that the configuration holds for a kind and a format.
pub fn property_to_type(property_type: &str, format: &Option<String>, config: &Config) -> (res:
    Result<String, Error>)
    ensures
        text_outcome(res) == looked_up(config.types@, property_type@, text_of(*format)),
{
    lookup_type(&config.types, property_type, format)
}

/// Gives the type of the target language that a configuration holds for a
/// node.
pub fn mapped_type(node: &DataStructure, config: &Config) -> (res: Result<String, Error>)
    ensures
        text_outcome(res) == mapped(node@, *config),
{
    let key = match &node.object_name {
        Some(n) => n.clone(),
        None => node.property_type.name(),
    };
    match lookup_type(&config.types, key.as_str(), &node.format) {
        Err(e) => Err(e),
        Ok(found) => {
            if node.property_type == PropertyType::Array {
                Ok(substitute(config.array_layout.as_str(), found.as_str()))
            } else {
                Ok(found)
            }
        },
    }
}

/// The type of a node depends on the node and on what the type table and
/// the array layout of the configuration hold, and on nothing else.
pub proof fn lemma_mapped_is_determined(node: Node, first: Config, second: Config)
    requires
        first.types@ == second.types@,
        first.array_layout@ == second.array_layout@,
    ensures
        mapped(node, first) == mapped(node, second),
{
}

/// A node whose key the type table lacks has no type, and neither has a node
/// with a format that the entry under its key lacks: the lookup fails and
/// names the key and the format.
pub proof fn lemma_unknown_is_missing(node: Node, config: Config)
    requires
        !config.types@.contains_key(mapping_key(node)) || (node.format matches Some(f) && !(
        config.types@[mapping_key(node)].format matches Some(table) && table@.contains_key(f))),
    ensures
        mapped(node, config) == Err::<Seq<char>, ErrorView>(
            ErrorView::MissingTypeMapping { key: mapping_key(node), format: node.format },
        ),
{
}

} // verus!

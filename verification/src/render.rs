use vstd::prelude::*;
use vstd::string::StrSliceExecFns;
use crate::error::Error;
use crate::model::{nodes_of, DataStructure, Node, PropertyType};
use crate::text::text_is;

verus! {

/// How much a run logs.
#[derive(Clone, Copy, Debug, PartialEq, Eq, Structural)]
pub enum Verbosity {
    /// Warnings and errors only.
    Warn,
    /// Everything down to debug messages.
    Debug,
    /// The usual messages.
    Info,
}

/// Picks how much a run logs from the two switches of the command line. A
/// run cannot be quiet and verbose at once.
pub fn terminal_setup(quiet: bool, verbose: bool) -> (res: Result<Verbosity, Error>)
    ensures
        quiet && verbose ==> res == Err::<Verbosity, Error>(Error::ConfigValidation),
        quiet && !verbose ==> res == Ok::<Verbosity, Error>(Verbosity::Warn),
        !quiet && verbose ==> res == Ok::<Verbosity, Error>(Verbosity::Debug),
        !quiet && !verbose ==> res == Ok::<Verbosity, Error>(Verbosity::Info),
{
    if quiet && verbose {
        Err(Error::ConfigValidation)
    } else if quiet {
        Ok(Verbosity::Warn)
    } else if verbose {
        Ok(Verbosity::Debug)
    } else {
        Ok(Verbosity::Info)
    }
}

/// Whether a text starts with another.
pub open spec fn has_prefix(text: Seq<char>, prefix: Seq<char>) -> bool {
    prefix.len() <= text.len() && text.take(prefix.len() as int) == prefix
}

/// Tells whether a text starts with another.
pub fn starts_with(text: &str, prefix: &str) -> (res: bool)
    ensures
        res == has_prefix(text@, prefix@),
{
    let n = text.unicode_len();
    let m = prefix.unicode_len();
    if m > n {
        return false;
    }
    proof {
        assert(text@.subrange(0, m as int) =~= text@.take(m as int));
    }
    text_is(text.substring_char(0, m), prefix)
}

/// What a template is rendered from, which its file name tells.
#[derive(Clone, Copy, Debug, PartialEq, Eq, Structural)]
pub enum TemplateKind {
    /// Once for every model of the document: the name starts with `model.`.
    Model,
    /// Once for every endpoint, from the models of its bodies: the name
    /// starts with `model-endpoint.`.
    EndpointModel,
    /// Once, from the whole template data.
    Whole,
}

/// What a template with the given file name is rendered from.
pub open spec fn kind_of_template(file_name: Seq<char>) -> TemplateKind {
    if has_prefix(file_name, "model."@) {
        TemplateKind::Model
    } else if has_prefix(file_name, "model-endpoint."@) {
        TemplateKind::EndpointModel
    } else {
        TemplateKind::Whole
    }
}

/// Tells what a template with the given file name is rendered from.
pub fn template_kind(file_name: &str) -> (res: TemplateKind)
    ensures
        res == kind_of_template(file_name@),
{
    if starts_with(file_name, "model.") {
        TemplateKind::Model
    } else if starts_with(file_name, "model-endpoint.") {
        TemplateKind::EndpointModel
    } else {
        TemplateKind::Whole
    }
}

/// Tells whether a model gets a file of its own: every model does but one
/// named `Array`.
pub fn renders_model(structure: &DataStructure) -> (res: bool)
    ensures
        res == (structure@.name != "Array"@),
{
    !text_is(structure.name.as_str(), "Array")
}

/// The position of the first root in a list of models, or the length of the
/// list where it holds none.
pub open spec fn first_root(models: Seq<Node>) -> int
    decreases models.len(),
{
    if models.len() == 0 {
        0
    } else if models[0].is_root {
        0
    } else {
        1 + first_root(models.drop_first())
    }
}

/// Finds the root among the models of a body: the first model marked as the
/// root.
pub fn endpoint_root(models: &Vec<DataStructure>) -> (res: Option<&DataStructure>)
    ensures
        match res {
            Some(root) => first_root(nodes_of(models@)) < models.len() && *root == models@[first_root(
                nodes_of(models@),
            )],
            None => first_root(nodes_of(models@)) == models.len(),
        },
{
    let mut i: usize = 0;
    proof {
        assert(nodes_of(models@).skip(0) =~= nodes_of(models@));
    }
    while i < models.len()
        invariant
            i <= models.len(),
            first_root(nodes_of(models@)) == i + first_root(nodes_of(models@).skip(i as int)),
        decreases models.len() - i,
    {
        proof {
            assert(nodes_of(models@).skip(i as int).drop_first() =~= nodes_of(models@).skip(i + 1));
            assert(nodes_of(models@).skip(i as int)[0] == models@[i as int]@);
        }
        if models[i].is_root {
            return Some(&models[i]);
        }
        i += 1;
    }
    None
}

/// Whether the models of a body get a file: they do unless the root is an
/// array of something other than objects.
pub open spec fn has_endpoint_file(root: Node) -> bool {
    root.property_type != PropertyType::Array || (root.properties.len() > 0
        && root.properties[0].property_type == PropertyType::Object)
}

/// Tells whether the models of a body get a file, given their root.
pub fn renders_endpoint_models(root: &DataStructure) -> (res: bool)
    ensures
        res == has_endpoint_file(root@),
{
    proof {
        root.lemma_view_children();
    }
    match root.property_type {
        PropertyType::Array => {
            root.properties.len() > 0 && root.properties[0].property_type == PropertyType::Object
        },
        _ => true,
    }
}

/// The notation of a configuration file.
#[derive(Clone, Copy, Debug, PartialEq, Eq, Structural)]
pub enum ConfigFormat {
    Json,
    Yaml,
}

/// Tells the notation of a configuration file from the extension of its
/// name: JSON for `json`, YAML for anything else.
pub fn config_format(extension: &str) -> (res: ConfigFormat)
    ensures
        res == (if extension@ == "json"@ {
            ConfigFormat::Json
        } else {
            ConfigFormat::Yaml
        }),
{
    if text_is(extension, "json") {
        ConfigFormat::Json
    } else {
        ConfigFormat::Yaml
    }
}

} // verus!

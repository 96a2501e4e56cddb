use vstd::prelude::*;
use vstd::std_specs::cmp::PartialEqSpecImpl;
use crate::text::{same_text, text_of};

verus! {

/// What can go wrong while a model is built from a document or read by a
/// template. Each failure is a value handed back to the caller.
#[derive(Debug)]
pub enum Error {
    /// A reference names a schema that the registry does not hold.
    ReferenceNotFound,
    /// A reference leads back to a schema that is still being resolved.
    CycleDetected,
    /// A schema uses a combinator or another shape that the model does not
    /// cover.
    UnsupportedSchemaConstruct,
    /// The configuration holds no type for a key, or none for a format under
    /// that key.
    MissingTypeMapping { key: String, format: Option<String> },
    /// The configuration is not usable as it stands.
    ConfigValidation,
    /// A body lacks the content that the extraction was asked to insist on.
    MissingRequiredContent,
    /// A template called a function without an argument that it needs.
    ArgumentMissing,
    /// A template called a function with an argument of the wrong shape.
    ArgumentInvalid,
    /// A template asked for a sample of a tree that is not the root of a
    /// body.
    RootExpected,
    /// A template asked for a free lookup under a key that the configuration
    /// does not hold.
    UnknownKey { key: String },
}

/// The mathematical value of an error.
pub enum ErrorView {
    ReferenceNotFound,
    CycleDetected,
    UnsupportedSchemaConstruct,
    MissingTypeMapping { key: Seq<char>, format: Option<Seq<char>> },
    ConfigValidation,
    MissingRequiredContent,
    ArgumentMissing,
    ArgumentInvalid,
    RootExpected,
    UnknownKey { key: Seq<char> },
}

impl View for Error {
    type V = ErrorView;

    open spec fn view(&self) -> ErrorView {
        match self {
            Error::ReferenceNotFound => ErrorView::ReferenceNotFound,
            Error::CycleDetected => ErrorView::CycleDetected,
            Error::UnsupportedSchemaConstruct => ErrorView::UnsupportedSchemaConstruct,
            Error::MissingTypeMapping { key, format } => ErrorView::MissingTypeMapping {
                key: key@,
                format: text_of(*format),
            },
            Error::ConfigValidation => ErrorView::ConfigValidation,
            Error::MissingRequiredContent => ErrorView::MissingRequiredContent,
            Error::ArgumentMissing => ErrorView::ArgumentMissing,
            Error::ArgumentInvalid => ErrorView::ArgumentInvalid,
            Error::RootExpected => ErrorView::RootExpected,
            Error::UnknownKey { key } => ErrorView::UnknownKey { key: key@ },
        }
    }
}

impl PartialEq for Error {
    fn eq(&self, other: &Self) -> (res: bool) {
        match (self, other) {
            (Error::ReferenceNotFound, Error::ReferenceNotFound) => true,
            (Error::CycleDetected, Error::CycleDetected) => true,
            (Error::UnsupportedSchemaConstruct, Error::UnsupportedSchemaConstruct) => true,
            (
                Error::MissingTypeMapping { key: k1, format: f1 },
                Error::MissingTypeMapping { key: k2, format: f2 },
            ) => *k1 == *k2 && same_text(f1, f2),
            (Error::ConfigValidation, Error::ConfigValidation) => true,
            (Error::MissingRequiredContent, Error::MissingRequiredContent) => true,
            (Error::ArgumentMissing, Error::ArgumentMissing) => true,
            (Error::ArgumentInvalid, Error::ArgumentInvalid) => true,
            (Error::RootExpected, Error::RootExpected) => true,
            (Error::UnknownKey { key: k1 }, Error::UnknownKey { key: k2 }) => *k1 == *k2,
            _ => false,
        }
    }
}

impl PartialEqSpecImpl for Error {
    open spec fn obeys_eq_spec() -> bool {
        true
    }

    open spec fn eq_spec(&self, other: &Self) -> bool {
        self@ == other@
    }
}

impl Eq for Error {

}

} // verus!

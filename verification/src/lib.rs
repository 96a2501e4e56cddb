//! Models of the data structures of an API for code templates.
//!
//! A document that describes an API is turned into trees of data structures,
//! one for each request and response body. The trees are passed over once to
//! flag required properties and to name arrays, listed model by model, merged
//! across endpoints, and handed to templates, which ask for the type of a
//! node in a target language and for sample values.
//!
//! Every function is verified against the contract it states. The few calls
//! into other crates stand behind declarations whose contracts are taken on
//! trust; each says which function it stands for.

pub mod builder;
pub mod combine;
pub mod config;
pub mod document;
pub mod error;
pub mod extract;
pub mod files;
pub mod finalize;
pub mod flatten;
pub mod json;
pub mod mapping;
pub mod model;
pub mod render;
pub mod resolver;
pub mod sample;
pub mod schema;
pub mod template;
pub mod text;
pub mod typing;

//! Compiles JSON Schema documents (draft-06) into a registry of schema nodes
//! addressed by URI, and validates JSON values against them.
//!
//! Every schema node is owned by a [`Context`]; nested schemas and `$ref`
//! targets are linked by URI, so circular references need no cyclic
//! ownership. Validation walks the compiled conditions of a node in priority
//! order and reports the first one that fails. Validation follows at most
//! [`MAX_DEPTH`] schema links, so a reference cycle ends in
//! [`ValidationError::DepthExceeded`] instead of running forever.

mod number;
mod json;
mod pattern;
mod condition;
mod errors;
mod context;
mod validate;
mod uri;
mod parse;
mod laws;

pub use number::{compare, multiple_of, num_le, num_lt, num_multiple_of, Number};
pub use json::{json_eq, Json, JsonV};
pub use pattern::{regex_compiles, regex_finds, RegexWrapper};
pub use condition::{has_type, priority, type_named, CondV, Condition, Dependency, DependencyV, Type};
pub use errors::{outcome_view, FromValueError, FromValueErrorV, ValidationError, ValidationErrorV};
pub use context::{put_all, Context, JsonSchema, NodeV, SchemaNode, Validator, ValidatorV};
pub use validate::{branch_stops, check_cond, check_uri, check_validator, holds, validate_uri, Registry, MAX_DEPTH};
pub use uri::{push_uri, pushed_uri, url_fragment, url_joined, url_parsed, url_with_fragment};
pub use parse::{by_priority, compile_document, compile_schema, parse_schema};
pub use laws::{lemma_compile_idempotent, lemma_true_and_false, lemma_type_fails_first, lemma_type_fails_first_exactly};

use vstd::prelude::*;

use crate::condition::{CondV, Condition};
use crate::json::{Json, JsonV};

verus! {

/// Why a JSON value could not be compiled into a schema.
#[derive(Debug)]
pub enum FromValueError {
    /// A `pattern` or a `patternProperties` key is not a valid regular
    /// expression; the pattern is given.
    BadPattern(String),
    /// An `$id` is not a valid URI (or a base URI is not one); the text is
    /// given.
    InvalidId(String),
    /// A keyword's value has the wrong JSON type; the keyword and its value
    /// are given.
    InvalidKeywordType(String, Json),
    /// A keyword's value has the right JSON type but cannot be used; the
    /// keyword and its value are given.
    InvalidKeywordValue(String, Json),
    /// A schema is neither a boolean nor an object; the value is given.
    InvalidSchemaType(Json),
    /// The document failed to validate against the metaschema.
    MetaschemaFailedToValidate(ValidationError),
    /// A schema below the root uses `$schema`.
    SubschemaUsesSchemaKeyword,
    /// `$schema` names a dialect other than draft-06; the name is given.
    UnknownSchemaVersion(String),
}

/// Why a JSON value failed to validate.
#[derive(Clone, Debug, PartialEq)]
pub enum ValidationError {
    /// The value does not meet this condition.
    ConditionFailed(Condition),
    /// The value was checked against the `false` schema.
    NoValuesPass(Json),
    /// A schema refers to a URI that the context does not hold.
    BadReference(String),
    /// Validation followed more schema links than its limit allows (a
    /// reference cycle, or nesting too deep); the URI reached is given.
    DepthExceeded(String),
}

/// The model of a [`ValidationError`].
pub enum ValidationErrorV {
    ConditionFailed(CondV),
    NoValuesPass(JsonV),
    BadReference(Seq<char>),
    DepthExceeded(Seq<char>),
}

/// The model of a [`FromValueError`].
pub enum FromValueErrorV {
    BadPattern(Seq<char>),
    InvalidId(Seq<char>),
    InvalidKeywordType(Seq<char>, JsonV),
    InvalidKeywordValue(Seq<char>, JsonV),
    InvalidSchemaType(JsonV),
    MetaschemaFailedToValidate(ValidationErrorV),
    SubschemaUsesSchemaKeyword,
    UnknownSchemaVersion(Seq<char>),
}

impl View for ValidationError {
    type V = ValidationErrorV;

    open spec fn view(&self) -> ValidationErrorV {
        match self {
            ValidationError::ConditionFailed(c) => ValidationErrorV::ConditionFailed(c@),
            ValidationError::NoValuesPass(j) => ValidationErrorV::NoValuesPass(j@),
            ValidationError::BadReference(u) => ValidationErrorV::BadReference(u@),
            ValidationError::DepthExceeded(u) => ValidationErrorV::DepthExceeded(u@),
        }
    }
}

impl View for FromValueError {
    type V = FromValueErrorV;

    open spec fn view(&self) -> FromValueErrorV {
        match self {
            FromValueError::BadPattern(s) => FromValueErrorV::BadPattern(s@),
            FromValueError::InvalidId(s) => FromValueErrorV::InvalidId(s@),
            FromValueError::InvalidKeywordType(s, j) => FromValueErrorV::InvalidKeywordType(s@, j@),
            FromValueError::InvalidKeywordValue(s, j) => FromValueErrorV::InvalidKeywordValue(s@, j@),
            FromValueError::InvalidSchemaType(j) => FromValueErrorV::InvalidSchemaType(j@),
            FromValueError::MetaschemaFailedToValidate(e) => FromValueErrorV::MetaschemaFailedToValidate(e@),
            FromValueError::SubschemaUsesSchemaKeyword => FromValueErrorV::SubschemaUsesSchemaKeyword,
            FromValueError::UnknownSchemaVersion(s) => FromValueErrorV::UnknownSchemaVersion(s@),
        }
    }
}

/// The model of a validation outcome.
pub open spec fn outcome_view(r: Result<(), ValidationError>) -> Result<(), ValidationErrorV> {
    match r {
        Ok(()) => Ok(()),
        Err(e) => Err(e@),
    }
}

} // verus!

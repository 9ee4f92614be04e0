//! Reading records from JSON objects, member by member.

use crate::json::{Json, JsonModel};
use vstd::prelude::*;
use vstd::string::StringExecFns;

verus! {

/// Why a document is not the record that it should be: it is no object, or
/// the named member is missing or is not of the kind that it has to be.
#[derive(Debug, PartialEq, Eq)]
pub enum DeserializeError {
    ExpectingObject,
    MissingField(&'static str),
    InvalidField(&'static str),
}

/// What a `DeserializeError` is to a contract: the same value, with sequences for its
/// strings and vectors.
pub ghost enum DeserializeErrorModel {
    ExpectingObject,
    MissingField(Seq<char>),
    InvalidField(Seq<char>),
}

impl View for DeserializeError {
    type V = DeserializeErrorModel;

    open spec fn view(&self) -> DeserializeErrorModel {
        match self {
            DeserializeError::ExpectingObject => DeserializeErrorModel::ExpectingObject,
            DeserializeError::MissingField(name) => DeserializeErrorModel::MissingField(name@),
            DeserializeError::InvalidField(name) => DeserializeErrorModel::InvalidField(name@),
        }
    }
}

/// What a failure is described as.
pub open spec fn description(e: DeserializeErrorModel) -> Seq<char> {
    match e {
        DeserializeErrorModel::ExpectingObject => "expecting an object"@,
        DeserializeErrorModel::MissingField(name) => "missing field `"@ + name + "`"@,
        DeserializeErrorModel::InvalidField(name) => "invalid field `"@ + name + "`"@,
    }
}

impl DeserializeError {
    /// The description of the failure.
    pub fn to_string(&self) -> (r: String)
        ensures
            r@ == description(self@),
    {
        match self {
            DeserializeError::ExpectingObject => "expecting an object".to_owned(),
            DeserializeError::MissingField(name) => {
                let mut out = "missing field `".to_owned();
                out.append(name);
                out.append("`");
                out
            },
            DeserializeError::InvalidField(name) => {
                let mut out = "invalid field `".to_owned();
                out.append(name);
                out.append("`");
                out
            },
        }
    }
}

/// The member `name`, which must be a non-negative integer.
pub open spec fn number_field(doc: JsonModel, name: Seq<char>) -> Result<
    u64,
    DeserializeErrorModel,
> {
    match doc.get(name) {
        None => Err(DeserializeErrorModel::MissingField(name)),
        Some(value) => match value.as_u64() {
            None => Err(DeserializeErrorModel::InvalidField(name)),
            Some(n) => Ok(n),
        },
    }
}

/// The member `name`, which must be a string.
pub open spec fn text_field(doc: JsonModel, name: Seq<char>) -> Result<
    Seq<char>,
    DeserializeErrorModel,
> {
    match doc.get(name) {
        None => Err(DeserializeErrorModel::MissingField(name)),
        Some(value) => match value.as_str() {
            None => Err(DeserializeErrorModel::InvalidField(name)),
            Some(text) => Ok(text),
        },
    }
}

/// The member `name` of `doc` as a number.
pub fn read_number(doc: &Json, name: &'static str) -> (r: Result<u64, DeserializeError>)
    ensures
        match r {
            Ok(n) => number_field(doc@, name@) == Ok::<u64, DeserializeErrorModel>(n),
            Err(e) => number_field(doc@, name@) == Err::<u64, DeserializeErrorModel>(e@),
        },
{
    match doc.get(name) {
        None => Err(DeserializeError::MissingField(name)),
        Some(value) => match value.as_u64() {
            None => Err(DeserializeError::InvalidField(name)),
            Some(n) => Ok(n),
        },
    }
}

/// The member `name` of `doc` as a text.
pub fn read_text<'a>(doc: &'a Json, name: &'static str) -> (r: Result<&'a str, DeserializeError>)
    ensures
        match r {
            Ok(text) => text_field(doc@, name@) == Ok::<Seq<char>, DeserializeErrorModel>(text@),
            Err(e) => text_field(doc@, name@) == Err::<Seq<char>, DeserializeErrorModel>(e@),
        },
{
    match doc.get(name) {
        None => Err(DeserializeError::MissingField(name)),
        Some(value) => match value.as_str() {
            None => Err(DeserializeError::InvalidField(name)),
            Some(text) => Ok(text),
        },
    }
}

} // verus!

//! Building the typed input of an encryption from a raw string and its
//! column policy.

use vstd::prelude::*;
use crate::context::Context;
use crate::encrypt_config::ColumnConfig;
use crate::error::Error;
use crate::json::{json_content, json_document, parse_json};

verus! {

/// The value handed to the encryption backend: the raw string, or the
/// document it was read as.
#[derive(Debug)]
pub enum PlaintextValue {
    /// The raw string, passed through without any validation.
    Text(String),
    /// The document that the raw string denotes.
    Json(serde_json::Value),
}

/// A value to encrypt, with the policy of its column and the context that
/// binds it.
#[derive(Debug)]
pub struct PlaintextTarget {
    pub plaintext: PlaintextValue,
    pub column_config: ColumnConfig,
    pub context: Vec<Context>,
}

/// Creates a [`PlaintextTarget`] with specialized handling for JSONB
/// columns with structural indexes.
///
/// Only for a JSONB column that has a structural index is the string read
/// as JSON, so that the backend resolves it as a document and not as text;
/// a syntax failure there is a parse error. For every other column, a JSONB
/// column without structural index included, the string passes through
/// with no validation at all.
pub fn new(plaintext: String, column_config: &ColumnConfig) -> (r: Result<PlaintextTarget, Error>)
    ensures
        r is Ok ==> r->Ok_0.column_config@ == column_config@ && r->Ok_0.context@.len() == 0,
        column_config@.needs_json_parsing() ==> match json_document(plaintext@) {
            Some(doc) => r is Ok && (r->Ok_0.plaintext matches PlaintextValue::Json(v)
                && json_content(v) == doc),
            None => r is Err && r->Err_0 is Parse,
        },
        !column_config@.needs_json_parsing() ==> r is Ok && r->Ok_0.plaintext
            == PlaintextValue::Text(plaintext),
{
    if column_config.needs_json_parsing() {
        match parse_json(plaintext.as_str()) {
            Ok(json_value) => Ok(
                PlaintextTarget {
                    plaintext: PlaintextValue::Json(json_value),
                    column_config: column_config.duplicate(),
                    context: Vec::new(),
                },
            ),
            Err(e) => Err(Error::Parse(e)),
        }
    } else {
        Ok(
            PlaintextTarget {
                plaintext: PlaintextValue::Text(plaintext),
                column_config: column_config.duplicate(),
                context: Vec::new(),
            },
        )
    }
}

} // verus!

//! The library's error type and its messages.

use vstd::prelude::*;
use vstd::string::StringExecFns;
use serde_json::Error as JsonError;
use crate::encrypt_config::Identifier;
use crate::text::{decimal_string, decimal_text};

verus! {

/// `core::str::Utf8Error`, the failure of reading bytes as UTF-8: carried
/// as an opaque value.
#[verifier::external_type_specification]
#[verifier::external_body]
pub struct ExUtf8Error(core::str::Utf8Error);

/// Errors that can occur during encryption and decryption operations.
#[derive(Debug)]
pub enum Error {
    /// Client configuration could not be built; holds the backend's message.
    Config(String),
    /// The key service failed; holds the backend's message.
    ZeroKMS(String),
    /// The encryption backend failed; holds the backend's message.
    Encryption(String),
    /// Decrypted bytes did not decode to a typed value; holds the backend's
    /// message.
    TypeParse(String),
    /// JSON parsing error.
    Parse(JsonError),
    /// UTF-8 string conversion error.
    Utf8(core::str::Utf8Error),
    /// Unsupported schema version.
    UnsupportedSchemaVersion(u32),
    /// Unknown column identifier in configuration.
    UnknownColumn(Identifier),
    /// Base85 encoding/decoding error.
    Base85(String),
    /// Feature not yet implemented.
    Unimplemented(String),
    /// Async runtime error.
    Runtime(String),
    /// Null pointer passed where non-null expected.
    NullPointer,
    /// String conversion error.
    StringConversion(String),
    /// Internal invariant violation: a defect in this library or its backend.
    InvariantViolation(String),
}

/// An error, as mathematical values: its kind and the text it carries. A
/// foreign error is reduced to its kind.
pub enum ErrorModel {
    Config(Seq<char>),
    ZeroKMS(Seq<char>),
    Encryption(Seq<char>),
    TypeParse(Seq<char>),
    Parse,
    Utf8,
    UnsupportedSchemaVersion(u32),
    UnknownColumn((Seq<char>, Seq<char>)),
    Base85(Seq<char>),
    Unimplemented(Seq<char>),
    Runtime(Seq<char>),
    NullPointer,
    StringConversion(Seq<char>),
    InvariantViolation(Seq<char>),
}

impl View for Error {
    type V = ErrorModel;

    open spec fn view(&self) -> ErrorModel {
        match *self {
            Error::Config(m) => ErrorModel::Config(m@),
            Error::ZeroKMS(m) => ErrorModel::ZeroKMS(m@),
            Error::Encryption(m) => ErrorModel::Encryption(m@),
            Error::TypeParse(m) => ErrorModel::TypeParse(m@),
            Error::Parse(_) => ErrorModel::Parse,
            Error::Utf8(_) => ErrorModel::Utf8,
            Error::UnsupportedSchemaVersion(v) => ErrorModel::UnsupportedSchemaVersion(v),
            Error::UnknownColumn(id) => ErrorModel::UnknownColumn(id@),
            Error::Base85(m) => ErrorModel::Base85(m@),
            Error::Unimplemented(m) => ErrorModel::Unimplemented(m@),
            Error::Runtime(m) => ErrorModel::Runtime(m@),
            Error::NullPointer => ErrorModel::NullPointer,
            Error::StringConversion(m) => ErrorModel::StringConversion(m@),
            Error::InvariantViolation(m) => ErrorModel::InvariantViolation(m@),
        }
    }
}

/// The text of a `serde_json` error: what its `Display` writes.
pub uninterp spec fn json_error_message(e: JsonError) -> Seq<char>;

/// The text of a UTF-8 error: what its `Display` writes.
pub uninterp spec fn utf8_error_message(e: core::str::Utf8Error) -> Seq<char>;

/// Calls `to_string` on a `serde_json` error, which writes its `Display`:
/// the text depends on the error alone.
#[verifier::external_body]
fn json_error_text(e: &JsonError) -> (text: String)
    ensures
        text@ == json_error_message(*e),
{
    e.to_string()
}

/// Calls `to_string` on a `core::str::Utf8Error`, which writes its
/// `Display`: the text depends on the error alone.
#[verifier::external_body]
fn utf8_error_text(e: &core::str::Utf8Error) -> (text: String)
    ensures
        text@ == utf8_error_message(*e),
{
    e.to_string()
}

impl ErrorModel {
    /// The message of an error whose text this library composes itself;
    /// `None` for the two kinds that carry a foreign error.
    pub open spec fn message_text(self) -> Option<Seq<char>> {
        match self {
            ErrorModel::Config(m) => Some(m),
            ErrorModel::ZeroKMS(m) => Some(m),
            ErrorModel::Encryption(m) => Some(m),
            ErrorModel::TypeParse(m) => Some(m),
            ErrorModel::Parse => None,
            ErrorModel::Utf8 => None,
            ErrorModel::UnsupportedSchemaVersion(v) => Some(
                "unsupported schema version "@ + decimal_text(v as nat)
                    + ": only version 2 is supported"@,
            ),
            ErrorModel::UnknownColumn(id) => Some(
                "unknown column `"@ + id.0 + "."@ + id.1 + "`"@,
            ),
            ErrorModel::Base85(m) => Some("base85 encoding error: "@ + m),
            ErrorModel::Unimplemented(m) => Some("feature not implemented: "@ + m),
            ErrorModel::Runtime(m) => Some("runtime error: "@ + m),
            ErrorModel::NullPointer => Some("null pointer provided"@),
            ErrorModel::StringConversion(m) => Some("string conversion error: "@ + m),
            ErrorModel::InvariantViolation(m) => Some(
                "internal error: "@ + m
                    + " (this is a bug in protect-ffi, please file an issue at https://github.com/cipherstash/protectphp-ffi/issues)"@,
            ),
        }
    }
}

impl Error {
    /// The message of an error: the foreign error's own text for the two
    /// variants that carry one, and the text that this library composes
    /// for every other.
    pub open spec fn message_text(self) -> Seq<char> {
        match self {
            Error::Parse(e) => json_error_message(e),
            Error::Utf8(e) => utf8_error_message(e),
            _ => self@.message_text()->0,
        }
    }

    /// The message that is handed to the caller through the error channel.
    pub fn to_string(&self) -> (message: String)
        ensures
            message@ == self.message_text(),
    {
        match self {
            Error::Config(m) => m.clone(),
            Error::ZeroKMS(m) => m.clone(),
            Error::Encryption(m) => m.clone(),
            Error::TypeParse(m) => m.clone(),
            Error::Parse(e) => json_error_text(e),
            Error::Utf8(e) => utf8_error_text(e),
            Error::UnsupportedSchemaVersion(v) => {
                let digits = decimal_string(*v as u64);
                String::from_str("unsupported schema version ").concat(digits.as_str()).concat(
                    ": only version 2 is supported",
                )
            },
            Error::UnknownColumn(id) => String::from_str("unknown column `").concat(
                id.table.as_str(),
            ).concat(".").concat(id.column.as_str()).concat("`"),
            Error::Base85(m) => String::from_str("base85 encoding error: ").concat(m.as_str()),
            Error::Unimplemented(m) => String::from_str("feature not implemented: ").concat(
                m.as_str(),
            ),
            Error::Runtime(m) => String::from_str("runtime error: ").concat(m.as_str()),
            Error::NullPointer => String::from_str("null pointer provided"),
            Error::StringConversion(m) => String::from_str("string conversion error: ").concat(
                m.as_str(),
            ),
            Error::InvariantViolation(m) => String::from_str("internal error: ").concat(
                m.as_str(),
            ).concat(
                " (this is a bug in protect-ffi, please file an issue at https://github.com/cipherstash/protectphp-ffi/issues)",
            ),
        }
    }
}

/// Whether a result reports an expected text or failure: the text itself,
/// or an error of the same kind and text.
pub open spec fn reports_text(r: Result<String, Error>, expected: Result<Seq<char>, ErrorModel>) -> bool {
    match expected {
        Ok(text) => r is Ok && r->Ok_0@ == text,
        Err(e) => r is Err && r->Err_0@ == e,
    }
}

impl From<JsonError> for Error {
    fn from(e: JsonError) -> (r: Error) {
        Error::Parse(e)
    }
}

impl vstd::std_specs::convert::FromSpecImpl<JsonError> for Error {
    open spec fn obeys_from_spec() -> bool {
        true
    }

    open spec fn from_spec(e: JsonError) -> Error {
        Error::Parse(e)
    }
}

impl From<core::str::Utf8Error> for Error {
    fn from(e: core::str::Utf8Error) -> (r: Error) {
        Error::Utf8(e)
    }
}

impl vstd::std_specs::convert::FromSpecImpl<core::str::Utf8Error> for Error {
    open spec fn obeys_from_spec() -> bool {
        true
    }

    open spec fn from_spec(e: core::str::Utf8Error) -> Error {
        Error::Utf8(e)
    }
}

} // verus!

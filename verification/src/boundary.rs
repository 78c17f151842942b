//! The safety contract of the foreign-call boundary, on plain values: what
//! a foreign string denotes, what is handed back as one, and how every
//! result is reported through two channels.
//!
//! Pointers themselves are not handled here. A foreign string arrives as
//! the bytes before its terminator, or as nothing where the pointer was
//! null; a string leaves as bytes with their terminator.

use vstd::prelude::*;
use vstd::string::StringExecFns;
use vstd::utf8::{decode_utf8, encode_utf8, valid_utf8};
use crate::error::{reports_text, Error, ErrorModel};
use crate::text::{decimal_string, decimal_text};

verus! {

/// Calls `core::str::from_utf8`: the string that the bytes encode where
/// they are valid UTF-8, an error where they are not.
#[verifier::external_body]
fn str_from_utf8(bytes: &[u8]) -> (r: Result<&str, core::str::Utf8Error>)
    ensures
        match r {
            Ok(text) => valid_utf8(bytes@) && text@ == decode_utf8(bytes@),
            Err(_) => !valid_utf8(bytes@),
        },
{
    core::str::from_utf8(bytes)
}

/// What a foreign string denotes: a null pointer and bytes that are not
/// UTF-8 fail, each in its own way.
pub open spec fn foreign_string(bytes: Option<Seq<u8>>) -> Result<Seq<char>, ErrorModel> {
    match bytes {
        None => Err(ErrorModel::NullPointer),
        Some(bytes) => if valid_utf8(bytes) {
            Ok(decode_utf8(bytes))
        } else {
            Err(ErrorModel::Utf8)
        },
    }
}

/// Converts a foreign string to a [`String`]. The bytes are those before
/// the terminator; `None` stands for a null pointer.
pub fn c_str_to_string(c_string: Option<&[u8]>) -> (r: Result<String, Error>)
    ensures
        reports_text(
            r,
            foreign_string(
                match c_string {
                    Some(bytes) => Some(bytes@),
                    None => None,
                },
            ),
        ),
{
    match c_string {
        None => Err(Error::NullPointer),
        Some(bytes) => match str_from_utf8(bytes) {
            Ok(text) => Ok(text.to_owned()),
            Err(e) => Err(Error::Utf8(e)),
        },
    }
}

/// Converts an optional foreign string: a null pointer is no string, and
/// no failure.
pub fn optional_c_str_to_string(c_string: Option<&[u8]>) -> (r: Result<Option<String>, Error>)
    ensures
        match c_string {
            None => r is Ok && r->Ok_0 is None,
            Some(bytes) => if valid_utf8(bytes@) {
                r is Ok && r->Ok_0 is Some && r->Ok_0->0@ == decode_utf8(bytes@)
            } else {
                r is Err && r->Err_0 is Utf8
            },
        },
{
    match c_string {
        None => Ok(None),
        Some(bytes) => match c_str_to_string(Some(bytes)) {
            Ok(text) => Ok(Some(text)),
            Err(e) => Err(e),
        },
    }
}

/// The position of the first zero byte, if there is one.
pub open spec fn first_nul(bytes: Seq<u8>) -> Option<int>
    decreases bytes.len(),
{
    if bytes.len() == 0 {
        None
    } else {
        match first_nul(bytes.drop_last()) {
            Some(position) => Some(position),
            None => if bytes.last() == 0 {
                Some(bytes.len() - 1)
            } else {
                None
            },
        }
    }
}

/// The message of the failure to hand out a string with a zero byte in it.
pub open spec fn nul_message(position: int) -> Seq<char> {
    "nul byte found in provided data at position: "@ + decimal_text(position as nat)
}

/// The bytes of a string that is handed to the foreign side: its UTF-8
/// encoding and a terminator. A string with a zero byte in it cannot be
/// represented.
pub open spec fn c_string_of(text: Seq<char>) -> Result<Seq<u8>, ErrorModel> {
    match first_nul(encode_utf8(text)) {
        Some(position) => Err(ErrorModel::StringConversion(nul_message(position))),
        None => Ok(encode_utf8(text).push(0u8)),
    }
}

/// A zero byte found within a prefix is the first of the whole.
pub proof fn lemma_first_nul_prefix(bytes: Seq<u8>, n: int)
    requires
        0 <= n <= bytes.len(),
        first_nul(bytes.take(n)) is Some,
    ensures
        first_nul(bytes) == first_nul(bytes.take(n)),
    decreases bytes.len() - n,
{
    if n < bytes.len() {
        assert(bytes.take(n + 1).drop_last() =~= bytes.take(n));
        lemma_first_nul_prefix(bytes, n + 1);
    } else {
        assert(bytes.take(n) =~= bytes);
    }
}

/// Converts a [`String`] to the bytes of a foreign string.
pub fn string_to_c_str(string: String) -> (r: Result<Vec<u8>, Error>)
    ensures
        match c_string_of(string@) {
            Ok(bytes) => r is Ok && r->Ok_0@ == bytes,
            Err(e) => r is Err && r->Err_0@ == e,
        },
{
    let bytes = string.as_str().as_bytes();
    let ghost all = bytes@;
    let mut c_string: Vec<u8> = Vec::new();
    let mut i: usize = 0;
    assert(all.take(0) =~= Seq::<u8>::empty());
    while i < bytes.len()
        invariant
            i <= bytes.len(),
            all == bytes@,
            all == encode_utf8(string@),
            first_nul(all.take(i as int)) is None,
            c_string@ == all.take(i as int),
        decreases bytes.len() - i,
    {
        proof {
            assert(all.take(i as int + 1).drop_last() =~= all.take(i as int));
            assert(all.take(i as int + 1).last() == bytes@[i as int]);
        }
        if bytes[i] == 0 {
            proof {
                lemma_first_nul_prefix(all, i as int + 1);
            }
            return Err(
                Error::StringConversion(
                    String::from_str("nul byte found in provided data at position: ").concat(
                        decimal_string(i as u64).as_str(),
                    ),
                ),
            );
        }
        c_string.push(bytes[i]);
        i += 1;
        assert(c_string@ =~= all.take(i as int));
    }
    assert(all.take(bytes.len() as int) =~= all);
    c_string.push(0);
    Ok(c_string)
}

/// The bytes of a message that is handed to the foreign side: its UTF-8
/// encoding up to its first zero byte, if it has one, and a terminator.
/// Every message can be handed out.
pub open spec fn c_message_of(text: Seq<char>) -> Seq<u8> {
    let bytes = encode_utf8(text);
    match first_nul(bytes) {
        Some(position) => bytes.take(position).push(0u8),
        None => bytes.push(0u8),
    }
}

/// Where a zero byte is found first, it stands at that position and none
/// stands before it.
pub proof fn lemma_first_nul_position(bytes: Seq<u8>)
    ensures
        match first_nul(bytes) {
            Some(position) => 0 <= position < bytes.len() && bytes[position] == 0 && forall|i: int|
                0 <= i < position ==> bytes[i] != 0,
            None => forall|i: int| 0 <= i < bytes.len() ==> bytes[i] != 0,
        },
    decreases bytes.len(),
{
    if bytes.len() > 0 {
        lemma_first_nul_position(bytes.drop_last());
        assert forall|i: int| 0 <= i < bytes.len() - 1 implies bytes.drop_last()[i] == bytes[i] by {}
    }
}

/// Converts a message to the bytes of a foreign string, cut before its
/// first zero byte.
pub fn message_to_c_str(message: String) -> (c_string: Vec<u8>)
    ensures
        c_string@ == c_message_of(message@),
{
    let bytes = message.as_str().as_bytes();
    let ghost all = bytes@;
    let mut c_string: Vec<u8> = Vec::new();
    let mut i: usize = 0;
    assert(all.take(0) =~= Seq::<u8>::empty());
    while i < bytes.len()
        invariant
            i <= bytes.len(),
            all == bytes@,
            all == encode_utf8(message@),
            first_nul(all.take(i as int)) is None,
            c_string@ == all.take(i as int),
        decreases bytes.len() - i,
    {
        proof {
            assert(all.take(i as int + 1).drop_last() =~= all.take(i as int));
            assert(all.take(i as int + 1).last() == bytes@[i as int]);
        }
        if bytes[i] == 0 {
            proof {
                lemma_first_nul_prefix(all, i as int + 1);
                assert(first_nul(all) == Some(i as int));
            }
            c_string.push(0);
            return c_string;
        }
        c_string.push(bytes[i]);
        i += 1;
        assert(c_string@ =~= all.take(i as int));
    }
    assert(all.take(bytes.len() as int) =~= all);
    c_string.push(0);
    c_string
}

/// What is done to the error-message slot of a call.
#[derive(Debug, PartialEq, Eq)]
pub enum ErrorSlot {
    /// The slot is set to null.
    Cleared,
    /// The slot is set to a message, given as the bytes of a foreign
    /// string.
    Message(Vec<u8>),
}

/// How a call reports through its two channels: the direct return value,
/// null where absent, and the error-message slot.
#[derive(Debug, PartialEq, Eq)]
pub struct FfiOutcome {
    /// The bytes of the returned foreign string, or `None` for null.
    pub value: Option<Vec<u8>>,
    /// What is done to the error-message slot.
    pub error: ErrorSlot,
}

/// What a failure puts into the error slot: its message.
pub open spec fn failure_slot(message: Seq<char>) -> (Option<Seq<u8>>, Option<Seq<u8>>) {
    (None, Some(c_message_of(message)))
}

/// An outcome, as mathematical values: the returned bytes, and the
/// message in the error slot where it is not cleared.
pub open spec fn outcome_view(outcome: FfiOutcome) -> (Option<Seq<u8>>, Option<Seq<u8>>) {
    (
        match outcome.value {
            Some(bytes) => Some(bytes@),
            None => None,
        },
        match outcome.error {
            ErrorSlot::Message(bytes) => Some(bytes@),
            ErrorSlot::Cleared => None,
        },
    )
}

/// How the result of a call is reported. A text that can be handed out is
/// returned and the error slot cleared. A text that cannot, and every
/// error, gives null and the message of the failure in the error slot.
pub open spec fn reported(result: Result<String, Error>) -> (Option<Seq<u8>>, Option<Seq<u8>>) {
    match result {
        Ok(text) => match c_string_of(text@) {
            Ok(bytes) => (Some(bytes), None),
            Err(e) => failure_slot(e.message_text()->0),
        },
        Err(e) => failure_slot(e.message_text()),
    }
}

/// What setting an error does to the slot: the message of the error goes
/// in, whatever the error.
pub fn set_error(error: &Error) -> (slot: ErrorSlot)
    ensures
        slot matches ErrorSlot::Message(message) && message@ == c_message_of(error.message_text()),
{
    ErrorSlot::Message(message_to_c_str(error.to_string()))
}

/// What clearing does to the slot.
pub fn clear_error() -> (slot: ErrorSlot)
    ensures
        slot is Cleared,
{
    ErrorSlot::Cleared
}

/// Reports the result of a call that returns a string. On success the
/// error slot is cleared and the string returned. A string that cannot be
/// represented is a failure like any other: on failure null is returned
/// and the error is set.
pub fn handle_ffi_result(result: Result<String, Error>) -> (outcome: FfiOutcome)
    ensures
        outcome_view(outcome) == reported(result),
        // exactly one of the two channels is used
        outcome.value is Some <==> outcome.error is Cleared,
{
    match result {
        Ok(success_value) => match string_to_c_str(success_value) {
            Ok(bytes) => FfiOutcome { value: Some(bytes), error: clear_error() },
            Err(error) => FfiOutcome { value: None, error: set_error(&error) },
        },
        Err(error) => FfiOutcome { value: None, error: set_error(&error) },
    }
}

/// Exactly one channel carries the report of a call: a returned string
/// with a cleared error slot, or null with a message. The message is never
/// empty of its terminator, and no zero byte stands before it.
pub proof fn lemma_exactly_one_channel(result: Result<String, Error>)
    ensures
        reported(result).0 is Some <==> reported(result).1 is None,
        reported(result).1 matches Some(message) ==> message.len() > 0 && message.last() == 0
            && forall|i: int| 0 <= i < message.len() - 1 ==> message[i] != 0,
        reported(result).0 matches Some(value) ==> value.len() > 0 && value.last() == 0
            && forall|i: int| 0 <= i < value.len() - 1 ==> value[i] != 0,
{
    match result {
        Ok(text) => {
            lemma_first_nul_position(encode_utf8(text@));
            match c_string_of(text@) {
                Ok(bytes) => {},
                Err(e) => {
                    lemma_first_nul_position(encode_utf8(e.message_text()->0));
                },
            }
        },
        Err(e) => {
            lemma_first_nul_position(encode_utf8(e.message_text()));
        },
    }
}

} // verus!

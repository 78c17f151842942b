//! The wire format: the JSON text of envelopes, of search terms and of
//! decrypted values.
//!
//! Strings are quoted by `serde_json`; everything else is composed here.

use vstd::prelude::*;
use vstd::string::StringExecFns;
use crate::envelope::{
    entry_views, envelope_views, Encrypted, EncryptedModel, SteVecEntry, SteVecEntryModel,
};
use crate::json::{json_quote, json_string_literal};
use crate::text::{decimal_string, decimal_text, text_views};

verus! {

/// The items separated by commas.
pub open spec fn json_join(items: Seq<Seq<char>>) -> Seq<char>
    decreases items.len(),
{
    if items.len() == 0 {
        Seq::empty()
    } else if items.len() == 1 {
        items[0]
    } else {
        json_join(items.drop_last()) + ","@ + items.last()
    }
}

/// A JSON array of items that are JSON texts already.
pub open spec fn json_array(items: Seq<Seq<char>>) -> Seq<char> {
    "["@ + json_join(items) + "]"@
}

/// `null`, or the string literal.
pub open spec fn json_optional_string(value: Option<Seq<char>>) -> Seq<char> {
    match value {
        None => "null"@,
        Some(text) => json_string_literal(text),
    }
}

/// `null`, or the array of string literals.
pub open spec fn json_optional_strings(value: Option<Seq<Seq<char>>>) -> Seq<char> {
    match value {
        None => "null"@,
        Some(items) => json_array(items.map_values(|text: Seq<char>| json_string_literal(text))),
    }
}

/// `null`, or the array of numbers in decimal.
pub open spec fn json_optional_numbers(value: Option<Seq<u16>>) -> Seq<char> {
    match value {
        None => "null"@,
        Some(items) => json_array(items.map_values(|n: u16| decimal_text(n as nat))),
    }
}

/// `true` or `false`.
pub open spec fn json_bool(value: bool) -> Seq<char> {
    if value {
        "true"@
    } else {
        "false"@
    }
}

/// A structural entry on the wire: selector `s`, term `t`, sub-record `r`,
/// parent-is-array `pa`.
pub open spec fn ste_vec_entry_json(entry: SteVecEntryModel) -> Seq<char> {
    "{\"s\":"@ + json_string_literal(entry.tokenized_selector) + ",\"t\":"@ + json_string_literal(
        entry.term,
    ) + ",\"r\":"@ + json_string_literal(entry.record) + ",\"pa\":"@ + json_bool(
        entry.parent_is_array,
    ) + "}"@
}

/// `null`, or the array of structural entries.
pub open spec fn json_optional_entries(value: Option<Seq<SteVecEntryModel>>) -> Seq<char> {
    match value {
        None => "null"@,
        Some(items) => json_array(
            items.map_values(|entry: SteVecEntryModel| ste_vec_entry_json(entry)),
        ),
    }
}

/// An identifier on the wire: table `t`, column `c`.
pub open spec fn identifier_json(identifier: (Seq<char>, Seq<char>)) -> Seq<char> {
    "{\"t\":"@ + json_string_literal(identifier.0) + ",\"c\":"@ + json_string_literal(identifier.1)
        + "}"@
}

/// An envelope on the wire, discriminated by its kind tag `k`: `ct` with
/// ciphertext `c`, data type `dt`, exact-match `hm`, order-revealing `ob`,
/// full-text `bf`, identifier `i` and protocol version `v`; or `sv` with
/// ciphertext, data type, structural entries `sv`, identifier and version.
/// An absent field is `null`.
pub open spec fn envelope_json(envelope: EncryptedModel) -> Seq<char> {
    match envelope {
        EncryptedModel::Ciphertext {
            ciphertext,
            data_type,
            unique_index,
            ore_index,
            match_index,
            identifier,
            version,
        } => "{\"k\":\"ct\",\"c\":"@ + json_string_literal(ciphertext) + ",\"dt\":"@
            + json_string_literal(data_type) + ",\"hm\":"@ + json_optional_string(unique_index)
            + ",\"ob\":"@ + json_optional_strings(ore_index) + ",\"bf\":"@ + json_optional_numbers(
            match_index,
        ) + ",\"i\":"@ + identifier_json(identifier) + ",\"v\":"@ + decimal_text(version as nat)
            + "}"@,
        EncryptedModel::SteVec { ciphertext, data_type, ste_vec_index, identifier, version } => {
            "{\"k\":\"sv\",\"c\":"@ + json_string_literal(ciphertext) + ",\"dt\":"@
                + json_string_literal(data_type) + ",\"sv\":"@ + json_optional_entries(
                ste_vec_index,
            ) + ",\"i\":"@ + identifier_json(identifier) + ",\"v\":"@ + decimal_text(
                version as nat,
            ) + "}"@
        },
    }
}

/// A search term on the wire: the index fields of an envelope and its
/// identifier, as they stand in the envelope, without the ciphertext, the
/// kind tag, the data type and the version.
pub open spec fn search_term_json(envelope: EncryptedModel) -> Seq<char> {
    match envelope {
        EncryptedModel::Ciphertext {
            ciphertext,
            data_type,
            unique_index,
            ore_index,
            match_index,
            identifier,
            version,
        } => "{\"hm\":"@ + json_optional_string(unique_index) + ",\"ob\":"@
            + json_optional_strings(ore_index) + ",\"bf\":"@ + json_optional_numbers(match_index)
            + ",\"i\":"@ + identifier_json(identifier) + "}"@,
        EncryptedModel::SteVec { ciphertext, data_type, ste_vec_index, identifier, version } => {
            "{\"sv\":"@ + json_optional_entries(ste_vec_index) + ",\"i\":"@
                + identifier_json(identifier) + "}"@
        },
    }
}

/// Joins JSON texts with commas.
fn join(parts: &Vec<String>) -> (joined: String)
    ensures
        joined@ == json_join(text_views(parts@)),
{
    let ghost all = text_views(parts@);
    let mut joined = String::new();
    let mut i: usize = 0;
    assert(all.take(0) =~= Seq::<Seq<char>>::empty());
    while i < parts.len()
        invariant
            i <= parts.len(),
            all == text_views(parts@),
            joined@ == json_join(all.take(i as int)),
        decreases parts.len() - i,
    {
        proof {
            assert(all.take(i as int + 1).drop_last() =~= all.take(i as int));
            assert(all.take(i as int + 1).last() == parts@[i as int]@);
        }
        if i > 0 {
            joined.append(",");
        } else {
            assert(joined@ + parts@[i as int]@ =~= parts@[i as int]@);
        }
        joined.append(parts[i].as_str());
        i += 1;
    }
    assert(all.take(parts.len() as int) =~= all);
    joined
}

/// Wraps joined JSON texts in brackets.
fn array(parts: &Vec<String>) -> (text: String)
    ensures
        text@ == json_array(text_views(parts@)),
{
    let mut text = String::from_str("[");
    text.append(join(parts).as_str());
    text.append("]");
    text
}

fn optional_string(value: &Option<String>) -> (text: String)
    ensures
        text@ == json_optional_string(
            match *value {
                Some(inner) => Some(inner@),
                None => None,
            },
        ),
{
    match value {
        Some(inner) => json_quote(inner.as_str()),
        None => String::from_str("null"),
    }
}

fn optional_strings(value: &Option<Vec<String>>) -> (text: String)
    ensures
        text@ == json_optional_strings(
            match *value {
                Some(items) => Some(text_views(items@)),
                None => None,
            },
        ),
{
    match value {
        Some(items) => {
            let mut parts: Vec<String> = Vec::new();
            let mut i: usize = 0;
            while i < items.len()
                invariant
                    i <= items.len(),
                    parts@.len() == i,
                    forall|j: int|
                        0 <= j < i ==> (#[trigger] parts@[j])@ == json_string_literal(items@[j]@),
                decreases items.len() - i,
            {
                parts.push(json_quote(items[i].as_str()));
                i += 1;
            }
            assert(text_views(parts@) =~= text_views(items@).map_values(
                |text: Seq<char>| json_string_literal(text),
            ));
            array(&parts)
        },
        None => String::from_str("null"),
    }
}

fn optional_numbers(value: &Option<Vec<u16>>) -> (text: String)
    ensures
        text@ == json_optional_numbers(
            match *value {
                Some(items) => Some(items@),
                None => None,
            },
        ),
{
    match value {
        Some(items) => {
            let mut parts: Vec<String> = Vec::new();
            let mut i: usize = 0;
            while i < items.len()
                invariant
                    i <= items.len(),
                    parts@.len() == i,
                    forall|j: int|
                        0 <= j < i ==> (#[trigger] parts@[j])@ == decimal_text(items@[j] as nat),
                decreases items.len() - i,
            {
                parts.push(decimal_string(items[i] as u64));
                i += 1;
            }
            assert(text_views(parts@) =~= items@.map_values(|n: u16| decimal_text(n as nat)));
            array(&parts)
        },
        None => String::from_str("null"),
    }
}

fn entry_to_json(entry: &SteVecEntry) -> (text: String)
    ensures
        text@ == ste_vec_entry_json(entry@),
{
    let mut text = String::from_str("{\"s\":");
    text.append(json_quote(entry.tokenized_selector.as_str()).as_str());
    text.append(",\"t\":");
    text.append(json_quote(entry.term.as_str()).as_str());
    text.append(",\"r\":");
    text.append(json_quote(entry.record.as_str()).as_str());
    text.append(",\"pa\":");
    if entry.parent_is_array {
        text.append("true");
    } else {
        text.append("false");
    }
    text.append("}");
    text
}

fn optional_entries(value: &Option<Vec<SteVecEntry>>) -> (text: String)
    ensures
        text@ == json_optional_entries(
            match *value {
                Some(items) => Some(entry_views(items@)),
                None => None,
            },
        ),
{
    match value {
        Some(items) => {
            let mut parts: Vec<String> = Vec::new();
            let mut i: usize = 0;
            while i < items.len()
                invariant
                    i <= items.len(),
                    parts@.len() == i,
                    forall|j: int|
                        0 <= j < i ==> (#[trigger] parts@[j])@ == ste_vec_entry_json(items@[j]@),
                decreases items.len() - i,
            {
                parts.push(entry_to_json(&items[i]));
                i += 1;
            }
            assert(text_views(parts@) =~= entry_views(items@).map_values(
                |entry: SteVecEntryModel| ste_vec_entry_json(entry),
            ));
            array(&parts)
        },
        None => String::from_str("null"),
    }
}

fn identifier_to_json(table: &str, column: &str) -> (text: String)
    ensures
        text@ == identifier_json((table@, column@)),
{
    let mut text = String::from_str("{\"t\":");
    text.append(json_quote(table).as_str());
    text.append(",\"c\":");
    text.append(json_quote(column).as_str());
    text.append("}");
    text
}

impl Encrypted {
    /// The JSON text of the envelope.
    pub fn to_json(&self) -> (text: String)
        ensures
            text@ == envelope_json(self@),
    {
        match self {
            Encrypted::Ciphertext {
                ciphertext,
                data_type,
                unique_index,
                ore_index,
                match_index,
                identifier,
                version,
            } => {
                let mut text = String::from_str("{\"k\":\"ct\",\"c\":");
                text.append(json_quote(ciphertext.as_str()).as_str());
                text.append(",\"dt\":");
                text.append(json_quote(data_type.as_str()).as_str());
                text.append(",\"hm\":");
                text.append(optional_string(unique_index).as_str());
                text.append(",\"ob\":");
                text.append(optional_strings(ore_index).as_str());
                text.append(",\"bf\":");
                text.append(optional_numbers(match_index).as_str());
                text.append(",\"i\":");
                text.append(
                    identifier_to_json(identifier.table.as_str(), identifier.column.as_str()).as_str(),
                );
                text.append(",\"v\":");
                text.append(decimal_string(*version as u64).as_str());
                text.append("}");
                text
            },
            Encrypted::SteVec { ciphertext, data_type, ste_vec_index, identifier, version } => {
                let mut text = String::from_str("{\"k\":\"sv\",\"c\":");
                text.append(json_quote(ciphertext.as_str()).as_str());
                text.append(",\"dt\":");
                text.append(json_quote(data_type.as_str()).as_str());
                text.append(",\"sv\":");
                text.append(optional_entries(ste_vec_index).as_str());
                text.append(",\"i\":");
                text.append(
                    identifier_to_json(identifier.table.as_str(), identifier.column.as_str()).as_str(),
                );
                text.append(",\"v\":");
                text.append(decimal_string(*version as u64).as_str());
                text.append("}");
                text
            },
        }
    }

    /// The JSON text of the search term of the envelope: its index fields
    /// and identifier, without the ciphertext.
    pub fn to_search_term_json(&self) -> (text: String)
        ensures
            text@ == search_term_json(self@),
    {
        match self {
            Encrypted::Ciphertext {
                ciphertext,
                data_type,
                unique_index,
                ore_index,
                match_index,
                identifier,
                version,
            } => {
                let mut text = String::from_str("{\"hm\":");
                text.append(optional_string(unique_index).as_str());
                text.append(",\"ob\":");
                text.append(optional_strings(ore_index).as_str());
                text.append(",\"bf\":");
                text.append(optional_numbers(match_index).as_str());
                text.append(",\"i\":");
                text.append(
                    identifier_to_json(identifier.table.as_str(), identifier.column.as_str()).as_str(),
                );
                text.append("}");
                text
            },
            Encrypted::SteVec { ciphertext, data_type, ste_vec_index, identifier, version } => {
                let mut text = String::from_str("{\"sv\":");
                text.append(optional_entries(ste_vec_index).as_str());
                text.append(",\"i\":");
                text.append(
                    identifier_to_json(identifier.table.as_str(), identifier.column.as_str()).as_str(),
                );
                text.append("}");
                text
            },
        }
    }
}

/// The JSON text of the envelopes of a bulk encryption: an array, in
/// order.
pub fn envelopes_to_json(envelopes: &Vec<Encrypted>) -> (text: String)
    ensures
        text@ == json_array(
            envelope_views(envelopes@).map_values(|e: EncryptedModel| envelope_json(e)),
        ),
{
    let mut parts: Vec<String> = Vec::new();
    let mut i: usize = 0;
    while i < envelopes.len()
        invariant
            i <= envelopes.len(),
            parts@.len() == i,
            forall|j: int| 0 <= j < i ==> (#[trigger] parts@[j])@ == envelope_json(envelopes@[j]@),
        decreases envelopes.len() - i,
    {
        parts.push(envelopes[i].to_json());
        i += 1;
    }
    assert(text_views(parts@) =~= envelope_views(envelopes@).map_values(
        |e: EncryptedModel| envelope_json(e),
    ));
    array(&parts)
}

/// The JSON text of the search terms of a request: an array, in order.
pub fn search_terms_to_json(envelopes: &Vec<Encrypted>) -> (text: String)
    ensures
        text@ == json_array(
            envelope_views(envelopes@).map_values(|e: EncryptedModel| search_term_json(e)),
        ),
{
    let mut parts: Vec<String> = Vec::new();
    let mut i: usize = 0;
    while i < envelopes.len()
        invariant
            i <= envelopes.len(),
            parts@.len() == i,
            forall|j: int|
                0 <= j < i ==> (#[trigger] parts@[j])@ == search_term_json(envelopes@[j]@),
        decreases envelopes.len() - i,
    {
        parts.push(envelopes[i].to_search_term_json());
        i += 1;
    }
    assert(text_views(parts@) =~= envelope_views(envelopes@).map_values(
        |e: EncryptedModel| search_term_json(e),
    ));
    array(&parts)
}

/// The JSON text of the plaintexts of a bulk decryption: an array of
/// string literals, in order.
pub fn plaintexts_to_json(plaintexts: &Vec<String>) -> (text: String)
    ensures
        text@ == json_array(
            text_views(plaintexts@).map_values(|t: Seq<char>| json_string_literal(t)),
        ),
{
    let mut parts: Vec<String> = Vec::new();
    let mut i: usize = 0;
    while i < plaintexts.len()
        invariant
            i <= plaintexts.len(),
            parts@.len() == i,
            forall|j: int|
                0 <= j < i ==> (#[trigger] parts@[j])@ == json_string_literal(plaintexts@[j]@),
        decreases plaintexts.len() - i,
    {
        parts.push(json_quote(plaintexts[i].as_str()));
        i += 1;
    }
    assert(text_views(parts@) =~= text_views(plaintexts@).map_values(
        |t: Seq<char>| json_string_literal(t),
    ));
    array(&parts)
}

} // verus!

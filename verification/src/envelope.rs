//! The result marshaller: from what the encryption backend returns to the
//! one stable, versioned wire envelope.

use vstd::prelude::*;
use vstd::string::StringExecFns;
use crate::encrypt_config::{CastAs, Identifier};
use crate::error::{Error, ErrorModel};
use crate::hexfmt::{hex_encode, hex_text};
use crate::json::json_error;
use crate::text::text_views;

verus! {

/// The protocol version that every envelope is stamped with. It does not
/// follow the schema version of the configuration.
pub const ENVELOPE_VERSION: u16 = 2;

/// A structured text encryption vector entry.
#[derive(Debug)]
pub struct SteVecEntry {
    /// Tokenized selector representing the encrypted JSON path to the value.
    pub tokenized_selector: String,
    /// Encrypted term value for equality and order-preserving queries.
    pub term: String,
    /// Base85-encoded ciphertext containing the encrypted record data.
    pub record: String,
    /// Whether the parent JSON element is an array.
    pub parent_is_array: bool,
}

/// An encrypted value with associated encryption indexes or structured
/// text encryption vectors.
#[derive(Debug)]
pub enum Encrypted {
    /// Encrypted ciphertext with encryption indexes based on column
    /// configuration.
    Ciphertext {
        /// Base85-encoded ciphertext containing the encrypted data.
        ciphertext: String,
        /// Data type for casting.
        data_type: String,
        /// HMAC index for exact equality queries and uniqueness constraints.
        unique_index: Option<String>,
        /// Order-revealing encryption index for equality checks, range
        /// comparisons, range queries, and sorting operations.
        ore_index: Option<Vec<String>>,
        /// Bloom filter index for full-text search queries.
        match_index: Option<Vec<u16>>,
        /// Table and column identifier for this encrypted value.
        identifier: Identifier,
        /// Protocol version for backward compatibility.
        version: u16,
    },
    /// Encrypted ciphertext with structured text encryption vector for
    /// JSONB containment queries.
    SteVec {
        /// Base85-encoded ciphertext containing the encrypted data.
        ciphertext: String,
        /// Data type for casting.
        data_type: String,
        /// Structured text encryption vector for JSONB containment queries.
        ste_vec_index: Option<Vec<SteVecEntry>>,
        /// Table and column identifier for this encrypted value.
        identifier: Identifier,
        /// Protocol version for backward compatibility.
        version: u16,
    },
}

/// A structural entry of an envelope, as mathematical values.
pub struct SteVecEntryModel {
    pub tokenized_selector: Seq<char>,
    pub term: Seq<char>,
    pub record: Seq<char>,
    pub parent_is_array: bool,
}

/// An envelope, as mathematical values.
pub enum EncryptedModel {
    Ciphertext {
        ciphertext: Seq<char>,
        data_type: Seq<char>,
        unique_index: Option<Seq<char>>,
        ore_index: Option<Seq<Seq<char>>>,
        match_index: Option<Seq<u16>>,
        identifier: (Seq<char>, Seq<char>),
        version: u16,
    },
    SteVec {
        ciphertext: Seq<char>,
        data_type: Seq<char>,
        ste_vec_index: Option<Seq<SteVecEntryModel>>,
        identifier: (Seq<char>, Seq<char>),
        version: u16,
    },
}

impl View for SteVecEntry {
    type V = SteVecEntryModel;

    open spec fn view(&self) -> SteVecEntryModel {
        SteVecEntryModel {
            tokenized_selector: self.tokenized_selector@,
            term: self.term@,
            record: self.record@,
            parent_is_array: self.parent_is_array,
        }
    }
}

/// The views of a sequence of structural entries, item by item.
pub open spec fn entry_views(items: Seq<SteVecEntry>) -> Seq<SteVecEntryModel> {
    items.map_values(|item: SteVecEntry| item@)
}

impl View for Encrypted {
    type V = EncryptedModel;

    open spec fn view(&self) -> EncryptedModel {
        match *self {
            Encrypted::Ciphertext {
                ciphertext,
                data_type,
                unique_index,
                ore_index,
                match_index,
                identifier,
                version,
            } => EncryptedModel::Ciphertext {
                ciphertext: ciphertext@,
                data_type: data_type@,
                unique_index: match unique_index {
                    Some(text) => Some(text@),
                    None => None,
                },
                ore_index: match ore_index {
                    Some(items) => Some(text_views(items@)),
                    None => None,
                },
                match_index: match match_index {
                    Some(bits) => Some(bits@),
                    None => None,
                },
                identifier: identifier@,
                version,
            },
            Encrypted::SteVec { ciphertext, data_type, ste_vec_index, identifier, version } => {
                EncryptedModel::SteVec {
                    ciphertext: ciphertext@,
                    data_type: data_type@,
                    ste_vec_index: match ste_vec_index {
                        Some(items) => Some(entry_views(items@)),
                        None => None,
                    },
                    identifier: identifier@,
                    version,
                }
            },
        }
    }
}

/// Formats HMAC index bytes into hex-encoded string.
pub fn format_index_term_binary(index_bytes: &[u8]) -> (text: String)
    ensures
        text@ == hex_text(index_bytes@),
{
    hex_encode(index_bytes)
}

/// Formats ORE index bytes into hex-encoded string.
pub fn format_index_term_ore_bytes(index_bytes: &[u8]) -> (text: String)
    ensures
        text@ == hex_text(index_bytes@),
{
    hex_encode(index_bytes)
}

/// The hexadecimal texts of a sequence of byte strings, item by item.
pub open spec fn hex_texts(items: Seq<Vec<u8>>) -> Seq<Seq<char>> {
    items.map_values(|item: Vec<u8>| hex_text(item@))
}

/// Formats ORE index array bytes into hex-encoded strings.
pub fn format_index_term_ore_array(ore_byte_arrays: &[Vec<u8>]) -> (formatted: Vec<String>)
    ensures
        text_views(formatted@) == hex_texts(ore_byte_arrays@),
{
    let mut formatted: Vec<String> = Vec::new();
    let mut i: usize = 0;
    while i < ore_byte_arrays.len()
        invariant
            i <= ore_byte_arrays.len(),
            formatted@.len() == i,
            forall|j: int| 0 <= j < i ==> (#[trigger] formatted@[j])@ == hex_text(ore_byte_arrays@[j]@),
        decreases ore_byte_arrays.len() - i,
    {
        formatted.push(format_index_term_ore_bytes(ore_byte_arrays[i].as_slice()));
        i += 1;
    }
    assert(text_views(formatted@) =~= hex_texts(ore_byte_arrays@));
    formatted
}

/// Formats ORE index bytes into a single-element hex-encoded string array.
pub fn format_index_term_ore(index_bytes: &[u8]) -> (formatted: Vec<String>)
    ensures
        text_views(formatted@) == seq![hex_text(index_bytes@)],
{
    let mut formatted: Vec<String> = Vec::new();
    formatted.push(format_index_term_ore_bytes(index_bytes));
    assert(text_views(formatted@) =~= seq![hex_text(index_bytes@)]);
    formatted
}


/// A record rendered in the compact multi-part text encoding, or the
/// message with which the encoder failed.
pub type EncodedRecord = Result<String, String>;

/// An index term as the encryption backend returns it.
#[derive(Debug)]
pub enum IndexTerm {
    /// A binary term: fills the exact-match field.
    Binary(Vec<u8>),
    /// A bit-map term: fills the full-text field.
    BitMap(Vec<u16>),
    /// A full order-revealing term.
    OreFull(Vec<u8>),
    /// An array of full order-revealing terms.
    OreArray(Vec<Vec<u8>>),
    /// A single-sided order-revealing term.
    OreLeft(Vec<u8>),
    /// No value: semantically absent.
    Null,
    /// Any other kind of term, with a description of it.
    Unsupported(String),
}

/// One entry of the structural result of the backend.
#[derive(Debug)]
pub struct BackendSteVecEntry {
    /// The bytes of the tokenized path selector.
    pub tokenized_selector: Vec<u8>,
    /// The term as JSON text, or the message with which rendering it
    /// failed.
    pub term: Result<Vec<u8>, String>,
    /// The entry's own sub-record.
    pub record: EncodedRecord,
    /// Whether the parent JSON element is an array.
    pub parent_is_array: bool,
}

/// What the encryption backend returns for one value: either a flat
/// ciphertext with index terms, or a structural result with its root
/// ciphertext and its entries.
#[derive(Debug)]
pub enum BackendEncrypted {
    Record { ciphertext: EncodedRecord, terms: Vec<IndexTerm> },
    SteVec {
        /// The root record, or the backend's message where the result has
        /// none.
        root: Result<EncodedRecord, String>,
        entries: Vec<BackendSteVecEntry>,
    },
}

/// An index term, as mathematical values.
pub enum IndexTermModel {
    Binary(Seq<u8>),
    BitMap(Seq<u16>),
    OreFull(Seq<u8>),
    OreArray(Seq<Seq<u8>>),
    OreLeft(Seq<u8>),
    Null,
    Unsupported(Seq<char>),
}

/// A structural backend entry, as mathematical values.
pub struct BackendSteVecEntryModel {
    pub tokenized_selector: Seq<u8>,
    pub term: Result<Seq<u8>, Seq<char>>,
    pub record: Result<Seq<char>, Seq<char>>,
    pub parent_is_array: bool,
}

/// A backend result, as mathematical values.
pub enum BackendEncryptedModel {
    Record { ciphertext: Result<Seq<char>, Seq<char>>, terms: Seq<IndexTermModel> },
    SteVec {
        root: Result<Result<Seq<char>, Seq<char>>, Seq<char>>,
        entries: Seq<BackendSteVecEntryModel>,
    },
}

/// The views of a sequence of byte strings, item by item.
pub open spec fn byte_views(items: Seq<Vec<u8>>) -> Seq<Seq<u8>> {
    items.map_values(|item: Vec<u8>| item@)
}

/// An encoded record, as mathematical values.
pub open spec fn encoded_view(record: EncodedRecord) -> Result<Seq<char>, Seq<char>> {
    match record {
        Ok(text) => Ok(text@),
        Err(message) => Err(message@),
    }
}

impl View for IndexTerm {
    type V = IndexTermModel;

    open spec fn view(&self) -> IndexTermModel {
        match *self {
            IndexTerm::Binary(bytes) => IndexTermModel::Binary(bytes@),
            IndexTerm::BitMap(bits) => IndexTermModel::BitMap(bits@),
            IndexTerm::OreFull(bytes) => IndexTermModel::OreFull(bytes@),
            IndexTerm::OreArray(items) => IndexTermModel::OreArray(byte_views(items@)),
            IndexTerm::OreLeft(bytes) => IndexTermModel::OreLeft(bytes@),
            IndexTerm::Null => IndexTermModel::Null,
            IndexTerm::Unsupported(description) => IndexTermModel::Unsupported(description@),
        }
    }
}

impl View for BackendSteVecEntry {
    type V = BackendSteVecEntryModel;

    open spec fn view(&self) -> BackendSteVecEntryModel {
        BackendSteVecEntryModel {
            tokenized_selector: self.tokenized_selector@,
            term: match self.term {
                Ok(bytes) => Ok(bytes@),
                Err(message) => Err(message@),
            },
            record: encoded_view(self.record),
            parent_is_array: self.parent_is_array,
        }
    }
}

/// The views of a sequence of index terms, item by item.
pub open spec fn term_views(items: Seq<IndexTerm>) -> Seq<IndexTermModel> {
    items.map_values(|item: IndexTerm| item@)
}

/// The views of a sequence of structural backend entries, item by item.
pub open spec fn backend_entry_views(items: Seq<BackendSteVecEntry>) -> Seq<
    BackendSteVecEntryModel,
> {
    items.map_values(|item: BackendSteVecEntry| item@)
}

impl View for BackendEncrypted {
    type V = BackendEncryptedModel;

    open spec fn view(&self) -> BackendEncryptedModel {
        match *self {
            BackendEncrypted::Record { ciphertext, terms } => BackendEncryptedModel::Record {
                ciphertext: encoded_view(ciphertext),
                terms: term_views(terms@),
            },
            BackendEncrypted::SteVec { root, entries } => BackendEncryptedModel::SteVec {
                root: match root {
                    Ok(record) => Ok(encoded_view(record)),
                    Err(description) => Err(description@),
                },
                entries: backend_entry_views(entries@),
            },
        }
    }
}

/// The exact-match field of an envelope: the hexadecimal text of the last
/// binary term, absent where there is none.
pub open spec fn unique_field(terms: Seq<IndexTermModel>) -> Option<Seq<char>>
    decreases terms.len(),
{
    if terms.len() == 0 {
        None
    } else {
        match terms.last() {
            IndexTermModel::Binary(bytes) => Some(hex_text(bytes)),
            _ => unique_field(terms.drop_last()),
        }
    }
}

/// The full-text field of an envelope: the last bit-map term, absent where
/// there is none.
pub open spec fn match_field(terms: Seq<IndexTermModel>) -> Option<Seq<u16>>
    decreases terms.len(),
{
    if terms.len() == 0 {
        None
    } else {
        match terms.last() {
            IndexTermModel::BitMap(bits) => Some(bits),
            _ => match_field(terms.drop_last()),
        }
    }
}

/// The order-revealing field of an envelope, from the last order-revealing
/// term of any variant: an array term gives one text per item, a single
/// term gives a list of one text. Absent where there is no such term.
pub open spec fn ore_field(terms: Seq<IndexTermModel>) -> Option<Seq<Seq<char>>>
    decreases terms.len(),
{
    if terms.len() == 0 {
        None
    } else {
        match terms.last() {
            IndexTermModel::OreArray(items) => Some(items.map_values(|b: Seq<u8>| hex_text(b))),
            IndexTermModel::OreFull(bytes) => Some(seq![hex_text(bytes)]),
            IndexTermModel::OreLeft(bytes) => Some(seq![hex_text(bytes)]),
            _ => ore_field(terms.drop_last()),
        }
    }
}

/// The description of the first term of an unsupported kind, if there is
/// one.
pub open spec fn first_unsupported(terms: Seq<IndexTermModel>) -> Option<Seq<char>>
    decreases terms.len(),
{
    if terms.len() == 0 {
        None
    } else {
        match first_unsupported(terms.drop_last()) {
            Some(description) => Some(description),
            None => match terms.last() {
                IndexTermModel::Unsupported(description) => Some(description),
                _ => None,
            },
        }
    }
}

/// The wire form of one structural entry: selector and term in
/// hexadecimal, the sub-record as encoded. A sub-record that failed to
/// encode comes before a term that failed to render.
pub open spec fn ste_vec_entry(entry: BackendSteVecEntryModel) -> Result<
    SteVecEntryModel,
    ErrorModel,
> {
    match entry.record {
        Err(message) => Err(ErrorModel::Base85(message)),
        Ok(record) => match entry.term {
            Err(_) => Err(ErrorModel::Parse),
            Ok(term) => Ok(
                SteVecEntryModel {
                    tokenized_selector: hex_text(entry.tokenized_selector),
                    term: hex_text(term),
                    record,
                    parent_is_array: entry.parent_is_array,
                },
            ),
        },
    }
}

/// The wire form of the structural entries, in order, or the failure of
/// the first entry that has one.
pub open spec fn ste_vec_entries(entries: Seq<BackendSteVecEntryModel>) -> Result<
    Seq<SteVecEntryModel>,
    ErrorModel,
>
    decreases entries.len(),
{
    if entries.len() == 0 {
        Ok(Seq::empty())
    } else {
        match ste_vec_entries(entries.drop_last()) {
            Err(e) => Err(e),
            Ok(items) => match ste_vec_entry(entries.last()) {
                Err(e) => Err(e),
                Ok(item) => Ok(items.push(item)),
            },
        }
    }
}

/// The message of the invariant violation for a structural result without
/// a root record, whose absence the backend describes so.
pub open spec fn missing_root_message(description: Seq<char>) -> Seq<char> {
    "failed to get root ciphertext: "@ + description
}

/// The message of the invariant violation for a structural result on a
/// non-JSON cast.
pub open spec fn unexpected_ste_vec_message() -> Seq<char> {
    "non-JSONB type returned SteVec from encryption library"@
}

/// The closed mapping from (cast, backend result) to envelope or failure.
///
/// A JSON cast always gives the structural envelope: from a structural
/// result with its root ciphertext and its entries, from a flat result
/// with the entry list absent. A structural result without root record is
/// an invariant violation.
/// Any other cast gives the ciphertext envelope from a flat result, fails
/// on a term of an unsupported kind, and treats a structural result as an
/// invariant violation. A ciphertext that failed to encode comes first.
pub open spec fn eql_encrypted(
    encrypted: BackendEncryptedModel,
    identifier: (Seq<char>, Seq<char>),
    cast_as: CastAs,
) -> Result<EncryptedModel, ErrorModel> {
    if cast_as == CastAs::JsonB {
        match encrypted {
            BackendEncryptedModel::SteVec { root, entries } => match root {
                Err(description) => Err(
                    ErrorModel::InvariantViolation(missing_root_message(description)),
                ),
                Ok(Err(message)) => Err(ErrorModel::Base85(message)),
                Ok(Ok(ciphertext)) => match ste_vec_entries(entries) {
                    Err(e) => Err(e),
                    Ok(items) => Ok(
                        EncryptedModel::SteVec {
                            ciphertext,
                            data_type: cast_as.name(),
                            ste_vec_index: Some(items),
                            identifier,
                            version: ENVELOPE_VERSION,
                        },
                    ),
                },
            },
            BackendEncryptedModel::Record { ciphertext, terms } => match ciphertext {
                Err(message) => Err(ErrorModel::Base85(message)),
                Ok(text) => Ok(
                    EncryptedModel::SteVec {
                        ciphertext: text,
                        data_type: cast_as.name(),
                        ste_vec_index: None,
                        identifier,
                        version: ENVELOPE_VERSION,
                    },
                ),
            },
        }
    } else {
        match encrypted {
            BackendEncryptedModel::Record { ciphertext, terms } => match ciphertext {
                Err(message) => Err(ErrorModel::Base85(message)),
                Ok(text) => match first_unsupported(terms) {
                    Some(description) => Err(
                        ErrorModel::Unimplemented("index term `"@ + description + "`"@),
                    ),
                    None => Ok(
                        EncryptedModel::Ciphertext {
                            ciphertext: text,
                            data_type: cast_as.name(),
                            unique_index: unique_field(terms),
                            ore_index: ore_field(terms),
                            match_index: match_field(terms),
                            identifier,
                            version: ENVELOPE_VERSION,
                        },
                    ),
                },
            },
            BackendEncryptedModel::SteVec { root, entries } => Err(
                ErrorModel::InvariantViolation(unexpected_ste_vec_message()),
            ),
        }
    }
}

/// Whether a result reports what the mapping gives: the envelope itself,
/// or an error of the same kind and text.
pub open spec fn reports_envelope(
    r: Result<Encrypted, Error>,
    expected: Result<EncryptedModel, ErrorModel>,
) -> bool {
    match expected {
        Ok(envelope) => r is Ok && r->Ok_0@ == envelope,
        Err(e) => r is Err && r->Err_0@ == e,
    }
}

/// A copy of a bit map.
fn copy_bits(bits: &Vec<u16>) -> (copy: Vec<u16>)
    ensures
        copy@ == bits@,
{
    let mut copy: Vec<u16> = Vec::new();
    let mut i: usize = 0;
    while i < bits.len()
        invariant
            i <= bits.len(),
            copy@ == bits@.subrange(0, i as int),
        decreases bits.len() - i,
    {
        copy.push(bits[i]);
        i += 1;
        assert(copy@ =~= bits@.subrange(0, i as int));
    }
    assert(bits@.subrange(0, bits.len() as int) =~= bits@);
    copy
}

/// Renders one structural entry for the wire.
fn marshal_ste_vec_entry(entry: &BackendSteVecEntry) -> (r: Result<SteVecEntry, Error>)
    ensures
        match ste_vec_entry(entry@) {
            Ok(item) => r is Ok && r->Ok_0@ == item,
            Err(e) => r is Err && r->Err_0@ == e,
        },
{
    let record = match &entry.record {
        Ok(record) => record.clone(),
        Err(message) => return Err(Error::Base85(message.clone())),
    };
    let term = match &entry.term {
        Ok(term) => hex_encode(term.as_slice()),
        Err(message) => return Err(Error::Parse(json_error(message.as_str()))),
    };
    Ok(
        SteVecEntry {
            tokenized_selector: hex_encode(entry.tokenized_selector.as_slice()),
            term,
            record,
            parent_is_array: entry.parent_is_array,
        },
    )
}


/// The three optional index fields of a ciphertext envelope.
struct IndexFields {
    unique_index: Option<String>,
    ore_index: Option<Vec<String>>,
    match_index: Option<Vec<u16>>,
}

impl IndexFields {
    spec fn agrees_with(self, terms: Seq<IndexTermModel>) -> bool {
        &&& match self.unique_index {
            Some(text) => unique_field(terms) == Some(text@),
            None => unique_field(terms) is None,
        }
        &&& match self.ore_index {
            Some(items) => ore_field(terms) == Some(text_views(items@)),
            None => ore_field(terms) is None,
        }
        &&& match self.match_index {
            Some(bits) => match_field(terms) == Some(bits@),
            None => match_field(terms) is None,
        }
    }
}

/// Demultiplexes the index terms of a flat result by their kind.
fn marshal_terms(terms: &Vec<IndexTerm>) -> (r: Result<IndexFields, Error>)
    ensures
        match first_unsupported(term_views(terms@)) {
            Some(description) => r is Err && r->Err_0@ == ErrorModel::Unimplemented(
                "index term `"@ + description + "`"@,
            ),
            None => r is Ok && r->Ok_0.agrees_with(term_views(terms@)),
        },
{
    let ghost all = term_views(terms@);
    let mut fields = IndexFields { unique_index: None, ore_index: None, match_index: None };
    let mut i: usize = 0;
    assert(all.take(0) =~= Seq::<IndexTermModel>::empty());
    while i < terms.len()
        invariant
            i <= terms.len(),
            all == term_views(terms@),
            first_unsupported(all.take(i as int)) is None,
            fields.agrees_with(all.take(i as int)),
        decreases terms.len() - i,
    {
        let ghost prefix = all.take(i as int);
        let ghost next = all.take(i as int + 1);
        proof {
            assert(next.drop_last() =~= prefix);
            assert(next.last() == all[i as int]);
            assert(all[i as int] == terms@[i as int]@);
        }
        match &terms[i] {
            IndexTerm::Binary(bytes) => {
                fields.unique_index = Some(format_index_term_binary(bytes.as_slice()));
            },
            IndexTerm::BitMap(bits) => {
                fields.match_index = Some(copy_bits(bits));
            },
            IndexTerm::OreArray(items) => {
                let formatted = format_index_term_ore_array(items.as_slice());
                proof {
                    assert(hex_texts(items@) =~= byte_views(items@).map_values(
                        |b: Seq<u8>| hex_text(b),
                    ));
                }
                fields.ore_index = Some(formatted);
            },
            IndexTerm::OreFull(bytes) => {
                fields.ore_index = Some(format_index_term_ore(bytes.as_slice()));
            },
            IndexTerm::OreLeft(bytes) => {
                fields.ore_index = Some(format_index_term_ore(bytes.as_slice()));
            },
            IndexTerm::Null => {},
            IndexTerm::Unsupported(description) => {
                proof {
                    lemma_first_unsupported_prefix(all, i as int + 1);
                }
                return Err(
                    Error::Unimplemented(
                        String::from_str("index term `").concat(description.as_str()).concat("`"),
                    ),
                );
            },
        }
        i += 1;
    }
    assert(all.take(terms.len() as int) =~= all);
    Ok(fields)
}

/// An unsupported term found in a prefix is the first of the whole list:
/// terms after it do not matter.
pub proof fn lemma_first_unsupported_prefix(terms: Seq<IndexTermModel>, n: int)
    requires
        0 <= n <= terms.len(),
        first_unsupported(terms.take(n)) is Some,
    ensures
        first_unsupported(terms) == first_unsupported(terms.take(n)),
    decreases terms.len() - n,
{
    if n < terms.len() {
        assert(terms.take(n + 1).drop_last() =~= terms.take(n));
        lemma_first_unsupported_prefix(terms, n + 1);
    } else {
        assert(terms.take(n) =~= terms);
    }
}

/// Renders the structural entries for the wire, in order.
fn marshal_ste_vec_entries(entries: &Vec<BackendSteVecEntry>) -> (r: Result<
    Vec<SteVecEntry>,
    Error,
>)
    ensures
        match ste_vec_entries(backend_entry_views(entries@)) {
            Ok(items) => r is Ok && entry_views(r->Ok_0@) == items,
            Err(e) => r is Err && r->Err_0@ == e,
        },
{
    let ghost all = backend_entry_views(entries@);
    let mut items: Vec<SteVecEntry> = Vec::new();
    let mut i: usize = 0;
    assert(all.take(0) =~= Seq::<BackendSteVecEntryModel>::empty());
    assert(entry_views(items@) =~= Seq::<SteVecEntryModel>::empty());
    while i < entries.len()
        invariant
            i <= entries.len(),
            all == backend_entry_views(entries@),
            ste_vec_entries(all.take(i as int)) == Ok::<Seq<SteVecEntryModel>, ErrorModel>(
                entry_views(items@),
            ),
        decreases entries.len() - i,
    {
        let ghost next = all.take(i as int + 1);
        proof {
            assert(next.drop_last() =~= all.take(i as int));
            assert(next.last() == entries@[i as int]@);
        }
        match marshal_ste_vec_entry(&entries[i]) {
            Ok(item) => {
                let ghost before = items@;
                items.push(item);
                assert(entry_views(items@) =~= entry_views(before).push(item@));
            },
            Err(e) => {
                proof {
                    lemma_ste_vec_entries_prefix(all, i as int + 1);
                }
                return Err(e);
            },
        }
        i += 1;
    }
    assert(all.take(entries.len() as int) =~= all);
    Ok(items)
}

/// A failure found in a prefix of the entries is the failure of the whole
/// list: entries after it do not matter.
pub proof fn lemma_ste_vec_entries_prefix(entries: Seq<BackendSteVecEntryModel>, n: int)
    requires
        0 <= n <= entries.len(),
        ste_vec_entries(entries.take(n)) is Err,
    ensures
        ste_vec_entries(entries) == ste_vec_entries(entries.take(n)),
    decreases entries.len() - n,
{
    if n < entries.len() {
        assert(entries.take(n + 1).drop_last() =~= entries.take(n));
        lemma_ste_vec_entries_prefix(entries, n + 1);
    } else {
        assert(entries.take(n) =~= entries);
    }
}

/// Converts what the backend returned for one value into its envelope.
pub fn to_eql_encrypted(
    encrypted: BackendEncrypted,
    identifier: &Identifier,
    cast_as: &CastAs,
) -> (r: Result<Encrypted, Error>)
    ensures
        reports_envelope(r, eql_encrypted(encrypted@, identifier@, *cast_as)),
{
    match (cast_as, &encrypted) {
        // JSONB always uses the structural envelope
        (CastAs::JsonB, BackendEncrypted::SteVec { root, entries }) => {
            let ciphertext = match root {
                Ok(Ok(ciphertext)) => ciphertext.clone(),
                Ok(Err(message)) => return Err(Error::Base85(message.clone())),
                Err(description) => return Err(
                    Error::InvariantViolation(
                        String::from_str("failed to get root ciphertext: ").concat(
                            description.as_str(),
                        ),
                    ),
                ),
            };
            let ste_vec_entries = match marshal_ste_vec_entries(entries) {
                Ok(items) => items,
                Err(e) => return Err(e),
            };
            Ok(
                Encrypted::SteVec {
                    ciphertext,
                    data_type: cast_as.to_string(),
                    ste_vec_index: Some(ste_vec_entries),
                    identifier: identifier.duplicate(),
                    version: ENVELOPE_VERSION,
                },
            )
        },
        (CastAs::JsonB, BackendEncrypted::Record { ciphertext, terms: _ }) => {
            let ciphertext = match ciphertext {
                Ok(text) => text.clone(),
                Err(message) => return Err(Error::Base85(message.clone())),
            };
            Ok(
                Encrypted::SteVec {
                    ciphertext,
                    data_type: cast_as.to_string(),
                    ste_vec_index: None,
                    identifier: identifier.duplicate(),
                    version: ENVELOPE_VERSION,
                },
            )
        },
        // Non-JSONB types with indexes
        (_, BackendEncrypted::Record { ciphertext, terms }) => {
            let ciphertext = match ciphertext {
                Ok(text) => text.clone(),
                Err(message) => return Err(Error::Base85(message.clone())),
            };
            let fields = match marshal_terms(terms) {
                Ok(fields) => fields,
                Err(e) => return Err(e),
            };
            Ok(
                Encrypted::Ciphertext {
                    ciphertext,
                    data_type: cast_as.to_string(),
                    unique_index: fields.unique_index,
                    ore_index: fields.ore_index,
                    match_index: fields.match_index,
                    identifier: identifier.duplicate(),
                    version: ENVELOPE_VERSION,
                },
            )
        },
        // Non-JSONB types should never return a structural result
        (_, BackendEncrypted::SteVec { .. }) => Err(
            Error::InvariantViolation(
                String::from_str("non-JSONB type returned SteVec from encryption library"),
            ),
        ),
    }
}


/// The views of a sequence of envelopes, item by item.
pub open spec fn envelope_views(items: Seq<Encrypted>) -> Seq<EncryptedModel> {
    items.map_values(|item: Encrypted| item@)
}

/// A JSON cast always yields the structural envelope and every other cast
/// the ciphertext envelope. Every envelope carries the identifier it was
/// made for, the name of its cast, and the fixed protocol version.
pub proof fn lemma_envelope_shape(
    encrypted: BackendEncryptedModel,
    identifier: (Seq<char>, Seq<char>),
    cast_as: CastAs,
)
    requires
        eql_encrypted(encrypted, identifier, cast_as) is Ok,
    ensures
        match eql_encrypted(encrypted, identifier, cast_as)->Ok_0 {
            EncryptedModel::SteVec { data_type, identifier: id, version, .. } => cast_as
                == CastAs::JsonB && data_type == cast_as.name() && id == identifier && version
                == 2,
            EncryptedModel::Ciphertext { data_type, identifier: id, version, .. } => cast_as
                != CastAs::JsonB && data_type == cast_as.name() && id == identifier && version
                == 2,
        },
{
}

/// A structural result for a cast that is not JSON is an invariant
/// violation, whatever it holds.
pub proof fn lemma_structural_result_needs_json(
    root: Result<Result<Seq<char>, Seq<char>>, Seq<char>>,
    entries: Seq<BackendSteVecEntryModel>,
    identifier: (Seq<char>, Seq<char>),
    cast_as: CastAs,
)
    requires
        cast_as != CastAs::JsonB,
    ensures
        eql_encrypted(BackendEncryptedModel::SteVec { root, entries }, identifier, cast_as) == Err::<
            EncryptedModel,
            ErrorModel,
        >(ErrorModel::InvariantViolation(unexpected_ste_vec_message())),
{
}

/// A flat result for a JSON cast gives the structural envelope with its
/// entry list absent, not empty.
pub proof fn lemma_flat_json_result_has_no_entries(
    ciphertext: Seq<char>,
    terms: Seq<IndexTermModel>,
    identifier: (Seq<char>, Seq<char>),
)
    ensures
        eql_encrypted(
            BackendEncryptedModel::Record { ciphertext: Ok(ciphertext), terms },
            identifier,
            CastAs::JsonB,
        ) == Ok::<EncryptedModel, ErrorModel>(
            EncryptedModel::SteVec {
                ciphertext,
                data_type: CastAs::JsonB.name(),
                ste_vec_index: None,
                identifier,
                version: 2,
            },
        ),
{
}

/// Without index terms every index field of the envelope is absent.
pub proof fn lemma_no_terms_no_index_fields(
    ciphertext: Seq<char>,
    identifier: (Seq<char>, Seq<char>),
    cast_as: CastAs,
)
    requires
        cast_as != CastAs::JsonB,
    ensures
        eql_encrypted(
            BackendEncryptedModel::Record { ciphertext: Ok(ciphertext), terms: Seq::empty() },
            identifier,
            cast_as,
        ) == Ok::<EncryptedModel, ErrorModel>(
            EncryptedModel::Ciphertext {
                ciphertext,
                data_type: cast_as.name(),
                unique_index: None,
                ore_index: None,
                match_index: None,
                identifier,
                version: 2,
            },
        ),
{
}

/// The exact-match field is present exactly when a binary term is among
/// the terms.
pub proof fn lemma_unique_field_present(terms: Seq<IndexTermModel>)
    ensures
        unique_field(terms) is Some <==> exists|i: int|
            0 <= i < terms.len() && (#[trigger] terms[i]) is Binary,
    decreases terms.len(),
{
    if terms.len() > 0 {
        let rest = terms.drop_last();
        lemma_unique_field_present(rest);
        if terms.last() is Binary {
            assert(terms[terms.len() - 1] is Binary);
        } else {
            if exists|i: int| 0 <= i < rest.len() && (#[trigger] rest[i]) is Binary {
                let i = choose|i: int| 0 <= i < rest.len() && (#[trigger] rest[i]) is Binary;
                assert(terms[i] is Binary);
            }
            if exists|i: int| 0 <= i < terms.len() && (#[trigger] terms[i]) is Binary {
                let i = choose|i: int| 0 <= i < terms.len() && (#[trigger] terms[i]) is Binary;
                assert(rest[i] is Binary);
            }
        }
    }
}

/// The full-text field is present exactly when a bit-map term is among
/// the terms.
pub proof fn lemma_match_field_present(terms: Seq<IndexTermModel>)
    ensures
        match_field(terms) is Some <==> exists|i: int|
            0 <= i < terms.len() && (#[trigger] terms[i]) is BitMap,
    decreases terms.len(),
{
    if terms.len() > 0 {
        let rest = terms.drop_last();
        lemma_match_field_present(rest);
        if terms.last() is BitMap {
            assert(terms[terms.len() - 1] is BitMap);
        } else {
            if exists|i: int| 0 <= i < rest.len() && (#[trigger] rest[i]) is BitMap {
                let i = choose|i: int| 0 <= i < rest.len() && (#[trigger] rest[i]) is BitMap;
                assert(terms[i] is BitMap);
            }
            if exists|i: int| 0 <= i < terms.len() && (#[trigger] terms[i]) is BitMap {
                let i = choose|i: int| 0 <= i < terms.len() && (#[trigger] terms[i]) is BitMap;
                assert(rest[i] is BitMap);
            }
        }
    }
}

/// The index fields do not interfere: a term of one kind leaves the
/// fields of the other kinds as they were.
pub proof fn lemma_index_fields_are_independent(terms: Seq<IndexTermModel>, term: IndexTermModel)
    ensures
        !(term is Binary) ==> unique_field(terms.push(term)) == unique_field(terms),
        !(term is BitMap) ==> match_field(terms.push(term)) == match_field(terms),
        !(term is OreArray || term is OreFull || term is OreLeft) ==> ore_field(terms.push(term))
            == ore_field(terms),
        term is Binary ==> unique_field(terms.push(term)) == Some(hex_text(term->Binary_0)),
        term is BitMap ==> match_field(terms.push(term)) == Some(term->BitMap_0),
{
    assert(terms.push(term).drop_last() =~= terms);
    assert(terms.push(term).last() == term);
}

/// With both an exact-match and a full-text term among supported terms,
/// the envelope exposes both fields at once.
pub proof fn lemma_exact_and_full_text_coexist(
    ciphertext: Seq<char>,
    terms: Seq<IndexTermModel>,
    identifier: (Seq<char>, Seq<char>),
    cast_as: CastAs,
    i: int,
    j: int,
)
    requires
        cast_as != CastAs::JsonB,
        first_unsupported(terms) is None,
        0 <= i < terms.len(),
        0 <= j < terms.len(),
        terms[i] is Binary,
        terms[j] is BitMap,
    ensures
        eql_encrypted(
            BackendEncryptedModel::Record { ciphertext: Ok(ciphertext), terms },
            identifier,
            cast_as,
        ) matches Ok(EncryptedModel::Ciphertext { unique_index, match_index, .. })
            && unique_index is Some && match_index is Some,
{
    lemma_unique_field_present(terms);
    lemma_match_field_present(terms);
}

} // verus!

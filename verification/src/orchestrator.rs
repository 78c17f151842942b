//! Encryption and decryption orchestration: what is handed to the backend
//! for one or many items, and how what comes back is read by position.
//!
//! The backend round trip itself is not made here. The functions of this
//! module prepare its input and take its output as arguments.

use vstd::prelude::*;
use vstd::string::StringExecFns;
use crate::context::{
    context_of_json, context_views, encryption_context_of, optional_encryption_context, Context,
    ContextModel,
};
use crate::encrypt_config::{CastAs, ColumnConfig, ColumnConfigModel, ConfigMap, ConfigMapModel, Identifier};
use crate::envelope::{
    envelope_views, eql_encrypted, reports_envelope, to_eql_encrypted, BackendEncrypted,
    BackendEncryptedModel, Encrypted, EncryptedModel,
};
use crate::error::{reports_text, Error, ErrorModel};
use crate::text::{decimal_string, decimal_text, text_views};
use crate::json::{
    get_field, json_content, json_contents, json_document, json_error, json_text,
    json_to_string, parse_json,
    value_as_array, value_as_str, value_is_null, JsonModel,
};
use crate::sequence::{lemma_try_map_prefix_fails, lemma_try_map_step, try_map};
use crate::plaintext_target::{PlaintextTarget, PlaintextValue};

verus! {

/// Looks up the policy of a column. A (table, column) pair that the
/// configuration does not hold is an error of its own kind, which names
/// the pair.
pub fn lookup_column<'a>(config: &'a ConfigMap, identifier: &Identifier) -> (r: Result<
    &'a (ColumnConfig, CastAs),
    Error,
>)
    ensures
        match r {
            Ok(entry) => config@.contains_key(identifier@) && config@[identifier@] == (
                entry.0@,
                entry.1,
            ),
            Err(e) => !config@.contains_key(identifier@) && e@ == ErrorModel::UnknownColumn(
                identifier@,
            ),
        },
{
    match config.get(identifier) {
        Some(entry) => Ok(entry),
        None => Err(Error::UnknownColumn(identifier.duplicate())),
    }
}

/// One value ready for the backend: the target with its context, the
/// identifier it was looked up under, and the cast of its column.
#[derive(Debug)]
pub struct PreparedTarget {
    pub target: PlaintextTarget,
    pub identifier: Identifier,
    pub cast_as: CastAs,
}

/// What a prepared target holds, as mathematical values. The plaintext is
/// the raw text, or the document it was read as.
pub struct PreparedModel {
    pub plaintext: Result<Seq<char>, JsonModel>,
    pub column_config: ColumnConfigModel,
    pub context: Seq<ContextModel>,
    pub identifier: (Seq<char>, Seq<char>),
    pub cast_as: CastAs,
}

impl View for PreparedTarget {
    type V = PreparedModel;

    open spec fn view(&self) -> PreparedModel {
        PreparedModel {
            plaintext: match self.target.plaintext {
                PlaintextValue::Text(text) => Ok(text@),
                PlaintextValue::Json(document) => Err(json_content(document)),
            },
            column_config: self.target.column_config@,
            context: context_views(self.target.context@),
            identifier: self.identifier@,
            cast_as: self.cast_as,
        }
    }
}

/// What preparing one value gives: an unknown column fails first, then a
/// JSON column with structural index whose input is not JSON; every other
/// input is accepted as it stands.
pub open spec fn prepared(
    config: ConfigMapModel,
    plaintext: Seq<char>,
    identifier: (Seq<char>, Seq<char>),
    context: Seq<ContextModel>,
) -> Result<PreparedModel, ErrorModel> {
    if !config.contains_key(identifier) {
        Err(ErrorModel::UnknownColumn(identifier))
    } else {
        let (column_config, cast_as) = config[identifier];
        if column_config.needs_json_parsing() {
            match json_document(plaintext) {
                None => Err(ErrorModel::Parse),
                Some(doc) => Ok(
                    PreparedModel {
                        plaintext: Err(doc),
                        column_config,
                        context,
                        identifier,
                        cast_as,
                    },
                ),
            }
        } else {
            Ok(
                PreparedModel {
                    plaintext: Ok(plaintext),
                    column_config,
                    context,
                    identifier,
                    cast_as,
                },
            )
        }
    }
}

/// Whether a result reports what preparing gives.
pub open spec fn reports_prepared(
    r: Result<PreparedTarget, Error>,
    expected: Result<PreparedModel, ErrorModel>,
) -> bool {
    match expected {
        Ok(target) => r is Ok && r->Ok_0@ == target,
        Err(e) => r is Err && r->Err_0@ == e,
    }
}

/// Prepares one value for encryption: looks up the policy of its column
/// and builds the target, bound to the given context.
pub fn prepare_target(
    config: &ConfigMap,
    plaintext: String,
    identifier: Identifier,
    encryption_context: Vec<Context>,
) -> (r: Result<PreparedTarget, Error>)
    ensures
        reports_prepared(
            r,
            prepared(config@, plaintext@, identifier@, context_views(encryption_context@)),
        ),
{
    let (column_config, cast_as) = match lookup_column(config, &identifier) {
        Ok(entry) => (&entry.0, entry.1),
        Err(e) => return Err(e),
    };
    let mut target = match crate::plaintext_target::new(plaintext, column_config) {
        Ok(target) => target,
        Err(e) => return Err(e),
    };
    target.context = encryption_context;
    Ok(PreparedTarget { target, identifier, cast_as })
}

/// What preparing a single encryption gives: context that is present and
/// is not JSON fails first; absent context is the empty context.
pub open spec fn prepared_encrypt(
    config: ConfigMapModel,
    plaintext: Seq<char>,
    column: Seq<char>,
    table: Seq<char>,
    context_json: Option<Seq<char>>,
) -> Result<PreparedModel, ErrorModel> {
    match context_json {
        None => prepared(config, plaintext, (table, column), Seq::empty()),
        Some(text) => match json_document(text) {
            None => Err(ErrorModel::Parse),
            Some(doc) => prepared(config, plaintext, (table, column), context_of_json(doc)),
        },
    }
}

/// Prepares a single encryption from the strings of a request.
pub fn prepare_encrypt(
    config: &ConfigMap,
    plaintext: String,
    column: &str,
    table: &str,
    context_json: Option<&str>,
) -> (r: Result<PreparedTarget, Error>)
    ensures
        reports_prepared(
            r,
            prepared_encrypt(
                config@,
                plaintext@,
                column@,
                table@,
                match context_json {
                    Some(text) => Some(text@),
                    None => None,
                },
            ),
        ),
{
    let encryption_context = match optional_encryption_context(context_json) {
        Ok(encryption_context) => encryption_context,
        Err(e) => return Err(e),
    };
    let identifier = Identifier::new(table, column);
    prepare_target(config, plaintext, identifier, encryption_context)
}


/// Bulk encryption request item containing plaintext data and metadata.
#[derive(Debug)]
pub struct BulkEncryptItem {
    /// The plaintext data to encrypt.
    pub plaintext: String,
    /// The target column name.
    pub column: String,
    /// The target table name.
    pub table: String,
    /// The encryption context (empty if none was provided).
    pub context: Vec<Context>,
}

/// Search term creation request item: the same as a bulk encryption item.
pub type SearchTermItem = BulkEncryptItem;

/// Bulk decryption request item containing ciphertext and context.
#[derive(Debug)]
pub struct BulkDecryptItem {
    /// The ciphertext to decrypt.
    pub ciphertext: String,
    /// The encryption context (empty if none was provided).
    pub context: Vec<Context>,
}

/// A bulk encryption item, as mathematical values.
pub struct BulkEncryptItemModel {
    pub plaintext: Seq<char>,
    pub column: Seq<char>,
    pub table: Seq<char>,
    pub context: Seq<ContextModel>,
}

/// A bulk decryption item, as mathematical values.
pub struct BulkDecryptItemModel {
    pub ciphertext: Seq<char>,
    pub context: Seq<ContextModel>,
}

impl View for BulkEncryptItem {
    type V = BulkEncryptItemModel;

    open spec fn view(&self) -> BulkEncryptItemModel {
        BulkEncryptItemModel {
            plaintext: self.plaintext@,
            column: self.column@,
            table: self.table@,
            context: context_views(self.context@),
        }
    }
}

impl View for BulkDecryptItem {
    type V = BulkDecryptItemModel;

    open spec fn view(&self) -> BulkDecryptItemModel {
        BulkDecryptItemModel { ciphertext: self.ciphertext@, context: context_views(self.context@) }
    }
}

/// The views of a sequence of bulk encryption items, item by item.
pub open spec fn encrypt_item_views(items: Seq<BulkEncryptItem>) -> Seq<BulkEncryptItemModel> {
    items.map_values(|item: BulkEncryptItem| item@)
}

/// The views of a sequence of bulk decryption items, item by item.
pub open spec fn decrypt_item_views(items: Seq<BulkDecryptItem>) -> Seq<BulkDecryptItemModel> {
    items.map_values(|item: BulkDecryptItem| item@)
}

/// The context of a bulk item: empty where the member is absent or
/// `null`, and otherwise whatever the member leniently denotes.
pub open spec fn item_context(member: Option<JsonModel>) -> Seq<ContextModel> {
    match member {
        None => Seq::empty(),
        Some(JsonModel::Null) => Seq::empty(),
        Some(doc) => context_of_json(doc),
    }
}

/// A bulk encryption item: an object with the strings `plaintext`,
/// `column` and `table`, and optional context.
pub open spec fn encrypt_item_of_json(doc: JsonModel) -> Option<BulkEncryptItemModel> {
    match (doc.field("plaintext"@), doc.field("column"@), doc.field("table"@)) {
        (
            Some(JsonModel::Str(plaintext)),
            Some(JsonModel::Str(column)),
            Some(JsonModel::Str(table)),
        ) => Some(
            BulkEncryptItemModel {
                plaintext,
                column,
                table,
                context: item_context(doc.field("context"@)),
            },
        ),
        _ => None,
    }
}

/// A bulk decryption item: an object with the string `ciphertext`, and
/// optional context.
pub open spec fn decrypt_item_of_json(doc: JsonModel) -> Option<BulkDecryptItemModel> {
    match doc.field("ciphertext"@) {
        Some(JsonModel::Str(ciphertext)) => Some(
            BulkDecryptItemModel { ciphertext, context: item_context(doc.field("context"@)) },
        ),
        _ => None,
    }
}

/// A list of bulk encryption items: an array of them, in order.
pub open spec fn encrypt_items_of_json(doc: JsonModel) -> Option<Seq<BulkEncryptItemModel>> {
    match doc {
        JsonModel::Array(items) => if forall|i: int|
            0 <= i < items.len() ==> encrypt_item_of_json(#[trigger] items[i]) is Some {
            Some(Seq::new(items.len(), |i: int| encrypt_item_of_json(items[i])->0))
        } else {
            None
        },
        _ => None,
    }
}

/// A list of bulk decryption items: an array of them, in order.
pub open spec fn decrypt_items_of_json(doc: JsonModel) -> Option<Seq<BulkDecryptItemModel>> {
    match doc {
        JsonModel::Array(items) => if forall|i: int|
            0 <= i < items.len() ==> decrypt_item_of_json(#[trigger] items[i]) is Some {
            Some(Seq::new(items.len(), |i: int| decrypt_item_of_json(items[i])->0))
        } else {
            None
        },
        _ => None,
    }
}

/// The context of a bulk item.
fn parse_item_context(v: &serde_json::Value) -> (context: Vec<Context>)
    ensures
        context_views(context@) == item_context(json_content(*v).field("context"@)),
{
    match get_field(v, "context") {
        Some(member) => if value_is_null(member) {
            let empty: Vec<Context> = Vec::new();
            assert(context_views(empty@) =~= Seq::<ContextModel>::empty());
            empty
        } else {
            encryption_context_of(member)
        },
        None => {
            let empty: Vec<Context> = Vec::new();
            assert(context_views(empty@) =~= Seq::<ContextModel>::empty());
            empty
        },
    }
}

/// The string member of an object under a key.
fn string_member<'a>(v: &'a serde_json::Value, key: &str) -> (r: Option<&'a str>)
    ensures
        match r {
            Some(text) => json_content(*v).field(key@) == Some(JsonModel::Str(text@)),
            None => !(json_content(*v).field(key@) matches Some(JsonModel::Str(_))),
        },
{
    match get_field(v, key) {
        Some(member) => value_as_str(member),
        None => None,
    }
}

fn parse_encrypt_item(v: &serde_json::Value) -> (r: Option<BulkEncryptItem>)
    ensures
        match encrypt_item_of_json(json_content(*v)) {
            Some(item) => r is Some && r->0@ == item,
            None => r is None,
        },
{
    let plaintext = match string_member(v, "plaintext") {
        Some(text) => text,
        None => return None,
    };
    let column = match string_member(v, "column") {
        Some(text) => text,
        None => return None,
    };
    let table = match string_member(v, "table") {
        Some(text) => text,
        None => return None,
    };
    Some(
        BulkEncryptItem {
            plaintext: plaintext.to_owned(),
            column: column.to_owned(),
            table: table.to_owned(),
            context: parse_item_context(v),
        },
    )
}

fn parse_decrypt_item(v: &serde_json::Value) -> (r: Option<BulkDecryptItem>)
    ensures
        match decrypt_item_of_json(json_content(*v)) {
            Some(item) => r is Some && r->0@ == item,
            None => r is None,
        },
{
    let ciphertext = match string_member(v, "ciphertext") {
        Some(text) => text,
        None => return None,
    };
    Some(BulkDecryptItem { ciphertext: ciphertext.to_owned(), context: parse_item_context(v) })
}

/// Reads the items of a bulk encryption (or search term) request from a
/// parsed document.
pub fn encrypt_items_of(document: &serde_json::Value) -> (r: Option<Vec<BulkEncryptItem>>)
    ensures
        match encrypt_items_of_json(json_content(*document)) {
            Some(items) => r is Some && encrypt_item_views(r->0@) == items,
            None => r is None,
        },
{
    let values = match value_as_array(document) {
        Some(values) => values,
        None => return None,
    };
    let ghost docs = json_contents(values@);
    let mut items: Vec<BulkEncryptItem> = Vec::new();
    let mut i: usize = 0;
    while i < values.len()
        invariant
            i <= values.len(),
            docs == json_contents(values@),
            json_content(*document) == JsonModel::Array(docs),
            items@.len() == i,
            forall|j: int|
                0 <= j < i ==> encrypt_item_of_json(#[trigger] docs[j]) == Some(items@[j]@),
        decreases values.len() - i,
    {
        match parse_encrypt_item(&values[i]) {
            Some(item) => items.push(item),
            None => {
                assert(encrypt_item_of_json(docs[i as int]) is None);
                return None;
            },
        }
        i += 1;
    }
    assert(encrypt_item_views(items@) =~= encrypt_items_of_json(json_content(*document))->0);
    Some(items)
}

/// Reads the items of a bulk decryption request from a parsed document.
pub fn decrypt_items_of(document: &serde_json::Value) -> (r: Option<Vec<BulkDecryptItem>>)
    ensures
        match decrypt_items_of_json(json_content(*document)) {
            Some(items) => r is Some && decrypt_item_views(r->0@) == items,
            None => r is None,
        },
{
    let values = match value_as_array(document) {
        Some(values) => values,
        None => return None,
    };
    let ghost docs = json_contents(values@);
    let mut items: Vec<BulkDecryptItem> = Vec::new();
    let mut i: usize = 0;
    while i < values.len()
        invariant
            i <= values.len(),
            docs == json_contents(values@),
            json_content(*document) == JsonModel::Array(docs),
            items@.len() == i,
            forall|j: int|
                0 <= j < i ==> decrypt_item_of_json(#[trigger] docs[j]) == Some(items@[j]@),
        decreases values.len() - i,
    {
        match parse_decrypt_item(&values[i]) {
            Some(item) => items.push(item),
            None => {
                assert(decrypt_item_of_json(docs[i as int]) is None);
                return None;
            },
        }
        i += 1;
    }
    assert(decrypt_item_views(items@) =~= decrypt_items_of_json(json_content(*document))->0);
    Some(items)
}

/// Parses the items of a bulk encryption (or search term) request. Text
/// that is not JSON and a document of another shape are both parse errors.
pub fn parse_encrypt_items(items_json: &str) -> (r: Result<Vec<BulkEncryptItem>, Error>)
    ensures
        match json_document(items_json@) {
            Some(doc) => match encrypt_items_of_json(doc) {
                Some(items) => r is Ok && encrypt_item_views(r->Ok_0@) == items,
                None => r is Err && r->Err_0 is Parse,
            },
            None => r is Err && r->Err_0 is Parse,
        },
{
    match parse_json(items_json) {
        Ok(document) => match encrypt_items_of(&document) {
            Some(items) => Ok(items),
            None => Err(Error::Parse(json_error("invalid bulk encryption items"))),
        },
        Err(e) => Err(Error::Parse(e)),
    }
}

/// Parses the items of a bulk decryption request. Text that is not JSON
/// and a document of another shape are both parse errors.
pub fn parse_decrypt_items(items_json: &str) -> (r: Result<Vec<BulkDecryptItem>, Error>)
    ensures
        match json_document(items_json@) {
            Some(doc) => match decrypt_items_of_json(doc) {
                Some(items) => r is Ok && decrypt_item_views(r->Ok_0@) == items,
                None => r is Err && r->Err_0 is Parse,
            },
            None => r is Err && r->Err_0 is Parse,
        },
{
    match parse_json(items_json) {
        Ok(document) => match decrypt_items_of(&document) {
            Some(items) => Ok(items),
            None => Err(Error::Parse(json_error("invalid bulk decryption items"))),
        },
        Err(e) => Err(Error::Parse(e)),
    }
}


/// What preparing one bulk item gives under a configuration.
pub open spec fn prepared_item(config: ConfigMapModel) -> spec_fn(BulkEncryptItemModel) -> Result<
    PreparedModel,
    ErrorModel,
> {
    |item: BulkEncryptItemModel|
        prepared(config, item.plaintext, (item.table, item.column), item.context)
}

/// The views of a sequence of prepared targets, item by item.
pub open spec fn prepared_views(items: Seq<PreparedTarget>) -> Seq<PreparedModel> {
    items.map_values(|item: PreparedTarget| item@)
}

/// Prepares every item of a bulk request, in order. The first item that
/// fails aborts the whole request: nothing is handed to the backend.
pub fn prepare_bulk(config: &ConfigMap, items: Vec<BulkEncryptItem>) -> (r: Result<
    Vec<PreparedTarget>,
    Error,
>)
    ensures
        match try_map(encrypt_item_views(items@), prepared_item(config@)) {
            Ok(targets) => r is Ok && prepared_views(r->Ok_0@) == targets,
            Err(e) => r is Err && r->Err_0@ == e,
        },
{
    let ghost all = encrypt_item_views(items@);
    let ghost f = prepared_item(config@);
    let mut targets: Vec<PreparedTarget> = Vec::new();
    assert(all.take(0) =~= Seq::<BulkEncryptItemModel>::empty());
    assert(prepared_views(targets@) =~= Seq::<PreparedModel>::empty());
    for item in iter: items
        invariant
            all == encrypt_item_views(items@),
            f == prepared_item(config@),
            iter.seq() == items@,
            try_map(all.take(iter.index() as int), f) == Ok::<Seq<PreparedModel>, ErrorModel>(
                prepared_views(targets@),
            ),
    {
        let ghost n = iter.index() as int;
        proof {
            lemma_try_map_step(all, f, n);
            assert(all[n] == item@);
        }
        let identifier = Identifier::new(item.table.as_str(), item.column.as_str());
        match prepare_target(config, item.plaintext, identifier, item.context) {
            Ok(target) => {
                let ghost before = targets@;
                targets.push(target);
                assert(prepared_views(targets@) =~= prepared_views(before).push(target@));
            },
            Err(e) => {
                proof {
                    lemma_try_map_prefix_fails(all, f, n + 1);
                }
                return Err(e);
            },
        }
    }
    assert(all.take(items@.len() as int) =~= all);
    Ok(targets)
}


/// The results of a batch as mathematical values: each with the position
/// it answers, in the order in which the backend completed them.
pub open spec fn result_views(results: Seq<(usize, BackendEncrypted)>) -> Seq<
    (usize, BackendEncryptedModel),
> {
    results.map_values(|entry: (usize, BackendEncrypted)| (entry.0, entry.1@))
}

/// The result that answers a position: the first one keyed by it,
/// wherever it stands among the results.
pub open spec fn result_at(results: Seq<(usize, BackendEncryptedModel)>, position: int) -> Option<
    BackendEncryptedModel,
>
    decreases results.len(),
{
    if results.len() == 0 {
        None
    } else if results[0].0 == position {
        Some(results[0].1)
    } else {
        result_at(results.drop_first(), position)
    }
}

/// The first result keyed by a position is the one that answers it.
pub proof fn lemma_result_at_first(
    results: Seq<(usize, BackendEncryptedModel)>,
    position: int,
    p: int,
)
    requires
        0 <= p < results.len(),
        results[p].0 == position,
        forall|q: int| 0 <= q < p ==> (#[trigger] results[q]).0 != position,
    ensures
        result_at(results, position) == Some(results[p].1),
    decreases results.len(),
{
    if p > 0 {
        assert(results[0].0 != position);
        let rest = results.drop_first();
        assert forall|q: int| 0 <= q < p - 1 implies (#[trigger] rest[q]).0 != position by {
            assert(rest[q] == results[q + 1]);
        }
        lemma_result_at_first(rest, position, p - 1);
    }
}

/// Where no result is keyed by a position, none answers it.
pub proof fn lemma_result_at_none(results: Seq<(usize, BackendEncryptedModel)>, position: int)
    requires
        forall|q: int| 0 <= q < results.len() ==> (#[trigger] results[q]).0 != position,
    ensures
        result_at(results, position) is None,
    decreases results.len(),
{
    if results.len() > 0 {
        assert(results[0].0 != position);
        let rest = results.drop_first();
        assert forall|q: int| 0 <= q < rest.len() implies (#[trigger] rest[q]).0 != position by {
            assert(rest[q] == results[q + 1]);
        }
        lemma_result_at_none(rest, position);
    }
}

/// Taking out the result of one position leaves the answers to all other
/// positions as they were.
pub proof fn lemma_result_at_remove(
    results: Seq<(usize, BackendEncryptedModel)>,
    position: int,
    p: int,
)
    requires
        0 <= p < results.len(),
        results[p].0 != position,
    ensures
        result_at(results.remove(p), position) == result_at(results, position),
    decreases results.len(),
{
    if p == 0 {
        assert(results.remove(0) =~= results.drop_first());
    } else {
        assert(results.remove(p)[0] == results[0]);
        assert(results.remove(p).drop_first() =~= results.drop_first().remove(p - 1));
        if results[0].0 != position {
            lemma_result_at_remove(results.drop_first(), position, p - 1);
        }
    }
}

/// Takes the result that answers a position out of the batch.
pub fn take_result(results: &mut Vec<(usize, BackendEncrypted)>, position: usize) -> (taken: Option<
    BackendEncrypted,
>)
    ensures
        match taken {
            Some(encrypted) => result_at(result_views(old(results)@), position as int) == Some(
                encrypted@,
            ),
            None => result_at(result_views(old(results)@), position as int) is None
                && final(results)@ == old(results)@,
        },
        taken is Some ==> exists|p: int|
            0 <= p < old(results)@.len() && (#[trigger] old(results)@[p]).0 == position
                && final(results)@ == old(results)@.remove(p),
        forall|other: int|
            other != position ==> result_at(result_views(final(results)@), other) == result_at(
                result_views(old(results)@),
                other,
            ),
{
    let ghost before = result_views(results@);
    let mut p: usize = 0;
    while p < results.len()
        invariant
            p <= results.len(),
            results@ == old(results)@,
            before == result_views(results@),
            forall|q: int| 0 <= q < p ==> (#[trigger] before[q]).0 != position,
        decreases results.len() - p,
    {
        if results[p].0 == position {
            let entry = results.remove(p);
            proof {
                assert(old(results)@[p as int].0 == position);
                assert(before[p as int] == (entry.0, entry.1@));
                lemma_result_at_first(before, position as int, p as int);
                assert(result_views(results@) =~= before.remove(p as int));
                assert forall|other: int| other != position implies result_at(
                    result_views(results@),
                    other,
                ) == result_at(before, other) by {
                    lemma_result_at_remove(before, other, p as int);
                }
            }
            return Some(entry.1);
        }
        p += 1;
    }
    proof {
        lemma_result_at_none(before, position as int);
    }
    None
}

/// The message of the invariant violation for a single encryption that
/// came back without a result.
pub open spec fn missing_single_result_message() -> Seq<char> {
    "`encrypt` expected a single result in the pipeline, but there were none"@
}

/// The message of the invariant violation for a bulk encryption that came
/// back without a result at a position.
pub open spec fn missing_bulk_result_message(position: nat) -> Seq<char> {
    "`encrypt_bulk` expected a result in the pipeline at index "@ + decimal_text(position)
        + ", but there was none"@
}

/// The envelope of a single encryption, from what came back for its batch
/// of one: the result at position 0, marshalled. A missing result is an
/// invariant violation.
pub open spec fn single_envelope(
    results: Seq<(usize, BackendEncryptedModel)>,
    identifier: (Seq<char>, Seq<char>),
    cast_as: CastAs,
) -> Result<EncryptedModel, ErrorModel> {
    match result_at(results, 0) {
        None => Err(ErrorModel::InvariantViolation(missing_single_result_message())),
        Some(encrypted) => eql_encrypted(encrypted, identifier, cast_as),
    }
}

/// Reads the envelope of a single encryption from what came back.
pub fn single_result(
    results: Vec<(usize, BackendEncrypted)>,
    identifier: &Identifier,
    cast_as: &CastAs,
) -> (r: Result<Encrypted, Error>)
    ensures
        reports_envelope(r, single_envelope(result_views(results@), identifier@, *cast_as)),
{
    let mut remaining = results;
    match take_result(&mut remaining, 0) {
        Some(encrypted) => to_eql_encrypted(encrypted, identifier, cast_as),
        None => Err(
            Error::InvariantViolation(
                String::from_str(
                    "`encrypt` expected a single result in the pipeline, but there were none",
                ),
            ),
        ),
    }
}

/// The identifiers and casts of a batch, as mathematical values.
pub open spec fn key_views(keys: Seq<(Identifier, CastAs)>) -> Seq<((Seq<char>, Seq<char>), CastAs)> {
    keys.map_values(|key: (Identifier, CastAs)| (key.0@, key.1))
}

/// The envelope for one position of a bulk encryption: the result that
/// answers the position, marshalled under the identifier and cast of that
/// position. A missing result is an invariant violation that names the
/// position.
pub open spec fn envelope_at(
    results: Seq<(usize, BackendEncryptedModel)>,
    keys: Seq<((Seq<char>, Seq<char>), CastAs)>,
) -> spec_fn(int) -> Result<EncryptedModel, ErrorModel> {
    |position: int|
        match result_at(results, position) {
            None => Err(
                ErrorModel::InvariantViolation(missing_bulk_result_message(position as nat)),
            ),
            Some(encrypted) => eql_encrypted(encrypted, keys[position].0, keys[position].1),
        }
}

/// The positions of a batch of a given size, in input order.
pub open spec fn positions(n: nat) -> Seq<int> {
    Seq::new(n, |i: int| i)
}

/// The envelopes of a bulk encryption: one per input position, in input
/// order, whatever the order in which the results completed; or the
/// failure of the first position that has one.
pub open spec fn bulk_envelopes(
    results: Seq<(usize, BackendEncryptedModel)>,
    keys: Seq<((Seq<char>, Seq<char>), CastAs)>,
) -> Result<Seq<EncryptedModel>, ErrorModel> {
    try_map(positions(keys.len()), envelope_at(results, keys))
}

/// Reads the envelopes of a bulk encryption from what came back, by
/// position.
pub fn bulk_results(results: Vec<(usize, BackendEncrypted)>, keys: &Vec<(Identifier, CastAs)>) -> (r:
    Result<Vec<Encrypted>, Error>)
    ensures
        match bulk_envelopes(result_views(results@), key_views(keys@)) {
            Ok(envelopes) => r is Ok && envelope_views(r->Ok_0@) == envelopes,
            Err(e) => r is Err && r->Err_0@ == e,
        },
{
    let ghost original = result_views(results@);
    let ghost key_models = key_views(keys@);
    let ghost all = positions(keys@.len());
    let ghost f = envelope_at(original, key_models);
    let len = keys.len();
    let mut remaining = results;
    let mut envelopes: Vec<Encrypted> = Vec::new();
    assert(key_models.len() == keys@.len());
    assert(all.take(0) =~= Seq::<int>::empty());
    assert(envelope_views(envelopes@) =~= Seq::<EncryptedModel>::empty());
    let mut index: usize = 0;
    while index < len
        invariant
            index <= len,
            len == keys@.len(),
            key_models == key_views(keys@),
            all == positions(keys@.len()),
            f == envelope_at(original, key_models),
            original == result_views(results@),
            forall|later: int|
                later >= index ==> result_at(result_views(remaining@), later) == result_at(
                    original,
                    later,
                ),
            try_map(all.take(index as int), f) == Ok::<Seq<EncryptedModel>, ErrorModel>(
                envelope_views(envelopes@),
            ),
        decreases len - index,
    {
        proof {
            lemma_try_map_step(all, f, index as int);
            assert(all[index as int] == index as int);
            assert(key_models[index as int] == (keys@[index as int].0@, keys@[index as int].1));
        }
        let encrypted = match take_result(&mut remaining, index) {
            Some(encrypted) => encrypted,
            None => {
                proof {
                    lemma_try_map_prefix_fails(all, f, index as int + 1);
                }
                return Err(
                    Error::InvariantViolation(
                        String::from_str(
                            "`encrypt_bulk` expected a result in the pipeline at index ",
                        ).concat(decimal_string(index as u64).as_str()).concat(
                            ", but there was none",
                        ),
                    ),
                );
            },
        };
        let identifier = &keys[index].0;
        let cast_as = &keys[index].1;
        match to_eql_encrypted(encrypted, identifier, cast_as) {
            Ok(eql_payload) => {
                let ghost before = envelopes@;
                envelopes.push(eql_payload);
                assert(envelope_views(envelopes@) =~= envelope_views(before).push(eql_payload@));
            },
            Err(e) => {
                proof {
                    lemma_try_map_prefix_fails(all, f, index as int + 1);
                }
                return Err(e);
            },
        }
        index += 1;
    }
    assert(all.take(len as int) =~= all);
    Ok(envelopes)
}

/// A bulk encryption that succeeds returns exactly one envelope per input
/// position, and the envelope at each position is the one marshalled from
/// the result keyed by that position, under that position's identifier
/// and cast: output order is input order, whatever the completion order.
pub proof fn lemma_bulk_results_are_positional(
    results: Seq<(usize, BackendEncryptedModel)>,
    keys: Seq<((Seq<char>, Seq<char>), CastAs)>,
)
    requires
        bulk_envelopes(results, keys) is Ok,
    ensures
        bulk_envelopes(results, keys)->Ok_0.len() == keys.len(),
        forall|i: int|
            #![trigger result_at(results, i)]
            0 <= i < keys.len() ==> result_at(results, i) is Some && eql_encrypted(
                result_at(results, i)->0,
                keys[i].0,
                keys[i].1,
            ) == Ok::<EncryptedModel, ErrorModel>(bulk_envelopes(results, keys)->Ok_0[i]),
{
    let all = positions(keys.len());
    let f = envelope_at(results, keys);
    let envelopes = bulk_envelopes(results, keys)->Ok_0;
    crate::sequence::lemma_try_map_ok(all, f);
    assert forall|i: int| 0 <= i < keys.len() implies #[trigger] result_at(results, i) is Some
        && eql_encrypted(result_at(results, i)->0, keys[i].0, keys[i].1) == Ok::<
        EncryptedModel,
        ErrorModel,
    >(envelopes[i]) by {
        assert(all[i] == i);
        assert(f(all[i]) == Ok::<EncryptedModel, ErrorModel>(envelopes[i]));
        assert(f(i) == match result_at(results, i) {
            None => Err::<EncryptedModel, ErrorModel>(
                ErrorModel::InvariantViolation(missing_bulk_result_message(i as nat)),
            ),
            Some(encrypted) => eql_encrypted(encrypted, keys[i].0, keys[i].1),
        });
    }
}

/// A bulk encryption is all-or-nothing: where it fails, the failure is
/// that of the first position that has none or whose result does not
/// marshal, and every position before it was fine.
pub proof fn lemma_bulk_results_are_atomic(
    results: Seq<(usize, BackendEncryptedModel)>,
    keys: Seq<((Seq<char>, Seq<char>), CastAs)>,
) -> (at: int)
    requires
        bulk_envelopes(results, keys) is Err,
    ensures
        0 <= at < keys.len(),
        envelope_at(results, keys)(at) == Err::<EncryptedModel, ErrorModel>(
            bulk_envelopes(results, keys)->Err_0,
        ),
        forall|i: int| 0 <= i < at ==> (#[trigger] envelope_at(results, keys)(i)) is Ok,
{
    let all = positions(keys.len());
    let f = envelope_at(results, keys);
    let at = crate::sequence::lemma_try_map_err(all, f);
    assert(all[at] == at);
    assert forall|i: int| 0 <= i < at implies (#[trigger] envelope_at(results, keys)(i)) is Ok by {
        assert(all[i] == i);
        assert(f(all[i]) is Ok);
    }
    at
}


/// A decrypted value, decoded to its type.
#[derive(Debug)]
pub enum Plaintext {
    /// Text.
    Utf8Str(String),
    /// A JSON document.
    JsonB(serde_json::Value),
    /// A null of any type, or a value of any other type, with a
    /// description of it.
    Other(String),
}

/// The message that refuses a decrypted value which is described so.
pub open spec fn refused_plaintext_message(description: Seq<char>) -> Seq<char> {
    "plaintext decryption for type `"@ + description + "`"@
}

/// The text that a decrypted value is returned as: text as it is, a JSON
/// document as its compact text. A null and a value of any other type are
/// not implemented.
pub open spec fn plaintext_text(plaintext: Plaintext) -> Result<Seq<char>, ErrorModel> {
    match plaintext {
        Plaintext::Utf8Str(text) => Ok(text@),
        Plaintext::JsonB(document) => match json_text(document) {
            Some(text) => Ok(text),
            None => Err(ErrorModel::Parse),
        },
        Plaintext::Other(description) => Err(
            ErrorModel::Unimplemented(refused_plaintext_message(description@)),
        ),
    }
}

/// The text of a decrypted value that may have failed to decode: a
/// decoding failure is a type parse error with the decoder's message.
pub open spec fn decoded_text(decoded: Result<Plaintext, String>) -> Result<
    Seq<char>,
    ErrorModel,
> {
    match decoded {
        Ok(plaintext) => plaintext_text(plaintext),
        Err(message) => Err(ErrorModel::TypeParse(message@)),
    }
}

/// Returns a decrypted value as text.
pub fn plaintext_to_string(plaintext: Plaintext) -> (r: Result<String, Error>)
    ensures
        reports_text(r, plaintext_text(plaintext)),
{
    match plaintext {
        Plaintext::Utf8Str(inner) => Ok(inner),
        Plaintext::JsonB(json_value) => match json_to_string(&json_value) {
            Ok(text) => Ok(text),
            Err(e) => Err(Error::Parse(e)),
        },
        Plaintext::Other(description) => Err(
            Error::Unimplemented(
                String::from_str("plaintext decryption for type `").concat(
                    description.as_str(),
                ).concat("`"),
            ),
        ),
    }
}

/// Returns as text what came back from a single decryption.
pub fn decoded_to_string(decoded: Result<Plaintext, String>) -> (r: Result<String, Error>)
    ensures
        reports_text(r, decoded_text(decoded)),
{
    match decoded {
        Ok(plaintext) => plaintext_to_string(plaintext),
        Err(message) => Err(Error::TypeParse(message)),
    }
}

/// The text of each decrypted value of a bulk decryption.
pub open spec fn decoded_texts() -> spec_fn(Result<Plaintext, String>) -> Result<
    Seq<char>,
    ErrorModel,
> {
    |item: Result<Plaintext, String>| decoded_text(item)
}

/// The message of the invariant violation for a bulk decryption that came
/// back with another number of values than were asked for.
pub open spec fn count_mismatch_message(expected: nat, returned: nat) -> Seq<char> {
    "`decrypt_bulk` expected "@ + decimal_text(expected) + " results, but there were "@
        + decimal_text(returned)
}

/// The texts of a bulk decryption: one per requested item, in the order of
/// the request. Another number of values than were asked for is an
/// invariant violation, and comes before the failure of any single value;
/// otherwise the first value that fails decides.
pub open spec fn bulk_texts(decrypted: Seq<Result<Plaintext, String>>, expected: nat) -> Result<
    Seq<Seq<char>>,
    ErrorModel,
> {
    if decrypted.len() != expected {
        Err(ErrorModel::InvariantViolation(count_mismatch_message(expected, decrypted.len())))
    } else {
        try_map(decrypted, decoded_texts())
    }
}

/// Returns as texts what came back from a bulk decryption of `expected`
/// items, in the order of the request. The first value that fails aborts
/// the whole request.
pub fn bulk_plaintexts(decrypted: Vec<Result<Plaintext, String>>, expected: usize) -> (r: Result<
    Vec<String>,
    Error,
>)
    ensures
        match bulk_texts(decrypted@, expected as nat) {
            Ok(texts) => r is Ok && text_views(r->Ok_0@) == texts,
            Err(e) => r is Err && r->Err_0@ == e,
        },
{
    if decrypted.len() != expected {
        return Err(
            Error::InvariantViolation(
                String::from_str("`decrypt_bulk` expected ").concat(
                    decimal_string(expected as u64).as_str(),
                ).concat(" results, but there were ").concat(
                    decimal_string(decrypted.len() as u64).as_str(),
                ),
            ),
        );
    }
    let ghost f = decoded_texts();
    let mut plaintexts: Vec<String> = Vec::new();
    assert(decrypted@.take(0) =~= Seq::<Result<Plaintext, String>>::empty());
    assert(text_views(plaintexts@) =~= Seq::<Seq<char>>::empty());
    for item in iter: decrypted
        invariant
            iter.seq() == decrypted@,
            decrypted@.len() == expected,
            f == decoded_texts(),
            try_map(decrypted@.take(iter.index() as int), f) == Ok::<Seq<Seq<char>>, ErrorModel>(
                text_views(plaintexts@),
            ),
    {
        let ghost n = iter.index() as int;
        proof {
            lemma_try_map_step(decrypted@, f, n);
        }
        match decoded_to_string(item) {
            Ok(text) => {
                let ghost before = plaintexts@;
                plaintexts.push(text);
                assert(text_views(plaintexts@) =~= text_views(before).push(text@));
            },
            Err(e) => {
                proof {
                    lemma_try_map_prefix_fails(decrypted@, f, n + 1);
                }
                return Err(e);
            },
        }
    }
    assert(decrypted@.take(decrypted@.len() as int) =~= decrypted@);
    Ok(plaintexts)
}

/// A bulk decryption that succeeds returns exactly as many texts as were
/// asked for, and the text at each position is that of the value that came
/// back at that position: never a list shorter or longer than the input.
pub proof fn lemma_bulk_texts_are_positional(
    decrypted: Seq<Result<Plaintext, String>>,
    expected: nat,
)
    requires
        bulk_texts(decrypted, expected) is Ok,
    ensures
        decrypted.len() == expected,
        bulk_texts(decrypted, expected)->Ok_0.len() == expected,
        forall|i: int|
            #![trigger decrypted[i]]
            0 <= i < expected ==> decoded_text(decrypted[i]) == Ok::<Seq<char>, ErrorModel>(
                bulk_texts(decrypted, expected)->Ok_0[i],
            ),
{
    crate::sequence::lemma_try_map_ok(decrypted, decoded_texts());
}

/// A bulk decryption whose count is off fails as an invariant violation,
/// whatever the values are.
pub proof fn lemma_count_mismatch_is_invariant_violation(
    decrypted: Seq<Result<Plaintext, String>>,
    expected: nat,
)
    requires
        decrypted.len() != expected,
    ensures
        bulk_texts(decrypted, expected) is Err,
        bulk_texts(decrypted, expected)->Err_0 is InvariantViolation,
{
}

} // verus!

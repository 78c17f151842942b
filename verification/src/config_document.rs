//! Reading a configuration document: which JSON documents denote a
//! configuration, and which one.
//!
//! Each `*_of_json` function says what a document denotes, or `None` where
//! the document violates the expected structure. Unknown members are
//! ignored throughout. Each `parse_*` function computes the same from a
//! parsed document.

use vstd::prelude::*;
use serde_json::Error as JsonError;
use crate::assoc::{assoc_map, lemma_assoc_key};
use crate::encrypt_config::{
    column_models, column_names, default_k, default_m, default_tokenizer, table_models,
    table_names, CastAs, Column, ColumnModel, EncryptConfig, EncryptConfigModel, Indexes,
    IndexesModel, MatchIndexModel, MatchIndexOpts, OreIndexOpts, SteVecIndexOpts, Table,
    TableModel, Tables, TablesModel, TokenFilter, Tokenizer, UniqueIndexOpts,
};
use crate::json::{
    get_field, json_content, json_contents, json_error, value_as_array,
    value_as_bool, value_as_str, value_as_u64, value_is_null, value_is_object,
    value_object_keys, JsonModel,
};
use crate::error::Error;
use crate::json::{json_document, parse_json};
use crate::text::{same_text, text_views};

verus! {

/// A number that is a non-negative integer within `usize`.
pub open spec fn usize_of_json(doc: JsonModel) -> Option<usize> {
    match doc.unsigned() {
        Some(n) => if n <= usize::MAX {
            Some(n as usize)
        } else {
            None
        },
        None => None,
    }
}

/// A number that is a non-negative integer within 32 bits.
pub open spec fn u32_of_json(doc: JsonModel) -> Option<u32> {
    match doc.unsigned() {
        Some(n) => if n <= u32::MAX {
            Some(n as u32)
        } else {
            None
        },
        None => None,
    }
}

/// A boolean.
pub open spec fn bool_of_json(doc: JsonModel) -> Option<bool> {
    match doc {
        JsonModel::Bool(b) => Some(b),
        _ => None,
    }
}

/// The token filter that a kind tag names.
pub open spec fn token_filter_of_kind(kind: Seq<char>) -> Option<TokenFilter> {
    if kind == "upcase"@ {
        Some(TokenFilter::Upcase)
    } else if kind == "downcase"@ {
        Some(TokenFilter::Downcase)
    } else if kind == "stemmer"@ {
        Some(TokenFilter::Stemmer)
    } else if kind == "stop"@ {
        Some(TokenFilter::Stop)
    } else {
        None
    }
}

/// A token filter: an object whose `kind` names one.
pub open spec fn token_filter_of_json(doc: JsonModel) -> Option<TokenFilter> {
    match doc.field("kind"@) {
        Some(JsonModel::Str(kind)) => token_filter_of_kind(kind),
        _ => None,
    }
}

/// A list of token filters: an array of them, in order.
pub open spec fn token_filters_of_json(doc: JsonModel) -> Option<Seq<TokenFilter>> {
    match doc {
        JsonModel::Array(items) => if forall|i: int|
            0 <= i < items.len() ==> token_filter_of_json(#[trigger] items[i]) is Some {
            Some(Seq::new(items.len(), |i: int| token_filter_of_json(items[i])->0))
        } else {
            None
        },
        _ => None,
    }
}

/// A tokenizer: an object whose `kind` names one and which holds the
/// lengths that the kind asks for.
pub open spec fn tokenizer_of_json(doc: JsonModel) -> Option<Tokenizer> {
    match doc.field("kind"@) {
        Some(JsonModel::Str(kind)) => if kind == "edge-ngram"@ {
            match (doc.field("min_gram"@), doc.field("max_gram"@)) {
                (Some(min), Some(max)) => match (usize_of_json(min), usize_of_json(max)) {
                    (Some(min_gram), Some(max_gram)) => Some(
                        Tokenizer::EdgeNgram { min_gram, max_gram },
                    ),
                    _ => None,
                },
                _ => None,
            }
        } else if kind == "ngram"@ {
            match doc.field("token_length"@) {
                Some(length) => match usize_of_json(length) {
                    Some(token_length) => Some(Tokenizer::Ngram { token_length }),
                    None => None,
                },
                None => None,
            }
        } else if kind == "standard"@ {
            Some(Tokenizer::Standard)
        } else {
            None
        },
        _ => None,
    }
}

/// The cast that a name denotes.
pub open spec fn cast_as_of_name(name: Seq<char>) -> Option<CastAs> {
    if name == "text"@ {
        Some(CastAs::Text)
    } else if name == "boolean"@ {
        Some(CastAs::Boolean)
    } else if name == "small_int"@ {
        Some(CastAs::SmallInt)
    } else if name == "int"@ {
        Some(CastAs::Int)
    } else if name == "big_int"@ {
        Some(CastAs::BigInt)
    } else if name == "real"@ {
        Some(CastAs::Real)
    } else if name == "double"@ {
        Some(CastAs::Double)
    } else if name == "date"@ {
        Some(CastAs::Date)
    } else if name == "jsonb"@ {
        Some(CastAs::JsonB)
    } else {
        None
    }
}

/// A cast: a string that names one.
pub open spec fn cast_as_of_json(doc: JsonModel) -> Option<CastAs> {
    match doc {
        JsonModel::Str(name) => cast_as_of_name(name),
        _ => None,
    }
}

/// The options of an exact-match index: an object; its filter list is
/// empty where the member is absent.
pub open spec fn unique_opts_of_json(doc: JsonModel) -> Option<Seq<TokenFilter>> {
    if doc is Object {
        match doc.field("token_filters"@) {
            Some(filters) => token_filters_of_json(filters),
            None => Some(Seq::empty()),
        }
    } else {
        None
    }
}

/// The options of an order-revealing index: any object.
pub open spec fn ore_opts_of_json(doc: JsonModel) -> bool {
    doc is Object
}

/// The options of a structural index: an object with a string `prefix`,
/// for which there is no default.
pub open spec fn ste_vec_opts_of_json(doc: JsonModel) -> Option<Seq<char>> {
    match doc.field("prefix"@) {
        Some(JsonModel::Str(prefix)) => Some(prefix),
        _ => None,
    }
}

/// The options of a full-text index: an object; absent members take the
/// defaults (standard tokenizer, no filters, 6 hash functions, 2048 bits,
/// original value not included).
pub open spec fn match_opts_of_json(doc: JsonModel) -> Option<MatchIndexModel> {
    if doc is Object {
        let tokenizer = match doc.field("tokenizer"@) {
            Some(t) => tokenizer_of_json(t),
            None => Some(Tokenizer::Standard),
        };
        let token_filters = match doc.field("token_filters"@) {
            Some(f) => token_filters_of_json(f),
            None => Some(Seq::empty()),
        };
        let k = match doc.field("k"@) {
            Some(n) => usize_of_json(n),
            None => Some(6usize),
        };
        let m = match doc.field("m"@) {
            Some(n) => usize_of_json(n),
            None => Some(2048usize),
        };
        let include_original = match doc.field("include_original"@) {
            Some(b) => bool_of_json(b),
            None => Some(false),
        };
        if tokenizer is Some && token_filters is Some && k is Some && m is Some
            && include_original is Some {
            Some(
                MatchIndexModel {
                    tokenizer: tokenizer->0,
                    token_filters: token_filters->0,
                    k: k->0,
                    m: m->0,
                    include_original: include_original->0,
                },
            )
        } else {
            None
        }
    } else {
        None
    }
}

/// Whether a member is absent or `null`: an index kind that is not
/// configured.
pub open spec fn not_configured(member: Option<JsonModel>) -> bool {
    member is None || member == Some(JsonModel::Null)
}

/// The index set of a column: an object with up to four members, each
/// absent, `null`, or the options of its kind.
pub open spec fn indexes_of_json(doc: JsonModel) -> Option<IndexesModel> {
    if doc is Object {
        let unique = doc.field("unique"@);
        let ore = doc.field("ore"@);
        let full_text = doc.field("match"@);
        let ste_vec = doc.field("ste_vec"@);
        if (not_configured(unique) || unique_opts_of_json(unique->0) is Some) && (not_configured(
            ore,
        ) || ore_opts_of_json(ore->0)) && (not_configured(full_text) || match_opts_of_json(
            full_text->0,
        ) is Some) && (not_configured(ste_vec) || ste_vec_opts_of_json(ste_vec->0) is Some) {
            Some(
                IndexesModel {
                    unique_index: if not_configured(unique) {
                        None
                    } else {
                        unique_opts_of_json(unique->0)
                    },
                    ore_index: !not_configured(ore),
                    match_index: if not_configured(full_text) {
                        None
                    } else {
                        match_opts_of_json(full_text->0)
                    },
                    ste_vec_index: if not_configured(ste_vec) {
                        None
                    } else {
                        ste_vec_opts_of_json(ste_vec->0)
                    },
                },
            )
        } else {
            None
        }
    } else {
        None
    }
}

/// The policy of a column: an object; the cast is text and the index set
/// empty where their members are absent.
pub open spec fn column_of_json(doc: JsonModel) -> Option<ColumnModel> {
    if doc is Object {
        let cast_as = match doc.field("cast_as"@) {
            Some(c) => cast_as_of_json(c),
            None => Some(CastAs::Text),
        };
        let indexes = match doc.field("indexes"@) {
            Some(i) => indexes_of_json(i),
            None => Some(IndexesModel::none()),
        };
        if cast_as is Some && indexes is Some {
            Some(ColumnModel { cast_as: cast_as->0, indexes: indexes->0 })
        } else {
            None
        }
    } else {
        None
    }
}

fn parse_usize(v: &serde_json::Value) -> (r: Option<usize>)
    ensures
        r == usize_of_json(json_content(*v)),
{
    match value_as_u64(v) {
        Some(n) => if n <= usize::MAX as u64 {
            Some(n as usize)
        } else {
            None
        },
        None => None,
    }
}

fn parse_token_filter(v: &serde_json::Value) -> (r: Option<TokenFilter>)
    ensures
        r == token_filter_of_json(json_content(*v)),
{
    let kind = match get_field(v, "kind") {
        Some(member) => match value_as_str(member) {
            Some(kind) => kind,
            None => return None,
        },
        None => return None,
    };
    if same_text(kind, "upcase") {
        Some(TokenFilter::Upcase)
    } else if same_text(kind, "downcase") {
        Some(TokenFilter::Downcase)
    } else if same_text(kind, "stemmer") {
        Some(TokenFilter::Stemmer)
    } else if same_text(kind, "stop") {
        Some(TokenFilter::Stop)
    } else {
        None
    }
}

fn parse_token_filters(v: &serde_json::Value) -> (r: Option<Vec<TokenFilter>>)
    ensures
        match token_filters_of_json(json_content(*v)) {
            Some(filters) => r is Some && r->0@ == filters,
            None => r is None,
        },
{
    let items = match value_as_array(v) {
        Some(items) => items,
        None => return None,
    };
    let ghost docs = json_contents(items@);
    let mut filters: Vec<TokenFilter> = Vec::new();
    let mut i: usize = 0;
    while i < items.len()
        invariant
            i <= items.len(),
            docs == json_contents(items@),
            json_content(*v) == JsonModel::Array(docs),
            filters@.len() == i,
            forall|j: int|
                0 <= j < i ==> token_filter_of_json(#[trigger] docs[j]) == Some(filters@[j]),
        decreases items.len() - i,
    {
        match parse_token_filter(&items[i]) {
            Some(filter) => filters.push(filter),
            None => {
                assert(token_filter_of_json(docs[i as int]) is None);
                return None;
            },
        }
        i += 1;
    }
    assert(filters@ =~= token_filters_of_json(json_content(*v))->0);
    Some(filters)
}

fn parse_tokenizer(v: &serde_json::Value) -> (r: Option<Tokenizer>)
    ensures
        r == tokenizer_of_json(json_content(*v)),
{
    let kind = match get_field(v, "kind") {
        Some(member) => match value_as_str(member) {
            Some(kind) => kind,
            None => return None,
        },
        None => return None,
    };
    if same_text(kind, "edge-ngram") {
        let min_gram = match get_field(v, "min_gram") {
            Some(member) => parse_usize(member),
            None => None,
        };
        let max_gram = match get_field(v, "max_gram") {
            Some(member) => parse_usize(member),
            None => None,
        };
        match (min_gram, max_gram) {
            (Some(min_gram), Some(max_gram)) => Some(Tokenizer::EdgeNgram { min_gram, max_gram }),
            _ => None,
        }
    } else if same_text(kind, "ngram") {
        match get_field(v, "token_length") {
            Some(member) => match parse_usize(member) {
                Some(token_length) => Some(Tokenizer::Ngram { token_length }),
                None => None,
            },
            None => None,
        }
    } else if same_text(kind, "standard") {
        Some(Tokenizer::Standard)
    } else {
        None
    }
}

fn parse_cast_as(v: &serde_json::Value) -> (r: Option<CastAs>)
    ensures
        r == cast_as_of_json(json_content(*v)),
{
    let name = match value_as_str(v) {
        Some(name) => name,
        None => return None,
    };
    if same_text(name, "text") {
        Some(CastAs::Text)
    } else if same_text(name, "boolean") {
        Some(CastAs::Boolean)
    } else if same_text(name, "small_int") {
        Some(CastAs::SmallInt)
    } else if same_text(name, "int") {
        Some(CastAs::Int)
    } else if same_text(name, "big_int") {
        Some(CastAs::BigInt)
    } else if same_text(name, "real") {
        Some(CastAs::Real)
    } else if same_text(name, "double") {
        Some(CastAs::Double)
    } else if same_text(name, "date") {
        Some(CastAs::Date)
    } else if same_text(name, "jsonb") {
        Some(CastAs::JsonB)
    } else {
        None
    }
}


/// The columns of a table: an object whose every member is a column
/// policy, by column name.
pub open spec fn table_of_json(doc: JsonModel) -> Option<TableModel> {
    match doc {
        JsonModel::Object(members) => if forall|name: Seq<char>|
            members.contains_key(name) ==> column_of_json(#[trigger] members[name]) is Some {
            Some(
                Map::new(
                    |name: Seq<char>| members.contains_key(name),
                    |name: Seq<char>| column_of_json(members[name])->0,
                ),
            )
        } else {
            None
        },
        _ => None,
    }
}

/// The tables of a configuration: an object whose every member is a
/// table, by table name.
pub open spec fn tables_of_json(doc: JsonModel) -> Option<TablesModel> {
    match doc {
        JsonModel::Object(members) => if forall|name: Seq<char>|
            members.contains_key(name) ==> table_of_json(#[trigger] members[name]) is Some {
            Some(
                Map::new(
                    |name: Seq<char>| members.contains_key(name),
                    |name: Seq<char>| table_of_json(members[name])->0,
                ),
            )
        } else {
            None
        },
        _ => None,
    }
}

/// The configuration that a document denotes: an object with a version
/// `v` that fits 32 bits and with `tables`. Neither member has a default.
pub open spec fn config_of_json(doc: JsonModel) -> Option<EncryptConfigModel> {
    match (doc.field("v"@), doc.field("tables"@)) {
        (Some(v), Some(t)) => match (u32_of_json(v), tables_of_json(t)) {
            (Some(version), Some(tables)) => Some(EncryptConfigModel { version, tables }),
            _ => None,
        },
        _ => None,
    }
}

fn parse_unique_opts(v: &serde_json::Value) -> (r: Result<UniqueIndexOpts, JsonError>)
    ensures
        match unique_opts_of_json(json_content(*v)) {
            Some(filters) => r is Ok && r->Ok_0.token_filters@ == filters,
            None => r is Err,
        },
{
    if !value_is_object(v) {
        return Err(json_error("invalid type: expected struct UniqueIndexOpts"));
    }
    match get_field(v, "token_filters") {
        Some(member) => match parse_token_filters(member) {
            Some(token_filters) => Ok(UniqueIndexOpts { token_filters }),
            None => Err(json_error("invalid value for `token_filters`")),
        },
        None => Ok(UniqueIndexOpts { token_filters: Vec::new() }),
    }
}

fn parse_ste_vec_opts(v: &serde_json::Value) -> (r: Result<SteVecIndexOpts, JsonError>)
    ensures
        match ste_vec_opts_of_json(json_content(*v)) {
            Some(prefix) => r is Ok && r->Ok_0.prefix@ == prefix,
            None => r is Err,
        },
{
    match get_field(v, "prefix") {
        Some(member) => match value_as_str(member) {
            Some(prefix) => Ok(SteVecIndexOpts { prefix: prefix.to_owned() }),
            None => Err(json_error("invalid type for `prefix`: expected a string")),
        },
        None => Err(json_error("missing field `prefix`")),
    }
}

fn parse_match_opts(v: &serde_json::Value) -> (r: Result<MatchIndexOpts, JsonError>)
    ensures
        match match_opts_of_json(json_content(*v)) {
            Some(opts) => r is Ok && r->Ok_0@ == opts,
            None => r is Err,
        },
{
    if !value_is_object(v) {
        return Err(json_error("invalid type: expected struct MatchIndexOpts"));
    }
    let tokenizer = match get_field(v, "tokenizer") {
        Some(member) => match parse_tokenizer(member) {
            Some(tokenizer) => tokenizer,
            None => return Err(json_error("invalid value for `tokenizer`")),
        },
        None => default_tokenizer(),
    };
    let token_filters = match get_field(v, "token_filters") {
        Some(member) => match parse_token_filters(member) {
            Some(token_filters) => token_filters,
            None => return Err(json_error("invalid value for `token_filters`")),
        },
        None => Vec::new(),
    };
    let k = match get_field(v, "k") {
        Some(member) => match parse_usize(member) {
            Some(k) => k,
            None => return Err(json_error("invalid value for `k`: expected an unsigned integer")),
        },
        None => default_k(),
    };
    let m = match get_field(v, "m") {
        Some(member) => match parse_usize(member) {
            Some(m) => m,
            None => return Err(json_error("invalid value for `m`: expected an unsigned integer")),
        },
        None => default_m(),
    };
    let include_original = match get_field(v, "include_original") {
        Some(member) => match value_as_bool(member) {
            Some(include_original) => include_original,
            None => return Err(
                json_error("invalid type for `include_original`: expected a boolean"),
            ),
        },
        None => false,
    };
    Ok(MatchIndexOpts { tokenizer, token_filters, k, m, include_original })
}

/// The member under a key where an index kind is configured there:
/// `None` where the member is absent or `null`.
fn configured<'a>(v: &'a serde_json::Value, key: &str) -> (r: Option<&'a serde_json::Value>)
    ensures
        match r {
            Some(member) => !not_configured(json_content(*v).field(key@)) && json_content(
                *v,
            ).field(key@) == Some(json_content(*member)),
            None => not_configured(json_content(*v).field(key@)),
        },
{
    match get_field(v, key) {
        Some(member) => if value_is_null(member) {
            None
        } else {
            Some(member)
        },
        None => None,
    }
}

fn parse_indexes(v: &serde_json::Value) -> (r: Result<Indexes, JsonError>)
    ensures
        match indexes_of_json(json_content(*v)) {
            Some(indexes) => r is Ok && r->Ok_0@ == indexes,
            None => r is Err,
        },
{
    if !value_is_object(v) {
        return Err(json_error("invalid type: expected struct Indexes"));
    }
    let unique_index = match configured(v, "unique") {
        Some(member) => match parse_unique_opts(member) {
            Ok(opts) => Some(opts),
            Err(e) => return Err(e),
        },
        None => None,
    };
    let ore_index = match configured(v, "ore") {
        Some(member) => if value_is_object(member) {
            Some(OreIndexOpts {  })
        } else {
            return Err(json_error("invalid type: expected struct OreIndexOpts"));
        },
        None => None,
    };
    let match_index = match configured(v, "match") {
        Some(member) => match parse_match_opts(member) {
            Ok(opts) => Some(opts),
            Err(e) => return Err(e),
        },
        None => None,
    };
    let ste_vec_index = match configured(v, "ste_vec") {
        Some(member) => match parse_ste_vec_opts(member) {
            Ok(opts) => Some(opts),
            Err(e) => return Err(e),
        },
        None => None,
    };
    Ok(Indexes { unique_index, ore_index, match_index, ste_vec_index })
}

/// Reads the policy of one column.
pub fn parse_column(v: &serde_json::Value) -> (r: Result<Column, JsonError>)
    ensures
        match column_of_json(json_content(*v)) {
            Some(column) => r is Ok && r->Ok_0@ == column,
            None => r is Err,
        },
{
    if !value_is_object(v) {
        return Err(json_error("invalid type: expected struct Column"));
    }
    let cast_as = match get_field(v, "cast_as") {
        Some(member) => match parse_cast_as(member) {
            Some(cast_as) => cast_as,
            None => return Err(json_error("unknown variant for `cast_as`")),
        },
        None => CastAs::default(),
    };
    let indexes = match get_field(v, "indexes") {
        Some(member) => match parse_indexes(member) {
            Ok(indexes) => indexes,
            Err(e) => return Err(e),
        },
        None => Indexes::default(),
    };
    Ok(Column { cast_as, indexes })
}

/// Reads the columns of one table.
pub fn parse_table(v: &serde_json::Value) -> (r: Result<Table, JsonError>)
    ensures
        match table_of_json(json_content(*v)) {
            Some(table) => r is Ok && r->Ok_0@ == table,
            None => r is Err,
        },
{
    let keys = match value_object_keys(v) {
        Some(keys) => keys,
        None => return Err(json_error("invalid type: expected a map of columns")),
    };
    let ghost members = json_content(*v)->Object_0;
    let ghost names = text_views(keys@);
    let mut entries: Vec<(String, Column)> = Vec::new();
    let mut i: usize = 0;
    while i < keys.len()
        invariant
            i <= keys.len(),
            json_content(*v) == JsonModel::Object(members),
            names == text_views(keys@),
            names.no_duplicates(),
            forall|k: Seq<char>| members.contains_key(k) <==> names.contains(k),
            entries@.len() == i,
            forall|j: int| 0 <= j < i ==> (#[trigger] entries@[j]).0@ == names[j],
            forall|j: int|
                0 <= j < i ==> column_of_json(members[names[j]]) == Some(
                    (#[trigger] entries@[j]).1@,
                ),
        decreases keys.len() - i,
    {
        let key = &keys[i];
        proof {
            assert(names[i as int] == key@);
            assert(names.contains(key@));
        }
        let member = match get_field(v, key.as_str()) {
            Some(member) => member,
            None => {
                assert(false);
                return Err(json_error("missing member"));
            },
        };
        match parse_column(member) {
            Ok(column) => entries.push((key.clone(), column)),
            Err(e) => {
                assert(column_of_json(members[key@]) is None);
                return Err(e);
            },
        }
        i += 1;
    }
    proof {
        assert(column_names(entries@) =~= names);
        assert forall|name: Seq<char>| members.contains_key(name) implies column_of_json(
            #[trigger] members[name],
        ) is Some by {
            let j = choose|j: int| 0 <= j < names.len() && names[j] == name;
            assert(column_of_json(members[names[j]]) == Some(entries@[j].1@));
        }
        let expected = table_of_json(json_content(*v))->0;
        let built = assoc_map(column_names(entries@), column_models(entries@));
        assert forall|name: Seq<char>| built.contains_key(name) implies built[name]
            == expected[name] by {
            let j = lemma_assoc_key(column_names(entries@), column_models(entries@), name);
            assert(column_of_json(members[names[j]]) == Some(entries@[j].1@));
        }
        assert(built =~= expected);
    }
    Ok(Table::from_entries(entries))
}

/// Reads the tables of a configuration.
pub fn parse_tables(v: &serde_json::Value) -> (r: Result<Tables, JsonError>)
    ensures
        match tables_of_json(json_content(*v)) {
            Some(tables) => r is Ok && r->Ok_0@ == tables,
            None => r is Err,
        },
{
    let keys = match value_object_keys(v) {
        Some(keys) => keys,
        None => return Err(json_error("invalid type: expected a map of tables")),
    };
    let ghost members = json_content(*v)->Object_0;
    let ghost names = text_views(keys@);
    let mut entries: Vec<(String, Table)> = Vec::new();
    let mut i: usize = 0;
    while i < keys.len()
        invariant
            i <= keys.len(),
            json_content(*v) == JsonModel::Object(members),
            names == text_views(keys@),
            names.no_duplicates(),
            forall|k: Seq<char>| members.contains_key(k) <==> names.contains(k),
            entries@.len() == i,
            forall|j: int| 0 <= j < i ==> (#[trigger] entries@[j]).0@ == names[j],
            forall|j: int|
                0 <= j < i ==> table_of_json(members[names[j]]) == Some(
                    (#[trigger] entries@[j]).1@,
                ),
        decreases keys.len() - i,
    {
        let key = &keys[i];
        proof {
            assert(names[i as int] == key@);
            assert(names.contains(key@));
        }
        let member = match get_field(v, key.as_str()) {
            Some(member) => member,
            None => {
                assert(false);
                return Err(json_error("missing member"));
            },
        };
        match parse_table(member) {
            Ok(table) => entries.push((key.clone(), table)),
            Err(e) => {
                assert(table_of_json(members[key@]) is None);
                return Err(e);
            },
        }
        i += 1;
    }
    proof {
        assert(table_names(entries@) =~= names);
        assert forall|name: Seq<char>| members.contains_key(name) implies table_of_json(
            #[trigger] members[name],
        ) is Some by {
            let j = choose|j: int| 0 <= j < names.len() && names[j] == name;
            assert(table_of_json(members[names[j]]) == Some(entries@[j].1@));
        }
        let expected = tables_of_json(json_content(*v))->0;
        let built = assoc_map(table_names(entries@), table_models(entries@));
        assert forall|name: Seq<char>| built.contains_key(name) implies built[name]
            == expected[name] by {
            let j = lemma_assoc_key(table_names(entries@), table_models(entries@), name);
            assert(table_of_json(members[names[j]]) == Some(entries@[j].1@));
        }
        assert(built =~= expected);
    }
    Ok(Tables::from_entries(entries))
}

/// Reads a configuration from a parsed document. The version is read, not
/// judged: whether it is supported is decided afterwards.
pub fn parse_config(v: &serde_json::Value) -> (r: Result<EncryptConfig, JsonError>)
    ensures
        match config_of_json(json_content(*v)) {
            Some(config) => r is Ok && r->Ok_0@ == config,
            None => r is Err,
        },
{
    let version = match get_field(v, "v") {
        Some(member) => match value_as_u64(member) {
            Some(n) => if n <= u32::MAX as u64 {
                n as u32
            } else {
                return Err(json_error("invalid value for `v`: expected a 32-bit unsigned integer"));
            },
            None => return Err(
                json_error("invalid type for `v`: expected a 32-bit unsigned integer"),
            ),
        },
        None => return Err(json_error("missing field `v`")),
    };
    let tables = match get_field(v, "tables") {
        Some(member) => match parse_tables(member) {
            Ok(tables) => tables,
            Err(e) => return Err(e),
        },
        None => return Err(json_error("missing field `tables`")),
    };
    Ok(EncryptConfig { version, tables })
}


/// Whether a schema version is one that this library reads.
pub open spec fn supported_version(version: u32) -> bool {
    supported_versions().contains(version)
}

/// The supported schema versions.
pub open spec fn supported_versions() -> Seq<u32> {
    seq![2u32]
}

/// The supported schema versions.
pub fn supported_schema_versions() -> (versions: Vec<u32>)
    ensures
        versions@ == supported_versions(),
{
    let mut versions: Vec<u32> = Vec::new();
    versions.push(2);
    assert(versions@ =~= supported_versions());
    versions
}

/// Whether a schema version is one that this library reads.
pub fn is_supported_version(version: u32) -> (supported: bool)
    ensures
        supported == supported_version(version),
{
    assert(supported_versions()[0] == 2u32);
    version == 2
}

/// How reading a configuration ends, as mathematical values.
pub enum ConfigOutcome {
    /// The document denotes this configuration, in a supported version.
    Accepted(EncryptConfigModel),
    /// The text is not JSON, or the document violates the structure.
    Malformed,
    /// The document is well-formed, in this unsupported version.
    UnsupportedVersion(u32),
}

/// How reading a configuration from a document ends. A structural
/// violation anywhere in the document, the version member included, comes
/// before the judgement of the version.
pub open spec fn outcome_of_document(doc: JsonModel) -> ConfigOutcome {
    match config_of_json(doc) {
        None => ConfigOutcome::Malformed,
        Some(config) => if supported_version(config.version) {
            ConfigOutcome::Accepted(config)
        } else {
            ConfigOutcome::UnsupportedVersion(config.version)
        },
    }
}

/// How reading a configuration from a text ends.
pub open spec fn outcome_of_text(text: Seq<char>) -> ConfigOutcome {
    match json_document(text) {
        None => ConfigOutcome::Malformed,
        Some(doc) => outcome_of_document(doc),
    }
}

/// Whether a result reports a given outcome: the configuration itself, a
/// parse error, or the unsupported version with its number.
pub open spec fn reports(r: Result<EncryptConfig, Error>, outcome: ConfigOutcome) -> bool {
    match outcome {
        ConfigOutcome::Accepted(config) => r is Ok && r->Ok_0@ == config,
        ConfigOutcome::Malformed => r is Err && r->Err_0 is Parse,
        ConfigOutcome::UnsupportedVersion(version) => r is Err && r->Err_0
            == Error::UnsupportedSchemaVersion(version),
    }
}

impl EncryptConfig {
    /// Reads a configuration from a parsed document and accepts it only in
    /// a supported version.
    pub fn from_document(document: &serde_json::Value) -> (r: Result<EncryptConfig, Error>)
        ensures
            reports(r, outcome_of_document(json_content(*document))),
    {
        match parse_config(document) {
            Ok(config) => if is_supported_version(config.version) {
                Ok(config)
            } else {
                Err(Error::UnsupportedSchemaVersion(config.version))
            },
            Err(e) => Err(Error::Parse(e)),
        }
    }

    /// Reads a configuration from JSON text and accepts it only in a
    /// supported version.
    pub fn from_str(data: &str) -> (r: Result<EncryptConfig, Error>)
        ensures
            reports(r, outcome_of_text(data@)),
    {
        match parse_json(data) {
            Ok(document) => EncryptConfig::from_document(&document),
            Err(e) => Err(Error::Parse(e)),
        }
    }
}

/// A document without a version member denotes no configuration: reading
/// it ends in a parse failure, whatever else it holds.
pub proof fn lemma_missing_version_is_malformed(doc: JsonModel)
    requires
        doc.field("v"@) is None,
    ensures
        config_of_json(doc) is None,
        outcome_of_document(doc) is Malformed,
{
}

/// A well-formed document in an unsupported version is rejected with
/// exactly that version, and never as malformed.
pub proof fn lemma_unsupported_version_is_echoed(doc: JsonModel)
    requires
        config_of_json(doc) is Some,
        !supported_version(config_of_json(doc)->0.version),
    ensures
        outcome_of_document(doc) == ConfigOutcome::UnsupportedVersion(
            config_of_json(doc)->0.version,
        ),
        doc.field("v"@) is Some,
        u32_of_json(doc.field("v"@)->0) == Some(config_of_json(doc)->0.version),
{
}

/// Version 2 is supported and no other version is.
pub proof fn lemma_only_version_two(version: u32)
    ensures
        supported_version(version) <==> version == 2,
{
    assert(supported_versions()[0] == 2u32);
}

} // verus!

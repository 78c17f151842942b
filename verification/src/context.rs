//! Encryption context: application-level claims that bind a ciphertext,
//! read leniently from loosely-typed JSON.

use vstd::prelude::*;
use crate::error::Error;
use crate::json::{
    get_field, json_content, json_contents, json_document, parse_json, value_as_array,
    value_as_str, JsonModel,
};

verus! {

/// A contextual attribute that a data key is locked to.
#[derive(Debug, PartialEq, Eq)]
pub enum Context {
    /// A tag that can be used to identify the key.
    Tag(String),
    /// A key-value pair that can be used to identify the key.
    Value(String, String),
    /// A claim from the identity of the principal that requests the key.
    IdentityClaim(String),
}

/// A contextual attribute, as mathematical values.
pub enum ContextModel {
    Tag(Seq<char>),
    Value(Seq<char>, Seq<char>),
    IdentityClaim(Seq<char>),
}

impl View for Context {
    type V = ContextModel;

    open spec fn view(&self) -> ContextModel {
        match *self {
            Context::Tag(tag) => ContextModel::Tag(tag@),
            Context::Value(key, value) => ContextModel::Value(key@, value@),
            Context::IdentityClaim(claim) => ContextModel::IdentityClaim(claim@),
        }
    }
}

/// The views of a sequence of attributes, item by item.
pub open spec fn context_views(items: Seq<Context>) -> Seq<ContextModel> {
    items.map_values(|item: Context| item@)
}

/// The identity claims among the items of a list: one per string, in
/// order; any other item contributes nothing.
pub open spec fn claims_of(items: Seq<JsonModel>) -> Seq<ContextModel>
    decreases items.len(),
{
    if items.len() == 0 {
        Seq::empty()
    } else {
        match items.last() {
            JsonModel::Str(claim) => claims_of(items.drop_last()).push(
                ContextModel::IdentityClaim(claim),
            ),
            _ => claims_of(items.drop_last()),
        }
    }
}

/// The tags among the items of a list: one per string, in order; any
/// other item contributes nothing.
pub open spec fn tags_of(items: Seq<JsonModel>) -> Seq<ContextModel>
    decreases items.len(),
{
    if items.len() == 0 {
        Seq::empty()
    } else {
        match items.last() {
            JsonModel::Str(tag) => tags_of(items.drop_last()).push(ContextModel::Tag(tag)),
            _ => tags_of(items.drop_last()),
        }
    }
}

/// The key/value pair that an item denotes: an object whose `key` and
/// `value` are both strings.
pub open spec fn pair_of(item: JsonModel) -> Option<ContextModel> {
    match (item.field("key"@), item.field("value"@)) {
        (Some(JsonModel::Str(key)), Some(JsonModel::Str(value))) => Some(
            ContextModel::Value(key, value),
        ),
        _ => None,
    }
}

/// The key/value pairs among the items of a list: one per well-formed
/// pair, in order; any other item contributes nothing.
pub open spec fn pairs_of(items: Seq<JsonModel>) -> Seq<ContextModel>
    decreases items.len(),
{
    if items.len() == 0 {
        Seq::empty()
    } else {
        match pair_of(items.last()) {
            Some(pair) => pairs_of(items.drop_last()).push(pair),
            None => pairs_of(items.drop_last()),
        }
    }
}

/// The items of a member that is an array; nothing where the member is
/// absent or anything else.
pub open spec fn items_of(member: Option<JsonModel>) -> Seq<JsonModel> {
    match member {
        Some(JsonModel::Array(items)) => items,
        _ => Seq::empty(),
    }
}

/// The encryption context that a document denotes: identity claims, then
/// tags, then key/value pairs. Each of the three members contributes
/// nothing where it is absent or malformed; no document is rejected.
pub open spec fn context_of_json(doc: JsonModel) -> Seq<ContextModel> {
    claims_of(items_of(doc.field("identity_claim"@))) + tags_of(items_of(doc.field("tag"@)))
        + pairs_of(items_of(doc.field("value"@)))
}

/// The items of the member under a key, where that member is an array.
fn array_member<'a>(v: &'a serde_json::Value, key: &str) -> (r: Option<&'a Vec<serde_json::Value>>)
    ensures
        match r {
            Some(items) => json_contents(items@) == items_of(json_content(*v).field(key@)),
            None => items_of(json_content(*v).field(key@)) == Seq::<JsonModel>::empty(),
        },
{
    match get_field(v, key) {
        Some(member) => value_as_array(member),
        None => None,
    }
}

/// Reads the encryption context from a parsed document. Never fails.
pub fn encryption_context_of(context: &serde_json::Value) -> (encryption_context: Vec<Context>)
    ensures
        context_views(encryption_context@) == context_of_json(json_content(*context)),
{
    let ghost doc = json_content(*context);
    let mut encryption_context: Vec<Context> = Vec::new();
    assert(context_views(encryption_context@) =~= Seq::<ContextModel>::empty());

    if let Some(claims) = array_member(context, "identity_claim") {
        let ghost items = json_contents(claims@);
        let mut i: usize = 0;
        assert(items.take(0) =~= Seq::<JsonModel>::empty());
        while i < claims.len()
            invariant
                i <= claims.len(),
                items == json_contents(claims@),
                context_views(encryption_context@) == claims_of(items.take(i as int)),
            decreases claims.len() - i,
        {
            proof {
                assert(items.take(i as int + 1).drop_last() =~= items.take(i as int));
                assert(items.take(i as int + 1).last() == json_content(claims@[i as int]));
            }
            if let Some(claim) = value_as_str(&claims[i]) {
                let ghost before = encryption_context@;
                encryption_context.push(Context::IdentityClaim(claim.to_owned()));
                assert(context_views(encryption_context@) =~= context_views(before).push(
                    ContextModel::IdentityClaim(claim@),
                ));
            }
            i += 1;
        }
        assert(items.take(claims.len() as int) =~= items);
    }
    let ghost claims_part = context_views(encryption_context@);
    assert(claims_part == claims_of(items_of(doc.field("identity_claim"@))));

    if let Some(tags) = array_member(context, "tag") {
        let ghost items = json_contents(tags@);
        let mut i: usize = 0;
        assert(items.take(0) =~= Seq::<JsonModel>::empty());
        assert(claims_part + tags_of(items.take(0)) =~= claims_part);
        while i < tags.len()
            invariant
                i <= tags.len(),
                items == json_contents(tags@),
                context_views(encryption_context@) == claims_part + tags_of(items.take(i as int)),
            decreases tags.len() - i,
        {
            proof {
                assert(items.take(i as int + 1).drop_last() =~= items.take(i as int));
                assert(items.take(i as int + 1).last() == json_content(tags@[i as int]));
            }
            if let Some(tag) = value_as_str(&tags[i]) {
                let ghost before = encryption_context@;
                encryption_context.push(Context::Tag(tag.to_owned()));
                assert(context_views(encryption_context@) =~= context_views(before).push(
                    ContextModel::Tag(tag@),
                ));
                assert(claims_part + tags_of(items.take(i as int + 1)) =~= (claims_part + tags_of(
                    items.take(i as int),
                )).push(ContextModel::Tag(tag@)));
            }
            i += 1;
        }
        assert(items.take(tags.len() as int) =~= items);
    } else {
        assert(claims_part + Seq::<ContextModel>::empty() =~= claims_part);
    }
    let ghost tags_part = context_views(encryption_context@);
    assert(tags_part == claims_part + tags_of(items_of(doc.field("tag"@))));

    if let Some(values) = array_member(context, "value") {
        let ghost items = json_contents(values@);
        let mut i: usize = 0;
        assert(items.take(0) =~= Seq::<JsonModel>::empty());
        assert(tags_part + pairs_of(items.take(0)) =~= tags_part);
        while i < values.len()
            invariant
                i <= values.len(),
                items == json_contents(values@),
                context_views(encryption_context@) == tags_part + pairs_of(items.take(i as int)),
            decreases values.len() - i,
        {
            proof {
                assert(items.take(i as int + 1).drop_last() =~= items.take(i as int));
                assert(items.take(i as int + 1).last() == json_content(values@[i as int]));
            }
            let pair = &values[i];
            let key = match get_field(pair, "key") {
                Some(member) => value_as_str(member),
                None => None,
            };
            let value = match get_field(pair, "value") {
                Some(member) => value_as_str(member),
                None => None,
            };
            if let (Some(key), Some(value)) = (key, value) {
                let ghost before = encryption_context@;
                encryption_context.push(Context::Value(key.to_owned(), value.to_owned()));
                assert(context_views(encryption_context@) =~= context_views(before).push(
                    ContextModel::Value(key@, value@),
                ));
                assert(tags_part + pairs_of(items.take(i as int + 1)) =~= (tags_part + pairs_of(
                    items.take(i as int),
                )).push(ContextModel::Value(key@, value@)));
            }
            i += 1;
        }
        assert(items.take(values.len() as int) =~= items);
    } else {
        assert(tags_part + Seq::<ContextModel>::empty() =~= tags_part);
    }
    encryption_context
}

/// Parses JSON encryption context into context attributes. Fails only
/// where the text is not JSON.
pub fn parse_encryption_context(context_json: &str) -> (r: Result<Vec<Context>, Error>)
    ensures
        match json_document(context_json@) {
            Some(doc) => r is Ok && context_views(r->Ok_0@) == context_of_json(doc),
            None => r is Err && r->Err_0 is Parse,
        },
{
    match parse_json(context_json) {
        Ok(context) => Ok(encryption_context_of(&context)),
        Err(e) => Err(Error::Parse(e)),
    }
}

/// What optional context text denotes: nothing given is the empty
/// context, and text that is given must be JSON.
pub open spec fn optional_context(context_json: Option<Seq<char>>) -> Option<Seq<ContextModel>> {
    match context_json {
        None => Some(Seq::empty()),
        Some(text) => match json_document(text) {
            Some(doc) => Some(context_of_json(doc)),
            None => None,
        },
    }
}

/// Parses optional JSON encryption context; absent context is empty.
pub fn optional_encryption_context(context_json: Option<&str>) -> (r: Result<Vec<Context>, Error>)
    ensures
        match optional_context(
            match context_json {
                Some(text) => Some(text@),
                None => None,
            },
        ) {
            Some(context) => r is Ok && context_views(r->Ok_0@) == context,
            None => r is Err && r->Err_0 is Parse,
        },
{
    match context_json {
        Some(context) => parse_encryption_context(context),
        None => {
            let empty: Vec<Context> = Vec::new();
            assert(context_views(empty@) =~= Seq::<ContextModel>::empty());
            Ok(empty)
        },
    }
}

/// A document in which none of the three context members is an array
/// denotes the empty context: missing or malformed context data is no
/// failure.
pub proof fn lemma_malformed_context_is_empty(doc: JsonModel)
    requires
        !(doc.field("identity_claim"@) matches Some(JsonModel::Array(_))),
        !(doc.field("tag"@) matches Some(JsonModel::Array(_))),
        !(doc.field("value"@) matches Some(JsonModel::Array(_))),
    ensures
        context_of_json(doc) == Seq::<ContextModel>::empty(),
{
    assert(context_of_json(doc) =~= Seq::<ContextModel>::empty());
}

} // verus!

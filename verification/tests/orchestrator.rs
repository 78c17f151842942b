use protect_ffi::context::Context;
use protect_ffi::encrypt_config::{CastAs, ConfigMap, EncryptConfig, Identifier};
use protect_ffi::envelope::{BackendEncrypted, IndexTerm};
use protect_ffi::orchestrator::{
    bulk_plaintexts, bulk_results, decoded_to_string, lookup_column, parse_decrypt_items,
    parse_encrypt_items, plaintext_to_string, prepare_bulk, prepare_encrypt, single_result,
    take_result, Plaintext,
};
use protect_ffi::plaintext_target::PlaintextValue;
use protect_ffi::{Encrypted, Error};

fn config() -> ConfigMap {
    EncryptConfig::from_str(
        r#"{
            "v": 2,
            "tables": {
                "users": {
                    "email": {"cast_as": "text", "indexes": {"unique": {}, "match": {}}},
                    "age": {"cast_as": "int", "indexes": {"ore": {}}}
                },
                "documents": {
                    "metadata": {"cast_as": "jsonb", "indexes": {"ste_vec": {"prefix": "documents.metadata"}}},
                    "raw": {"cast_as": "jsonb"}
                }
            }
        }"#,
    )
    .unwrap()
    .into_config_map()
}

fn flat(ciphertext: &str) -> BackendEncrypted {
    BackendEncrypted::Record {
        ciphertext: Ok(ciphertext.to_string()),
        terms: vec![],
    }
}

fn ciphertext_of(envelope: &Encrypted) -> String {
    match envelope {
        Encrypted::Ciphertext { ciphertext, .. } => ciphertext.clone(),
        Encrypted::SteVec { ciphertext, .. } => ciphertext.clone(),
    }
}

fn identifier_of(envelope: &Encrypted) -> Identifier {
    match envelope {
        Encrypted::Ciphertext { identifier, .. } => identifier.clone(),
        Encrypted::SteVec { identifier, .. } => identifier.clone(),
    }
}

#[test]
fn test_unknown_column_names_table_and_column() {
    let config = config();
    let identifier = Identifier::new("users", "phone");
    match lookup_column(&config, &identifier) {
        Err(Error::UnknownColumn(unknown)) => {
            assert_eq!(unknown, identifier);
            assert_eq!(
                Error::UnknownColumn(unknown).to_string(),
                "unknown column `users.phone`"
            );
        }
        other => panic!("expected `UnknownColumn` error, got: {:?}", other),
    }
    // table and column are not interchangeable
    assert!(lookup_column(&config, &Identifier::new("email", "users")).is_err());
    let (column_config, cast_as) = lookup_column(&config, &Identifier::new("users", "age")).unwrap();
    assert_eq!(column_config.name, "age");
    assert_eq!(*cast_as, CastAs::Int);
}

#[test]
fn test_prepare_encrypt_for_unknown_column() {
    let config = config();
    let result = prepare_encrypt(&config, "42".to_string(), "shoe_size", "users", None);
    match result {
        Err(Error::UnknownColumn(identifier)) => {
            assert_eq!(identifier.table, "users");
            assert_eq!(identifier.column, "shoe_size");
        }
        other => panic!("expected `UnknownColumn` error, got: {:?}", other),
    }
}

#[test]
fn test_prepare_encrypt_binds_context() {
    let config = config();
    let prepared = prepare_encrypt(
        &config,
        "42".to_string(),
        "age",
        "users",
        Some(r#"{"tag": ["pii"]}"#),
    )
    .unwrap();
    assert_eq!(prepared.identifier, Identifier::new("users", "age"));
    assert_eq!(prepared.cast_as, CastAs::Int);
    assert_eq!(prepared.target.context, vec![Context::Tag("pii".to_string())]);
    assert_eq!(prepared.target.column_config.name, "age");
    assert!(matches!(prepared.target.plaintext, PlaintextValue::Text(ref text) if text == "42"));

    let prepared = prepare_encrypt(&config, "42".to_string(), "age", "users", None).unwrap();
    assert!(prepared.target.context.is_empty());
}

#[test]
fn test_prepare_encrypt_failure_order() {
    let config = config();
    // context that is not JSON fails before the column is looked up
    let result = prepare_encrypt(&config, "42".to_string(), "nope", "users", Some("{oops"));
    assert!(matches!(result, Err(Error::Parse(_))));
    // an unknown column fails before the input is read
    let result = prepare_encrypt(&config, "{oops".to_string(), "metadata", "nope", None);
    assert!(matches!(result, Err(Error::UnknownColumn(_))));
}

#[test]
fn test_json_input_is_validated_only_with_containment_index() {
    let config = config();
    let result = prepare_encrypt(&config, "not valid json".to_string(), "metadata", "documents", None);
    assert!(matches!(result, Err(Error::Parse(_))));

    let prepared =
        prepare_encrypt(&config, "not valid json".to_string(), "raw", "documents", None).unwrap();
    assert!(
        matches!(prepared.target.plaintext, PlaintextValue::Text(ref text) if text == "not valid json")
    );

    let prepared =
        prepare_encrypt(&config, r#"{"a": [1, 2]}"#.to_string(), "metadata", "documents", None)
            .unwrap();
    assert!(matches!(prepared.target.plaintext, PlaintextValue::Json(_)));
}

#[test]
fn test_parse_encrypt_items() {
    let items = parse_encrypt_items(
        r#"[
            {"plaintext": "john@example.com", "column": "email", "table": "users"},
            {"plaintext": "42", "column": "age", "table": "users", "context": {"tag": ["pii"]}},
            {"plaintext": "7", "column": "age", "table": "users", "context": null},
            {"plaintext": "8", "column": "age", "table": "users", "context": "malformed"}
        ]"#,
    )
    .unwrap();
    assert_eq!(items.len(), 4);
    assert_eq!(items[0].plaintext, "john@example.com");
    assert_eq!(items[0].column, "email");
    assert_eq!(items[0].table, "users");
    assert!(items[0].context.is_empty());
    assert_eq!(items[1].context, vec![Context::Tag("pii".to_string())]);
    assert!(items[2].context.is_empty());
    assert!(items[3].context.is_empty());

    assert!(parse_encrypt_items("[]").unwrap().is_empty());
    for malformed in [
        "{}",
        "[1]",
        r#"[{"plaintext": "a", "column": "b"}]"#,
        r#"[{"plaintext": 1, "column": "b", "table": "c"}]"#,
        "[",
    ] {
        assert!(matches!(parse_encrypt_items(malformed), Err(Error::Parse(_))), "{}", malformed);
    }
}

#[test]
fn test_parse_decrypt_items() {
    let items = parse_decrypt_items(
        r#"[{"ciphertext": "abc"}, {"ciphertext": "def", "context": {"identity_claim": ["sub"]}}]"#,
    )
    .unwrap();
    assert_eq!(items.len(), 2);
    assert_eq!(items[0].ciphertext, "abc");
    assert!(items[0].context.is_empty());
    assert_eq!(items[1].ciphertext, "def");
    assert_eq!(items[1].context, vec![Context::IdentityClaim("sub".to_string())]);
    assert!(matches!(parse_decrypt_items(r#"[{"plaintext": "abc"}]"#), Err(Error::Parse(_))));
}

#[test]
fn test_prepare_bulk_keeps_input_order() {
    let config = config();
    let items = parse_encrypt_items(
        r#"[
            {"plaintext": "42", "column": "age", "table": "users"},
            {"plaintext": "john@example.com", "column": "email", "table": "users"},
            {"plaintext": "{}", "column": "metadata", "table": "documents"}
        ]"#,
    )
    .unwrap();
    let prepared = prepare_bulk(&config, items).unwrap();
    assert_eq!(prepared.len(), 3);
    assert_eq!(prepared[0].identifier, Identifier::new("users", "age"));
    assert_eq!(prepared[0].cast_as, CastAs::Int);
    assert_eq!(prepared[1].identifier, Identifier::new("users", "email"));
    assert_eq!(prepared[1].cast_as, CastAs::Text);
    assert_eq!(prepared[2].identifier, Identifier::new("documents", "metadata"));
    assert_eq!(prepared[2].cast_as, CastAs::JsonB);
}

#[test]
fn test_prepare_bulk_is_all_or_nothing() {
    let config = config();
    let items = parse_encrypt_items(
        r#"[
            {"plaintext": "42", "column": "age", "table": "users"},
            {"plaintext": "oops", "column": "metadata", "table": "documents"},
            {"plaintext": "x", "column": "unknown", "table": "users"}
        ]"#,
    )
    .unwrap();
    // the first failing item decides
    assert!(matches!(prepare_bulk(&config, items), Err(Error::Parse(_))));

    let items = parse_encrypt_items(
        r#"[
            {"plaintext": "x", "column": "unknown", "table": "users"},
            {"plaintext": "oops", "column": "metadata", "table": "documents"}
        ]"#,
    )
    .unwrap();
    assert!(matches!(prepare_bulk(&config, items), Err(Error::UnknownColumn(_))));
}

#[test]
fn test_bulk_results_follow_input_order() {
    let keys = vec![
        (Identifier::new("users", "email"), CastAs::Text),
        (Identifier::new("users", "age"), CastAs::Int),
        (Identifier::new("documents", "metadata"), CastAs::JsonB),
        (Identifier::new("documents", "raw"), CastAs::JsonB),
    ];
    // results complete out of order
    let results = vec![
        (2, flat("third")),
        (0, flat("first")),
        (3, flat("fourth")),
        (1, flat("second")),
    ];
    let envelopes = bulk_results(results, &keys).unwrap();
    assert_eq!(envelopes.len(), 4);
    let ciphertexts: Vec<String> = envelopes.iter().map(ciphertext_of).collect();
    assert_eq!(ciphertexts, vec!["first", "second", "third", "fourth"]);
    for (envelope, (identifier, cast_as)) in envelopes.iter().zip(keys.iter()) {
        assert_eq!(identifier_of(envelope), *identifier);
        assert_eq!(
            matches!(envelope, Encrypted::SteVec { .. }),
            *cast_as == CastAs::JsonB
        );
    }
}

#[test]
fn test_bulk_results_of_empty_batch() {
    let envelopes = bulk_results(vec![(5, flat("stray"))], &Vec::new()).unwrap();
    assert!(envelopes.is_empty());
}

#[test]
fn test_bulk_results_missing_position_is_invariant_violation() {
    let keys = vec![
        (Identifier::new("users", "email"), CastAs::Text),
        (Identifier::new("users", "age"), CastAs::Int),
        (Identifier::new("users", "age"), CastAs::Int),
    ];
    let results = vec![(2, flat("third")), (0, flat("first"))];
    match bulk_results(results, &keys) {
        Err(Error::InvariantViolation(message)) => assert_eq!(
            message,
            "`encrypt_bulk` expected a result in the pipeline at index 1, but there was none"
        ),
        other => panic!("expected `InvariantViolation` error, got: {:?}", other),
    }
}

#[test]
fn test_bulk_results_first_failure_aborts() {
    let keys = vec![
        (Identifier::new("users", "email"), CastAs::Text),
        (Identifier::new("users", "age"), CastAs::Int),
    ];
    let results = vec![
        (
            1,
            BackendEncrypted::Record {
                ciphertext: Err("second failed".to_string()),
                terms: vec![],
            },
        ),
        (
            0,
            BackendEncrypted::Record {
                ciphertext: Ok("first".to_string()),
                terms: vec![IndexTerm::Unsupported("SteVecTerm".to_string())],
            },
        ),
    ];
    match bulk_results(results, &keys) {
        Err(Error::Unimplemented(message)) => assert_eq!(message, "index term `SteVecTerm`"),
        other => panic!("expected `Unimplemented` error, got: {:?}", other),
    }
}

#[test]
fn test_single_result() {
    let identifier = Identifier::new("users", "email");
    let envelope = single_result(vec![(0, flat("only"))], &identifier, &CastAs::Text).unwrap();
    assert_eq!(ciphertext_of(&envelope), "only");
    assert_eq!(identifier_of(&envelope), identifier);

    for results in [vec![], vec![(1, flat("elsewhere"))]] {
        match single_result(results, &identifier, &CastAs::Text) {
            Err(Error::InvariantViolation(message)) => assert_eq!(
                message,
                "`encrypt` expected a single result in the pipeline, but there were none"
            ),
            other => panic!("expected `InvariantViolation` error, got: {:?}", other),
        }
    }
}

#[test]
fn test_take_result_removes_the_first_match() {
    let mut results = vec![(1, flat("a")), (0, flat("b")), (1, flat("c"))];
    let taken = take_result(&mut results, 1).unwrap();
    assert!(matches!(taken, BackendEncrypted::Record { ciphertext: Ok(ref text), .. } if text == "a"));
    assert_eq!(results.len(), 2);
    assert!(take_result(&mut results, 7).is_none());
    assert_eq!(results.len(), 2);
    let taken = take_result(&mut results, 1).unwrap();
    assert!(matches!(taken, BackendEncrypted::Record { ciphertext: Ok(ref text), .. } if text == "c"));
    assert_eq!(results.len(), 1);
}

#[test]
fn test_plaintext_to_string() {
    assert_eq!(
        plaintext_to_string(Plaintext::Utf8Str("john@example.com".to_string())).unwrap(),
        "john@example.com"
    );
    let document: serde_json::Value =
        serde_json::from_str(r#"{ "name": "정주영", "tags": [1, 2.5, null, true] }"#).unwrap();
    assert_eq!(
        plaintext_to_string(Plaintext::JsonB(document)).unwrap(),
        r#"{"name":"정주영","tags":[1,2.5,null,true]}"#
    );
    let cases = [
        (
            Plaintext::Other("Utf8Str(None)".to_string()),
            "plaintext decryption for type `Utf8Str(None)`",
        ),
        (
            Plaintext::Other("Int(Some(42))".to_string()),
            "plaintext decryption for type `Int(Some(42))`",
        ),
    ];
    for (plaintext, expected) in cases {
        match plaintext_to_string(plaintext) {
            Err(Error::Unimplemented(message)) => assert_eq!(message, expected),
            other => panic!("expected `Unimplemented` error, got: {:?}", other),
        }
    }
}

#[test]
fn test_decoded_to_string() {
    assert_eq!(
        decoded_to_string(Ok(Plaintext::Utf8Str("a".to_string()))).unwrap(),
        "a"
    );
    match decoded_to_string(Err("Invalid byte array: missing version".to_string())) {
        Err(Error::TypeParse(message)) => {
            assert_eq!(message, "Invalid byte array: missing version")
        }
        other => panic!("expected `TypeParse` error, got: {:?}", other),
    }
}

#[test]
fn test_bulk_plaintexts() {
    let decrypted = vec![
        Ok(Plaintext::Utf8Str("first".to_string())),
        Ok(Plaintext::JsonB(serde_json::Value::Bool(true))),
        Ok(Plaintext::Utf8Str("third".to_string())),
    ];
    assert_eq!(bulk_plaintexts(decrypted, 3).unwrap(), vec!["first", "true", "third"]);
    assert!(bulk_plaintexts(Vec::new(), 0).unwrap().is_empty());

    let decrypted = vec![
        Ok(Plaintext::Utf8Str("first".to_string())),
        Err("Unknown variant code `9`".to_string()),
        Ok(Plaintext::Other("Int(Some(1))".to_string())),
    ];
    match bulk_plaintexts(decrypted, 3) {
        Err(Error::TypeParse(message)) => assert_eq!(message, "Unknown variant code `9`"),
        other => panic!("expected `TypeParse` error, got: {:?}", other),
    }
}

#[test]
fn test_bulk_plaintexts_count_mismatch_is_invariant_violation() {
    // fewer values than were asked for
    let decrypted = vec![Ok(Plaintext::Utf8Str("first".to_string()))];
    match bulk_plaintexts(decrypted, 2) {
        Err(Error::InvariantViolation(message)) => assert_eq!(
            message,
            "`decrypt_bulk` expected 2 results, but there were 1"
        ),
        other => panic!("expected `InvariantViolation` error, got: {:?}", other),
    }
    // more values than were asked for, and the mismatch comes first
    let decrypted = vec![
        Err("Unknown variant code `9`".to_string()),
        Ok(Plaintext::Utf8Str("second".to_string())),
    ];
    match bulk_plaintexts(decrypted, 1) {
        Err(Error::InvariantViolation(message)) => assert_eq!(
            message,
            "`decrypt_bulk` expected 1 results, but there were 2"
        ),
        other => panic!("expected `InvariantViolation` error, got: {:?}", other),
    }
    assert!(matches!(
        bulk_plaintexts(Vec::new(), 1),
        Err(Error::InvariantViolation(_))
    ));
}

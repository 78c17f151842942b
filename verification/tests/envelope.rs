use protect_ffi::config_document::parse_config;
use protect_ffi::encrypt_config::{CastAs, EncryptConfig, Identifier, IndexType};
use protect_ffi::envelope::{BackendEncrypted, BackendSteVecEntry, IndexTerm};
use protect_ffi::wire::{envelopes_to_json, plaintexts_to_json, search_terms_to_json};
use protect_ffi::{
    format_index_term_binary, format_index_term_ore, format_index_term_ore_array,
    format_index_term_ore_bytes, to_eql_encrypted, Encrypted, Error, SteVecEntry,
};

const TEST_TABLE: &str = "users";
const TEST_COLUMN: &str = "email";
const TEST_CIPHERTEXT: &str = "9jqo^BlbD-BleB1djH3bb1ULW4j$";
const TEST_DATA_TYPE: &str = "text";
const TEST_SCHEMA_VERSION: u16 = 2;

/// Create a sample ciphertext `Encrypted` variant for testing.
fn create_encrypted_ciphertext(
    table: &str,
    column: &str,
    ciphertext: &str,
    data_type: &str,
) -> Encrypted {
    Encrypted::Ciphertext {
        ciphertext: ciphertext.to_string(),
        data_type: data_type.to_string(),
        unique_index: None,
        ore_index: None,
        match_index: None,
        identifier: Identifier {
            table: table.to_string(),
            column: column.to_string(),
        },
        version: TEST_SCHEMA_VERSION,
    }
}

/// Create a sample SteVec `Encrypted` variant for testing.
fn create_encrypted_ste_vec(
    table: &str,
    column: &str,
    ciphertext: &str,
    data_type: &str,
    ste_vec_entries: Option<Vec<SteVecEntry>>,
) -> Encrypted {
    Encrypted::SteVec {
        ciphertext: ciphertext.to_string(),
        data_type: data_type.to_string(),
        ste_vec_index: ste_vec_entries,
        identifier: Identifier {
            table: table.to_string(),
            column: column.to_string(),
        },
        version: TEST_SCHEMA_VERSION,
    }
}

fn record(terms: Vec<IndexTerm>) -> BackendEncrypted {
    BackendEncrypted::Record {
        ciphertext: Ok(TEST_CIPHERTEXT.to_string()),
        terms,
    }
}

fn users_email() -> Identifier {
    Identifier::new(TEST_TABLE, TEST_COLUMN)
}

#[test]
fn test_encrypted_ciphertext_json_format() {
    let sample_encrypted =
        create_encrypted_ciphertext(TEST_TABLE, TEST_COLUMN, TEST_CIPHERTEXT, TEST_DATA_TYPE);

    let json_string = sample_encrypted.to_json();
    let parsed_json: serde_json::Value = serde_json::from_str(&json_string).unwrap();

    assert_eq!(parsed_json["k"], "ct");
    assert_eq!(parsed_json["c"], TEST_CIPHERTEXT);
    assert_eq!(parsed_json["dt"], TEST_DATA_TYPE);
    assert_eq!(parsed_json["hm"], serde_json::Value::Null);
    assert_eq!(parsed_json["ob"], serde_json::Value::Null);
    assert_eq!(parsed_json["bf"], serde_json::Value::Null);
    assert_eq!(parsed_json["v"], TEST_SCHEMA_VERSION);

    let identifier_json = &parsed_json["i"];
    assert_eq!(identifier_json["t"], TEST_TABLE);
    assert_eq!(identifier_json["c"], TEST_COLUMN);
}

#[test]
fn test_encrypted_ste_vec_json_format_with_null_entries() {
    let sample_encrypted =
        create_encrypted_ste_vec(TEST_TABLE, TEST_COLUMN, TEST_CIPHERTEXT, "jsonb", None);

    let json_string = sample_encrypted.to_json();
    let parsed_json: serde_json::Value = serde_json::from_str(&json_string).unwrap();

    assert_eq!(parsed_json["k"], "sv");
    assert_eq!(parsed_json["sv"], serde_json::Value::Null);
}

#[test]
fn test_envelope_json_exact_text() {
    let envelope = Encrypted::Ciphertext {
        ciphertext: "ab\"c".to_string(),
        data_type: "int".to_string(),
        unique_index: Some("00ff".to_string()),
        ore_index: Some(vec!["0a".to_string(), "0b".to_string()]),
        match_index: Some(vec![1, 20, 300]),
        identifier: Identifier::new("users", "age"),
        version: 2,
    };
    assert_eq!(
        envelope.to_json(),
        r#"{"k":"ct","c":"ab\"c","dt":"int","hm":"00ff","ob":["0a","0b"],"bf":[1,20,300],"i":{"t":"users","c":"age"},"v":2}"#
    );

    let structural = Encrypted::SteVec {
        ciphertext: "root".to_string(),
        data_type: "jsonb".to_string(),
        ste_vec_index: Some(vec![
            SteVecEntry {
                tokenized_selector: "01".to_string(),
                term: "22".to_string(),
                record: "rec".to_string(),
                parent_is_array: false,
            },
            SteVecEntry {
                tokenized_selector: "02".to_string(),
                term: "33".to_string(),
                record: "rec2".to_string(),
                parent_is_array: true,
            },
        ]),
        identifier: Identifier::new("docs", "meta"),
        version: 2,
    };
    assert_eq!(
        structural.to_json(),
        r#"{"k":"sv","c":"root","dt":"jsonb","sv":[{"s":"01","t":"22","r":"rec","pa":false},{"s":"02","t":"33","r":"rec2","pa":true}],"i":{"t":"docs","c":"meta"},"v":2}"#
    );

    let empty_entries =
        create_encrypted_ste_vec("docs", "meta", "root", "jsonb", Some(vec![]));
    assert_eq!(
        empty_entries.to_json(),
        r#"{"k":"sv","c":"root","dt":"jsonb","sv":[],"i":{"t":"docs","c":"meta"},"v":2}"#
    );
}

#[test]
fn test_bulk_and_search_term_json() {
    let first = Encrypted::Ciphertext {
        ciphertext: "c1".to_string(),
        data_type: "text".to_string(),
        unique_index: Some("ab".to_string()),
        ore_index: None,
        match_index: Some(vec![7]),
        identifier: Identifier::new("users", "email"),
        version: 2,
    };
    let second = create_encrypted_ste_vec("docs", "meta", "c2", "jsonb", None);
    let envelopes = vec![first, second];

    assert_eq!(
        envelopes_to_json(&envelopes),
        r#"[{"k":"ct","c":"c1","dt":"text","hm":"ab","ob":null,"bf":[7],"i":{"t":"users","c":"email"},"v":2},{"k":"sv","c":"c2","dt":"jsonb","sv":null,"i":{"t":"docs","c":"meta"},"v":2}]"#
    );
    assert_eq!(
        search_terms_to_json(&envelopes),
        r#"[{"hm":"ab","ob":null,"bf":[7],"i":{"t":"users","c":"email"}},{"sv":null,"i":{"t":"docs","c":"meta"}}]"#
    );
    assert_eq!(envelopes_to_json(&Vec::new()), "[]");
    assert_eq!(search_terms_to_json(&Vec::new()), "[]");

    // each search term has the index fields and identifier of its envelope
    let envelopes_json: serde_json::Value =
        serde_json::from_str(&envelopes_to_json(&envelopes)).unwrap();
    let terms_json: serde_json::Value =
        serde_json::from_str(&search_terms_to_json(&envelopes)).unwrap();
    let keys = |value: &serde_json::Value| -> Vec<String> {
        value.as_object().unwrap().keys().cloned().collect()
    };
    assert_eq!(terms_json.as_array().unwrap().len(), 2);
    assert_eq!(keys(&terms_json[0]), vec!["bf", "hm", "i", "ob"]);
    assert_eq!(keys(&terms_json[1]), vec!["i", "sv"]);
    for field in ["hm", "ob", "bf", "i"] {
        assert_eq!(terms_json[0][field], envelopes_json[0][field]);
    }
    for field in ["sv", "i"] {
        assert_eq!(terms_json[1][field], envelopes_json[1][field]);
    }
    assert_eq!(
        plaintexts_to_json(&vec!["a".to_string(), "b\nc".to_string()]),
        r#"["a","b\nc"]"#
    );
}

#[test]
fn test_format_index_terms_are_lowercase_hex() {
    assert_eq!(format_index_term_binary(&[0x00, 0x0f, 0xab, 0xff]), "000fabff");
    assert_eq!(format_index_term_binary(&[]), "");
    assert_eq!(format_index_term_ore_bytes(&[0xde, 0xad, 0xbe, 0xef]), "deadbeef");
    assert_eq!(format_index_term_ore(&[0x01, 0x02]), vec!["0102".to_string()]);
    assert_eq!(
        format_index_term_ore_array(&[vec![0x01], vec![], vec![0xfe, 0x10]]),
        vec!["01".to_string(), "".to_string(), "fe10".to_string()]
    );
    assert!(format_index_term_ore_array(&[]).is_empty());
}

#[test]
fn test_no_terms_gives_no_index_fields() {
    let envelope = to_eql_encrypted(record(vec![]), &users_email(), &CastAs::Text).unwrap();
    match envelope {
        Encrypted::Ciphertext {
            ciphertext,
            data_type,
            unique_index,
            ore_index,
            match_index,
            identifier,
            version,
        } => {
            assert_eq!(ciphertext, TEST_CIPHERTEXT);
            assert_eq!(data_type, "text");
            assert_eq!(unique_index, None);
            assert_eq!(ore_index, None);
            assert_eq!(match_index, None);
            assert_eq!(identifier, users_email());
            assert_eq!(version, 2);
        }
        other => panic!("expected a ciphertext envelope, got: {:?}", other),
    }
}

#[test]
fn test_exact_match_and_full_text_fields_coexist() {
    for terms in [
        vec![IndexTerm::Binary(vec![0xab, 0x01]), IndexTerm::BitMap(vec![3, 1, 2])],
        vec![IndexTerm::BitMap(vec![3, 1, 2]), IndexTerm::Binary(vec![0xab, 0x01])],
    ] {
        let envelope = to_eql_encrypted(record(terms), &users_email(), &CastAs::Text).unwrap();
        match envelope {
            Encrypted::Ciphertext {
                unique_index,
                ore_index,
                match_index,
                ..
            } => {
                assert_eq!(unique_index, Some("ab01".to_string()));
                assert_eq!(match_index, Some(vec![3, 1, 2]));
                assert_eq!(ore_index, None);
            }
            other => panic!("expected a ciphertext envelope, got: {:?}", other),
        }
    }
}

#[test]
fn test_order_revealing_variants_share_one_field() {
    let cases = [
        (IndexTerm::OreFull(vec![0x01, 0x02]), vec!["0102".to_string()]),
        (IndexTerm::OreLeft(vec![0xff]), vec!["ff".to_string()]),
        (
            IndexTerm::OreArray(vec![vec![0x0a], vec![0x0b, 0x0c]]),
            vec!["0a".to_string(), "0b0c".to_string()],
        ),
    ];
    for (term, expected) in cases {
        let envelope =
            to_eql_encrypted(record(vec![term, IndexTerm::Null]), &users_email(), &CastAs::Int)
                .unwrap();
        match envelope {
            Encrypted::Ciphertext {
                unique_index,
                ore_index,
                match_index,
                data_type,
                ..
            } => {
                assert_eq!(ore_index, Some(expected));
                assert_eq!(unique_index, None);
                assert_eq!(match_index, None);
                assert_eq!(data_type, "int");
            }
            other => panic!("expected a ciphertext envelope, got: {:?}", other),
        }
    }
}

#[test]
fn test_scenario_int_column_with_order_revealing_index() {
    let config = EncryptConfig::from_str(
        r#"{"v":2,"tables":{"users":{"age":{"cast_as":"int","indexes":{"ore":{}}}}}}"#,
    )
    .unwrap()
    .into_config_map();
    let identifier = Identifier::new("users", "age");
    let (column_config, cast_as) = config.get(&identifier).unwrap();
    assert_eq!(column_config.indexes.len(), 1);
    assert_eq!(column_config.indexes[0].index_type, IndexType::Ore);

    let backend = BackendEncrypted::Record {
        ciphertext: Ok("mBbJL".to_string()),
        terms: vec![IndexTerm::OreFull(vec![0x12, 0x34])],
    };
    let envelope = to_eql_encrypted(backend, &identifier, cast_as).unwrap();
    let json: serde_json::Value = serde_json::from_str(&envelope.to_json()).unwrap();
    assert_eq!(json["k"], "ct");
    assert_eq!(json["dt"], "int");
    assert_eq!(json["ob"][0], "1234");
    assert_eq!(json["ob"].as_array().unwrap().len(), 1);
    assert_eq!(json["hm"], serde_json::Value::Null);
    assert_eq!(json["bf"], serde_json::Value::Null);
    assert_eq!(json["i"]["t"], "users");
    assert_eq!(json["i"]["c"], "age");
    assert_eq!(json["v"], 2);
}

#[test]
fn test_unsupported_term_is_not_implemented() {
    let terms = vec![
        IndexTerm::Binary(vec![1]),
        IndexTerm::Unsupported("BinaryVec([[1]])".to_string()),
        IndexTerm::Unsupported("later".to_string()),
    ];
    match to_eql_encrypted(record(terms), &users_email(), &CastAs::Text) {
        Err(Error::Unimplemented(message)) => {
            assert_eq!(message, "index term `BinaryVec([[1]])`");
        }
        other => panic!("expected `Unimplemented` error, got: {:?}", other),
    }
}

#[test]
fn test_structural_result_for_other_cast_is_invariant_violation() {
    let backend = BackendEncrypted::SteVec {
        root: Ok(Ok("root".to_string())),
        entries: vec![],
    };
    match to_eql_encrypted(backend, &users_email(), &CastAs::Text) {
        Err(Error::InvariantViolation(message)) => {
            assert_eq!(message, "non-JSONB type returned SteVec from encryption library");
        }
        other => panic!("expected `InvariantViolation` error, got: {:?}", other),
    }
}

#[test]
fn test_json_cast_with_flat_result_has_absent_entries() {
    let backend = record(vec![IndexTerm::Binary(vec![1]), IndexTerm::Unsupported("x".into())]);
    match to_eql_encrypted(backend, &users_email(), &CastAs::JsonB).unwrap() {
        Encrypted::SteVec {
            ciphertext,
            data_type,
            ste_vec_index,
            identifier,
            version,
        } => {
            assert_eq!(ciphertext, TEST_CIPHERTEXT);
            assert_eq!(data_type, "jsonb");
            assert!(ste_vec_index.is_none());
            assert_eq!(identifier, users_email());
            assert_eq!(version, 2);
        }
        other => panic!("expected a structural envelope, got: {:?}", other),
    }
}

#[test]
fn test_json_cast_with_structural_result() {
    let backend = BackendEncrypted::SteVec {
        root: Ok(Ok("root-record".to_string())),
        entries: vec![
            BackendSteVecEntry {
                tokenized_selector: vec![0x00, 0x10],
                term: Ok(b"\"00ab\"".to_vec()),
                record: Ok("root-record".to_string()),
                parent_is_array: false,
            },
            BackendSteVecEntry {
                tokenized_selector: vec![0xff],
                term: Ok(b"\"01\"".to_vec()),
                record: Ok("child-record".to_string()),
                parent_is_array: true,
            },
        ],
    };
    match to_eql_encrypted(backend, &users_email(), &CastAs::JsonB).unwrap() {
        Encrypted::SteVec {
            ciphertext,
            ste_vec_index,
            ..
        } => {
            assert_eq!(ciphertext, "root-record");
            let entries = ste_vec_index.unwrap();
            assert_eq!(entries.len(), 2);
            assert_eq!(entries[0].tokenized_selector, "0010");
            // the term is JSON text, hex-encoded once more
            assert_eq!(entries[0].term, "223030616222");
            assert_eq!(entries[0].record, "root-record");
            assert!(!entries[0].parent_is_array);
            assert_eq!(entries[1].tokenized_selector, "ff");
            assert_eq!(entries[1].term, "22303122");
            assert_eq!(entries[1].record, "child-record");
            assert!(entries[1].parent_is_array);
        }
        other => panic!("expected a structural envelope, got: {:?}", other),
    }
}

#[test]
fn test_structural_result_failures() {
    // no root record
    match to_eql_encrypted(
        BackendEncrypted::SteVec {
            root: Err("Invalid value: SteVec missing root record".to_string()),
            entries: vec![],
        },
        &users_email(),
        &CastAs::JsonB,
    ) {
        Err(Error::InvariantViolation(message)) => assert_eq!(
            message,
            "failed to get root ciphertext: Invalid value: SteVec missing root record"
        ),
        other => panic!("expected `InvariantViolation` error, got: {:?}", other),
    }

    // a root record that does not encode comes before any entry
    match to_eql_encrypted(
        BackendEncrypted::SteVec {
            root: Ok(Err("root failed".to_string())),
            entries: vec![BackendSteVecEntry {
                tokenized_selector: vec![1],
                term: Err("term failed".to_string()),
                record: Err("entry failed".to_string()),
                parent_is_array: false,
            }],
        },
        &users_email(),
        &CastAs::JsonB,
    ) {
        Err(Error::Base85(message)) => assert_eq!(message, "root failed"),
        other => panic!("expected `Base85` error, got: {:?}", other),
    }

    // a structural result without entries has an empty entry list
    match to_eql_encrypted(
        BackendEncrypted::SteVec {
            root: Ok(Ok("root".to_string())),
            entries: vec![],
        },
        &users_email(),
        &CastAs::JsonB,
    )
    .unwrap()
    {
        Encrypted::SteVec {
            ciphertext,
            ste_vec_index,
            ..
        } => {
            assert_eq!(ciphertext, "root");
            assert_eq!(ste_vec_index.map(|entries| entries.len()), Some(0));
        }
        other => panic!("expected a structural envelope, got: {:?}", other),
    }

    // a sub-record that does not encode comes before a term that does not render
    let backend = BackendEncrypted::SteVec {
        root: Ok(Ok("root".to_string())),
        entries: vec![
            BackendSteVecEntry {
                tokenized_selector: vec![1],
                term: Ok(vec![0x22, 0x22]),
                record: Ok("root".to_string()),
                parent_is_array: false,
            },
            BackendSteVecEntry {
                tokenized_selector: vec![2],
                term: Err("term failed".to_string()),
                record: Err("encoder failed".to_string()),
                parent_is_array: false,
            },
        ],
    };
    match to_eql_encrypted(backend, &users_email(), &CastAs::JsonB) {
        Err(Error::Base85(message)) => assert_eq!(message, "encoder failed"),
        other => panic!("expected `Base85` error, got: {:?}", other),
    }

    let backend = BackendEncrypted::SteVec {
        root: Ok(Ok("root".to_string())),
        entries: vec![BackendSteVecEntry {
            tokenized_selector: vec![1],
            term: Err("term failed".to_string()),
            record: Ok("root".to_string()),
            parent_is_array: false,
        }],
    };
    match to_eql_encrypted(backend, &users_email(), &CastAs::JsonB) {
        Err(Error::Parse(e)) => assert_eq!(e.to_string(), "term failed"),
        other => panic!("expected `Parse` error, got: {:?}", other),
    }
}

#[test]
fn test_ciphertext_that_does_not_encode() {
    for cast_as in [CastAs::Text, CastAs::JsonB] {
        let backend = BackendEncrypted::Record {
            ciphertext: Err("invalid character".to_string()),
            terms: vec![IndexTerm::Unsupported("x".to_string())],
        };
        match to_eql_encrypted(backend, &users_email(), &cast_as) {
            Err(Error::Base85(message)) => assert_eq!(message, "invalid character"),
            other => panic!("expected `Base85` error, got: {:?}", other),
        }
    }
}

#[test]
fn test_envelope_shape_follows_cast() {
    let casts = [
        CastAs::Text,
        CastAs::Boolean,
        CastAs::SmallInt,
        CastAs::Int,
        CastAs::BigInt,
        CastAs::Real,
        CastAs::Double,
        CastAs::Date,
        CastAs::JsonB,
    ];
    for cast_as in casts {
        let envelope = to_eql_encrypted(record(vec![]), &users_email(), &cast_as).unwrap();
        let is_structural = matches!(envelope, Encrypted::SteVec { .. });
        assert_eq!(is_structural, cast_as == CastAs::JsonB);
    }
    let document: serde_json::Value = serde_json::from_str(r#"{"v": 7, "tables": {}}"#).unwrap();
    assert_eq!(parse_config(&document).unwrap().version, 7);
}

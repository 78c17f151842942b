use protect_ffi::encrypt_config::{EncryptConfig, Identifier};
use protect_ffi::text::decimal_string;
use protect_ffi::Error;

const TEST_TABLE: &str = "users";
const TEST_COLUMN: &str = "email";

#[test]
fn test_error_display() {
    let identifier = Identifier {
        table: TEST_TABLE.to_string(),
        column: TEST_COLUMN.to_string(),
    };
    let invalid_utf8_bytes = vec![0xFF, 0xFE];
    let utf8_error = std::str::from_utf8(&invalid_utf8_bytes).unwrap_err();
    let json_error = serde_json::from_str::<serde_json::Value>("{invalid}").unwrap_err();

    let test_errors = [
        // Test error display formatting for all constructible variants
        Error::Parse(json_error),
        Error::Utf8(utf8_error),
        Error::UnsupportedSchemaVersion(1),
        Error::UnknownColumn(identifier),
        Error::Base85("invalid character".to_string()),
        Error::Unimplemented("bulk operations".to_string()),
        Error::Runtime("tokio runtime failed".to_string()),
        Error::NullPointer,
        Error::StringConversion("invalid encoding".to_string()),
        Error::InvariantViolation("cipher state corrupted".to_string()),
    ];

    for error in test_errors {
        let error_message = error.to_string();
        assert!(!error_message.is_empty());
    }
}

#[test]
fn test_error_from_conversions() {
    #[allow(invalid_from_utf8)]
    let utf8_conversion_error = std::str::from_utf8(&[0xFF, 0xFE]).unwrap_err();
    let converted_error: Error = utf8_conversion_error.into();
    assert!(matches!(converted_error, Error::Utf8(_)));

    let json_parse_error =
        serde_json::from_str::<serde_json::Value>("{invalid: json}").unwrap_err();
    let converted_error: Error = json_parse_error.into();
    assert!(matches!(converted_error, Error::Parse(_)));
}

#[test]
fn test_error_messages_are_exact() {
    let cases = [
        (Error::Config("no workspace".to_string()), "no workspace"),
        (Error::ZeroKMS("key service down".to_string()), "key service down"),
        (Error::Encryption("cannot encrypt".to_string()), "cannot encrypt"),
        (Error::TypeParse("Unknown variant code `9`".to_string()), "Unknown variant code `9`"),
        (
            Error::UnsupportedSchemaVersion(1),
            "unsupported schema version 1: only version 2 is supported",
        ),
        (
            Error::UnsupportedSchemaVersion(4294967295),
            "unsupported schema version 4294967295: only version 2 is supported",
        ),
        (
            Error::UnknownColumn(Identifier::new("users", "email")),
            "unknown column `users.email`",
        ),
        (
            Error::Base85("invalid character".to_string()),
            "base85 encoding error: invalid character",
        ),
        (
            Error::Unimplemented("bulk operations".to_string()),
            "feature not implemented: bulk operations",
        ),
        (
            Error::Runtime("tokio runtime failed".to_string()),
            "runtime error: tokio runtime failed",
        ),
        (Error::NullPointer, "null pointer provided"),
        (
            Error::StringConversion("invalid encoding".to_string()),
            "string conversion error: invalid encoding",
        ),
        (
            Error::InvariantViolation("cipher state corrupted".to_string()),
            "internal error: cipher state corrupted (this is a bug in protect-ffi, please file an issue at https://github.com/cipherstash/protectphp-ffi/issues)",
        ),
    ];
    for (error, expected) in cases {
        assert_eq!(error.to_string(), expected);
    }
}

#[test]
fn test_foreign_errors_keep_their_own_text() {
    let json_error = serde_json::from_str::<serde_json::Value>("{invalid}").unwrap_err();
    let expected = json_error.to_string();
    assert_eq!(Error::Parse(json_error).to_string(), expected);

    #[allow(invalid_from_utf8)]
    let utf8_error = std::str::from_utf8(&[0xFF, 0xFE]).unwrap_err();
    let expected = utf8_error.to_string();
    assert_eq!(Error::Utf8(utf8_error).to_string(), expected);
}

#[test]
fn test_scenario_version_one_is_rejected_with_its_number() {
    let error = EncryptConfig::from_str(r#"{"v":1,"tables":{}}"#).unwrap_err();
    assert_eq!(
        error.to_string(),
        "unsupported schema version 1: only version 2 is supported"
    );
    let error = EncryptConfig::from_str(r#"{"v":3,"tables":{}}"#).unwrap_err();
    assert!(matches!(error, Error::UnsupportedSchemaVersion(3)));
    let error = EncryptConfig::from_str(r#"{"v":0,"tables":{}}"#).unwrap_err();
    assert!(matches!(error, Error::UnsupportedSchemaVersion(0)));
}

#[test]
fn test_decimal_string() {
    assert_eq!(decimal_string(0), "0");
    assert_eq!(decimal_string(7), "7");
    assert_eq!(decimal_string(10), "10");
    assert_eq!(decimal_string(2048), "2048");
    assert_eq!(decimal_string(u64::MAX), "18446744073709551615");
}

use protect_ffi::boundary::{
    c_str_to_string, clear_error, handle_ffi_result, optional_c_str_to_string, set_error,
    string_to_c_str, ErrorSlot,
};
use protect_ffi::Error;

#[test]
fn test_c_str_to_string_valid() {
    let email = "john@example.com";

    let result = c_str_to_string(Some(email.as_bytes()));
    assert_eq!(result.unwrap(), email);
}

#[test]
fn test_c_str_to_string_null_pointer() {
    let result = c_str_to_string(None);
    assert!(matches!(result, Err(Error::NullPointer)));
}

#[test]
fn test_c_str_to_string_invalid_utf8() {
    let invalid_bytes = [0xFF, 0xFE]; // Invalid UTF-8 sequence

    let result = c_str_to_string(Some(&invalid_bytes));
    assert!(matches!(result, Err(Error::Utf8(_))));
}

#[test]
fn test_optional_c_str_to_string_valid() {
    let name = "정주영";

    let result = optional_c_str_to_string(Some(name.as_bytes()));
    assert_eq!(result.unwrap(), Some(name.to_string()));
}

#[test]
fn test_optional_c_str_to_string_null() {
    let result = optional_c_str_to_string(None);
    assert_eq!(result.unwrap(), None);
}

#[test]
fn test_optional_c_str_to_string_invalid_utf8() {
    let result = optional_c_str_to_string(Some(&[0xC0, 0x80]));
    assert!(matches!(result, Err(Error::Utf8(_))));
}

#[test]
fn test_string_to_c_string_valid() {
    let table = "users".to_string();
    let result = string_to_c_str(table.clone());

    assert!(result.is_ok());
    let bytes = result.unwrap();

    assert_eq!(bytes, b"users\0".to_vec());
    assert_eq!(std::str::from_utf8(&bytes[..bytes.len() - 1]).unwrap(), table);
}

#[test]
fn test_string_to_c_string_with_null_byte() {
    let invalid_config = "table\0column\0data".to_string();
    let result = string_to_c_str(invalid_config);

    assert!(matches!(result, Err(Error::StringConversion(_))));
}

#[test]
fn test_string_to_c_string_names_first_null_byte() {
    match string_to_c_str("table\0column\0data".to_string()) {
        Err(Error::StringConversion(message)) => {
            assert_eq!(message, "nul byte found in provided data at position: 5");
        }
        other => panic!("expected `StringConversion` error, got: {:?}", other),
    }
    assert_eq!(string_to_c_str(String::new()).unwrap(), vec![0u8]);
    assert_eq!(
        string_to_c_str("名前".to_string()).unwrap(),
        vec![0xe5, 0x90, 0x8d, 0xe5, 0x89, 0x8d, 0x00]
    );
}

#[test]
fn test_set_error_valid() {
    let error = Error::NullPointer;

    let slot = set_error(&error);

    assert_eq!(slot, ErrorSlot::Message(b"null pointer provided\0".to_vec()));
}

#[test]
fn test_set_error_message_with_null_byte() {
    // the message is handed out up to its first zero byte
    let error = Error::Runtime("bad\0message\0".to_string());
    assert_eq!(
        set_error(&error),
        ErrorSlot::Message(b"runtime error: bad\0".to_vec())
    );
    let error = Error::UnknownColumn(protect_ffi::encrypt_config::Identifier::new("a\0b", "c"));
    assert_eq!(
        set_error(&error),
        ErrorSlot::Message(b"unknown column `a\0".to_vec())
    );
    let error = Error::Config("\0".to_string());
    assert_eq!(set_error(&error), ErrorSlot::Message(vec![0u8]));
}

#[test]
fn test_set_error_with_foreign_errors() {
    let json_error = serde_json::from_str::<serde_json::Value>("{invalid}").unwrap_err();
    let mut expected = json_error.to_string().into_bytes();
    expected.push(0);
    assert!(expected.len() > 1);
    assert_eq!(set_error(&Error::Parse(json_error)), ErrorSlot::Message(expected));

    #[allow(invalid_from_utf8)]
    let utf8_error = std::str::from_utf8(&[0xFF, 0xFE]).unwrap_err();
    let mut expected = utf8_error.to_string().into_bytes();
    expected.push(0);
    assert_eq!(set_error(&Error::Utf8(utf8_error)), ErrorSlot::Message(expected));
}

#[test]
fn test_clear_error_valid() {
    assert_eq!(clear_error(), ErrorSlot::Cleared);
}

#[test]
fn test_handle_ffi_result_macro_success() {
    let result: Result<String, Error> = Ok("9jqo^BlbD-BleB1djH3bb1ULW4j$".to_string());
    let outcome = handle_ffi_result(result);

    assert_eq!(outcome.value, Some(b"9jqo^BlbD-BleB1djH3bb1ULW4j$\0".to_vec()));
    assert_eq!(outcome.error, ErrorSlot::Cleared);
}

#[test]
fn test_handle_ffi_result_macro_error() {
    let result: Result<String, Error> = Err(Error::NullPointer);
    let outcome = handle_ffi_result(result);

    assert!(outcome.value.is_none());
    match outcome.error {
        ErrorSlot::Message(bytes) => {
            assert_eq!(bytes.last(), Some(&0u8));
            assert!(std::str::from_utf8(&bytes[..bytes.len() - 1]).is_ok());
            assert_eq!(bytes, b"null pointer provided\0".to_vec());
        }
        other => panic!("expected a message, got: {:?}", other),
    }
}

#[test]
fn test_handle_ffi_result_unrepresentable_value() {
    // a result that cannot be handed out is a failure with its message
    let outcome = handle_ffi_result(Ok("a\0b".to_string()));
    assert!(outcome.value.is_none());
    assert_eq!(
        outcome.error,
        ErrorSlot::Message(
            b"string conversion error: nul byte found in provided data at position: 1\0".to_vec()
        )
    );
}

#[test]
fn test_exactly_one_channel_is_used() {
    let results: Vec<Result<String, Error>> = vec![
        Ok(String::new()),
        Ok("plain".to_string()),
        Ok("\0".to_string()),
        Err(Error::NullPointer),
        Err(Error::Runtime(String::new())),
        Err(Error::Base85("\0".to_string())),
        Err(Error::Parse(
            serde_json::from_str::<serde_json::Value>("[").unwrap_err(),
        )),
    ];
    for result in results {
        let outcome = handle_ffi_result(result);
        match (&outcome.value, &outcome.error) {
            (Some(value), ErrorSlot::Cleared) => {
                assert_eq!(value.iter().position(|byte| *byte == 0), Some(value.len() - 1));
            }
            (None, ErrorSlot::Message(message)) => {
                assert_eq!(message.iter().position(|byte| *byte == 0), Some(message.len() - 1));
            }
            other => panic!("both or neither channel used: {:?}", other),
        }
    }
}

#[test]
fn test_null_arguments_are_reported_through_the_error_channel() {
    // a null configuration, client or string argument surfaces as a message
    let outcome = handle_ffi_result(c_str_to_string(None));
    assert!(outcome.value.is_none());
    assert_eq!(outcome.error, ErrorSlot::Message(b"null pointer provided\0".to_vec()));
}

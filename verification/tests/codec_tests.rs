use quonitor::codec::decode_credentials;
use quonitor::codec::encode_credentials;
use quonitor::error::QuonitorError;
use quonitor::models::Credentials;

#[test]
fn round_trip_all_absent() {
    let creds = Credentials { api_key: None, oauth_token: None, oauth_refresh_token: None };
    let bytes = encode_credentials(&creds);
    assert_eq!(bytes, vec![0u8, 0, 0]);
    let back = decode_credentials(&bytes).expect("decodes");
    assert_eq!(back.api_key, None);
    assert_eq!(back.oauth_token, None);
    assert_eq!(back.oauth_refresh_token, None);
}

#[test]
fn round_trip_all_present() {
    let creds = Credentials {
        api_key: Some("sk-SECRET-REDACTED".to_string()),
        oauth_token: Some("tök€n".to_string()),
        oauth_refresh_token: Some("".to_string()),
    };
    let bytes = encode_credentials(&creds);
    let back = decode_credentials(&bytes).expect("decodes");
    assert_eq!(back.api_key.as_deref(), Some("sk-SECRET-REDACTED"));
    assert_eq!(back.oauth_token.as_deref(), Some("tök€n"));
    assert_eq!(back.oauth_refresh_token.as_deref(), Some(""));
}

#[test]
fn field_layout_is_tag_length_bytes() {
    let creds = Credentials::new_api_key("ab".to_string());
    let bytes = encode_credentials(&creds);
    let mut expected = vec![1u8];
    expected.extend_from_slice(&2u64.to_le_bytes());
    expected.extend_from_slice(b"ab");
    expected.push(0u8);
    expected.push(0u8);
    assert_eq!(bytes, expected);
}

#[test]
fn truncated_blob_is_rejected() {
    let creds = Credentials::new_api_key("key".to_string());
    let mut bytes = encode_credentials(&creds);
    bytes.truncate(bytes.len() - 1);
    assert!(matches!(decode_credentials(&bytes), Err(QuonitorError::Encryption(_))));
    assert!(matches!(decode_credentials(&Vec::new()), Err(QuonitorError::Encryption(_))));
}

#[test]
fn unknown_tag_is_rejected() {
    let bytes = vec![7u8, 0, 0];
    assert!(matches!(decode_credentials(&bytes), Err(QuonitorError::Encryption(_))));
}

#[test]
fn trailing_bytes_are_rejected() {
    let creds = Credentials::new_api_key("key".to_string());
    let mut bytes = encode_credentials(&creds);
    bytes.push(0u8);
    assert!(matches!(decode_credentials(&bytes), Err(QuonitorError::Encryption(_))));
}

#[test]
fn invalid_utf8_payload_is_rejected() {
    let mut bytes = vec![1u8];
    bytes.extend_from_slice(&2u64.to_le_bytes());
    bytes.extend_from_slice(&[0xff, 0xfe]);
    bytes.push(0u8);
    bytes.push(0u8);
    assert!(matches!(decode_credentials(&bytes), Err(QuonitorError::Encryption(_))));
}

#[test]
fn length_overrunning_the_blob_is_rejected() {
    let mut bytes = vec![1u8];
    bytes.extend_from_slice(&100u64.to_le_bytes());
    bytes.extend_from_slice(b"short");
    assert!(matches!(decode_credentials(&bytes), Err(QuonitorError::Encryption(_))));
}

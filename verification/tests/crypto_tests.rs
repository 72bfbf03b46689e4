use quonitor::aggregator::Aggregator;
use quonitor::crypto::CryptoService;
use quonitor::error::QuonitorError;
use quonitor::models::Credentials;
use quonitor::providers::ProviderRegistry;

fn service() -> CryptoService {
    CryptoService::new(vec![0x42u8; 32])
}

#[test]
fn round_trip_returns_original_plaintext() {
    let cs = service();
    let plain = "api-key: sk-SECRET-REDACTED, owner: π";
    let blob = cs.encrypt(plain).expect("encryption succeeds");
    let back = cs.decrypt(&blob).expect("decryption succeeds");
    assert_eq!(back, plain);
}

#[test]
fn ciphertext_differs_from_plaintext_and_carries_tag() {
    let cs = service();
    let plain = "hello";
    let blob = cs.encrypt(plain).expect("encryption succeeds");
    assert_eq!(blob.len(), plain.len() + 16);
    assert_ne!(&blob[..plain.len()], plain.as_bytes());
}

#[test]
fn corrupted_ciphertext_fails_with_encryption_error() {
    let cs = service();
    let mut blob = cs.encrypt("sensitive credential").expect("encryption succeeds");
    for flip in [0usize, 5, 20] {
        let mut tampered = blob.clone();
        tampered[flip] ^= 0x01;
        match cs.decrypt(&tampered) {
            Err(QuonitorError::Encryption(_)) => {}
            Err(other) => panic!("wrong error variant: {}", other.describe()),
            Ok(text) => panic!("tampered blob decrypted to {:?}", text),
        }
    }
    // Truncation fails too.
    blob.truncate(blob.len() - 1);
    assert!(matches!(cs.decrypt(&blob), Err(QuonitorError::Encryption(_))));
}

#[test]
fn wrong_key_fails() {
    let cs = service();
    let blob = cs.encrypt("text").expect("encryption succeeds");
    let other = CryptoService::new(vec![0x43u8; 32]);
    assert!(matches!(other.decrypt(&blob), Err(QuonitorError::Encryption(_))));
}

#[test]
fn encrypt_then_decrypt_law_holds_on_examples() {
    let cs = service();
    for plain in ["", "a", "two words", "日本語のテキスト"] {
        let back = cs.encrypt_then_decrypt(plain).expect("round trip succeeds");
        assert_eq!(back, plain);
    }
}

#[test]
fn non_utf8_plaintext_fails_text_decryption() {
    let cs = service();
    let blob = cs.encrypt_bytes(&[0xff, 0xfe, 0x80]).expect("encryption succeeds");
    assert!(matches!(cs.decrypt(&blob), Err(QuonitorError::Encryption(_))));
    // The byte-level API still recovers the exact bytes.
    assert_eq!(cs.decrypt_bytes(&blob).expect("bytes recover"), vec![0xff, 0xfe, 0x80]);
}

#[test]
fn credentials_seal_and_unseal() {
    let agg = Aggregator::new(ProviderRegistry::new(), service());
    let creds = Credentials::new_oauth("token-SECRET-REDACTED".to_string(), Some("refresh-1".to_string()));
    let blob = agg.encrypt_credentials(&creds).expect("sealing succeeds");
    let back = agg.decrypt_credentials(&blob).expect("unsealing succeeds");
    assert_eq!(back.api_key, None);
    assert_eq!(back.oauth_token.as_deref(), Some("token-SECRET-REDACTED"));
    assert_eq!(back.oauth_refresh_token.as_deref(), Some("refresh-1"));
}

#[test]
fn tampered_credential_blob_is_rejected() {
    let agg = Aggregator::new(ProviderRegistry::new(), service());
    let creds = Credentials::new_api_key("sk-SECRET-REDACTED".to_string());
    let mut blob = agg.encrypt_credentials(&creds).expect("sealing succeeds");
    blob[3] ^= 0x10;
    assert!(matches!(agg.decrypt_credentials(&blob), Err(QuonitorError::Encryption(_))));
}

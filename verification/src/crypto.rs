//! At-rest credential encryption: AES-256-GCM with a 128-bit
//! authentication tag.
//!
//! The 32-byte key is obtained by the surrounding application (from the
//! OS credential store, a key file, or freshly generated) and handed in
//! once at construction; it is held immutably for the service's lifetime.
//!
//! Encryption uses a fixed all-zero nonce, so sealing is a deterministic
//! function of the key and the plaintext, and a blob is exactly the
//! ciphertext followed by the tag, with no nonce stored. This is a known
//! weakness: reusing a nonce under one key forfeits the AEAD's
//! confidentiality guarantees across blobs, and a revision that moves to
//! a random nonce stored alongside the ciphertext would be stronger.

use vstd::prelude::*;

use aes_gcm::Aes256Gcm;
use aes_gcm::KeyInit;
use aes_gcm::aead::Aead;
use vstd::utf8::decode_utf8;
use vstd::utf8::encode_utf8;
use vstd::utf8::encode_utf8_decode_utf8;
use vstd::utf8::encode_utf8_valid_utf8;
use vstd::utf8::valid_utf8;
use vstd::string::StrSliceExecFns;

use crate::error::QuonitorError;

verus! {

/// What sealing a plaintext under a key yields. With the fixed nonce the
/// ciphertext depends on the key and the plaintext alone.
pub uninterp spec fn aead_seal(key: Seq<u8>, plain: Seq<u8>) -> Seq<u8>;

/// What opening a blob under a key yields: the plaintext the blob seals,
/// or nothing when the authentication tag does not verify.
pub uninterp spec fn aead_open(key: Seq<u8>, blob: Seq<u8>) -> Option<Seq<u8>>;

/// Relies on `aes_gcm::Aes256Gcm` encryption (via `aead::Aead::encrypt`)
/// with the fixed zero nonce: the ciphertext is the sealed plaintext
/// followed by the 16-byte tag, and decryption under the same key
/// recovers the plaintext. Its only error is a plaintext longer than
/// GCM's limit of 2^36 - 32 bytes (the key-length error cannot arise
/// under the `requires`), so success is owed below that bound.
#[verifier::external_body]
fn seal_bytes(key: &[u8], plain: &[u8]) -> (r: Option<Vec<u8>>)
    requires
        key@.len() == 32,
    ensures
        r matches Some(c) ==> c@ == aead_seal(key@, plain@) && aead_open(key@, c@) == Some(plain@)
            && c@.len() == plain@.len() + 16,
        plain@.len() <= 0xF_FFFF_FFE0 ==> r is Some,
{
    let cipher = match Aes256Gcm::new_from_slice(key) {
        Ok(c) => c,
        Err(_) => {
            return None;
        },
    };
    let nonce = aes_gcm::Nonce::from([0u8; 12]);
    cipher.encrypt(&nonce, plain).ok()
}

/// Relies on `aes_gcm::Aes256Gcm` decryption (via `aead::Aead::decrypt`)
/// with the fixed zero nonce: it returns the sealed plaintext when the
/// authentication tag verifies and fails otherwise — on a tampered,
/// truncated, or wrongly keyed blob.
#[verifier::external_body]
fn open_bytes(key: &[u8], blob: &[u8]) -> (r: Option<Vec<u8>>)
    requires
        key@.len() == 32,
    ensures
        r matches Some(p) ==> aead_open(key@, blob@) == Some(p@),
        r is None ==> aead_open(key@, blob@) is None,
{
    let cipher = match Aes256Gcm::new_from_slice(key) {
        Ok(c) => c,
        Err(_) => {
            return None;
        },
    };
    let nonce = aes_gcm::Nonce::from([0u8; 12]);
    cipher.decrypt(&nonce, blob).ok()
}

/// What decrypting a blob to text yields: the sealed plaintext decoded as
/// UTF-8, or nothing when the tag fails or the plaintext is not UTF-8.
pub open spec fn spec_decrypt(key: Seq<u8>, blob: Seq<u8>) -> Option<Seq<char>> {
    match aead_open(key, blob) {
        Some(p) => if valid_utf8(p) {
            Some(decode_utf8(p))
        } else {
            None
        },
        None => None,
    }
}

/// The credential cipher: AES-256-GCM under one immutable 256-bit key.
pub struct CryptoService {
    key: Vec<u8>,
}

impl CryptoService {
    /// The key is exactly 256 bits.
    pub closed spec fn wf(&self) -> bool {
        self.key@.len() == 32
    }

    /// The key bytes, for contracts.
    pub closed spec fn spec_key(&self) -> Seq<u8> {
        self.key@
    }

    /// A cipher over the given 32-byte key.
    pub fn new(key: Vec<u8>) -> (r: Self)
        requires
            key@.len() == 32,
        ensures
            r.wf(),
            r.spec_key() == key@,
    {
        CryptoService { key }
    }

    /// Seals a byte string under the service's key. The blob decrypts to
    /// exactly the input, and sealing is owed to succeed for every input
    /// up to GCM's plaintext limit of 2^36 - 32 bytes.
    pub fn encrypt_bytes(&self, data: &[u8]) -> (r: Result<Vec<u8>, QuonitorError>)
        requires
            self.wf(),
        ensures
            r matches Ok(c) ==> c@ == aead_seal(self.spec_key(), data@) && aead_open(
                self.spec_key(),
                c@,
            ) == Some(data@) && c@.len() == data@.len() + 16,
            data@.len() <= 0xF_FFFF_FFE0 ==> r is Ok,
            r matches Err(e) ==> e matches QuonitorError::Encryption(_),
    {
        match seal_bytes(self.key.as_slice(), data) {
            Some(c) => Ok(c),
            None => Err(QuonitorError::Encryption(String::from_str("Encryption failed"))),
        }
    }

    /// Opens a sealed blob under the service's key: the sealed bytes when
    /// the authentication tag verifies, an `Encryption` error otherwise.
    pub fn decrypt_bytes(&self, encrypted_data: &[u8]) -> (r: Result<Vec<u8>, QuonitorError>)
        requires
            self.wf(),
        ensures
            r matches Ok(p) ==> aead_open(self.spec_key(), encrypted_data@) == Some(p@),
            r is Err <==> aead_open(self.spec_key(), encrypted_data@) is None,
            r matches Err(e) ==> e matches QuonitorError::Encryption(_),
    {
        match open_bytes(self.key.as_slice(), encrypted_data) {
            Some(p) => Ok(p),
            None => Err(QuonitorError::Encryption(String::from_str("Decryption failed"))),
        }
    }

    /// Encrypts a text under the service's key: the blob is the sealed
    /// UTF-8 bytes of the text followed by the 16-byte tag, decrypts back
    /// to exactly that text, and is owed to exist for every text whose
    /// UTF-8 form is within GCM's plaintext limit.
    pub fn encrypt(&self, data: &str) -> (r: Result<Vec<u8>, QuonitorError>)
        requires
            self.wf(),
        ensures
            r matches Ok(c) ==> c@ == aead_seal(self.spec_key(), encode_utf8(data@))
                && spec_decrypt(self.spec_key(), c@) == Some(data@) && c@.len() == encode_utf8(
                data@,
            ).len() + 16,
            encode_utf8(data@).len() <= 0xF_FFFF_FFE0 ==> r is Ok,
            r matches Err(e) ==> e matches QuonitorError::Encryption(_),
    {
        let bytes = data.as_bytes_vec();
        match self.encrypt_bytes(bytes.as_slice()) {
            Ok(c) => {
                proof {
                    encode_utf8_valid_utf8(data@);
                    encode_utf8_decode_utf8(data@);
                }
                Ok(c)
            },
            Err(e) => Err(e),
        }
    }

    /// Decrypts a blob to text: the sealed plaintext decoded as UTF-8,
    /// or an `Encryption` error exactly when the tag fails or the sealed
    /// bytes are not valid UTF-8 — never garbled text.
    pub fn decrypt(&self, encrypted_data: &[u8]) -> (r: Result<String, QuonitorError>)
        requires
            self.wf(),
        ensures
            r matches Ok(s) ==> spec_decrypt(self.spec_key(), encrypted_data@) == Some(s@),
            r is Err <==> spec_decrypt(self.spec_key(), encrypted_data@) is None,
            r matches Err(e) ==> e matches QuonitorError::Encryption(_),
    {
        match self.decrypt_bytes(encrypted_data) {
            Ok(plain) => match crate::codec::utf8_to_string(plain) {
                Some(s) => Ok(s),
                None => Err(QuonitorError::Encryption(String::from_str("Invalid UTF-8"))),
            },
            Err(e) => Err(e),
        }
    }

    /// Law: the cipher round-trips — whenever encryption succeeds,
    /// decrypting what it produced returns the original text; the round
    /// trip is owed to succeed for every text within GCM's plaintext
    /// limit, and an error can only be the cipher refusing, never a
    /// different text.
    pub fn encrypt_then_decrypt(&self, data: &str) -> (r: Result<String, QuonitorError>)
        requires
            self.wf(),
        ensures
            r matches Ok(s) ==> s@ == data@,
            encode_utf8(data@).len() <= 0xF_FFFF_FFE0 ==> r is Ok,
            r matches Err(e) ==> e matches QuonitorError::Encryption(_),
    {
        match self.encrypt(data) {
            Ok(blob) => self.decrypt(blob.as_slice()),
            Err(e) => Err(e),
        }
    }
}

} // verus!

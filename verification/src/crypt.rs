//! Encryption under a key taken straight from a password by one SHA-256
//! pass, with no salt in the value: the scheme of the oldest stores.

use crate::cipher::{
    aes256_cbc_decrypt, aes256_cbc_decrypted, aes256_cbc_encrypt, aes256_cbc_encrypted,
    random_bytes, sha256, sha256_digest, IV_LEN,
};
use vstd::prelude::*;

verus! {

/// The key that a password stands for: the digest of its UTF-8 bytes.
pub open spec fn spec_hash(key: Seq<char>) -> Seq<u8> {
    sha256_digest(vstd::utf8::encode_utf8(key))
}

/// Derives the 32-byte key from a password.
pub fn hash(key: &str) -> (digest: [u8; 32])
    ensures
        digest@ == spec_hash(key@),
{
    sha256(key.as_bytes())
}

/// Draws the vector of a new store at random.
pub fn gen_iv() -> (iv: [u8; 16])
    ensures
        iv@.len() == IV_LEN,
{
    random_bytes::<16>()
}

/// Encrypts `value` under the key derived from the password `key`. The
/// ciphertext is the value padded up to the next whole block of sixteen
/// bytes, a full block where it already ends on one.
pub fn encrypt_with(key: &str, value: &[u8], iv: &[u8]) -> (ciphertext: Vec<u8>)
    requires
        iv@.len() == IV_LEN,
    ensures
        ciphertext@ == aes256_cbc_encrypted(spec_hash(key@), iv@, value@),
        ciphertext@.len() == (value@.len() / 16 + 1) * 16,
        aes256_cbc_decrypted(spec_hash(key@), iv@, ciphertext@) == Some(value@),
{
    let hashed = hash(key);
    aes256_cbc_encrypt(hashed.as_slice(), iv, value)
}

/// Decrypts `value` under the key derived from the password `key`; `None`
/// where the ciphertext is empty or no whole number of blocks, or its padding
/// is wrong.
pub fn decrypt_with(key: &str, value: &[u8], iv: &[u8]) -> (plaintext: Option<Vec<u8>>)
    requires
        iv@.len() == IV_LEN,
    ensures
        match plaintext {
            Some(bytes) => aes256_cbc_decrypted(spec_hash(key@), iv@, value@) == Some(bytes@),
            None => aes256_cbc_decrypted(spec_hash(key@), iv@, value@) is None,
        },
        value@.len() == 0 || value@.len() % 16 != 0 ==> plaintext is None,
{
    let hashed = hash(key);
    aes256_cbc_decrypt(hashed.as_slice(), iv, value)
}

} // verus!

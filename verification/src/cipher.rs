//! The adapter between the engine and the cryptographic crates it composes.
//!
//! Nothing here is proved: each function holds one call into an outside
//! crate, and its contract records what that crate is relied on to do.

use aes::Aes256;
use argon2::password_hash::{Salt, SaltString};
use argon2::{Algorithm, Argon2, ParamsBuilder, PasswordHasher, Version};
use block_modes::block_padding::Pkcs7;
use block_modes::{BlockMode, Cbc};
use google_authenticator::GA_AUTH;
use rand::{thread_rng, Rng, RngCore};
use rand_core::OsRng;
use sha2::{Digest, Sha256};
use vstd::prelude::*;

verus! {

/// Length in bytes of an AES-256 key, and of every derived key.
pub const KEY_LEN: usize = 32;

/// Length in bytes of the initialisation vector of a store.
pub const IV_LEN: usize = 16;

/// The largest password, in bytes, that Argon2 takes.
pub const MAX_PASSWORD_LEN: usize = 0xFFFF_FFFF;

/// The fewest salt bytes that Argon2 takes.
pub const MIN_SALT_BYTES: usize = 8;

/// The SHA-256 digest of `data`.
pub uninterp spec fn sha256_digest(data: Seq<u8>) -> Seq<u8>;

/// The AES-256-CBC encryption of `plaintext`, padded with PKCS#7.
pub uninterp spec fn aes256_cbc_encrypted(key: Seq<u8>, iv: Seq<u8>, plaintext: Seq<u8>) -> Seq<u8>;

/// The AES-256-CBC decryption of `ciphertext` with its PKCS#7 padding taken
/// off, or `None` where the length or the padding is wrong.
pub uninterp spec fn aes256_cbc_decrypted(key: Seq<u8>, iv: Seq<u8>, ciphertext: Seq<u8>) -> Option<
    Seq<u8>,
>;

/// The Argon2id (version 0x13) hash of `password`, 32 bytes long, or `None`
/// where the hasher refuses its input.
pub uninterp spec fn argon2id_hash(
    t_cost: u32,
    m_cost: u32,
    p_cost: u32,
    salt: Seq<char>,
    password: Seq<char>,
) -> Option<Seq<u8>>;

/// The bytes that a salt string stands for in unpadded base64, or `None`
/// where it is no salt string or no base64.
pub uninterp spec fn salt_bytes(salt: Seq<char>) -> Option<Seq<u8>>;

/// The six-digit one-time password of the base32 seed `secret` for the
/// thirty-second slice `time_slice`, or `None` where the seed is refused.
pub uninterp spec fn totp_code(secret: Seq<char>, time_slice: u64) -> Option<Seq<char>>;

/// The cost parameters that Argon2 accepts.
pub open spec fn argon2_costs_accepted(t_cost: u32, m_cost: u32, p_cost: u32) -> bool {
    &&& 1 <= t_cost
    &&& 8 <= m_cost <= 0x0FFF_FFFF
    &&& 1 <= p_cost <= 0xFF_FFFF
    &&& 8 * p_cost <= m_cost
}

/// `Sha256::digest`. The contract names the digest; its length is that of
/// the array.
#[verifier::external_body]
pub(crate) fn sha256(data: &[u8]) -> (digest: [u8; 32])
    ensures
        digest@ == sha256_digest(data@),
{
    Sha256::digest(data).into()
}

/// `BlockMode::encrypt_vec` of `Cbc<Aes256, Pkcs7>`, made from the key and
/// the vector, which must have the lengths that the cipher takes. The
/// contract names the ciphertext, gives its length (the plaintext padded up to
/// the next whole block of sixteen bytes, with a full block of padding where
/// it already ends on one), and claims that decryption under the same key
/// and vector gives the plaintext back.
#[verifier::external_body]
pub(crate) fn aes256_cbc_encrypt(key: &[u8], iv: &[u8], plaintext: &[u8]) -> (ciphertext: Vec<u8>)
    requires
        key@.len() == KEY_LEN,
        iv@.len() == IV_LEN,
    ensures
        ciphertext@ == aes256_cbc_encrypted(key@, iv@, plaintext@),
        ciphertext@.len() == (plaintext@.len() / 16 + 1) * 16,
        aes256_cbc_decrypted(key@, iv@, ciphertext@) == Some(plaintext@),
{
    <Cbc<Aes256, Pkcs7>>::new_from_slices(key, iv).unwrap().encrypt_vec(plaintext)
}

/// `BlockMode::decrypt_vec` of `Cbc<Aes256, Pkcs7>`, made from the key and
/// the vector, which must have the lengths that the cipher takes; its error
/// is mapped to `None`. The contract names the outcome, and says that there
/// is none for a ciphertext that is empty or no whole number of blocks of
/// sixteen bytes.
#[verifier::external_body]
pub(crate) fn aes256_cbc_decrypt(key: &[u8], iv: &[u8], ciphertext: &[u8]) -> (plaintext: Option<
    Vec<u8>,
>)
    requires
        key@.len() == KEY_LEN,
        iv@.len() == IV_LEN,
    ensures
        match plaintext {
            Some(bytes) => aes256_cbc_decrypted(key@, iv@, ciphertext@) == Some(bytes@),
            None => aes256_cbc_decrypted(key@, iv@, ciphertext@) is None,
        },
        ciphertext@.len() == 0 || ciphertext@.len() % 16 != 0 ==> plaintext is None,
{
    <Cbc<Aes256, Pkcs7>>::new_from_slices(key, iv).unwrap().decrypt_vec(ciphertext).ok()
}

/// `PasswordHasher::hash_password` of an `Argon2` context for Argon2id,
/// version 0x13, with the given costs and the default output length. Every
/// error on the way is mapped to `None`. The contract names the outcome, gives
/// the length of a hash, and claims that the hasher succeeds where the costs are
/// in range, the salt decodes to eight bytes or more and the password is
/// within the length that Argon2 takes.
#[verifier::external_body]
pub(crate) fn argon2id(t_cost: u32, m_cost: u32, p_cost: u32, salt: &str, password: &str) -> (hash:
    Option<Vec<u8>>)
    ensures
        match hash {
            Some(h) => argon2id_hash(t_cost, m_cost, p_cost, salt@, password@) == Some(h@)
                && h@.len() == KEY_LEN,
            None => argon2id_hash(t_cost, m_cost, p_cost, salt@, password@) is None,
        },
        argon2_costs_accepted(t_cost, m_cost, p_cost) && vstd::utf8::encode_utf8(password@).len()
            <= MAX_PASSWORD_LEN && salt_bytes(salt@) is Some && salt_bytes(salt@)->0.len()
            >= MIN_SALT_BYTES ==> hash is Some,
{
    let mut builder = ParamsBuilder::new();
    builder.t_cost(t_cost).ok()?;
    builder.m_cost(m_cost).ok()?;
    builder.p_cost(p_cost).ok()?;
    let hasher = Argon2::new(Algorithm::Argon2id, Version::V0x13, builder.params().ok()?);
    let hash = hasher.hash_password(password.as_bytes(), salt).ok()?.hash?;
    Some(hash.as_bytes().to_vec())
}

/// `GoogleAuthenticator::get_code` of the shared `GA_AUTH`, its error
/// mapped to `None`. Slice 0 is left out: the generator takes it to mean
/// the slice that its own clock gives. The contract names the outcome.
#[verifier::external_body]
pub(crate) fn totp(secret: &str, time_slice: u64) -> (code: Option<String>)
    requires
        time_slice != 0,
    ensures
        match code {
            Some(c) => totp_code(secret@, time_slice) == Some(c@),
            None => totp_code(secret@, time_slice) is None,
        },
{
    GA_AUTH.get_code(secret, time_slice).ok()
}

/// `RngCore::fill_bytes` of the thread's generator, on an array of the
/// length asked for. Nothing is claimed of the bytes.
#[verifier::external_body]
pub(crate) fn random_bytes<const N: usize>() -> (bytes: [u8; N]) {
    let mut bytes = [0u8; N];
    thread_rng().fill_bytes(&mut bytes);
    bytes
}

/// `Salt::b64_decode` of the `Salt` made of the string, the errors of both
/// mapped to `None`. The contract names the outcome.
#[verifier::external_body]
pub(crate) fn decode_salt(salt: &str) -> (bytes: Option<Vec<u8>>)
    ensures
        match bytes {
            Some(b) => salt_bytes(salt@) == Some(b@),
            None => salt_bytes(salt@) is None,
        },
{
    let mut buf = [0u8; 64];
    Salt::new(salt).ok()?.b64_decode(&mut buf).ok().map(|b| b.to_vec())
}

/// `SaltString::generate` over the operating system's generator: sixteen
/// random bytes, written as unpadded base64. The contract says that the
/// string decodes as a salt, to sixteen bytes; nothing is claimed of the
/// bytes.
#[verifier::external_body]
pub(crate) fn random_salt_string() -> (salt: String)
    ensures
        salt_bytes(salt@) is Some,
        salt_bytes(salt@)->0.len() == 16,
{
    SaltString::generate(&mut OsRng).as_str().to_owned()
}

/// `Rng::gen_range` of the thread's generator over `low..=high`. The range
/// must hold a value; the result lies in it.
#[verifier::external_body]
pub(crate) fn random_in_range(low: usize, high: usize) -> (n: usize)
    requires
        low <= high,
    ensures
        low <= n <= high,
{
    thread_rng().gen_range(low..=high)
}

/// `String::from_utf8`, its error mapped to `None`: the string of the bytes
/// where they are valid UTF-8, and `None` where they are not.
#[verifier::external_body]
pub(crate) fn string_from_utf8(bytes: Vec<u8>) -> (text: Option<String>)
    ensures
        match text {
            Some(s) => vstd::utf8::valid_utf8(bytes@) && s@ == vstd::utf8::decode_utf8(bytes@),
            None => !vstd::utf8::valid_utf8(bytes@),
        },
{
    String::from_utf8(bytes).ok()
}

} // verus!

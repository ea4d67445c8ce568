use passman::crypt::{decrypt_with, encrypt_with, gen_iv, hash};
use passman::version::errors::DecryptError;
use passman::version::v0_3::{
    decrypt, decrypt_string, derive_key, encrypt, encrypt_string, encrypt_with_salt,
    is_usable_salt, min_salt_len, SALT_MAX_LENGTH, SALT_MIN_LENGTH,
};

// The key that Argon2id gives for the password "a temporary key for testing"
// under the salt "randomsaltstring", at the costs that stores are made with.
const HASHED_KEY: [u8; 32] = [
    0x41, 0x7b, 0x62, 0xc8, 0xb2, 0x2b, 0x7b, 0x1c, 0xdc, 0x94, 0x40, 0x93, 0x4e, 0xb0, 0x36, 0xee,
    0xc5, 0x48, 0xa3, 0xb2, 0x02, 0x4a, 0xb4, 0xfa, 0x05, 0x12, 0x57, 0x94, 0xdb, 0xf9, 0x0d, 0x52,
];

const BASE_SALT: &[u8; 32] = b"\x6e\x6f\x20\x73\x65\x72\x69\x6f\x75\x73\x6c\x79\x20\x69\x74\x27\x73\x20\x6a\x75\x73\x74\x20\x72\x61\x6e\x64\x6f\x6d\x20\x3a\x50";

const IV: &[u8; 16] = b"\x74\x68\x69\x73\x20\x69\x73\x20\x74\x68\x65\x20\x69\x76\x21\x21";

fn check_single(val: &[u8], salt: &mut [u8], iv: &[u8], key: &[u8], ctx: String) {
    let encrypted = encrypt_with_salt(val, salt, iv, key);
    let decrypted = decrypt(&encrypted, iv, key).unwrap();
    assert_eq!(val, decrypted, "{}", ctx);
}

#[test]
fn run_all() {
    let cases = &[
        // Longest salt
        ("", 32),
        // Shortest salt
        ("longer password so that we have minimum length", 17),
        // Other combinations
        ("foobarbaz", 24),
        ("foobarbaz", 25),
        ("foobarbaz", 26),
        ("foobarbaz", 27),
        ("foobarbaz", 28),
        ("foobarbaz", 29),
        ("foobarbaz", 30),
        ("foobarbaz", 31),
        ("foobarbaz", 32),
    ];

    let base_salt = BASE_SALT;
    assert!(base_salt.len() == 32);

    let hashed_key = HASHED_KEY.to_vec();

    let iv = IV;
    assert!(iv.len() == 16);

    for (val, salt_len) in cases.iter().cloned() {
        assert!(val.len() + salt_len >= SALT_MAX_LENGTH);

        let mut salt = base_salt[..salt_len].to_vec();
        let ctx = format!("val: {}, salt_len: {}", val, salt_len);
        check_single(val.as_bytes(), &mut salt, iv, &hashed_key, ctx);
    }
}

// The same password and salt as `HASHED_KEY`, at the passes and lanes of a
// store and a sixteenth of its memory.
#[test]
fn derive_key_at_the_passes_of_a_store() {
    let key = derive_key(5, 62_500, 1, "randomsaltstring", "a temporary key for testing");
    let expected: [u8; 32] = [
        0xfe, 0xfc, 0x5f, 0x23, 0xeb, 0xf3, 0xee, 0xa4, 0xab, 0x1a, 0x53, 0xb2, 0x31, 0xdd, 0x15,
        0x88, 0x39, 0xad, 0xee, 0xba, 0xb8, 0x35, 0x85, 0x92, 0x63, 0x7b, 0x5c, 0x7c, 0x4b, 0x1a,
        0x96, 0x19,
    ];
    assert_eq!(key, Some(expected.to_vec()));
    assert_eq!(passman::version::v0_3::T_COST, 5);
    assert_eq!(passman::version::v0_3::M_COST, 1_000_000);
    assert_eq!(passman::version::v0_3::PARALLEL, 1);
}

#[test]
fn derive_key_gives_the_argon2id_hash() {
    let key = derive_key(1, 8, 1, "randomsaltstring", "a temporary key for testing").unwrap();
    let expected: [u8; 32] = [
        0xdb, 0xfc, 0x0d, 0x64, 0xc8, 0x53, 0x9e, 0x77, 0x24, 0x9e, 0xfc, 0xfe, 0x77, 0x6e, 0x3c,
        0x27, 0xf5, 0x5f, 0xab, 0x6a, 0x44, 0xd5, 0x73, 0x27, 0xc7, 0xd8, 0xd7, 0x71, 0xaa, 0x43,
        0x70, 0x95,
    ];
    assert_eq!(key, expected.to_vec());
}

#[test]
fn derive_key_depends_on_password_and_costs() {
    let a = derive_key(2, 64, 1, "randomsaltstring", "pw1").unwrap();
    let b = derive_key(2, 64, 1, "randomsaltstring", "wrong").unwrap();
    let c = derive_key(1, 64, 1, "randomsaltstring", "pw1").unwrap();
    assert_eq!(a.len(), 32);
    assert_eq!(
        a,
        vec![
            0x79, 0x83, 0xdf, 0x88, 0x0d, 0xa0, 0xdd, 0x58, 0x08, 0xb4, 0xc2, 0x48, 0xd0, 0xe0,
            0x9b, 0x85, 0xdd, 0x36, 0xc7, 0x3c, 0x53, 0xb0, 0x8e, 0x19, 0xf5, 0x1e, 0x46, 0xb8,
            0x6e, 0xdb, 0xe9, 0xe5
        ]
    );
    assert_ne!(a, b);
    assert_ne!(a, c);
}

#[test]
fn derive_key_refuses_bad_input() {
    // Too short to be a salt string.
    assert!(derive_key(1, 8, 1, "abc", "pw").is_none());
    // A salt string, but under eight bytes once decoded.
    assert!(derive_key(1, 8, 1, "abcd", "pw").is_none());
    // Not base64.
    assert!(derive_key(1, 8, 1, "no spaces allowed", "pw").is_none());
    // Costs out of range.
    assert!(derive_key(0, 8, 1, "randomsaltstring", "pw").is_none());
    assert!(derive_key(1, 7, 1, "randomsaltstring", "pw").is_none());
    assert!(derive_key(1, 8, 0, "randomsaltstring", "pw").is_none());
    assert!(derive_key(1, 8, 2, "randomsaltstring", "pw").is_none());
}

#[test]
fn usable_salts_are_those_that_keys_can_be_derived_with() {
    let cases = [
        ("randomsaltstring", true),
        ("c2FsdHNhbHRzYWx0c2FsdA", true),
        // Eight bytes exactly.
        ("AAAAAAAAAAA", true),
        // Seven bytes.
        ("AAAAAAAAAA", false),
        ("abcd", false),
        ("abc", false),
        ("", false),
        ("no spaces allowed", false),
        // No whole number of bytes.
        ("AAAAAAAAAAAAA", false),
    ];
    for (salt, usable) in cases.iter() {
        assert_eq!(is_usable_salt(salt), *usable, "{}", salt);
        assert_eq!(derive_key(1, 8, 1, salt, "pw").is_some(), *usable, "{}", salt);
    }
}

#[test]
fn new_salts_are_usable() {
    let a = passman::version::latest::gen_salt();
    let b = passman::version::latest::gen_salt();
    // Sixteen bytes in base64 without padding.
    assert_eq!(a.len(), 22);
    assert!(is_usable_salt(&a));
    assert!(is_usable_salt(&b));
    assert_ne!(a, b);
    assert!(derive_key(1, 8, 1, &a, "pw").is_some());
}

#[test]
fn min_salt_len_reaches_the_floor() {
    assert_eq!(min_salt_len(0), 32);
    assert_eq!(min_salt_len(1), 31);
    assert_eq!(min_salt_len(9), 23);
    assert_eq!(min_salt_len(14), 18);
    assert_eq!(min_salt_len(15), 17);
    assert_eq!(min_salt_len(16), 17);
    assert_eq!(min_salt_len(31), 17);
    assert_eq!(min_salt_len(32), 17);
    assert_eq!(min_salt_len(1000), 17);
    for len in 0..40usize {
        let min = min_salt_len(len);
        assert!(SALT_MIN_LENGTH <= min && min <= SALT_MAX_LENGTH);
        assert!(min + len >= 32);
    }
}

#[test]
fn encrypt_with_salt_marks_the_salt() {
    for salt_len in 17..=32usize {
        let mut salt = BASE_SALT[..salt_len].to_vec();
        let first = salt[0];
        let _ = encrypt_with_salt(b"value", &mut salt, IV, &HASHED_KEY);
        assert_eq!(salt[0] & 0xF0, first & 0xF0);
        assert_eq!((salt[0] & 0x0F) as usize + 17, salt_len);
        assert_eq!(&salt[1..], &BASE_SALT[1..salt_len]);
    }
}

#[test]
fn ciphertext_length_is_the_padded_payload() {
    // 17 + 15 = 32 bytes: two blocks and one of padding.
    let mut salt = BASE_SALT[..17].to_vec();
    let ct = encrypt_with_salt(&[7u8; 15], &mut salt, IV, &HASHED_KEY);
    assert_eq!(ct.len(), 48);
    // 32 + 0 = 32 bytes.
    let mut salt = BASE_SALT.to_vec();
    let ct = encrypt_with_salt(b"", &mut salt, IV, &HASHED_KEY);
    assert_eq!(ct.len(), 48);
    // 17 + 31 = 48 bytes: three blocks and one of padding.
    let mut salt = BASE_SALT[..17].to_vec();
    let ct = encrypt_with_salt(&[7u8; 31], &mut salt, IV, &HASHED_KEY);
    assert_eq!(ct.len(), 64);
    // 17 + 30 = 47 bytes.
    let mut salt = BASE_SALT[..17].to_vec();
    let ct = encrypt_with_salt(&[7u8; 30], &mut salt, IV, &HASHED_KEY);
    assert_eq!(ct.len(), 48);
}

#[test]
fn encrypt_round_trips_with_random_salts() {
    let values: [&[u8]; 6] = [
        b"",
        b"1",
        b"1234",
        b"fifteen bytes!!",
        b"sixteen bytes!!!",
        b"a value that is a good deal longer than thirty-two bytes, to be sure",
    ];
    for val in values.iter() {
        for _ in 0..20 {
            let ct = encrypt(val, IV, &HASHED_KEY);
            assert!(ct.len() >= 48);
            assert_eq!(ct.len() % 16, 0);
            assert_ne!(&ct[..], *val);
            assert_eq!(decrypt(&ct, IV, &HASHED_KEY), Some(val.to_vec()));
        }
    }
}

#[test]
fn short_values_do_not_show_their_length() {
    for len in 0..=15usize {
        let val = vec![b'x'; len];
        for _ in 0..20 {
            assert_eq!(encrypt(&val, IV, &HASHED_KEY).len(), 48);
        }
    }
}

#[test]
fn equal_values_give_different_ciphertexts() {
    let a = encrypt(b"1234", IV, &HASHED_KEY);
    let b = encrypt(b"1234", IV, &HASHED_KEY);
    assert_ne!(a, b);
}

#[test]
fn decrypt_refuses_what_is_no_ciphertext() {
    assert_eq!(decrypt(b"", IV, &HASHED_KEY), None);
    assert_eq!(decrypt(&[0u8; 15], IV, &HASHED_KEY), None);
    assert_eq!(decrypt(&[0u8; 17], IV, &HASHED_KEY), None);
}

#[test]
fn decrypt_refuses_a_payload_shorter_than_its_salt() {
    // What the oldest scheme encrypts carries no salt: sixteen bytes of which
    // the first announces a salt of seventeen or more.
    let ct = passman::version::v0_2::encrypt(b"0123456789abcdef", IV, &HASHED_KEY);
    assert_eq!(decrypt(&ct, IV, &HASHED_KEY), None);
    // An empty payload has no first byte to read.
    let ct = passman::version::v0_2::encrypt(b"", IV, &HASHED_KEY);
    assert_eq!(decrypt(&ct, IV, &HASHED_KEY), None);
    // A payload of just the salt leaves the empty value.
    let mut payload = vec![0u8; 17];
    payload[0] = 0xA0;
    let ct = passman::version::v0_2::encrypt(&payload, IV, &HASHED_KEY);
    assert_eq!(decrypt(&ct, IV, &HASHED_KEY), Some(Vec::new()));
    // One byte short of the salt that the first byte announces.
    payload[0] = 0xA1;
    let ct = passman::version::v0_2::encrypt(&payload, IV, &HASHED_KEY);
    assert_eq!(decrypt(&ct, IV, &HASHED_KEY), None);
}

#[test]
fn wrong_key_does_not_give_the_value() {
    let mut salt = BASE_SALT[..24].to_vec();
    let ct = encrypt_with_salt(b"foobarbaz", &mut salt, IV, &HASHED_KEY);
    let mut wrong = HASHED_KEY;
    wrong[0] ^= 1;
    assert_ne!(decrypt(&ct, IV, &wrong), Some(b"foobarbaz".to_vec()));
    assert_ne!(decrypt_string(&ct, IV, &wrong), Ok("foobarbaz".to_owned()));
    assert_eq!(decrypt_string(&ct, IV, &HASHED_KEY), Ok("foobarbaz".to_owned()));
}

#[test]
fn decrypt_string_tells_bad_crypt_from_bad_utf8() {
    assert_eq!(decrypt_string(&[0u8; 15], IV, &HASHED_KEY), Err(DecryptError::BadCrypt));
    let mut salt = BASE_SALT[..17].to_vec();
    let ct = encrypt_with_salt(&[0xff, 0xfe, 0x00], &mut salt, IV, &HASHED_KEY);
    assert_eq!(decrypt_string(&ct, IV, &HASHED_KEY), Err(DecryptError::BadUtf8));
    let ct = encrypt_string("gr\u{fc}\u{df}e \u{263a}", IV, &HASHED_KEY);
    assert_eq!(decrypt_string(&ct, IV, &HASHED_KEY), Ok("gr\u{fc}\u{df}e \u{263a}".to_owned()));
}

#[test]
fn hash_is_sha256() {
    let expected: [u8; 32] = [
        0xba, 0x78, 0x16, 0xbf, 0x8f, 0x01, 0xcf, 0xea, 0x41, 0x41, 0x40, 0xde, 0x5d, 0xae, 0x22,
        0x23, 0xb0, 0x03, 0x61, 0xa3, 0x96, 0x17, 0x7a, 0x9c, 0xb4, 0x10, 0xff, 0x61, 0xf2, 0x00,
        0x15, 0xad,
    ];
    assert_eq!(hash("abc"), expected);
    assert_eq!(passman::version::v0_2::hash_key("abc"), expected);
}

#[test]
fn encrypt_with_round_trips_under_the_password() {
    let iv = gen_iv();
    let ct = encrypt_with("pw1", b"some value", &iv);
    assert_eq!(ct.len(), 16);
    assert_ne!(&ct[..10], b"some value");
    assert_eq!(decrypt_with("pw1", &ct, &iv), Some(b"some value".to_vec()));
    assert_ne!(decrypt_with("wrong", &ct, &iv), Some(b"some value".to_vec()));
    assert_eq!(decrypt_with("pw1", &ct[..15], &iv), None);
    // The same as encrypting under the hashed password.
    assert_eq!(ct, passman::version::v0_2::encrypt(b"some value", &iv, &hash("pw1")));
}

#[test]
fn unsalted_ciphertexts_are_the_padded_value() {
    for len in 0..50usize {
        let value = vec![7u8; len];
        assert_eq!(encrypt_with("pw1", &value, IV).len(), (len / 16 + 1) * 16);
        assert_eq!(
            passman::version::v0_2::encrypt(&value, IV, &HASHED_KEY).len(),
            (len / 16 + 1) * 16
        );
        // The same inputs give the same ciphertext.
        assert_eq!(encrypt_with("pw1", &value, IV), encrypt_with("pw1", &value, IV));
    }
}

#[test]
fn salted_ciphertexts_are_whole_blocks_over_the_floor() {
    for len in 0..70usize {
        let value = vec![7u8; len];
        for _ in 0..5 {
            let ct = encrypt(&value, IV, &HASHED_KEY);
            assert_eq!(ct.len() % 16, 0);
            assert!(ct.len() >= 48);
            assert!(ct.len() >= len + 18);
            assert!(ct.len() <= len + 48);
            // What the cipher gives back is the marked salt and the value.
            let payload = passman::version::v0_2::decrypt(&ct, IV, &HASHED_KEY).unwrap();
            let salt_len = payload.len() - len;
            assert!(payload.len() >= 32);
            assert!(salt_len >= min_salt_len(len) && salt_len <= 32);
            assert_eq!((payload[0] & 0x0F) as usize + 17, salt_len);
            assert_eq!(&payload[salt_len..], &value[..]);
        }
    }
}

#[test]
fn ciphertexts_of_a_wrong_length_are_refused() {
    for len in [0usize, 1, 15, 17, 31, 33] {
        let bytes = vec![0u8; len];
        assert_eq!(decrypt(&bytes, IV, &HASHED_KEY), None);
        assert_eq!(decrypt_string(&bytes, IV, &HASHED_KEY), Err(DecryptError::BadCrypt));
        assert_eq!(passman::version::v0_2::decrypt(&bytes, IV, &HASHED_KEY), None);
        assert_eq!(decrypt_with("pw1", &bytes, IV), None);
    }
}

#[test]
fn encrypt_with_pads_a_full_block() {
    let ct = encrypt_with("pw1", &[1u8; 16], IV);
    assert_eq!(ct.len(), 32);
    assert_eq!(decrypt_with("pw1", &ct, IV), Some(vec![1u8; 16]));
}

#[test]
fn gen_iv_draws_anew() {
    assert_ne!(gen_iv(), gen_iv());
}

use passman::utils::{bytes_equal, comma_strings, escape_quotes, str_equal, Base64Vec};
use passman::version::errors::{
    DecryptError, EncryptError, GetValueError, SetFieldError, SwapEncryptionError,
    UnsupportedFeature,
};
use passman::version::{PlaintextContent, Timestamp, ValueKind};
use std::borrow::Cow;

#[test]
fn comma_strings_joins_with_commas() {
    let none: [&str; 0] = [];
    assert_eq!(comma_strings(&none), "<None>");
    assert_eq!(comma_strings(&["one"]), "one");
    assert_eq!(comma_strings(&["one", "two"]), "one,two");
    assert_eq!(comma_strings(&["a", "", "c"]), "a,,c");
    assert_eq!(comma_strings(&[""]), "");
    assert_eq!(comma_strings(&["gr\u{fc}n", "bl\u{e4}u"]), "gr\u{fc}n,bl\u{e4}u");
}

#[test]
fn escape_quotes_leaves_the_text_as_it_is() {
    assert_eq!(escape_quotes("plain"), "plain");
    assert!(matches!(escape_quotes("plain"), Cow::Borrowed(_)));
    assert_eq!(escape_quotes("say \"hi\""), "say \"hi\"");
    assert!(matches!(escape_quotes("say \"hi\""), Cow::Owned(_)));
    assert_eq!(escape_quotes(""), "");
    assert_eq!(escape_quotes("\""), "\"");
}

#[test]
fn base64_round_trips() {
    let bytes = Base64Vec(b"hello world".to_vec());
    assert_eq!(bytes.encode(), "aGVsbG8gd29ybGQ=");
    assert_eq!(bytes.as_ref(), b"hello world");
    assert_eq!(Base64Vec::decode("aGVsbG8gd29ybGQ=").unwrap().0, b"hello world".to_vec());
    assert_eq!(Base64Vec(vec![]).encode(), "");
    assert_eq!(Base64Vec::decode("").unwrap().0, Vec::<u8>::new());
    assert!(Base64Vec::decode("not base64!").is_none());
    assert!(Base64Vec::decode("aGVsbG8gd29ybG").is_none());
    for len in 0..40usize {
        let data: Vec<u8> = (0..len as u8).map(|i| i.wrapping_mul(37)).collect();
        let text = Base64Vec(data.clone()).encode();
        assert_eq!(text.len(), (len + 2) / 3 * 4);
        assert_eq!(Base64Vec::decode(&text).unwrap().0, data);
    }
}

#[test]
fn bytes_and_strings_compare_by_content() {
    assert!(bytes_equal(b"", b""));
    assert!(bytes_equal(b"abc", b"abc"));
    assert!(!bytes_equal(b"abc", b"abd"));
    assert!(!bytes_equal(b"abc", b"ab"));
    assert!(!bytes_equal(b"", b"a"));
    assert!(str_equal("v0.4", "v0.4"));
    assert!(!str_equal("v0.4", "v0.3"));
    assert!(str_equal("\u{263a}", "\u{263a}"));
    assert!(!str_equal("\u{263a}", "\u{263b}"));
}

#[test]
fn errors_have_their_messages() {
    assert_eq!(EncryptError.message(), "Encryption failed");
    assert_eq!(DecryptError::BadCrypt.message(), "Decryption failed");
    assert_eq!(
        DecryptError::BadUtf8.message(),
        "Decryption result gave non UTF-8 bytes (likely incorrect key?)"
    );
    assert_eq!(
        UnsupportedFeature::Totp.message(),
        "TOTP values are not supported with your current file version"
    );
    assert_eq!(
        SetFieldError::ContentsNotUnlocked(ValueKind::Protected).message(),
        "Cannot set protected field: contents have not been decrypted"
    );
    assert_eq!(
        SetFieldError::ContentsNotUnlocked(ValueKind::Totp).message(),
        "Cannot set TOTP field: contents have not been decrypted"
    );
    assert_eq!(
        SetFieldError::ContentsNotUnlocked(ValueKind::Basic).message(),
        "Cannot set basic field: contents have not been decrypted"
    );
    assert_eq!(
        GetValueError::ContentsNotUnlocked.message(),
        "Cannot view protected field: contents have not been decrypted"
    );
    assert_eq!(GetValueError::Decrypt(DecryptError::BadCrypt).message(), "Decryption failed");
    assert_eq!(GetValueError::BadTotpSecret.message(), "This field has an invalid TOTP secret");
    assert_eq!(SwapEncryptionError::ContentsNotUnlocked.message(), "Contents have not been decrypted");
    assert_eq!(SwapEncryptionError::Encrypt(EncryptError).message(), "Encryption failed");
    assert_eq!(
        SwapEncryptionError::Decrypt(DecryptError::BadUtf8).message(),
        "Decryption result gave non UTF-8 bytes (likely incorrect key?)"
    );
    assert_eq!(
        SwapEncryptionError::IsTotp.message(),
        "Encryption cannot be disabled on TOTP fields"
    );
}

#[test]
fn errors_convert_as_they_wrap() {
    assert_eq!(
        GetValueError::from(DecryptError::BadUtf8),
        GetValueError::Decrypt(DecryptError::BadUtf8)
    );
    assert_eq!(SwapEncryptionError::from(EncryptError), SwapEncryptionError::Encrypt(EncryptError));
    assert_eq!(
        SwapEncryptionError::from(DecryptError::BadCrypt),
        SwapEncryptionError::Decrypt(DecryptError::BadCrypt)
    );
}

#[test]
fn value_kinds_have_their_names() {
    assert_eq!(ValueKind::Basic.name(), "basic");
    assert_eq!(ValueKind::Protected.name(), "protected");
    assert_eq!(ValueKind::Totp.name(), "TOTP");
}

#[test]
fn an_empty_plain_store_has_no_entries() {
    let t = Timestamp { secs_since_epoch: 12, nanos_since_epoch: 34 };
    let content = PlaintextContent::init_at(t);
    assert_eq!(content.last_update, t);
    assert!(content.entries.is_empty());
    let now = PlaintextContent::init();
    assert!(now.entries.is_empty());
    assert!(now.last_update.secs_since_epoch > 1_600_000_000);
    assert!(now.last_update.nanos_since_epoch < 1_000_000_000);
}

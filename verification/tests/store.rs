use passman::crypt::hash;
use passman::utils::Base64Vec;
use passman::version::errors::{
    DecryptError, GetValueError, SetFieldError, SwapEncryptionError, UnsupportedFeature,
};
use passman::version::v0_4::{
    seconds_remaining, totp_display, totp_value, warning, Entry, Field, FileContent, Value,
    VERSION_STR,
};
use passman::version::{
    Keyed, PlaintextContent, PlaintextEntry, PlaintextField, PlaintextValue, Timestamp, ValueKind,
};

const IV: &[u8; 16] = b"\x74\x68\x69\x73\x20\x69\x73\x20\x74\x68\x65\x20\x69\x76\x21\x21";

const SALT: &str = "c2FsdHNhbHRzYWx0c2FsdA";

// The seed "12345678901234567890" of the published one-time-password vectors.
const SEED: &str = "GEZDGNBVGY3TQOJQGEZDGNBVGY3TQOJQ";

// Stands in for the key derivation of the format, which takes a gigabyte of
// memory and several seconds: any thirty-two bytes are a key.
fn key_for(pwd: &str) -> Vec<u8> {
    hash(pwd).to_vec()
}

fn at(secs: u64) -> Timestamp {
    Timestamp { secs_since_epoch: secs, nanos_since_epoch: 0 }
}

fn manual(value: &str, protected: bool) -> PlaintextValue {
    PlaintextValue::Manual { value: value.to_owned(), protected }
}

fn new_store(pwd: &str) -> Keyed<FileContent> {
    Keyed::from_plaintext_with(
        SALT.to_owned(),
        IV.to_vec(),
        &key_for(pwd),
        PlaintextContent::init_at(at(1000)),
    )
}

fn sample_plaintext() -> PlaintextContent {
    PlaintextContent {
        last_update: at(500),
        entries: vec![
            PlaintextEntry {
                name: "Bank".to_owned(),
                tags: vec!["money".to_owned(), "daily".to_owned()],
                fields: vec![
                    PlaintextField { name: "user".to_owned(), value: manual("alice", false) },
                    PlaintextField { name: "pin".to_owned(), value: manual("1234", true) },
                    PlaintextField {
                        name: "code".to_owned(),
                        value: PlaintextValue::Totp {
                            issuer: "The Bank".to_owned(),
                            secret: SEED.to_owned(),
                        },
                    },
                ],
                first_added: at(100),
                last_update: at(200),
            },
            PlaintextEntry {
                name: "Empty".to_owned(),
                tags: vec![],
                fields: vec![],
                first_added: at(300),
                last_update: at(300),
            },
        ],
    }
}

fn sample_store(pwd: &str) -> Keyed<FileContent> {
    Keyed::from_plaintext_with(SALT.to_owned(), IV.to_vec(), &key_for(pwd), sample_plaintext())
}

fn set(store: &mut Keyed<FileContent>, entry: usize, idx: usize, name: &str, value: PlaintextValue) -> Result<(), SetFieldError> {
    let mut e = store.entry_mut(entry);
    let mut builder = e.field_builder();
    match value {
        PlaintextValue::Manual { .. } => builder.make_manual(),
        PlaintextValue::Totp { .. } => builder.make_totp().unwrap(),
    }
    builder.set_name(name.to_owned());
    builder.set_value(value);
    e.set_field(idx, builder)
}

#[test]
fn scenario_new_store_with_protected_field() {
    let mut store = new_store("pw1");
    assert!(store.content.is_valid());
    assert!(!store.decrypted());
    assert!(!store.unsaved());
    assert_eq!(store.num_entries(), 0);

    let idx = store.add_empty_entry("Bank".to_owned());
    assert_eq!(idx, 0);
    assert_eq!(store.num_entries(), 1);
    assert!(store.unsaved());

    // Locked: nothing can be protected yet.
    assert_eq!(
        set(&mut store, 0, 0, "pin", manual("1234", true)),
        Err(SetFieldError::ContentsNotUnlocked(ValueKind::Totp))
    );
    assert_eq!(store.entry(0).num_fields(), 0);

    assert_eq!(store.set_hashed_key(key_for("pw1")), Ok(()));
    assert!(store.decrypted());

    assert_eq!(set(&mut store, 0, 0, "pin", manual("1234", true)), Ok(()));
    {
        let entry = store.entry(0);
        assert_eq!(entry.name(), "Bank");
        assert_eq!(entry.num_fields(), 1);
        let field = entry.field(0);
        assert_eq!(field.name(), "pin");
        assert_eq!(field.value_kind(), ValueKind::Protected);
        assert_eq!(field.value(), Ok("1234".to_owned()));
        assert_eq!(field.plaintext_value().unwrap().clone_value(), ("1234".to_owned(), true));
    }
    match &store.content.inner[0].fields[0].value {
        Value::Protected(bs) => {
            assert_eq!(bs.0.len(), 48);
            assert_ne!(&bs.0[..4], b"1234");
        }
        _ => panic!("the field is not protected"),
    }

    // A wrong password is refused and leaves the store unlocked.
    assert_eq!(store.set_hashed_key(key_for("wrong")), Err(DecryptError::BadCrypt));
    assert!(store.decrypted());
    assert_eq!(store.key, Some(key_for("pw1")));
    assert_eq!(store.entry(0).field(0).value(), Ok("1234".to_owned()));

    // On a locked store a wrong password gives no access.
    let Keyed { content, .. } = store;
    let mut locked = Keyed::new(content);
    assert_eq!(locked.set_hashed_key(key_for("wrong")), Err(DecryptError::BadCrypt));
    assert!(!locked.decrypted());
    assert_eq!(locked.entry(0).field(0).value(), Err(GetValueError::ContentsNotUnlocked));
    assert_eq!(locked.set_hashed_key(key_for("pw1")), Ok(()));
    assert_eq!(locked.entry(0).field(0).value(), Ok("1234".to_owned()));
}

trait CloneValue {
    fn clone_value(&self) -> (String, bool);
}

impl CloneValue for PlaintextValue {
    fn clone_value(&self) -> (String, bool) {
        match self {
            PlaintextValue::Manual { value, protected } => (value.clone(), *protected),
            PlaintextValue::Totp { secret, .. } => (secret.clone(), true),
        }
    }
}

#[test]
fn totp_codes_match_the_published_vectors() {
    assert_eq!(totp_value(SEED, 59), Ok("287082  (00:01 remaining)".to_owned()));
    assert_eq!(totp_value(SEED, 1111111109), Ok("081804  (00:01 remaining)".to_owned()));
    assert_eq!(totp_value(SEED, 1111111111), Ok("050471  (00:29 remaining)".to_owned()));
    assert_eq!(totp_value(SEED, 1234567890), Ok("005924  (00:30 remaining)".to_owned()));
    assert_eq!(totp_value(SEED, 2000000000), Ok("279037  (00:10 remaining)".to_owned()));
    assert_eq!(totp_value(SEED, 20000000000), Ok("353130  (00:10 remaining)".to_owned()));
}

#[test]
fn totp_field_shows_the_code_of_the_slice() {
    let mut store = sample_store("pw1");
    store.set_hashed_key(key_for("pw1")).unwrap();
    let entry = store.entry(0);
    let field = entry.field(2);
    assert_eq!(field.name(), "code");
    assert_eq!(field.value_kind(), ValueKind::Totp);
    assert_eq!(field.value_at(59), Ok("287082  (00:01 remaining)".to_owned()));
    // The whole slice gives one code.
    assert_eq!(field.value_at(30), Ok("287082  (00:30 remaining)".to_owned()));
    assert_eq!(field.value_at(45), Ok("287082  (00:15 remaining)".to_owned()));
    assert_eq!(field.value_at(1111111111), Ok("050471  (00:29 remaining)".to_owned()));
    match field.plaintext_value().unwrap() {
        PlaintextValue::Totp { issuer, secret } => {
            assert_eq!(issuer, "The Bank");
            assert_eq!(secret, SEED);
        }
        _ => panic!("the field holds no seed"),
    }
    // The clock gives some code of six digits.
    let shown = field.value().unwrap();
    assert_eq!(shown.len(), "287082  (00:01 remaining)".len());
    assert!(shown[..6].chars().all(|c| c.is_ascii_digit()));
    assert!(shown.ends_with(" remaining)"));
}

#[test]
fn totp_refuses_bad_seeds() {
    assert_eq!(totp_value("short", 59), Err(GetValueError::BadTotpSecret));
    assert_eq!(totp_value("0000000000000000", 59), Err(GetValueError::BadTotpSecret));
    assert_eq!(totp_value("", 59), Err(GetValueError::BadTotpSecret));
    // The first slice after the epoch is not served.
    assert_eq!(totp_value(SEED, 0), Err(GetValueError::BadTotpSecret));
    assert_eq!(totp_value(SEED, 29), Err(GetValueError::BadTotpSecret));
    assert!(totp_value(SEED, 30).is_ok());

    let mut store = new_store("pw1");
    store.set_hashed_key(key_for("pw1")).unwrap();
    store.add_empty_entry("e".to_owned());
    let seed = PlaintextValue::Totp { issuer: "x".to_owned(), secret: "not a seed".to_owned() };
    assert_eq!(set(&mut store, 0, 0, "code", seed), Ok(()));
    assert_eq!(store.entry(0).field(0).value_at(59), Err(GetValueError::BadTotpSecret));
}

#[test]
fn totp_display_and_seconds_remaining() {
    assert_eq!(seconds_remaining(0), 30);
    assert_eq!(seconds_remaining(1), 29);
    assert_eq!(seconds_remaining(29), 1);
    assert_eq!(seconds_remaining(30), 30);
    assert_eq!(seconds_remaining(59), 1);
    assert_eq!(seconds_remaining(u64::MAX), 15);
    assert_eq!(totp_display("123456".to_owned(), 0), "123456  (00:30 remaining)");
    assert_eq!(totp_display("123456".to_owned(), 21), "123456  (00:09 remaining)");
    assert_eq!(totp_display("000001".to_owned(), 40), "000001  (00:20 remaining)");
}

#[test]
fn from_plaintext_keeps_the_store() {
    let store = sample_store("pw1");
    assert_eq!(store.content.version, VERSION_STR);
    assert_eq!(store.content.version, "v0.4");
    assert_eq!(store.content.salt, SALT);
    assert_eq!(store.content.iv.0, IV.to_vec());
    assert_eq!(store.content.last_update, at(500));
    assert!(store.key.is_none());
    assert!(!store.unsaved);
    assert_eq!(store.num_entries(), 2);

    let bank = &store.content.inner[0];
    assert_eq!(bank.name, "Bank");
    assert_eq!(bank.tags, vec!["money".to_owned(), "daily".to_owned()]);
    assert_eq!(bank.first_added, at(100));
    assert_eq!(bank.last_update, at(200));
    assert_eq!(bank.fields.len(), 3);
    assert!(matches!(&bank.fields[0].value, Value::Basic(s) if s == "alice"));
    assert!(matches!(&bank.fields[1].value, Value::Protected(_)));
    assert!(matches!(&bank.fields[2].value, Value::Totp { issuer, .. } if issuer == "The Bank"));
    assert_eq!(store.content.inner[1].fields.len(), 0);

    // The token opens under the key, and under no other.
    let key = key_for("pw1");
    assert_eq!(
        passman::version::v0_3::decrypt(&store.content.token.0, IV, &key),
        Some("encryption token \u{263a}".as_bytes().to_vec())
    );
}

#[test]
fn to_plaintext_gives_back_what_was_taken_in() {
    let mut store = sample_store("pw1");
    store.set_hashed_key(key_for("pw1")).unwrap();
    let plain = store.to_plaintext().unwrap();
    let expected = sample_plaintext();
    assert_eq!(plain.last_update, expected.last_update);
    assert_eq!(plain.entries.len(), 2);
    for (e, x) in plain.entries.iter().zip(expected.entries.iter()) {
        assert_eq!(e.name, x.name);
        assert_eq!(e.tags, x.tags);
        assert_eq!(e.first_added, x.first_added);
        assert_eq!(e.last_update, x.last_update);
        assert_eq!(e.fields.len(), x.fields.len());
        for (f, y) in e.fields.iter().zip(x.fields.iter()) {
            assert_eq!(f.name, y.name);
            match (&f.value, &y.value) {
                (
                    PlaintextValue::Manual { value: a, protected: p },
                    PlaintextValue::Manual { value: b, protected: q },
                ) => {
                    assert_eq!(a, b);
                    assert_eq!(p, q);
                }
                (
                    PlaintextValue::Totp { issuer: a, secret: s },
                    PlaintextValue::Totp { issuer: b, secret: t },
                ) => {
                    assert_eq!(a, b);
                    assert_eq!(s, t);
                }
                _ => panic!("the kinds differ"),
            }
        }
    }
}

#[test]
fn to_plaintext_reports_the_first_field_that_fails() {
    let mut store = sample_store("pw1");
    store.set_hashed_key(key_for("pw1")).unwrap();
    // Not a ciphertext at all.
    store.content.inner[0].fields[1].value = Value::Protected(Base64Vec(vec![1, 2, 3]));
    // A ciphertext of bytes that are no text.
    let bad = passman::version::v0_3::encrypt(&[0xff, 0xff], IV, &key_for("pw1"));
    store.content.inner[0].fields[2].value =
        Value::Totp { issuer: "x".to_owned(), secret: Base64Vec(bad.clone()) };
    assert_eq!(store.to_plaintext().err(), Some(DecryptError::BadCrypt));

    let mut store = sample_store("pw1");
    store.set_hashed_key(key_for("pw1")).unwrap();
    store.content.inner[0].fields[1].value = Value::Protected(Base64Vec(bad));
    store.content.inner[0].fields[2].value =
        Value::Totp { issuer: "x".to_owned(), secret: Base64Vec(vec![1, 2, 3]) };
    assert_eq!(store.to_plaintext().err(), Some(DecryptError::BadUtf8));
}

#[test]
fn to_plaintext_under_a_wrong_key_fails() {
    let Keyed { content, .. } = sample_store("pw1");
    let store = Keyed { content, key: Some(key_for("wrong")), unsaved: false };
    assert!(store.to_plaintext().is_err());
}

#[test]
fn to_current_of_the_newest_format_is_the_store_itself() {
    // Only the outcome of the password test can be told here, since the test
    // itself derives a key: the store that is handed back is the one handed in.
    let mut store = sample_store("pw1");
    let before_token = store.content.token.0.clone();
    let before_fields: Vec<String> =
        store.content.inner[0].fields.iter().map(|f| f.name.clone()).collect();
    assert_eq!(store.set_hashed_key(key_for("pw1")), Ok(()));
    assert_eq!(store.content.token.0, before_token);
    assert_eq!(store.content.version, "v0.4");
    assert_eq!(
        store.content.inner[0].fields.iter().map(|f| f.name.clone()).collect::<Vec<_>>(),
        before_fields
    );
    assert!(!store.unsaved());
}

#[test]
fn mutations_update_timestamps_and_mark_unsaved() {
    let mut store = sample_store("pw1");
    store.set_hashed_key(key_for("pw1")).unwrap();
    let t0 = store.entry(0).last_update();
    assert_eq!(t0, at(200));
    assert!(!store.unsaved());

    store.entry_mut(0).set_name("Bank 2".to_owned());
    let t1 = store.entry(0).last_update();
    assert!(t1.is_at_or_after(&t0));
    assert_eq!(store.content.last_update, t1);
    assert!(store.unsaved());
    assert_eq!(store.entry(0).name(), "Bank 2");
    assert_eq!(store.entry(0).first_added(), at(100));
    // The other entry was not touched.
    assert_eq!(store.entry(1).last_update(), at(300));

    store.mark_saved();
    assert!(!store.unsaved());
    store.entry_mut(0).set_tags(vec!["a".to_owned()]);
    assert_eq!(store.entry(0).tags(), vec!["a"]);
    assert!(store.unsaved());
    assert!(store.entry(0).last_update().is_at_or_after(&t1));
    assert_eq!(store.content.last_update, store.entry(0).last_update());

    store.mark_saved();
    store.entry_mut(0).field_mut(0).swap_encryption().unwrap();
    assert!(store.unsaved());
    assert_eq!(store.content.last_update, store.entry(0).last_update());

    store.mark_saved();
    store.entry_mut(0).remove_field(0);
    assert!(store.unsaved());
    assert_eq!(store.entry(0).num_fields(), 2);
    assert_eq!(store.entry(0).field(0).name(), "pin");
    assert_eq!(store.content.last_update, store.entry(0).last_update());

    store.mark_saved();
    assert_eq!(set(&mut store, 1, 0, "note", manual("hello", false)), Ok(()));
    assert!(store.unsaved());
    assert_eq!(store.content.last_update, store.entry(1).last_update());
    assert!(store.entry(1).last_update().is_at_or_after(&at(300)));
    assert_eq!(store.entry(1).first_added(), at(300));
}

#[test]
fn updated_at_sets_both_timestamps() {
    let mut store = sample_store("pw1");
    {
        let mut entry = store.entry_mut(0);
        entry.updated_at(at(777));
    }
    assert_eq!(store.content.inner[0].last_update, at(777));
    assert_eq!(store.content.last_update, at(777));
    assert!(store.unsaved);
    assert_eq!(store.content.inner[1].last_update, at(300));

    store.mark_saved();
    {
        let mut entry = store.entry_mut(1);
        let mut field_owner = entry.field_builder();
        field_owner.set_name("n".to_owned());
        field_owner.set_value(manual("v", false));
        entry.set_field(0, field_owner).unwrap();
        let mut field = entry.field_mut(0);
        field.updated_at(at(888));
    }
    assert_eq!(store.content.inner[1].last_update, at(888));
    assert_eq!(store.content.last_update, at(888));
    assert!(store.unsaved);
}

#[test]
fn add_and_remove_entries() {
    let mut store = new_store("pw1");
    assert_eq!(store.add_empty_entry_at("a".to_owned(), at(2000)), 0);
    assert_eq!(store.add_empty_entry_at("b".to_owned(), at(3000)), 1);
    assert_eq!(store.add_empty_entry("c".to_owned()), 2);
    assert_eq!(store.num_entries(), 3);
    assert_eq!(store.content.inner[1].name, "b");
    assert_eq!(store.content.inner[1].first_added, at(3000));
    assert_eq!(store.content.inner[1].last_update, at(3000));
    assert!(store.content.inner[1].tags.is_empty());
    assert!(store.content.inner[1].fields.is_empty());
    assert_eq!(store.content.inner[2].first_added, store.content.last_update);
    assert!(store.unsaved());

    store.mark_saved();
    store.remove_entry_at(0, at(4000));
    assert_eq!(store.num_entries(), 2);
    assert_eq!(store.entry(0).name(), "b");
    assert_eq!(store.entry(1).name(), "c");
    assert_eq!(store.content.last_update, at(4000));
    assert!(store.unsaved());

    store.remove_entry(1);
    assert_eq!(store.num_entries(), 1);
    assert_eq!(store.entry(0).name(), "b");
}

#[test]
fn set_field_replaces_and_appends() {
    let mut store = sample_store("pw1");
    store.set_hashed_key(key_for("pw1")).unwrap();
    // Replace the first field; the others stay.
    assert_eq!(set(&mut store, 0, 0, "login", manual("bob", false)), Ok(()));
    {
        let entry = store.entry(0);
        assert_eq!(entry.num_fields(), 3);
        assert_eq!(entry.field(0).name(), "login");
        assert_eq!(entry.field(0).value_kind(), ValueKind::Basic);
        assert_eq!(entry.field(0).value(), Ok("bob".to_owned()));
        assert_eq!(entry.field(1).name(), "pin");
        assert_eq!(entry.field(1).value(), Ok("1234".to_owned()));
    }
    // The index after the last appends.
    let seed = PlaintextValue::Totp { issuer: "i".to_owned(), secret: SEED.to_owned() };
    assert_eq!(set(&mut store, 0, 3, "second code", seed), Ok(()));
    let entry = store.entry(0);
    assert_eq!(entry.num_fields(), 4);
    assert_eq!(entry.field(3).name(), "second code");
    assert_eq!(entry.field(3).value_kind(), ValueKind::Totp);
    assert_eq!(entry.field(3).value_at(59), Ok("287082  (00:01 remaining)".to_owned()));
}

#[test]
fn locked_store_takes_plain_fields_only() {
    let mut store = sample_store("pw1");
    let before = store.content.inner[0].last_update;
    assert_eq!(
        set(&mut store, 0, 3, "p", manual("x", true)),
        Err(SetFieldError::ContentsNotUnlocked(ValueKind::Totp))
    );
    let seed = PlaintextValue::Totp { issuer: "i".to_owned(), secret: SEED.to_owned() };
    assert_eq!(
        set(&mut store, 0, 3, "t", seed),
        Err(SetFieldError::ContentsNotUnlocked(ValueKind::Totp))
    );
    assert_eq!(store.entry(0).num_fields(), 3);
    assert_eq!(store.content.inner[0].last_update, before);
    assert!(!store.unsaved());

    assert_eq!(set(&mut store, 0, 3, "b", manual("x", false)), Ok(()));
    assert_eq!(store.entry(0).num_fields(), 4);
    assert_eq!(store.entry(0).field(3).value(), Ok("x".to_owned()));
    assert!(store.unsaved());

    // Reading: plain text is shown, the rest is not.
    let entry = store.entry(0);
    assert_eq!(entry.field(0).value(), Ok("alice".to_owned()));
    assert_eq!(entry.field(1).value(), Err(GetValueError::ContentsNotUnlocked));
    assert_eq!(entry.field(2).value_at(59), Err(GetValueError::ContentsNotUnlocked));
    assert_eq!(
        entry.field(1).plaintext_value().err(),
        Some(GetValueError::ContentsNotUnlocked)
    );
    assert!(entry.field(0).plaintext_value().is_ok());
}

#[test]
fn swap_encryption_toggles_between_basic_and_protected() {
    let mut store = sample_store("pw1");
    // Locked: refused, whatever the field.
    assert_eq!(
        store.entry_mut(0).field_mut(0).swap_encryption(),
        Err(SwapEncryptionError::ContentsNotUnlocked)
    );
    assert_eq!(
        store.entry_mut(0).field_mut(2).swap_encryption(),
        Err(SwapEncryptionError::ContentsNotUnlocked)
    );
    assert!(!store.unsaved());

    store.set_hashed_key(key_for("pw1")).unwrap();
    assert_eq!(store.entry_mut(0).field_mut(0).swap_encryption(), Ok(()));
    assert_eq!(store.entry(0).field(0).value_kind(), ValueKind::Protected);
    assert_eq!(store.entry(0).field(0).value(), Ok("alice".to_owned()));
    assert_eq!(store.entry(0).field(0).name(), "user");
    assert!(store.unsaved());

    assert_eq!(store.entry_mut(0).field_mut(0).swap_encryption(), Ok(()));
    assert!(matches!(&store.content.inner[0].fields[0].value, Value::Basic(s) if s == "alice"));

    assert_eq!(store.entry_mut(0).field_mut(1).swap_encryption(), Ok(()));
    assert!(matches!(&store.content.inner[0].fields[1].value, Value::Basic(s) if s == "1234"));

    // A seed is never kept plain.
    store.mark_saved();
    let before = store.content.inner[0].last_update;
    assert_eq!(
        store.entry_mut(0).field_mut(2).swap_encryption(),
        Err(SwapEncryptionError::IsTotp)
    );
    assert_eq!(store.entry(0).field(2).value_kind(), ValueKind::Totp);
    assert_eq!(store.content.inner[0].last_update, before);
    assert!(!store.unsaved());
}

#[test]
fn swap_encryption_reports_what_does_not_decrypt() {
    let mut store = sample_store("pw1");
    store.set_hashed_key(key_for("pw1")).unwrap();
    store.content.inner[0].fields[1].value = Value::Protected(Base64Vec(vec![9; 5]));
    assert_eq!(
        store.entry_mut(0).field_mut(1).swap_encryption(),
        Err(SwapEncryptionError::Decrypt(DecryptError::BadCrypt))
    );
    let bad = passman::version::v0_3::encrypt(&[0xc0], IV, &key_for("pw1"));
    store.content.inner[0].fields[1].value = Value::Protected(Base64Vec(bad));
    assert_eq!(
        store.entry_mut(0).field_mut(1).swap_encryption(),
        Err(SwapEncryptionError::Decrypt(DecryptError::BadUtf8))
    );
    assert_eq!(
        store.entry(0).field(1).value(),
        Err(GetValueError::Decrypt(DecryptError::BadUtf8))
    );
    assert!(matches!(&store.content.inner[0].fields[1].value, Value::Protected(_)));
}

#[test]
fn builder_of_the_newest_format_takes_seeds() {
    let mut store = new_store("pw1");
    store.add_empty_entry("e".to_owned());
    let entry = store.entry_mut(0);
    let mut builder = entry.field_builder();
    assert!(builder.name.is_none());
    assert!(builder.value.is_none());
    builder.make_manual();
    assert_eq!(builder.make_totp(), Ok::<(), UnsupportedFeature>(()));
    builder.set_name("n".to_owned());
    assert_eq!(builder.name, Some("n".to_owned()));
}

#[test]
fn validity_asks_for_the_tag_and_the_vector() {
    let mut store = sample_store("pw1");
    assert!(store.content.is_valid());
    store.content.version = "v0.3".to_owned();
    assert!(!store.content.is_valid());
    store.content.version = "v0.4".to_owned();
    store.content.iv = Base64Vec(vec![0; 15]);
    assert!(!store.content.is_valid());
    store.content.iv = Base64Vec(vec![0; 16]);
    assert!(store.content.is_valid());
    // The salt has to be one that keys can be derived with.
    store.content.salt = "abcd".to_owned();
    assert!(!store.content.is_valid());
    store.content.salt = String::new();
    assert!(!store.content.is_valid());
    assert!(warning().is_none());
    let empty = FileContent {
        version: "v0.4".to_owned(),
        token: Base64Vec(vec![]),
        iv: Base64Vec(vec![0; 16]),
        salt: SALT.to_owned(),
        last_update: at(0),
        inner: vec![Entry {
            name: String::new(),
            tags: vec![],
            fields: vec![Field { name: String::new(), value: Value::Basic(String::new()) }],
            first_added: at(0),
            last_update: at(0),
        }],
    };
    assert!(empty.is_valid());
    // A token that is no ciphertext opens under no key.
    let mut keyed = Keyed::new(empty);
    assert_eq!(keyed.set_hashed_key(key_for("pw1")), Err(DecryptError::BadCrypt));
}

#[test]
fn timestamps_are_ordered_by_seconds_then_nanoseconds() {
    let a = Timestamp { secs_since_epoch: 5, nanos_since_epoch: 10 };
    let b = Timestamp { secs_since_epoch: 5, nanos_since_epoch: 11 };
    let c = Timestamp { secs_since_epoch: 6, nanos_since_epoch: 0 };
    assert!(a.is_at_or_after(&a));
    assert!(b.is_at_or_after(&a));
    assert!(!a.is_at_or_after(&b));
    assert!(c.is_at_or_after(&b));
    assert!(!b.is_at_or_after(&c));
}

#[test]
fn changes_made_at_an_instant_carry_it() {
    let mut store = sample_store("pw1");
    store.set_hashed_key(key_for("pw1")).unwrap();
    let t0 = store.entry(0).last_update();
    assert_eq!(t0, at(200));

    store.entry_mut(0).set_name_at("Bank 2".to_owned(), at(1000));
    assert_eq!(store.entry(0).name(), "Bank 2");
    assert_eq!(store.entry(0).last_update(), at(1000));
    assert_eq!(store.content.last_update, at(1000));
    assert!(store.entry(0).last_update().is_at_or_after(&t0));
    assert!(store.unsaved());
    assert_eq!(store.entry(0).first_added(), at(100));
    assert_eq!(store.entry(0).tags(), vec!["money", "daily"]);
    assert_eq!(store.entry(0).num_fields(), 3);

    store.mark_saved();
    store.entry_mut(0).set_tags_at(vec!["x".to_owned(), "x".to_owned()], at(1001));
    assert_eq!(store.entry(0).tags(), vec!["x", "x"]);
    assert_eq!(store.entry(0).last_update(), at(1001));
    assert_eq!(store.content.last_update, at(1001));
    assert!(store.unsaved());
    assert_eq!(store.entry(0).name(), "Bank 2");

    store.mark_saved();
    {
        let mut entry = store.entry_mut(0);
        let mut builder = entry.field_builder();
        builder.set_name("note".to_owned());
        builder.set_value(manual("n", true));
        assert_eq!(entry.set_field_at(3, builder, at(1002)), Ok(()));
    }
    assert_eq!(store.entry(0).num_fields(), 4);
    assert_eq!(store.entry(0).field(3).value(), Ok("n".to_owned()));
    assert_eq!(store.entry(0).last_update(), at(1002));
    assert_eq!(store.content.last_update, at(1002));
    assert!(store.unsaved());

    store.mark_saved();
    assert_eq!(store.entry_mut(0).field_mut(0).swap_encryption_at(at(1003)), Ok(()));
    assert_eq!(store.entry(0).field(0).value_kind(), ValueKind::Protected);
    assert_eq!(store.entry(0).field(0).name(), "user");
    assert_eq!(store.entry(0).field(1).value(), Ok("1234".to_owned()));
    assert_eq!(store.entry(0).last_update(), at(1003));
    assert_eq!(store.content.last_update, at(1003));
    assert!(store.unsaved());

    store.mark_saved();
    store.entry_mut(0).remove_field_at(1, at(1004));
    assert_eq!(store.entry(0).num_fields(), 3);
    assert_eq!(store.entry(0).field(0).name(), "user");
    assert_eq!(store.entry(0).field(1).name(), "code");
    assert_eq!(store.entry(0).field(2).name(), "note");
    assert_eq!(store.entry(0).last_update(), at(1004));
    assert_eq!(store.content.last_update, at(1004));
    assert!(store.unsaved());
    // The other entry was never touched.
    assert_eq!(store.entry(1).last_update(), at(300));

    // A change that is refused is not recorded.
    store.mark_saved();
    assert_eq!(
        store.entry_mut(0).field_mut(1).swap_encryption_at(at(2000)),
        Err(SwapEncryptionError::IsTotp)
    );
    assert_eq!(store.entry(0).last_update(), at(1004));
    assert_eq!(store.content.last_update, at(1004));
    assert!(!store.unsaved());

    // A clock that was set back gives an earlier instant: it is recorded as read.
    store.entry_mut(0).set_name_at("Bank 3".to_owned(), at(5));
    assert_eq!(store.entry(0).last_update(), at(5));
    assert_eq!(store.content.last_update, at(5));
}

#[test]
fn changes_through_any_store_carry_their_instant() {
    let mut store = passman::version::store::Store::V0_4(sample_store("pw1"));
    match &mut store {
        passman::version::store::Store::V0_4(k) => k.set_hashed_key(key_for("pw1")).unwrap(),
        _ => panic!("another format"),
    }
    {
        let mut entry = store.entry_mut(1);
        entry.set_name_at("Renamed".to_owned(), at(900));
        entry.set_tags_at(vec!["t".to_owned()], at(901));
        let mut builder = entry.field_builder();
        builder.set_name("f".to_owned());
        builder.set_value(manual("v", false));
        assert_eq!(entry.set_field_at(0, builder, at(902)), Ok(()));
        assert_eq!(entry.field_mut(0).swap_encryption_at(at(903)), Ok(()));
        assert_eq!(entry.last_update(), at(903));
        entry.remove_field_at(0, at(904));
        assert_eq!(entry.num_fields(), 0);
        assert_eq!(entry.name(), "Renamed");
        assert_eq!(entry.tags(), vec!["t"]);
        assert_eq!(entry.last_update(), at(904));
        assert_eq!(entry.first_added(), at(300));
    }
    assert!(store.unsaved());
    match &store {
        passman::version::store::Store::V0_4(k) => {
            assert_eq!(k.content.last_update, at(904));
            assert_eq!(k.content.inner[0].last_update, at(200));
        }
        _ => panic!("another format"),
    }
}

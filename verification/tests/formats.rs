use passman::crypt::hash;
use passman::utils::Base64Vec;
use passman::version::errors::{
    DecryptError, GetValueError, SetFieldError, SwapEncryptionError, UnsupportedFeature,
};
use passman::version::store::{FieldBuilder, Format, Store};
use passman::version::{v0_2, v0_3, v0_4};
use passman::version::{Keyed, PlaintextValue, Timestamp, ValueKind};

const IV: &[u8; 16] = b"\x74\x68\x69\x73\x20\x69\x73\x20\x74\x68\x65\x20\x69\x76\x21\x21";

const SALT: &str = "c2FsdHNhbHRzYWx0c2FsdA";

const TOKEN: &str = "encryption token \u{263a}";

// Stands in for the key derivation of the newer formats, which takes a
// gigabyte of memory and several seconds: any thirty-two bytes are a key.
fn key_for(pwd: &str) -> Vec<u8> {
    hash(pwd).to_vec()
}

fn at(secs: u64) -> Timestamp {
    Timestamp { secs_since_epoch: secs, nanos_since_epoch: 0 }
}

fn manual(value: &str, protected: bool) -> PlaintextValue {
    PlaintextValue::Manual { value: value.to_owned(), protected }
}

fn old_store(pwd: &str) -> Keyed<v0_2::FileContent> {
    let key = v0_2::hash_key(pwd);
    Keyed::new(v0_2::FileContent {
        version: "v0.2".to_owned(),
        token: Base64Vec(v0_2::encrypt(TOKEN.as_bytes(), IV, &key)),
        iv: Base64Vec(IV.to_vec()),
        last_update: at(50),
        inner: vec![v0_2::Entry {
            name: "Mail".to_owned(),
            tags: vec!["web".to_owned()],
            fields: vec![
                v0_2::Field { name: "user".to_owned(), value: v0_2::Value::Basic("me".to_owned()) },
                v0_2::Field {
                    name: "password".to_owned(),
                    value: v0_2::Value::Protected(Base64Vec(v0_2::encrypt(b"hunter2", IV, &key))),
                },
            ],
            first_added: at(10),
            last_update: at(20),
        }],
    })
}

fn current_store(pwd: &str) -> Keyed<v0_4::FileContent> {
    let mut store = middle_store(pwd);
    store.set_hashed_key(key_for(pwd)).unwrap();
    Keyed::from_plaintext_with(
        SALT.to_owned(),
        IV.to_vec(),
        &key_for(pwd),
        store.to_plaintext().unwrap(),
    )
}

fn middle_store(pwd: &str) -> Keyed<v0_3::FileContent> {
    let key = key_for(pwd);
    Keyed::new(v0_3::FileContent {
        version: "v0.3".to_owned(),
        token: Base64Vec(v0_3::encrypt(TOKEN.as_bytes(), IV, &key)),
        iv: Base64Vec(IV.to_vec()),
        salt: SALT.to_owned(),
        last_update: at(50),
        inner: vec![v0_3::Entry {
            name: "Mail".to_owned(),
            tags: vec!["web".to_owned()],
            fields: vec![
                v0_3::Field { name: "user".to_owned(), value: v0_3::Value::Basic("me".to_owned()) },
                v0_3::Field {
                    name: "password".to_owned(),
                    value: v0_3::Value::Protected(Base64Vec(v0_3::encrypt(b"hunter2", IV, &key))),
                },
            ],
            first_added: at(10),
            last_update: at(20),
        }],
    })
}

#[test]
fn oldest_format_scenario_with_its_own_key_derivation() {
    let mut store = old_store("pw1");
    assert!(store.content.is_valid());
    assert!(!store.decrypted());
    assert_eq!(store.entry(0).field(1).value(), Err(GetValueError::ContentsNotUnlocked));

    // A wrong password gives no access.
    assert_eq!(store.set_key("wrong".to_owned()), Err(DecryptError::BadCrypt));
    assert!(!store.decrypted());
    assert_eq!(store.entry(0).field(1).value(), Err(GetValueError::ContentsNotUnlocked));

    assert_eq!(store.set_key("pw1".to_owned()), Ok(()));
    assert!(store.decrypted());
    assert_eq!(store.key, Some(hash("pw1").to_vec()));

    let idx = store.add_empty_entry("Bank".to_owned());
    assert_eq!(idx, 1);
    {
        let mut entry = store.entry_mut(1);
        let mut builder = entry.field_builder();
        builder.make_manual();
        builder.set_name("pin".to_owned());
        builder.set_value(manual("1234", true));
        assert_eq!(entry.set_field(0, builder), Ok(()));
    }
    assert_eq!(store.entry(1).field(0).value_kind(), ValueKind::Protected);
    assert_eq!(store.entry(1).field(0).value(), Ok("1234".to_owned()));
    assert_eq!(store.entry(0).field(1).value(), Ok("hunter2".to_owned()));
    assert!(store.unsaved());

    // A wrong password is refused and leaves the store unlocked.
    assert_eq!(store.set_key("wrong".to_owned()), Err(DecryptError::BadCrypt));
    assert!(store.decrypted());
    assert_eq!(store.entry(1).field(0).value(), Ok("1234".to_owned()));
}

#[test]
fn oldest_format_tests_the_password_before_it_migrates() {
    // Locked: a wrong password is refused.
    assert_eq!(
        old_store("pw1").to_current("wrong".to_owned()).err(),
        Some(DecryptError::BadCrypt)
    );
    // Unlocked: a wrong password is refused all the same.
    let mut store = old_store("pw1");
    store.set_key("pw1".to_owned()).unwrap();
    assert_eq!(store.to_current("wrong".to_owned()).err(), Some(DecryptError::BadCrypt));
    let mut store = old_store("pw1");
    store.set_key("pw1".to_owned()).unwrap();
    let any = Store::from_v0_2(store.content).unwrap();
    assert_eq!(any.to_current("wrong".to_owned()).err(), Some(DecryptError::BadCrypt));
}

#[test]
fn oldest_format_encrypts_without_a_salt() {
    let key = v0_2::hash_key("pw1");
    let a = v0_2::encrypt(b"1234", IV, &key);
    let b = v0_2::encrypt(b"1234", IV, &key);
    assert_eq!(a, b);
    assert_eq!(a.len(), 16);
    assert_eq!(v0_2::decrypt(&a, IV, &key), Some(b"1234".to_vec()));
    assert_eq!(v0_2::decrypt_string(&a, IV, &key), Ok("1234".to_owned()));
    assert_eq!(v0_2::decrypt(&a[..8], IV, &key), None);
    assert_eq!(v0_2::decrypt_string(&a[..8], IV, &key), Err(DecryptError::BadCrypt));
    let bad = v0_2::encrypt(&[0xff], IV, &key);
    assert_eq!(v0_2::decrypt_string(&bad, IV, &key), Err(DecryptError::BadUtf8));
    assert_eq!(v0_2::encrypt_string("1234", IV, &key), a);
}

#[test]
fn oldest_format_warns() {
    let w = v0_2::warning().unwrap();
    assert_eq!(w.reason, "v0.2 is deprecated for security reasons");
    assert!(v0_3::warning().is_none());
    assert!(v0_4::warning().is_none());
    assert!(Format::V0_2.warning().is_some());
    assert!(Format::V0_3.warning().is_none());
    assert!(Format::V0_4.warning().is_none());
}

#[test]
fn oldest_format_gives_itself_out_unencrypted() {
    let mut store = old_store("pw1");
    store.set_key("pw1".to_owned()).unwrap();
    let plain = store.to_plaintext().unwrap();
    assert_eq!(plain.last_update, at(50));
    assert_eq!(plain.entries.len(), 1);
    let mail = &plain.entries[0];
    assert_eq!(mail.name, "Mail");
    assert_eq!(mail.tags, vec!["web".to_owned()]);
    assert_eq!(mail.first_added, at(10));
    assert_eq!(mail.last_update, at(20));
    assert_eq!(mail.fields.len(), 2);
    assert_eq!(mail.fields[0].name, "user");
    assert!(matches!(&mail.fields[0].value,
        PlaintextValue::Manual { value, protected: false } if value == "me"));
    assert_eq!(mail.fields[1].name, "password");
    assert!(matches!(&mail.fields[1].value,
        PlaintextValue::Manual { value, protected: true } if value == "hunter2"));

    // What comes out goes into a store of the newest format, under a new key,
    // salt and vector, and reads there as it did.
    let new_iv = [9u8; 16];
    let new_key = key_for("pw2");
    let mut current =
        Keyed::from_plaintext_with(SALT.to_owned(), new_iv.to_vec(), &new_key, plain);
    assert_eq!(current.content.version, "v0.4");
    assert!(!current.decrypted());
    // No ciphertext is carried over.
    match &current.content.inner[0].fields[1].value {
        v0_4::Value::Protected(bs) => {
            assert_eq!(bs.0.len(), 48);
            assert_ne!(bs.0[..16], v0_2::encrypt(b"hunter2", IV, &hash("pw1"))[..]);
        }
        _ => panic!("the field is not protected"),
    }
    assert_eq!(current.set_hashed_key(key_for("pw1")), Err(DecryptError::BadCrypt));
    assert_eq!(current.set_hashed_key(new_key), Ok(()));
    assert_eq!(current.entry(0).field(1).value(), Ok("hunter2".to_owned()));
    assert_eq!(current.entry(0).field(0).value(), Ok("me".to_owned()));
    assert_eq!(current.entry(0).name(), "Mail");
}

#[test]
fn oldest_format_reports_the_first_field_that_fails() {
    let mut store = old_store("pw1");
    store.set_key("pw1".to_owned()).unwrap();
    store.content.inner[0].fields[1].value = v0_2::Value::Protected(Base64Vec(vec![1, 2, 3]));
    assert_eq!(store.to_plaintext().err(), Some(DecryptError::BadCrypt));
}

#[test]
fn second_format_is_encrypted_anew_for_the_newest() {
    let mut store = middle_store("pw1");
    let token = store.content.token.0.clone();
    let ciphertext = match &store.content.inner[0].fields[1].value {
        v0_3::Value::Protected(bs) => bs.0.clone(),
        _ => panic!("the field is not protected"),
    };
    store.set_hashed_key(key_for("pw1")).unwrap();
    let plain = store.to_plaintext().unwrap();
    assert_eq!(plain.last_update, at(50));
    assert_eq!(plain.entries.len(), 1);
    assert!(matches!(&plain.entries[0].fields[1].value,
        PlaintextValue::Manual { value, protected: true } if value == "hunter2"));

    let new_iv = [9u8; 16];
    let mut current = Keyed::from_plaintext_with(
        "bmV3c2FsdG5ld3NhbHRuZQ".to_owned(),
        new_iv.to_vec(),
        &key_for("pw1"),
        plain,
    );
    assert!(current.content.is_valid());
    assert_eq!(current.content.version, "v0.4");
    assert_eq!(current.content.last_update, at(50));
    assert!(!current.unsaved());
    assert_eq!(current.num_entries(), 1);
    // Nothing encrypted is carried over.
    assert_ne!(current.content.token.0, token);
    assert_ne!(current.content.iv.0, IV.to_vec());
    assert_ne!(current.content.salt, SALT);
    let mail = &current.content.inner[0];
    assert_eq!(mail.name, "Mail");
    assert_eq!(mail.tags, vec!["web".to_owned()]);
    assert_eq!(mail.first_added, at(10));
    assert_eq!(mail.last_update, at(20));
    assert!(matches!(&mail.fields[0].value, v0_4::Value::Basic(s) if s == "me"));
    assert!(matches!(&mail.fields[1].value, v0_4::Value::Protected(bs) if bs.0 != ciphertext));

    assert_eq!(current.set_hashed_key(key_for("wrong")), Err(DecryptError::BadCrypt));
    assert_eq!(current.set_hashed_key(key_for("pw1")), Ok(()));
    assert_eq!(current.entry(0).field(1).value(), Ok("hunter2".to_owned()));
}

#[test]
fn second_format_reports_the_first_field_that_fails() {
    let mut store = middle_store("pw1");
    store.set_hashed_key(key_for("pw1")).unwrap();
    let bad = v0_3::encrypt(&[0xff], IV, &key_for("pw1"));
    store.content.inner[0].fields[1].value = v0_3::Value::Protected(Base64Vec(bad));
    assert_eq!(store.to_plaintext().err(), Some(DecryptError::BadUtf8));
}

#[test]
fn second_format_holds_no_seeds() {
    let mut store = middle_store("pw1");
    store.set_hashed_key(key_for("pw1")).unwrap();
    let mut entry = store.entry_mut(0);
    let mut builder = entry.field_builder();
    assert_eq!(builder.make_totp(), Err(UnsupportedFeature::Totp));
    builder.make_manual();
    builder.set_name("note".to_owned());
    builder.set_value(manual("text", false));
    assert_eq!(builder.value, Some("text".to_owned()));
    assert_eq!(builder.is_protected, Some(false));
    assert_eq!(entry.set_field(2, builder), Ok(()));
    assert_eq!(entry.num_fields(), 3);
    assert_eq!(entry.field(2).value_kind(), ValueKind::Basic);
    assert_eq!(entry.field(2).value(), Ok("text".to_owned()));

    let mut old = old_store("pw1");
    let old_entry = old.entry_mut(0);
    assert_eq!(old_entry.field_builder().make_totp(), Err(UnsupportedFeature::Totp));
}

#[test]
fn second_format_protects_what_is_to_be_protected() {
    let mut store = middle_store("pw1");
    // Locked: protected text is refused, plain text is taken.
    {
        let mut entry = store.entry_mut(0);
        let mut builder = entry.field_builder();
        builder.set_name("pin".to_owned());
        builder.set_value(manual("1234", true));
        assert_eq!(
            entry.set_field(2, builder),
            Err(SetFieldError::ContentsNotUnlocked(ValueKind::Protected))
        );
        assert_eq!(entry.num_fields(), 2);
    }
    assert!(!store.unsaved());
    assert_eq!(
        store.entry_mut(0).field_mut(0).swap_encryption(),
        Err(SwapEncryptionError::ContentsNotUnlocked)
    );

    store.set_hashed_key(key_for("pw1")).unwrap();
    {
        let mut entry = store.entry_mut(0);
        let mut builder = entry.field_builder();
        builder.set_name("pin".to_owned());
        builder.set_value(manual("1234", true));
        assert_eq!(entry.set_field(2, builder), Ok(()));
        assert_eq!(entry.field(2).value_kind(), ValueKind::Protected);
        assert_eq!(entry.field(2).value(), Ok("1234".to_owned()));
        assert!(matches!(entry.field(2).plaintext_value(),
            Ok(PlaintextValue::Manual { value, protected: true }) if value == "1234"));
    }
    assert!(matches!(&store.content.inner[0].fields[2].value,
        v0_3::Value::Protected(bs) if bs.0.len() == 48));
    assert_eq!(store.content.last_update, store.content.inner[0].last_update);
    assert!(store.content.inner[0].last_update.is_at_or_after(&at(20)));
    assert!(store.unsaved());

    assert_eq!(store.entry_mut(0).field_mut(2).swap_encryption(), Ok(()));
    assert!(matches!(&store.content.inner[0].fields[2].value,
        v0_3::Value::Basic(s) if s == "1234"));
    assert_eq!(store.entry_mut(0).field_mut(0).swap_encryption(), Ok(()));
    assert_eq!(store.entry(0).field(0).value_kind(), ValueKind::Protected);
    assert_eq!(store.entry(0).field(0).value(), Ok("me".to_owned()));
}

#[test]
fn formats_are_known_by_their_tags() {
    assert_eq!(Format::from_version_str("v0.2"), Some(Format::V0_2));
    assert_eq!(Format::from_version_str("v0.3"), Some(Format::V0_3));
    assert_eq!(Format::from_version_str("v0.4"), Some(Format::V0_4));
    assert_eq!(Format::from_version_str("v0.1"), None);
    assert_eq!(Format::from_version_str("v0.4 "), None);
    assert_eq!(Format::from_version_str(""), None);
    assert_eq!(Format::V0_2.version_str(), "v0.2");
    assert_eq!(Format::V0_3.version_str(), "v0.3");
    assert_eq!(Format::V0_4.version_str(), "v0.4");
    assert_eq!(v0_2::VERSION_STR, "v0.2");
    assert_eq!(v0_3::VERSION_STR, "v0.3");
    assert_eq!(v0_4::VERSION_STR, "v0.4");
}

#[test]
fn store_takes_only_what_is_valid_for_its_format() {
    assert!(Store::from_v0_2(old_store("pw1").content).is_some());
    assert!(Store::from_v0_3(middle_store("pw1").content).is_some());
    let mut wrong_tag = middle_store("pw1").content;
    wrong_tag.version = "v0.4".to_owned();
    assert!(Store::from_v0_3(wrong_tag).is_none());
    let mut short_iv = old_store("pw1").content;
    short_iv.iv = Base64Vec(vec![0; 8]);
    assert!(Store::from_v0_2(short_iv).is_none());
    let current = current_store("pw1").content;
    let store = Store::from_v0_4(current).unwrap();
    assert_eq!(store.format(), Format::V0_4);
    assert!(!store.decrypted());
    assert!(!store.unsaved());
    assert!(store.warning().is_none());
}

fn edit_through_accessors(mut store: Store, unlock: impl Fn(&mut Store)) {
    assert_eq!(store.num_entries(), 1);
    assert!(!store.decrypted());
    {
        let entry = store.entry(0);
        assert_eq!(entry.name(), "Mail");
        assert_eq!(entry.tags(), vec!["web"]);
        assert_eq!(entry.num_fields(), 2);
        assert_eq!(entry.first_added(), at(10));
        assert_eq!(entry.last_update(), at(20));
        assert_eq!(entry.field(0).name(), "user");
        assert_eq!(entry.field(0).value_kind(), ValueKind::Basic);
        assert_eq!(entry.field(0).value(), Ok("me".to_owned()));
        assert!(!entry.field(0).is_time_sensitive());
        assert_eq!(entry.field(1).value_kind(), ValueKind::Protected);
        assert_eq!(entry.field(1).value(), Err(GetValueError::ContentsNotUnlocked));
        assert_eq!(entry.field(1).value_at(59), Err(GetValueError::ContentsNotUnlocked));
    }
    assert_eq!(
        store.entry_mut(0).field_mut(0).swap_encryption(),
        Err(SwapEncryptionError::ContentsNotUnlocked)
    );
    assert!(!store.unsaved());

    unlock(&mut store);
    assert!(store.decrypted());
    assert_eq!(store.entry(0).field(1).value(), Ok("hunter2".to_owned()));

    {
        let mut entry = store.entry_mut(0);
        entry.set_name("Post".to_owned());
        assert_eq!(entry.name(), "Post");
        entry.set_tags(vec!["a".to_owned(), "b".to_owned()]);
        assert_eq!(entry.tags(), vec!["a", "b"]);
        assert!(entry.last_update().is_at_or_after(&at(20)));
        assert_eq!(entry.first_added(), at(10));

        let mut builder = entry.field_builder();
        builder.make_manual();
        builder.set_name("pin".to_owned());
        builder.set_value(manual("1234", true));
        assert_eq!(entry.set_field(2, builder), Ok(()));
        assert_eq!(entry.num_fields(), 3);
        assert_eq!(entry.field(2).name(), "pin");
        assert_eq!(entry.field(2).value_kind(), ValueKind::Protected);
        assert_eq!(entry.field(2).value(), Ok("1234".to_owned()));

        let mut field = entry.field_mut(2);
        assert_eq!(field.name(), "pin");
        assert_eq!(field.value_kind(), ValueKind::Protected);
        assert_eq!(field.swap_encryption(), Ok(()));
        assert_eq!(field.value_kind(), ValueKind::Basic);
        assert_eq!(field.value(), Ok("1234".to_owned()));
        assert!(matches!(field.plaintext_value(),
            Ok(PlaintextValue::Manual { value, protected: false }) if value == "1234"));

        entry.remove_field(0);
        assert_eq!(entry.num_fields(), 2);
        assert_eq!(entry.field(0).name(), "password");
    }
    assert!(store.unsaved());
    store.mark_saved();
    assert!(!store.unsaved());

    assert_eq!(store.add_empty_entry("New".to_owned()), 1);
    assert_eq!(store.num_entries(), 2);
    assert!(store.unsaved());
    assert_eq!(store.entry(1).name(), "New");
    assert_eq!(store.entry(1).num_fields(), 0);
    store.remove_entry(0);
    assert_eq!(store.num_entries(), 1);
    assert_eq!(store.entry(0).name(), "New");
}

#[test]
fn accessors_do_not_ask_for_the_format() {
    edit_through_accessors(Store::from_v0_2(old_store("pw1").content).unwrap(), |s| {
        assert_eq!(s.set_key("wrong".to_owned()), Err(DecryptError::BadCrypt));
        assert_eq!(s.set_key("pw1".to_owned()), Ok(()));
    });
    edit_through_accessors(Store::from_v0_3(middle_store("pw1").content).unwrap(), |s| match s {
        Store::V0_3(k) => {
            assert_eq!(k.set_hashed_key(key_for("wrong")), Err(DecryptError::BadCrypt));
            assert_eq!(k.set_hashed_key(key_for("pw1")), Ok(()));
        }
        _ => panic!("another format"),
    });
    edit_through_accessors(
        Store::from_v0_4(current_store("pw1").content).unwrap(),
        |s| match s {
            Store::V0_4(k) => assert_eq!(k.set_hashed_key(key_for("pw1")), Ok(())),
            _ => panic!("another format"),
        },
    );
}

#[test]
fn builders_follow_the_format_of_the_store() {
    let mut old = Store::from_v0_2(old_store("pw1").content).unwrap();
    let mut builder = old.entry_mut(0).field_builder();
    assert!(matches!(builder, FieldBuilder::V0_2(_)));
    assert_eq!(builder.make_totp(), Err(UnsupportedFeature::Totp));

    let mut middle = Store::from_v0_3(middle_store("pw1").content).unwrap();
    let mut builder = middle.entry_mut(0).field_builder();
    assert!(matches!(builder, FieldBuilder::V0_3(_)));
    assert_eq!(builder.make_totp(), Err(UnsupportedFeature::Totp));

    let mut current = Store::from_v0_4(current_store("pw1").content).unwrap();
    match &mut current {
        Store::V0_4(k) => k.set_hashed_key(key_for("pw1")).unwrap(),
        _ => panic!("another format"),
    }
    let mut entry = current.entry_mut(0);
    let mut builder = entry.field_builder();
    assert!(matches!(builder, FieldBuilder::V0_4(_)));
    assert_eq!(builder.make_totp(), Ok(()));
    builder.set_name("code".to_owned());
    builder.set_value(PlaintextValue::Totp {
        issuer: "issuer".to_owned(),
        secret: "GEZDGNBVGY3TQOJQGEZDGNBVGY3TQOJQ".to_owned(),
    });
    assert_eq!(entry.set_field(2, builder), Ok(()));
    let field = entry.field(2);
    assert!(field.is_time_sensitive());
    assert_eq!(field.value_kind(), ValueKind::Totp);
    assert_eq!(field.value_at(59), Ok("287082  (00:01 remaining)".to_owned()));
    assert_eq!(
        entry.field_mut(2).swap_encryption(),
        Err(SwapEncryptionError::IsTotp)
    );
}

//! The first generation of the file format that is still read: keys are
//! one SHA-256 pass over the password, and protected values are encrypted as
//! they are, with no salt of their own. It is kept so that old stores can be
//! opened and brought to the newest format.

use crate::cipher::{
    aes256_cbc_decrypt, aes256_cbc_decrypted, aes256_cbc_encrypt, aes256_cbc_encrypted, IV_LEN,
    KEY_LEN, MAX_PASSWORD_LEN,
};
use crate::crypt::{hash, spec_hash};
use crate::utils::{borrow_strings, bytes_equal, str_equal, Base64Vec};
use crate::version::errors::{
    DecryptError, GetValueError, SetFieldError, SwapEncryptionError, UnsupportedFeature,
};
use crate::version::latest::spec_content_keeps;
use crate::version::v0_3::spec_field_set;
use crate::version::{
    key_view, lemma_collect_error_stays, lemma_collect_step, spec_collect, strings_view, v0_3,
    v0_4, ContentView, CryptStateRef, EntryView, FieldView, Keyed, PlainContentView,
    PlainEntryView, PlainFieldView, PlainValueView, PlaintextContent, PlaintextEntry,
    PlaintextField, PlaintextValue, Timestamp, ValueKind, ValueView, Warning,
};
use vstd::prelude::*;
use vstd::slice::slice_to_vec;
use vstd::utf8::{decode_utf8, encode_utf8, valid_utf8};

verus! {

/// The tag that a store of this format carries.
pub const VERSION_STR: &'static str = "v0.2";

/// Why this format should no longer be used.
pub const DEPRECATION_REASON: &'static str = "v0.2 is deprecated for security reasons";

/// The warning due to someone who opens a store of this format: values are
/// encrypted without a salt, and the key is a bare hash of the password.
pub fn warning() -> (w: Option<Warning>)
    ensures
        w matches Some(warning) && warning.reason@ == DEPRECATION_REASON@,
{
    Some(Warning { reason: DEPRECATION_REASON })
}

/// The text whose ciphertext a store carries, so that a password can be
/// tested against it.
pub const ENCRYPT_TOKEN_STR: &'static str = "encryption token \u{263a}";

/// The bytes of the token.
pub open spec fn spec_encrypt_token() -> Seq<u8> {
    encode_utf8(ENCRYPT_TOKEN_STR@)
}

/// The key that a password stands for: the SHA-256 digest of its bytes.
pub open spec fn spec_hash_key(key: Seq<char>) -> Seq<u8> {
    spec_hash(key)
}

/// Derives the key of a store from a password.
pub fn hash_key(key: &str) -> (hashed: [u8; 32])
    ensures
        hashed@ == spec_hash_key(key@),
{
    hash(key)
}

/// The value inside a ciphertext: what the cipher gives back. `None` where
/// the cipher refuses the ciphertext.
pub open spec fn spec_decrypt(val: Seq<u8>, iv: Seq<u8>, key: Seq<u8>) -> Option<Seq<u8>> {
    aes256_cbc_decrypted(key, iv, val)
}

/// The text inside a ciphertext.
pub open spec fn spec_decrypt_string(val: Seq<u8>, iv: Seq<u8>, key: Seq<u8>) -> Result<
    Seq<char>,
    DecryptError,
> {
    match spec_decrypt(val, iv, key) {
        None => Err(DecryptError::BadCrypt),
        Some(bytes) => if valid_utf8(bytes) {
            Ok(decode_utf8(bytes))
        } else {
            Err(DecryptError::BadUtf8)
        },
    }
}

/// Whether the ciphertext `val` holds the text `text`.
pub open spec fn spec_holds_text(val: Seq<u8>, text: Seq<char>, iv: Seq<u8>, key: Seq<u8>) -> bool {
    spec_decrypt(val, iv, key) == Some(encode_utf8(text))
}

/// A ciphertext that holds a text decrypts to it.
pub proof fn lemma_held_text_decrypts(val: Seq<u8>, text: Seq<char>, iv: Seq<u8>, key: Seq<u8>)
    requires
        spec_holds_text(val, text, iv, key),
    ensures
        spec_decrypt_string(val, iv, key) == Ok::<Seq<char>, DecryptError>(text),
{
    vstd::utf8::encode_utf8_valid_utf8(text);
    vstd::utf8::encode_utf8_decode_utf8(text);
}

/// Encrypts `val` as it is. Decrypting the result under the same key and
/// vector gives `val` back. The ciphertext is the value padded up to the next
/// whole block of sixteen bytes, a full block where it already ends on one.
pub fn encrypt(val: &[u8], iv: &[u8], key: &[u8]) -> (ciphertext: Vec<u8>)
    requires
        iv@.len() == IV_LEN,
        key@.len() == KEY_LEN,
    ensures
        ciphertext@ == aes256_cbc_encrypted(key@, iv@, val@),
        ciphertext@.len() == (val@.len() / 16 + 1) * 16,
        spec_decrypt(ciphertext@, iv@, key@) == Some(val@),
{
    aes256_cbc_encrypt(key, iv, val)
}

/// Encrypts a text as `encrypt` does its bytes.
pub fn encrypt_string(text: &str, iv: &[u8], key: &[u8]) -> (ciphertext: Vec<u8>)
    requires
        iv@.len() == IV_LEN,
        key@.len() == KEY_LEN,
    ensures
        ciphertext@ == aes256_cbc_encrypted(key@, iv@, encode_utf8(text@)),
        ciphertext@.len() == (encode_utf8(text@).len() / 16 + 1) * 16,
        spec_holds_text(ciphertext@, text@, iv@, key@),
{
    encrypt(text.as_bytes(), iv, key)
}

/// Decrypts a ciphertext. `None` where the cipher refuses it, as it does
/// one that is empty or no whole number of blocks of sixteen bytes.
pub fn decrypt(val: &[u8], iv: &[u8], key: &[u8]) -> (plaintext: Option<Vec<u8>>)
    requires
        iv@.len() == IV_LEN,
        key@.len() == KEY_LEN,
    ensures
        match plaintext {
            Some(bytes) => spec_decrypt(val@, iv@, key@) == Some(bytes@),
            None => spec_decrypt(val@, iv@, key@) is None,
        },
        val@.len() == 0 || val@.len() % 16 != 0 ==> plaintext is None,
{
    aes256_cbc_decrypt(key, iv, val)
}

/// Decrypts a ciphertext to text: `BadCrypt` where `decrypt` gives nothing,
/// `BadUtf8` where what it gives is not UTF-8.
pub fn decrypt_string(val: &[u8], iv: &[u8], key: &[u8]) -> (text: Result<String, DecryptError>)
    requires
        iv@.len() == IV_LEN,
        key@.len() == KEY_LEN,
    ensures
        match text {
            Ok(s) => spec_decrypt_string(val@, iv@, key@) == Ok::<Seq<char>, DecryptError>(s@),
            Err(e) => spec_decrypt_string(val@, iv@, key@) == Err::<Seq<char>, DecryptError>(e),
        },
        val@.len() == 0 || val@.len() % 16 != 0 ==> text == Err::<String, DecryptError>(
            DecryptError::BadCrypt,
        ),
{
    let bytes = match decrypt(val, iv, key) {
        Some(b) => b,
        None => return Err(DecryptError::BadCrypt),
    };
    match crate::cipher::string_from_utf8(bytes) {
        Some(s) => Ok(s),
        None => Err(DecryptError::BadUtf8),
    }
}

/// Whether `hashed`, the outcome of a key derivation, is a key under which
/// the token of the store decrypts to what it should.
pub open spec fn spec_unlocks(content: ContentView, hashed: Option<Seq<u8>>) -> bool {
    hashed matches Some(key) && spec_decrypt(content.token, content.iv, key) == Some(
        spec_encrypt_token(),
    )
}

/// What a value reads as once decrypted under `key`: plain text as it is,
/// a ciphertext as the text it holds.
pub open spec fn spec_open_value(v: ValueView, iv: Seq<u8>, key: Seq<u8>) -> Result<
    PlainValueView,
    DecryptError,
> {
    match v {
        ValueView::Basic(s) => Ok(PlainValueView::Manual { value: s, protected: false }),
        ValueView::Protected(bs) => match spec_decrypt_string(bs, iv, key) {
            Ok(value) => Ok(PlainValueView::Manual { value, protected: true }),
            Err(e) => Err(e),
        },
        ValueView::Totp { issuer, secret } => match spec_decrypt_string(secret, iv, key) {
            Ok(secret) => Ok(PlainValueView::Totp { issuer, secret }),
            Err(e) => Err(e),
        },
    }
}

/// What a value reads as once decrypted, under the key of the store where a
/// password has been accepted. Plain text needs no key.
pub open spec fn spec_plaintext_value(v: ValueView, iv: Seq<u8>, key: Option<Seq<u8>>) -> Result<
    PlainValueView,
    GetValueError,
> {
    match v {
        ValueView::Basic(s) => Ok(PlainValueView::Manual { value: s, protected: false }),
        _ => match key {
            Some(k) => match spec_open_value(v, iv, k) {
                Ok(p) => Ok(p),
                Err(e) => Err(GetValueError::Decrypt(e)),
            },
            None => Err(GetValueError::ContentsNotUnlocked),
        },
    }
}

/// Whether the value `v` is what `p` is kept as under the given vector and
/// key: plain text as it is, protected text and seeds as ciphertexts that
/// hold them.
pub open spec fn spec_value_keeps(v: ValueView, p: PlainValueView, iv: Seq<u8>, key: Seq<u8>) -> bool {
    match p {
        PlainValueView::Manual { value, protected } => if protected {
            v matches ValueView::Protected(bs) && spec_holds_text(bs, value, iv, key)
        } else {
            v == ValueView::Basic(value)
        },
        PlainValueView::Totp { issuer, secret } => v matches ValueView::Totp {
            issuer: kept_issuer,
            secret: bs,
        } && kept_issuer == issuer && spec_holds_text(bs, secret, iv, key),
    }
}

/// A value that keeps a plain value reads as that plain value.
pub proof fn lemma_kept_value_reads_back(
    v: ValueView,
    p: PlainValueView,
    iv: Seq<u8>,
    key: Seq<u8>,
)
    requires
        spec_value_keeps(v, p, iv, key),
    ensures
        spec_open_value(v, iv, key) == Ok::<PlainValueView, DecryptError>(p),
        spec_plaintext_value(v, iv, Some(key)) == Ok::<PlainValueView, GetValueError>(p),
{
    match p {
        PlainValueView::Manual { value, protected } => {
            if protected {
                lemma_held_text_decrypts(v->Protected_0, value, iv, key);
            }
        },
        PlainValueView::Totp { issuer, secret } => {
            lemma_held_text_decrypts(v->Totp_secret, secret, iv, key);
        },
    }
}

/// What a field reads as once decrypted.
pub open spec fn spec_open_field(f: FieldView, iv: Seq<u8>, key: Seq<u8>) -> Result<
    PlainFieldView,
    DecryptError,
> {
    match spec_open_value(f.value, iv, key) {
        Err(e) => Err(e),
        Ok(value) => Ok(PlainFieldView { name: f.name, value }),
    }
}

/// What a list of fields reads as once decrypted: the error of the first
/// field that does not decrypt, if there is one.
pub open spec fn spec_open_fields(fs: Seq<FieldView>, iv: Seq<u8>, key: Seq<u8>) -> Result<
    Seq<PlainFieldView>,
    DecryptError,
> {
    spec_collect(fs.map_values(|f: FieldView| spec_open_field(f, iv, key)))
}

/// What an entry reads as once decrypted.
pub open spec fn spec_open_entry(e: EntryView, iv: Seq<u8>, key: Seq<u8>) -> Result<
    PlainEntryView,
    DecryptError,
> {
    match spec_open_fields(e.fields, iv, key) {
        Err(err) => Err(err),
        Ok(fields) => Ok(
            PlainEntryView {
                name: e.name,
                tags: e.tags,
                fields,
                first_added: e.first_added,
                last_update: e.last_update,
            },
        ),
    }
}

/// What a list of entries reads as once decrypted: the error of the first
/// field of the first entry that does not decrypt, if there is one.
pub open spec fn spec_open_entries(es: Seq<EntryView>, iv: Seq<u8>, key: Seq<u8>) -> Result<
    Seq<PlainEntryView>,
    DecryptError,
> {
    spec_collect(es.map_values(|e: EntryView| spec_open_entry(e, iv, key)))
}

/// What a store reads as once decrypted under `key`.
pub open spec fn spec_to_plaintext(c: ContentView, key: Seq<u8>) -> Result<
    PlainContentView,
    DecryptError,
> {
    match spec_open_entries(c.entries, c.iv, key) {
        Err(e) => Err(e),
        Ok(entries) => Ok(PlainContentView { last_update: c.last_update, entries }),
    }
}

/// Reads one value as it is once decrypted.
fn open_value(value: Value, iv: &[u8], key: &[u8]) -> (r: Result<PlaintextValue, DecryptError>)
    requires
        iv@.len() == IV_LEN,
        key@.len() == KEY_LEN,
    ensures
        match r {
            Ok(p) => spec_open_value(value@, iv@, key@) == Ok::<PlainValueView, DecryptError>(p@),
            Err(e) => spec_open_value(value@, iv@, key@) == Err::<PlainValueView, DecryptError>(
                e,
            ),
        },
{
    match value {
        Value::Basic(s) => Ok(PlaintextValue::Manual { value: s, protected: false }),
        Value::Protected(bs) => match decrypt_string(bs.as_ref(), iv, key) {
            Ok(value) => Ok(PlaintextValue::Manual { value, protected: true }),
            Err(e) => Err(e),
        },
    }
}

/// Reads fields as they are once decrypted, up to the first that does not
/// decrypt.
fn open_fields(fields: Vec<Field>, iv: &[u8], key: &[u8]) -> (r: Result<
    Vec<PlaintextField>,
    DecryptError,
>)
    requires
        iv@.len() == IV_LEN,
        key@.len() == KEY_LEN,
    ensures
        match r {
            Ok(ps) => spec_open_fields(fields@.map_values(|f: Field| f@), iv@, key@) == Ok::<
                Seq<PlainFieldView>,
                DecryptError,
            >(ps@.map_values(|f: PlaintextField| f@)),
            Err(e) => spec_open_fields(fields@.map_values(|f: Field| f@), iv@, key@) == Err::<
                Seq<PlainFieldView>,
                DecryptError,
            >(e),
        },
{
    let ghost all = fields@;
    let ghost outcomes = fields@.map_values(|f: Field| f@).map_values(
        |f: FieldView| spec_open_field(f, iv@, key@),
    );
    let mut opened: Vec<PlaintextField> = Vec::new();
    assert(outcomes.take(0) =~= Seq::empty());
    assert(opened@.map_values(|f: PlaintextField| f@) =~= Seq::empty());
    for f in it: fields.into_iter()
        invariant
            it.seq() == all,
            outcomes == all.map_values(|f: Field| f@).map_values(
                |f: FieldView| spec_open_field(f, iv@, key@),
            ),
            iv@.len() == IV_LEN,
            key@.len() == KEY_LEN,
            spec_collect(outcomes.take(it.index() as int)) == Ok::<
                Seq<PlainFieldView>,
                DecryptError,
            >(opened@.map_values(|f: PlaintextField| f@)),
    {
        let ghost i = it.index() as int;
        let ghost before = opened@.map_values(|f: PlaintextField| f@);
        let Field { name, value } = f;
        proof {
            lemma_collect_step(outcomes, i, before);
        }
        match open_value(value, iv, key) {
            Ok(value) => {
                opened.push(PlaintextField { name, value });
                assert(opened@.map_values(|f: PlaintextField| f@) =~= before.push(
                    PlainFieldView { name: name@, value: value@ },
                ));
            },
            Err(e) => {
                proof {
                    lemma_collect_error_stays(outcomes, i + 1);
                }
                return Err(e);
            },
        }
    }
    assert(outcomes.take(outcomes.len() as int) =~= outcomes);
    Ok(opened)
}

/// Reads entries as they are once decrypted, up to the first field that does
/// not decrypt.
fn open_entries(entries: Vec<Entry>, iv: &[u8], key: &[u8]) -> (r: Result<
    Vec<PlaintextEntry>,
    DecryptError,
>)
    requires
        iv@.len() == IV_LEN,
        key@.len() == KEY_LEN,
    ensures
        match r {
            Ok(ps) => spec_open_entries(entries@.map_values(|e: Entry| e@), iv@, key@) == Ok::<
                Seq<PlainEntryView>,
                DecryptError,
            >(ps@.map_values(|e: PlaintextEntry| e@)),
            Err(e) => spec_open_entries(entries@.map_values(|e: Entry| e@), iv@, key@) == Err::<
                Seq<PlainEntryView>,
                DecryptError,
            >(e),
        },
{
    let ghost all = entries@;
    let ghost outcomes = entries@.map_values(|e: Entry| e@).map_values(
        |e: EntryView| spec_open_entry(e, iv@, key@),
    );
    let mut opened: Vec<PlaintextEntry> = Vec::new();
    assert(outcomes.take(0) =~= Seq::empty());
    assert(opened@.map_values(|e: PlaintextEntry| e@) =~= Seq::empty());
    for e in it: entries.into_iter()
        invariant
            it.seq() == all,
            outcomes == all.map_values(|e: Entry| e@).map_values(
                |e: EntryView| spec_open_entry(e, iv@, key@),
            ),
            iv@.len() == IV_LEN,
            key@.len() == KEY_LEN,
            spec_collect(outcomes.take(it.index() as int)) == Ok::<
                Seq<PlainEntryView>,
                DecryptError,
            >(opened@.map_values(|e: PlaintextEntry| e@)),
    {
        let ghost i = it.index() as int;
        let ghost before = opened@.map_values(|e: PlaintextEntry| e@);
        let Entry { name, tags, fields, first_added, last_update } = e;
        proof {
            lemma_collect_step(outcomes, i, before);
        }
        match open_fields(fields, iv, key) {
            Ok(fields) => {
                let entry = PlaintextEntry { name, tags, fields, first_added, last_update };
                opened.push(entry);
                assert(opened@.map_values(|e: PlaintextEntry| e@) =~= before.push(entry@));
            },
            Err(e) => {
                proof {
                    lemma_collect_error_stays(outcomes, i + 1);
                }
                return Err(e);
            },
        }
    }
    assert(outcomes.take(outcomes.len() as int) =~= outcomes);
    Ok(opened)
}

/// Whether the value `after` is the value `before` moved between plain and
/// protected: plain text encrypted to a ciphertext that holds it, protected
/// text decrypted.
pub open spec fn spec_swapped(before: ValueView, after: ValueView, iv: Seq<u8>, key: Seq<u8>) -> bool {
    match before {
        ValueView::Basic(s) => after matches ValueView::Protected(bs) && spec_holds_text(
            bs,
            s,
            iv,
            key,
        ),
        ValueView::Protected(bs) => after matches ValueView::Basic(s) && spec_decrypt_string(
            bs,
            iv,
            key,
        ) == Ok::<Seq<char>, DecryptError>(s),
        ValueView::Totp { .. } => false,
    }
}

/// A store as it is kept in a file.
pub struct FileContent {
    pub version: String,
    pub token: Base64Vec,
    pub iv: Base64Vec,
    pub last_update: Timestamp,
    pub inner: Vec<Entry>,
}

/// One entry of a store.
pub struct Entry {
    pub name: String,
    pub tags: Vec<String>,
    pub fields: Vec<Field>,
    pub first_added: Timestamp,
    pub last_update: Timestamp,
}

/// One field of an entry.
pub struct Field {
    pub name: String,
    pub value: Value,
}

/// The value of a field.
pub enum Value {
    Basic(String),
    Protected(Base64Vec),
}

impl View for Value {
    type V = ValueView;

    open spec fn view(&self) -> ValueView {
        match self {
            Value::Basic(s) => ValueView::Basic(s@),
            Value::Protected(bs) => ValueView::Protected(bs@),
        }
    }
}

impl View for Field {
    type V = FieldView;

    open spec fn view(&self) -> FieldView {
        FieldView { name: self.name@, value: self.value@ }
    }
}

/// The model of a list of fields.
pub open spec fn fields_view(fields: Seq<Field>) -> Seq<FieldView> {
    fields.map_values(|f: Field| f@)
}

impl View for Entry {
    type V = EntryView;

    open spec fn view(&self) -> EntryView {
        EntryView {
            name: self.name@,
            tags: strings_view(self.tags@),
            fields: fields_view(self.fields@),
            first_added: self.first_added,
            last_update: self.last_update,
        }
    }
}

/// The model of a list of entries.
pub open spec fn entries_view(entries: Seq<Entry>) -> Seq<EntryView> {
    entries.map_values(|e: Entry| e@)
}

impl View for FileContent {
    type V = ContentView;

    open spec fn view(&self) -> ContentView {
        ContentView {
            version: self.version@,
            token: self.token@,
            iv: self.iv@,
            salt: Seq::empty(),
            last_update: self.last_update,
            entries: entries_view(self.inner@),
        }
    }
}

impl FileContent {
    /// What is asked of a store before it is worked on: it carries the tag
    /// of this format, and a vector of the length that the cipher takes.
    pub open spec fn valid(&self) -> bool {
        &&& self.version@ == VERSION_STR@
        &&& self.iv@.len() == IV_LEN
    }

    /// Tests whether the store is valid.
    pub fn is_valid(&self) -> (valid: bool)
        ensures
            valid == self.valid(),
    {
        str_equal(self.version.as_str(), VERSION_STR) && self.iv.0.len() == IV_LEN
    }
}

impl Keyed<FileContent> {
    /// The store is valid, and the key, where there is one, has the length
    /// that the cipher takes.
    pub open spec fn wf(&self) -> bool {
        &&& self.content.valid()
        &&& self.key matches Some(k) ==> k@.len() == KEY_LEN
    }

    /// Takes `hashed` as the key of the store if the token decrypts under it
    /// to what it should, and refuses it with `BadCrypt` otherwise, leaving
    /// the container as it was.
    pub fn set_hashed_key(&mut self, hashed: Vec<u8>) -> (r: Result<(), DecryptError>)
        requires
            old(self).wf(),
            hashed@.len() == KEY_LEN,
        ensures
            final(self).wf(),
            final(self).content == old(self).content,
            final(self).unsaved == old(self).unsaved,
            match r {
                Ok(()) => spec_unlocks(old(self).content@, Some(hashed@)) && final(self).key
                    == Some(hashed),
                Err(e) => e == DecryptError::BadCrypt && !spec_unlocks(
                    old(self).content@,
                    Some(hashed@),
                ) && final(self).key == old(self).key,
            },
    {
        let decrypted_token = decrypt(
            self.content.token.as_ref(),
            self.content.iv.as_ref(),
            hashed.as_slice(),
        );
        match decrypted_token {
            Some(bs) => {
                if bytes_equal(bs.as_slice(), ENCRYPT_TOKEN_STR.as_bytes()) {
                    self.key = Some(hashed);
                    Ok(())
                } else {
                    Err(DecryptError::BadCrypt)
                }
            },
            None => Err(DecryptError::BadCrypt),
        }
    }

    /// Tests a password: derives the key from it, and takes the key if the
    /// token decrypts under it to what it should. A password that fails is
    /// refused with `BadCrypt` and leaves the container as it was, unlocked if
    /// it was.
    pub fn set_key(&mut self, key: String) -> (r: Result<(), DecryptError>)
        requires
            old(self).wf(),
        ensures
            final(self).wf(),
            final(self).content == old(self).content,
            final(self).unsaved == old(self).unsaved,
            match r {
                Ok(()) => spec_unlocks(old(self).content@, Some(spec_hash_key(key@)))
                    && key_view(final(self).key) == Some(spec_hash_key(key@)),
                Err(e) => e == DecryptError::BadCrypt && !spec_unlocks(
                    old(self).content@,
                    Some(spec_hash_key(key@)),
                ) && final(self).key == old(self).key,
            },
    {
        let hashed = hash_key(key.as_str());
        self.set_hashed_key(slice_to_vec(hashed.as_slice()))
    }

    /// Gives the store out unencrypted, under the key that the container
    /// holds: every protected text is decrypted. The error is that of the
    /// first field, in the order of the store, that does not decrypt to text.
    pub fn to_plaintext(self) -> (r: Result<PlaintextContent, DecryptError>)
        requires
            self.wf(),
            self.key is Some,
        ensures
            match r {
                Ok(p) => spec_to_plaintext(self.content@, self.key->0@) == Ok::<
                    PlainContentView,
                    DecryptError,
                >(p@),
                Err(e) => spec_to_plaintext(self.content@, self.key->0@) == Err::<
                    PlainContentView,
                    DecryptError,
                >(e),
            },
    {
        let Keyed { content, key, unsaved: _ } = self;
        let key = key.unwrap();
        let FileContent { version: _, token: _, iv, last_update, inner } = content;
        match open_entries(inner, iv.as_ref(), key.as_slice()) {
            Ok(entries) => Ok(PlaintextContent { last_update, entries }),
            Err(e) => Err(e),
        }
    }

    /// Brings the store to the newest format: the password is tested against
    /// the store, whether it is locked or not, every protected text is
    /// decrypted under the key that the password gives, and encrypted anew,
    /// behind a salt, under a key derived from the password and a salt drawn at
    /// random, with a vector drawn at random. A password that fails is refused
    /// with `BadCrypt`. A field that does not decrypt to text is an error; the
    /// first such field decides which. The new store comes locked, and the
    /// password opens it.
    pub fn to_current(self, pwd: String) -> (r: Result<Keyed<v0_4::FileContent>, DecryptError>)
        requires
            self.wf(),
            encode_utf8(pwd@).len() <= MAX_PASSWORD_LEN,
        ensures
            match r {
                Ok(current) => {
                    &&& spec_unlocks(self.content@, Some(spec_hash_key(pwd@)))
                    &&& current.wf()
                    &&& current.key is None
                    &&& !current.unsaved
                    &&& spec_to_plaintext(self.content@, spec_hash_key(pwd@)) matches Ok(plain)
                        && v0_3::spec_hash_key(current.content@.salt, pwd@) matches Some(key)
                        && spec_content_keeps(current.content@, plain, key)
                },
                Err(e) => if !spec_unlocks(self.content@, Some(spec_hash_key(pwd@))) {
                    e == DecryptError::BadCrypt
                } else {
                    spec_to_plaintext(self.content@, spec_hash_key(pwd@)) == Err::<
                        PlainContentView,
                        DecryptError,
                    >(e)
                },
            },
    {
        let mut this = self;
        match this.set_key(pwd.clone()) {
            Ok(()) => {},
            Err(e) => return Err(e),
        }
        match this.to_plaintext() {
            Ok(plain) => Ok(Keyed::from_plaintext(pwd, plain)),
            Err(e) => Err(e),
        }
    }

    /// Whether the store holds changes that were not written.
    pub fn unsaved(&self) -> (unsaved: bool)
        ensures
            unsaved == self.unsaved,
    {
        self.unsaved
    }

    /// Records that the store was written as it is.
    pub fn mark_saved(&mut self)
        ensures
            !final(self).unsaved,
            final(self).content == old(self).content,
            final(self).key == old(self).key,
    {
        self.unsaved = false;
    }

    /// Whether a password has been accepted.
    pub fn decrypted(&self) -> (decrypted: bool)
        ensures
            decrypted == self.key is Some,
    {
        self.key.is_some()
    }

    /// The number of entries.
    pub fn num_entries(&self) -> (n: usize)
        ensures
            n == self.content@.entries.len(),
    {
        self.content.inner.len()
    }
}

/// What is shown for a value: its text.
pub open spec fn spec_value(v: ValueView, iv: Seq<u8>, key: Option<Seq<u8>>) -> Result<
    Seq<char>,
    GetValueError,
> {
    match spec_plaintext_value(v, iv, key) {
        Ok(p) => Ok(p->value),
        Err(e) => Err(e),
    }
}

/// Reads a value as it is once decrypted.
pub fn plaintext_value_of(value: &Value, crypt: CryptStateRef<'_>) -> (r: Result<
    PlaintextValue,
    GetValueError,
>)
    requires
        crypt.wf(),
    ensures
        match r {
            Ok(p) => spec_plaintext_value(value@, crypt.iv@, crypt.key_view()) == Ok::<
                PlainValueView,
                GetValueError,
            >(p@),
            Err(e) => spec_plaintext_value(value@, crypt.iv@, crypt.key_view()) == Err::<
                PlainValueView,
                GetValueError,
            >(e),
        },
{
    match value {
        Value::Basic(s) => Ok(PlaintextValue::Manual { value: s.clone(), protected: false }),
        Value::Protected(bs) => match crypt.key {
            Some(k) => match decrypt_string(bs.as_ref(), crypt.iv, k) {
                Ok(value) => Ok(PlaintextValue::Manual { value, protected: true }),
                Err(e) => Err(GetValueError::Decrypt(e)),
            },
            None => Err(GetValueError::ContentsNotUnlocked),
        },
    }
}

/// Gives what is shown for a value.
pub fn value_of(value: &Value, crypt: CryptStateRef<'_>) -> (r: Result<String, GetValueError>)
    requires
        crypt.wf(),
    ensures
        match r {
            Ok(text) => spec_value(value@, crypt.iv@, crypt.key_view()) == Ok::<
                Seq<char>,
                GetValueError,
            >(text@),
            Err(e) => spec_value(value@, crypt.iv@, crypt.key_view()) == Err::<
                Seq<char>,
                GetValueError,
            >(e),
        },
{
    match value {
        Value::Basic(s) => Ok(s.clone()),
        Value::Protected(bs) => match crypt.key {
            Some(k) => match decrypt_string(bs.as_ref(), crypt.iv, k) {
                Ok(text) => Ok(text),
                Err(e) => Err(GetValueError::Decrypt(e)),
            },
            None => Err(GetValueError::ContentsNotUnlocked),
        },
    }
}

/// The kind of a value.
pub fn kind_of(value: &Value) -> (kind: ValueKind)
    ensures
        kind == value@.kind(),
{
    match value {
        Value::Basic(_) => ValueKind::Basic,
        Value::Protected(_) => ValueKind::Protected,
    }
}

/// A view of one field for reading.
pub struct FieldRef<'a> {
    pub field: &'a Field,
    pub crypt: CryptStateRef<'a>,
}

impl<'a> FieldRef<'a> {
    /// The name of the field.
    pub fn name(&self) -> (name: &'a str)
        ensures
            name@ == self.field@.name,
    {
        self.field.name.as_str()
    }

    /// The kind of value that the field holds.
    pub fn value_kind(&self) -> (kind: ValueKind)
        ensures
            kind == self.field@.value.kind(),
    {
        kind_of(&self.field.value)
    }

    /// What is shown for the field: its text.
    pub fn value(&self) -> (r: Result<String, GetValueError>)
        requires
            self.crypt.wf(),
        ensures
            match r {
                Ok(text) => spec_value(self.field@.value, self.crypt.iv@, self.crypt.key_view())
                    == Ok::<Seq<char>, GetValueError>(text@),
                Err(e) => spec_value(self.field@.value, self.crypt.iv@, self.crypt.key_view())
                    == Err::<Seq<char>, GetValueError>(e),
            },
    {
        value_of(&self.field.value, self.crypt)
    }

    /// The value of the field as it is entered and edited.
    pub fn plaintext_value(&self) -> (r: Result<PlaintextValue, GetValueError>)
        requires
            self.crypt.wf(),
        ensures
            match r {
                Ok(p) => spec_plaintext_value(
                    self.field@.value,
                    self.crypt.iv@,
                    self.crypt.key_view(),
                ) == Ok::<PlainValueView, GetValueError>(p@),
                Err(e) => spec_plaintext_value(
                    self.field@.value,
                    self.crypt.iv@,
                    self.crypt.key_view(),
                ) == Err::<PlainValueView, GetValueError>(e),
            },
    {
        plaintext_value_of(&self.field.value, self.crypt)
    }
}

/// A view of one entry for reading.
pub struct EntryRef<'a> {
    pub entry: &'a Entry,
    pub crypt: CryptStateRef<'a>,
}

impl<'a> EntryRef<'a> {
    /// The name of the entry.
    pub fn name(&self) -> (name: &'a str)
        ensures
            name@ == self.entry@.name,
    {
        self.entry.name.as_str()
    }

    /// The tags of the entry, in their order.
    pub fn tags(&self) -> (tags: Vec<&'a str>)
        ensures
            tags@.len() == self.entry@.tags.len(),
            forall|i: int| 0 <= i < tags@.len() ==> (#[trigger] tags@[i])@ == self.entry@.tags[i],
    {
        borrow_strings(&self.entry.tags)
    }

    /// When the entry was made.
    pub fn first_added(&self) -> (t: Timestamp)
        ensures
            t == self.entry@.first_added,
    {
        self.entry.first_added
    }

    /// When the entry or one of its fields was last changed.
    pub fn last_update(&self) -> (t: Timestamp)
        ensures
            t == self.entry@.last_update,
    {
        self.entry.last_update
    }

    /// The field at `idx`.
    pub fn field(&self, idx: usize) -> (r: FieldRef<'a>)
        requires
            idx < self.entry@.fields.len(),
        ensures
            *r.field == self.entry.fields@[idx as int],
            r.field@ == self.entry@.fields[idx as int],
            r.crypt == self.crypt,
    {
        FieldRef { field: &self.entry.fields[idx], crypt: self.crypt }
    }

    /// The number of fields.
    pub fn num_fields(&self) -> (n: usize)
        ensures
            n == self.entry@.fields.len(),
    {
        self.entry.fields.len()
    }
}

/// The parts of a field that is being put together, before it is set.
pub struct FieldBuilder {
    pub name: Option<String>,
    pub value: Option<String>,
    pub is_protected: Option<bool>,
}

impl FieldBuilder {
    /// Announces a field of plain or protected text. Every builder of this
    /// format takes one.
    pub fn make_manual(&mut self)
        ensures
            *final(self) == *old(self),
    {
    }

    /// Announces the seed of a one-time password, which this format cannot
    /// hold.
    pub fn make_totp(&mut self) -> (r: Result<(), UnsupportedFeature>)
        ensures
            r == Err::<(), UnsupportedFeature>(UnsupportedFeature::Totp),
            *final(self) == *old(self),
    {
        Err(UnsupportedFeature::Totp)
    }

    /// Gives the field its name.
    pub fn set_name(&mut self, name: String)
        ensures
            final(self).name == Some(name),
            final(self).value == old(self).value,
            final(self).is_protected == old(self).is_protected,
    {
        self.name = Some(name);
    }

    /// Gives the field its value, which is text: this format holds no seeds.
    pub fn set_value(&mut self, value: PlaintextValue)
        requires
            value is Manual,
        ensures
            final(self).value == Some(value->value),
            final(self).is_protected == Some(value->protected),
            final(self).name == old(self).name,
    {
        match value {
            PlaintextValue::Manual { value, protected } => {
                self.value = Some(value);
                self.is_protected = Some(protected);
            },
            PlaintextValue::Totp { .. } => {},
        }
    }
}

/// The error with which a value is refused while the store is locked, if it
/// is: text that is to be protected needs the key.
pub open spec fn spec_set_field_refusal(protected: bool, key: Option<Seq<u8>>) -> Option<
    SetFieldError,
> {
    if key is None && protected {
        Some(SetFieldError::ContentsNotUnlocked(ValueKind::Protected))
    } else {
        None
    }
}

/// Turns a text as it was entered into the value that is kept, encrypting it
/// if it is to be protected.
pub fn keep_value(value: String, protected: bool, crypt: CryptStateRef<'_>) -> (r: Result<
    Value,
    SetFieldError,
>)
    requires
        crypt.wf(),
    ensures
        match r {
            Ok(v) => spec_set_field_refusal(protected, crypt.key_view()) is None && (match
                crypt.key_view() {
                Some(k) => spec_value_keeps(
                    v@,
                    PlainValueView::Manual { value: value@, protected },
                    crypt.iv@,
                    k,
                ),
                None => v@ == ValueView::Basic(value@),
            }),
            Err(e) => spec_set_field_refusal(protected, crypt.key_view()) == Some(e),
        },
{
    if !protected {
        Ok(Value::Basic(value))
    } else {
        match crypt.key {
            Some(k) => Ok(Value::Protected(Base64Vec(encrypt_string(value.as_str(), crypt.iv, k)))),
            None => Err(SetFieldError::ContentsNotUnlocked(ValueKind::Protected)),
        }
    }
}

/// A view of one field for reading and changing. What it changes it changes
/// in the store that it was taken from.
pub struct FieldMut<'a> {
    pub field: &'a mut Field,
    pub crypt: CryptStateRef<'a>,
    pub unsaved: &'a mut bool,
    pub entry_update: &'a mut Timestamp,
    pub global_update: &'a mut Timestamp,
}

impl<'a> FieldMut<'a> {
    /// The name of the field.
    pub fn name(&self) -> (name: &str)
        ensures
            name@ == old(self.field)@.name,
    {
        self.field.name.as_str()
    }

    /// The kind of value that the field holds.
    pub fn value_kind(&self) -> (kind: ValueKind)
        ensures
            kind == old(self.field)@.value.kind(),
    {
        kind_of(&self.field.value)
    }

    /// What is shown for the field: its text.
    pub fn value(&self) -> (r: Result<String, GetValueError>)
        requires
            self.crypt.wf(),
        ensures
            match r {
                Ok(text) => spec_value(old(self.field)@.value, self.crypt.iv@, self.crypt.key_view())
                    == Ok::<Seq<char>, GetValueError>(text@),
                Err(e) => spec_value(old(self.field)@.value, self.crypt.iv@, self.crypt.key_view())
                    == Err::<Seq<char>, GetValueError>(e),
            },
    {
        value_of(&self.field.value, self.crypt)
    }

    /// The value of the field as it is entered and edited.
    pub fn plaintext_value(&self) -> (r: Result<PlaintextValue, GetValueError>)
        requires
            self.crypt.wf(),
        ensures
            match r {
                Ok(p) => spec_plaintext_value(
                    old(self.field)@.value,
                    self.crypt.iv@,
                    self.crypt.key_view(),
                ) == Ok::<PlainValueView, GetValueError>(p@),
                Err(e) => spec_plaintext_value(
                    old(self.field)@.value,
                    self.crypt.iv@,
                    self.crypt.key_view(),
                ) == Err::<PlainValueView, GetValueError>(e),
            },
    {
        plaintext_value_of(&self.field.value, self.crypt)
    }

    /// Records a change made at `now`: the entry and the store were last
    /// updated then, and the store has something to save.
    pub fn updated_at(&mut self, now: Timestamp)
        ensures
            *final(self).entry_update == now,
            *final(self).global_update == now,
            *final(self).unsaved,
            now.at_or_after(*old(self).entry_update) ==> final(self).entry_update.at_or_after(
                *old(self).entry_update,
            ) && final(self).global_update.at_or_after(*old(self).entry_update),
            *final(self).field == *old(self).field,
            final(self).crypt == old(self).crypt,
            *final(final(self).field) == *final(old(self).field),
            *final(final(self).unsaved) == *final(old(self).unsaved),
            *final(final(self).entry_update) == *final(old(self).entry_update),
            *final(final(self).global_update) == *final(old(self).global_update),
    {
        *self.entry_update = now;
        *self.global_update = now;
        *self.unsaved = true;
    }

    /// Records a change made now.
    fn updated(&mut self)
        ensures
            *final(self).entry_update == *final(self).global_update,
            *final(self).unsaved,
            *final(self).field == *old(self).field,
            final(self).crypt == old(self).crypt,
            *final(final(self).field) == *final(old(self).field),
            *final(final(self).unsaved) == *final(old(self).unsaved),
            *final(final(self).entry_update) == *final(old(self).entry_update),
            *final(final(self).global_update) == *final(old(self).global_update),
    {
        self.updated_at(Timestamp::now());
    }

    /// Moves the field between plain and protected, and records the change
    /// as made at `now`. A field that is refused stays as it was, and nothing
    /// is recorded as changed.
    pub fn swap_encryption_at(&mut self, now: Timestamp) -> (r: Result<(), SwapEncryptionError>)
        requires
            old(self).crypt.wf(),
        ensures
            final(self).crypt == old(self).crypt,
            *final(final(self).field) == *final(old(self).field),
            *final(final(self).unsaved) == *final(old(self).unsaved),
            *final(final(self).entry_update) == *final(old(self).entry_update),
            *final(final(self).global_update) == *final(old(self).global_update),
            final(self).field@.name == old(self).field@.name,
            match r {
                Ok(()) => {
                    &&& old(self).crypt.key_view() matches Some(k)
                    &&& match old(self).field@.value {
                        ValueView::Basic(s) => final(self).field@.value matches ValueView::Protected(
                            bs,
                        ) && spec_holds_text(bs, s, old(self).crypt.iv@, k),
                        ValueView::Protected(bs) => spec_decrypt_string(
                            bs,
                            old(self).crypt.iv@,
                            k,
                        ) == Ok::<Seq<char>, DecryptError>(final(self).field@.value->Basic_0)
                            && final(self).field@.value is Basic,
                        ValueView::Totp { .. } => false,
                    }
                    &&& *final(self).entry_update == *final(self).global_update
                    &&& *final(self).unsaved
                },
                Err(e) => {
                    &&& e == spec_swap_refusal(
                        old(self).field@.value,
                        old(self).crypt.iv@,
                        old(self).crypt.key_view(),
                    )->0
                    &&& spec_swap_refusal(
                        old(self).field@.value,
                        old(self).crypt.iv@,
                        old(self).crypt.key_view(),
                    ) is Some
                    &&& *final(self).field == *old(self).field
                    &&& *final(self).entry_update == *old(self).entry_update
                    &&& *final(self).global_update == *old(self).global_update
                    &&& *final(self).unsaved == *old(self).unsaved
                },
            },
            r is Ok ==> {
                &&& *final(self).entry_update == now
                &&& *final(self).global_update == now
                &&& now.at_or_after(*old(self).entry_update)
                    ==> final(self).entry_update.at_or_after(*old(self).entry_update)
                    && final(self).global_update.at_or_after(*old(self).entry_update)
            },
    {
        let key = match self.crypt.key {
            Some(k) => k,
            None => return Err(SwapEncryptionError::ContentsNotUnlocked),
        };
        let new_val = match &self.field.value {
            Value::Basic(s) => Value::Protected(
                Base64Vec(encrypt_string(s.as_str(), self.crypt.iv, key)),
            ),
            Value::Protected(bs) => match decrypt_string(bs.as_ref(), self.crypt.iv, key) {
                Ok(s) => Value::Basic(s),
                Err(e) => return Err(SwapEncryptionError::Decrypt(e)),
            },
        };
        self.field.value = new_val;
        self.updated_at(now);
        Ok(())
    }

    /// Moves the field between plain and protected: plain text is encrypted,
    /// protected text decrypted. Refused while the store is locked, and for a
    /// ciphertext that does not decrypt to text; a field that is refused stays
    /// as it was, and nothing is recorded as changed.
    pub fn swap_encryption(&mut self) -> (r: Result<(), SwapEncryptionError>)
        requires
            old(self).crypt.wf(),
        ensures
            final(self).crypt == old(self).crypt,
            *final(final(self).field) == *final(old(self).field),
            *final(final(self).unsaved) == *final(old(self).unsaved),
            *final(final(self).entry_update) == *final(old(self).entry_update),
            *final(final(self).global_update) == *final(old(self).global_update),
            final(self).field@.name == old(self).field@.name,
            match r {
                Ok(()) => {
                    &&& old(self).crypt.key_view() matches Some(k)
                    &&& match old(self).field@.value {
                        ValueView::Basic(s) => final(self).field@.value matches ValueView::Protected(
                            bs,
                        ) && spec_holds_text(bs, s, old(self).crypt.iv@, k),
                        ValueView::Protected(bs) => spec_decrypt_string(
                            bs,
                            old(self).crypt.iv@,
                            k,
                        ) == Ok::<Seq<char>, DecryptError>(final(self).field@.value->Basic_0)
                            && final(self).field@.value is Basic,
                        ValueView::Totp { .. } => false,
                    }
                    &&& *final(self).entry_update == *final(self).global_update
                    &&& *final(self).unsaved
                },
                Err(e) => {
                    &&& e == spec_swap_refusal(
                        old(self).field@.value,
                        old(self).crypt.iv@,
                        old(self).crypt.key_view(),
                    )->0
                    &&& spec_swap_refusal(
                        old(self).field@.value,
                        old(self).crypt.iv@,
                        old(self).crypt.key_view(),
                    ) is Some
                    &&& *final(self).field == *old(self).field
                    &&& *final(self).entry_update == *old(self).entry_update
                    &&& *final(self).global_update == *old(self).global_update
                    &&& *final(self).unsaved == *old(self).unsaved
                },
            },
    {
        self.swap_encryption_at(Timestamp::now())
    }
}

/// The error with which a change between plain and protected is refused, if
/// it is.
pub open spec fn spec_swap_refusal(v: ValueView, iv: Seq<u8>, key: Option<Seq<u8>>) -> Option<
    SwapEncryptionError,
> {
    match key {
        None => Some(SwapEncryptionError::ContentsNotUnlocked),
        Some(k) => match v {
            ValueView::Basic(_) => None,
            ValueView::Protected(bs) => match spec_decrypt_string(bs, iv, k) {
                Ok(_) => None,
                Err(e) => Some(SwapEncryptionError::Decrypt(e)),
            },
            ValueView::Totp { .. } => Some(SwapEncryptionError::IsTotp),
        },
    }
}

/// A view of one entry for reading and changing. What it changes it changes
/// in the store that it was taken from.
pub struct EntryMut<'a> {
    pub entry: &'a mut Entry,
    pub crypt: CryptStateRef<'a>,
    pub unsaved: &'a mut bool,
    pub global_update: &'a mut Timestamp,
}

impl<'a> EntryMut<'a> {
    /// The name of the entry.
    pub fn name(&self) -> (name: &str)
        ensures
            name@ == old(self.entry)@.name,
    {
        self.entry.name.as_str()
    }

    /// The tags of the entry, in their order.
    pub fn tags(&self) -> (tags: Vec<&str>)
        ensures
            tags@.len() == old(self.entry)@.tags.len(),
            forall|i: int|
                0 <= i < tags@.len() ==> (#[trigger] tags@[i])@ == old(self.entry)@.tags[i],
    {
        borrow_strings(&self.entry.tags)
    }

    /// When the entry was made.
    pub fn first_added(&self) -> (t: Timestamp)
        ensures
            t == old(self.entry)@.first_added,
    {
        self.entry.first_added
    }

    /// When the entry or one of its fields was last changed.
    pub fn last_update(&self) -> (t: Timestamp)
        ensures
            t == old(self.entry)@.last_update,
    {
        self.entry.last_update
    }

    /// The field at `idx`, for reading.
    pub fn field(&self, idx: usize) -> (r: FieldRef<'_>)
        requires
            idx < old(self.entry)@.fields.len(),
        ensures
            *r.field == old(self.entry).fields@[idx as int],
            r.field@ == old(self.entry)@.fields[idx as int],
            r.crypt == self.crypt,
    {
        FieldRef { field: &self.entry.fields[idx], crypt: self.crypt }
    }

    /// The number of fields.
    pub fn num_fields(&self) -> (n: usize)
        ensures
            n == old(self.entry)@.fields.len(),
    {
        self.entry.fields.len()
    }

    /// Records a change made at `now`: the entry and the store were last
    /// updated then, and the store has something to save.
    pub fn updated_at(&mut self, now: Timestamp)
        ensures
            *final(self).entry == (Entry { last_update: now, ..*old(self).entry }),
            *final(self).global_update == now,
            *final(self).unsaved,
            now.at_or_after(old(self).entry.last_update)
                ==> final(self).entry.last_update.at_or_after(old(self).entry.last_update)
                && final(self).global_update.at_or_after(old(self).entry.last_update),
            final(self).crypt == old(self).crypt,
            *final(final(self).entry) == *final(old(self).entry),
            *final(final(self).unsaved) == *final(old(self).unsaved),
            *final(final(self).global_update) == *final(old(self).global_update),
    {
        self.entry.last_update = now;
        *self.global_update = now;
        *self.unsaved = true;
    }

    /// Records a change made now.
    fn updated(&mut self)
        ensures
            *final(self).entry == (Entry {
                last_update: final(self).entry.last_update,
                ..*old(self).entry
            }),
            final(self).entry.last_update == *final(self).global_update,
            *final(self).unsaved,
            final(self).crypt == old(self).crypt,
            *final(final(self).entry) == *final(old(self).entry),
            *final(final(self).unsaved) == *final(old(self).unsaved),
            *final(final(self).global_update) == *final(old(self).global_update),
    {
        self.updated_at(Timestamp::now());
    }

    /// Gives the entry another name, and records the change as made at `now`.
    pub fn set_name_at(&mut self, name: String, now: Timestamp)
        ensures
            *final(self).entry == (Entry {
                name,
                last_update: final(self).entry.last_update,
                ..*old(self).entry
            }),
            final(self).entry.last_update == *final(self).global_update,
            *final(self).unsaved,
            final(self).crypt == old(self).crypt,
            *final(final(self).entry) == *final(old(self).entry),
            *final(final(self).unsaved) == *final(old(self).unsaved),
            *final(final(self).global_update) == *final(old(self).global_update),
            final(self).entry.last_update == now,
            *final(self).global_update == now,
            now.at_or_after(old(self).entry.last_update)
                ==> final(self).entry.last_update.at_or_after(old(self).entry.last_update)
                && final(self).global_update.at_or_after(old(self).entry.last_update),
    {
        self.entry.name = name;
        self.updated_at(now);
    }

    /// Gives the entry another name, and records the change.
    pub fn set_name(&mut self, name: String)
        ensures
            *final(self).entry == (Entry {
                name,
                last_update: final(self).entry.last_update,
                ..*old(self).entry
            }),
            final(self).entry.last_update == *final(self).global_update,
            *final(self).unsaved,
            final(self).crypt == old(self).crypt,
            *final(final(self).entry) == *final(old(self).entry),
            *final(final(self).unsaved) == *final(old(self).unsaved),
            *final(final(self).global_update) == *final(old(self).global_update),
    {
        self.set_name_at(name, Timestamp::now())
    }

    /// Gives the entry other tags, and records the change as made at `now`.
    pub fn set_tags_at(&mut self, tags: Vec<String>, now: Timestamp)
        ensures
            *final(self).entry == (Entry {
                tags,
                last_update: final(self).entry.last_update,
                ..*old(self).entry
            }),
            final(self).entry.last_update == *final(self).global_update,
            *final(self).unsaved,
            final(self).crypt == old(self).crypt,
            *final(final(self).entry) == *final(old(self).entry),
            *final(final(self).unsaved) == *final(old(self).unsaved),
            *final(final(self).global_update) == *final(old(self).global_update),
            final(self).entry.last_update == now,
            *final(self).global_update == now,
            now.at_or_after(old(self).entry.last_update)
                ==> final(self).entry.last_update.at_or_after(old(self).entry.last_update)
                && final(self).global_update.at_or_after(old(self).entry.last_update),
    {
        self.entry.tags = tags;
        self.updated_at(now);
    }

    /// Gives the entry other tags, and records the change.
    pub fn set_tags(&mut self, tags: Vec<String>)
        ensures
            *final(self).entry == (Entry {
                tags,
                last_update: final(self).entry.last_update,
                ..*old(self).entry
            }),
            final(self).entry.last_update == *final(self).global_update,
            *final(self).unsaved,
            final(self).crypt == old(self).crypt,
            *final(final(self).entry) == *final(old(self).entry),
            *final(final(self).unsaved) == *final(old(self).unsaved),
            *final(final(self).global_update) == *final(old(self).global_update),
    {
        self.set_tags_at(tags, Timestamp::now())
    }

    /// The field at `idx`, for reading and changing.
    pub fn field_mut(&mut self, idx: usize) -> (r: FieldMut<'_>)
        requires
            idx < old(self).entry.fields@.len(),
        ensures
            *r.field == old(self).entry.fields@[idx as int],
            r.crypt == old(self).crypt,
            *r.unsaved == *old(self).unsaved,
            *r.entry_update == old(self).entry.last_update,
            *r.global_update == *old(self).global_update,
            final(self).entry.fields@ == old(self).entry.fields@.update(
                idx as int,
                *final(r.field),
            ),
            final(self).entry.name == old(self).entry.name,
            final(self).entry.tags == old(self).entry.tags,
            final(self).entry.first_added == old(self).entry.first_added,
            final(self).entry.last_update == *final(r.entry_update),
            *final(self).unsaved == *final(r.unsaved),
            *final(self).global_update == *final(r.global_update),
            final(self).crypt == old(self).crypt,
            *final(final(self).entry) == *final(old(self).entry),
            *final(final(self).unsaved) == *final(old(self).unsaved),
            *final(final(self).global_update) == *final(old(self).global_update),
    {
        FieldMut {
            field: &mut self.entry.fields[idx],
            crypt: self.crypt,
            unsaved: &mut *self.unsaved,
            entry_update: &mut self.entry.last_update,
            global_update: &mut *self.global_update,
        }
    }

    /// A builder for a field of this entry, with nothing set.
    pub fn field_builder(&self) -> (builder: FieldBuilder)
        ensures
            builder.name is None,
            builder.value is None,
            builder.is_protected is None,
    {
        FieldBuilder { name: None, value: None, is_protected: None }
    }

    /// Sets the field at `idx` to what the builder holds, or adds it as a new
    /// last field where `idx` is the number of fields, and records the change
    /// as made at `now`. A value that has to be encrypted is refused while the
    /// store is locked; the entry then stays as it was.
    pub fn set_field_at(&mut self, idx: usize, builder: FieldBuilder, now: Timestamp) -> (r:
        Result<(), SetFieldError>)
        requires
            old(self).crypt.wf(),
            builder.name is Some,
            builder.value is Some,
            builder.is_protected is Some,
            idx <= old(self).entry.fields@.len(),
        ensures
            final(self).crypt == old(self).crypt,
            *final(final(self).entry) == *final(old(self).entry),
            *final(final(self).unsaved) == *final(old(self).unsaved),
            *final(final(self).global_update) == *final(old(self).global_update),
            match r {
                Ok(()) => {
                    &&& spec_set_field_refusal(
                        builder.is_protected->0,
                        old(self).crypt.key_view(),
                    ) is None
                    &&& final(self).entry@.fields.len() == if idx == old(self).entry@.fields.len() {
                        idx + 1
                    } else {
                        old(self).entry@.fields.len() as int
                    }
                    &&& final(self).entry@.fields[idx as int].name == builder.name->0@
                    &&& match old(self).crypt.key_view() {
                        Some(k) => spec_value_keeps(
                            final(self).entry@.fields[idx as int].value,
                            PlainValueView::Manual {
                                value: builder.value->0@,
                                protected: builder.is_protected->0,
                            },
                            old(self).crypt.iv@,
                            k,
                        ),
                        None => final(self).entry@.fields[idx as int].value == ValueView::Basic(
                            builder.value->0@,
                        ),
                    }
                    &&& forall|j: int|
                        0 <= j < old(self).entry@.fields.len() && j != idx
                            ==> #[trigger] final(self).entry@.fields[j]
                            == old(self).entry@.fields[j]
                    &&& final(self).entry.name == old(self).entry.name
                    &&& final(self).entry.tags == old(self).entry.tags
                    &&& final(self).entry.first_added == old(self).entry.first_added
                    &&& final(self).entry.last_update == *final(self).global_update
                    &&& *final(self).unsaved
                },
                Err(e) => {
                    &&& spec_set_field_refusal(
                        builder.is_protected->0,
                        old(self).crypt.key_view(),
                    ) == Some(e)
                    &&& *final(self).entry == *old(self).entry
                    &&& *final(self).global_update == *old(self).global_update
                    &&& *final(self).unsaved == *old(self).unsaved
                },
            },
            r is Ok ==> {
                &&& final(self).entry.last_update == now
                &&& *final(self).global_update == now
                &&& now.at_or_after(old(self).entry.last_update)
                ==> final(self).entry.last_update.at_or_after(old(self).entry.last_update)
                && final(self).global_update.at_or_after(old(self).entry.last_update)
            },
    {
        let name = builder.name.unwrap();
        let value = match keep_value(
            builder.value.unwrap(),
            builder.is_protected.unwrap(),
            self.crypt,
        ) {
            Ok(v) => v,
            Err(e) => return Err(e),
        };
        let field = Field { name, value };
        if idx == self.entry.fields.len() {
            self.entry.fields.push(field);
        } else {
            self.entry.fields[idx] = field;
        }
        self.updated_at(now);
        Ok(())
    }

    /// Sets the field at `idx` to what the builder holds, or adds it as a new
    /// last field where `idx` is the number of fields, and records the change.
    /// Text that is to be protected is encrypted, and refused while the store
    /// is locked; the entry then stays as it was.
    pub fn set_field(&mut self, idx: usize, builder: FieldBuilder) -> (r: Result<(), SetFieldError>)
        requires
            old(self).crypt.wf(),
            builder.name is Some,
            builder.value is Some,
            builder.is_protected is Some,
            idx <= old(self).entry.fields@.len(),
        ensures
            final(self).crypt == old(self).crypt,
            *final(final(self).entry) == *final(old(self).entry),
            *final(final(self).unsaved) == *final(old(self).unsaved),
            *final(final(self).global_update) == *final(old(self).global_update),
            match r {
                Ok(()) => {
                    &&& spec_set_field_refusal(
                        builder.is_protected->0,
                        old(self).crypt.key_view(),
                    ) is None
                    &&& final(self).entry@.fields.len() == if idx == old(self).entry@.fields.len() {
                        idx + 1
                    } else {
                        old(self).entry@.fields.len() as int
                    }
                    &&& final(self).entry@.fields[idx as int].name == builder.name->0@
                    &&& match old(self).crypt.key_view() {
                        Some(k) => spec_value_keeps(
                            final(self).entry@.fields[idx as int].value,
                            PlainValueView::Manual {
                                value: builder.value->0@,
                                protected: builder.is_protected->0,
                            },
                            old(self).crypt.iv@,
                            k,
                        ),
                        None => final(self).entry@.fields[idx as int].value == ValueView::Basic(
                            builder.value->0@,
                        ),
                    }
                    &&& forall|j: int|
                        0 <= j < old(self).entry@.fields.len() && j != idx
                            ==> #[trigger] final(self).entry@.fields[j]
                            == old(self).entry@.fields[j]
                    &&& final(self).entry.name == old(self).entry.name
                    &&& final(self).entry.tags == old(self).entry.tags
                    &&& final(self).entry.first_added == old(self).entry.first_added
                    &&& final(self).entry.last_update == *final(self).global_update
                    &&& *final(self).unsaved
                },
                Err(e) => {
                    &&& spec_set_field_refusal(
                        builder.is_protected->0,
                        old(self).crypt.key_view(),
                    ) == Some(e)
                    &&& *final(self).entry == *old(self).entry
                    &&& *final(self).global_update == *old(self).global_update
                    &&& *final(self).unsaved == *old(self).unsaved
                },
            },
    {
        self.set_field_at(idx, builder, Timestamp::now())
    }

    /// Takes the field at `idx` out of the entry, and records the change as
    /// made at `now`.
    pub fn remove_field_at(&mut self, idx: usize, now: Timestamp)
        requires
            idx < old(self).entry.fields@.len(),
        ensures
            final(self).entry.fields@ == old(self).entry.fields@.remove(idx as int),
            final(self).entry@.fields == old(self).entry@.fields.remove(idx as int),
            final(self).entry.name == old(self).entry.name,
            final(self).entry.tags == old(self).entry.tags,
            final(self).entry.first_added == old(self).entry.first_added,
            final(self).entry.last_update == *final(self).global_update,
            *final(self).unsaved,
            final(self).crypt == old(self).crypt,
            *final(final(self).entry) == *final(old(self).entry),
            *final(final(self).unsaved) == *final(old(self).unsaved),
            *final(final(self).global_update) == *final(old(self).global_update),
            final(self).entry.last_update == now,
            *final(self).global_update == now,
            now.at_or_after(old(self).entry.last_update)
                ==> final(self).entry.last_update.at_or_after(old(self).entry.last_update)
                && final(self).global_update.at_or_after(old(self).entry.last_update),
    {
        self.entry.fields.remove(idx);
        self.updated_at(now);
        assert(self.entry@.fields =~= old(self).entry@.fields.remove(idx as int));
    }

    /// Takes the field at `idx` out of the entry, and records the change.
    pub fn remove_field(&mut self, idx: usize)
        requires
            idx < old(self).entry.fields@.len(),
        ensures
            final(self).entry.fields@ == old(self).entry.fields@.remove(idx as int),
            final(self).entry@.fields == old(self).entry@.fields.remove(idx as int),
            final(self).entry.name == old(self).entry.name,
            final(self).entry.tags == old(self).entry.tags,
            final(self).entry.first_added == old(self).entry.first_added,
            final(self).entry.last_update == *final(self).global_update,
            *final(self).unsaved,
            final(self).crypt == old(self).crypt,
            *final(final(self).entry) == *final(old(self).entry),
            *final(final(self).unsaved) == *final(old(self).unsaved),
            *final(final(self).global_update) == *final(old(self).global_update),
    {
        self.remove_field_at(idx, Timestamp::now())
    }
}

impl Keyed<FileContent> {
    /// The vector and the key of the store, for an accessor.
    pub fn crypt_state(&self) -> (crypt: CryptStateRef<'_>)
        requires
            self.wf(),
        ensures
            crypt.iv@ == self.content.iv@,
            crypt.key_view() == key_view(self.key),
            crypt.wf(),
    {
        let key: Option<&[u8]> = match &self.key {
            Some(k) => Some(k.as_slice()),
            None => None,
        };
        CryptStateRef { iv: self.content.iv.as_ref(), key }
    }

    /// The entry at `idx`, for reading.
    pub fn entry(&self, idx: usize) -> (r: EntryRef<'_>)
        requires
            self.wf(),
            idx < self.content.inner@.len(),
        ensures
            *r.entry == self.content.inner@[idx as int],
            r.entry@ == self.content@.entries[idx as int],
            r.crypt.iv@ == self.content.iv@,
            r.crypt.key_view() == key_view(self.key),
            r.crypt.wf(),
    {
        EntryRef { entry: &self.content.inner[idx], crypt: self.crypt_state() }
    }

    /// The entry at `idx`, for reading and changing.
    pub fn entry_mut(&mut self, idx: usize) -> (r: EntryMut<'_>)
        requires
            old(self).wf(),
            idx < old(self).content.inner@.len(),
        ensures
            *r.entry == old(self).content.inner@[idx as int],
            r.crypt.iv@ == old(self).content.iv@,
            r.crypt.key_view() == key_view(old(self).key),
            r.crypt.wf(),
            *r.unsaved == old(self).unsaved,
            *r.global_update == old(self).content.last_update,
            final(self).content.inner@ == old(self).content.inner@.update(
                idx as int,
                *final(r.entry),
            ),
            final(self).unsaved == *final(r.unsaved),
            final(self).content.last_update == *final(r.global_update),
            final(self).content.version == old(self).content.version,
            final(self).content.token == old(self).content.token,
            final(self).content.iv == old(self).content.iv,
            final(self).key == old(self).key,
            final(self).wf(),
    {
        let key: Option<&[u8]> = match &self.key {
            Some(k) => Some(k.as_slice()),
            None => None,
        };
        EntryMut {
            entry: &mut self.content.inner[idx],
            crypt: CryptStateRef { iv: self.content.iv.0.as_slice(), key },
            unsaved: &mut self.unsaved,
            global_update: &mut self.content.last_update,
        }
    }

    /// Adds an entry of the given name, made at `now`, after the others, and
    /// gives its index. The entry has neither tags nor fields.
    pub fn add_empty_entry_at(&mut self, name: String, now: Timestamp) -> (idx: usize)
        ensures
            idx == old(self).content@.entries.len(),
            final(self).content@ == (ContentView {
                last_update: now,
                entries: old(self).content@.entries.push(
                    EntryView {
                        name: name@,
                        tags: Seq::empty(),
                        fields: Seq::empty(),
                        first_added: now,
                        last_update: now,
                    },
                ),
                ..old(self).content@
            }),
            final(self).content.version == old(self).content.version,
            final(self).content.iv == old(self).content.iv,
            final(self).key == old(self).key,
            final(self).unsaved,
    {
        let idx: usize = self.num_entries();
        let entry = Entry {
            name,
            tags: Vec::new(),
            fields: Vec::new(),
            first_added: now,
            last_update: now,
        };
        assert(entry@.tags =~= Seq::empty());
        assert(entry@.fields =~= Seq::empty());
        self.content.inner.push(entry);
        self.content.last_update = now;
        self.unsaved = true;
        assert(self.content@.entries =~= old(self).content@.entries.push(entry@));
        idx
    }

    /// Adds an entry of the given name, made now, after the others, and gives
    /// its index. The entry has neither tags nor fields.
    pub fn add_empty_entry(&mut self, name: String) -> (idx: usize)
        ensures
            idx == old(self).content@.entries.len(),
            final(self).content@ == (ContentView {
                last_update: final(self).content.last_update,
                entries: old(self).content@.entries.push(
                    EntryView {
                        name: name@,
                        tags: Seq::empty(),
                        fields: Seq::empty(),
                        first_added: final(self).content.last_update,
                        last_update: final(self).content.last_update,
                    },
                ),
                ..old(self).content@
            }),
            final(self).content.version == old(self).content.version,
            final(self).content.iv == old(self).content.iv,
            final(self).key == old(self).key,
            final(self).unsaved,
    {
        self.add_empty_entry_at(name, Timestamp::now())
    }

    /// Takes the entry at `idx` out of the store, at `now`.
    pub fn remove_entry_at(&mut self, idx: usize, now: Timestamp)
        requires
            idx < old(self).content.inner@.len(),
        ensures
            final(self).content@ == (ContentView {
                last_update: now,
                entries: old(self).content@.entries.remove(idx as int),
                ..old(self).content@
            }),
            final(self).content.version == old(self).content.version,
            final(self).content.iv == old(self).content.iv,
            final(self).key == old(self).key,
            final(self).unsaved,
    {
        self.content.inner.remove(idx);
        self.content.last_update = now;
        self.unsaved = true;
        assert(self.content@.entries =~= old(self).content@.entries.remove(idx as int));
    }

    /// Takes the entry at `idx` out of the store.
    pub fn remove_entry(&mut self, idx: usize)
        requires
            idx < old(self).content.inner@.len(),
        ensures
            final(self).content@ == (ContentView {
                last_update: final(self).content.last_update,
                entries: old(self).content@.entries.remove(idx as int),
                ..old(self).content@
            }),
            final(self).content.version == old(self).content.version,
            final(self).content.iv == old(self).content.iv,
            final(self).key == old(self).key,
            final(self).unsaved,
    {
        self.remove_entry_at(idx, Timestamp::now());
    }
}

impl Keyed<FileContent> {
    /// Gives the entry at `idx` another name, and records the change as made
    /// at `now`.
    pub fn set_entry_name_at(&mut self, idx: usize, name: String, now: Timestamp)
        requires
            old(self).wf(),
            idx < old(self).content@.entries.len(),
        ensures
            final(self).wf(),
            final(self).key == old(self).key,
            final(self).unsaved,
            final(self).content@ == old(self).content@.with_entry(
                idx as int,
                EntryView {
                    name: name@,
                    last_update: final(self).content.last_update,
                    ..old(self).content@.entries[idx as int]
                },
                final(self).content.last_update,
            ),
            final(self).content.last_update == now,
            now.at_or_after(old(self).content@.entries[idx as int].last_update)
                ==> final(self).content@.entries[idx as int].last_update.at_or_after(
                old(self).content@.entries[idx as int].last_update,
            ) && final(self).content.last_update.at_or_after(
                old(self).content@.entries[idx as int].last_update,
            ),
    {
        self.entry_mut(idx).set_name_at(name, now);
        assert(self.content@.entries =~= old(self).content@.entries.update(
            idx as int,
            self.content.inner@[idx as int]@,
        ));
    }

    /// Gives the entry at `idx` another name, and records the change.
    pub fn set_entry_name(&mut self, idx: usize, name: String)
        requires
            old(self).wf(),
            idx < old(self).content@.entries.len(),
        ensures
            final(self).wf(),
            final(self).key == old(self).key,
            final(self).unsaved,
            final(self).content@ == old(self).content@.with_entry(
                idx as int,
                EntryView {
                    name: name@,
                    last_update: final(self).content.last_update,
                    ..old(self).content@.entries[idx as int]
                },
                final(self).content.last_update,
            ),
    {
        self.set_entry_name_at(idx, name, Timestamp::now())
    }

    /// Gives the entry at `idx` other tags, and records the change as made at
    /// `now`.
    pub fn set_entry_tags_at(&mut self, idx: usize, tags: Vec<String>, now: Timestamp)
        requires
            old(self).wf(),
            idx < old(self).content@.entries.len(),
        ensures
            final(self).wf(),
            final(self).key == old(self).key,
            final(self).unsaved,
            final(self).content@ == old(self).content@.with_entry(
                idx as int,
                EntryView {
                    tags: strings_view(tags@),
                    last_update: final(self).content.last_update,
                    ..old(self).content@.entries[idx as int]
                },
                final(self).content.last_update,
            ),
            final(self).content.last_update == now,
            now.at_or_after(old(self).content@.entries[idx as int].last_update)
                ==> final(self).content@.entries[idx as int].last_update.at_or_after(
                old(self).content@.entries[idx as int].last_update,
            ) && final(self).content.last_update.at_or_after(
                old(self).content@.entries[idx as int].last_update,
            ),
    {
        self.entry_mut(idx).set_tags_at(tags, now);
        assert(self.content@.entries =~= old(self).content@.entries.update(
            idx as int,
            self.content.inner@[idx as int]@,
        ));
    }

    /// Gives the entry at `idx` other tags, and records the change.
    pub fn set_entry_tags(&mut self, idx: usize, tags: Vec<String>)
        requires
            old(self).wf(),
            idx < old(self).content@.entries.len(),
        ensures
            final(self).wf(),
            final(self).key == old(self).key,
            final(self).unsaved,
            final(self).content@ == old(self).content@.with_entry(
                idx as int,
                EntryView {
                    tags: strings_view(tags@),
                    last_update: final(self).content.last_update,
                    ..old(self).content@.entries[idx as int]
                },
                final(self).content.last_update,
            ),
    {
        self.set_entry_tags_at(idx, tags, Timestamp::now())
    }

    /// Takes the field at `field` out of the entry at `idx`, and records the
    /// change as made at `now`.
    pub fn remove_entry_field_at(&mut self, idx: usize, field: usize, now: Timestamp)
        requires
            old(self).wf(),
            idx < old(self).content@.entries.len(),
            field < old(self).content@.entries[idx as int].fields.len(),
        ensures
            final(self).wf(),
            final(self).key == old(self).key,
            final(self).unsaved,
            final(self).content@ == old(self).content@.with_entry(
                idx as int,
                EntryView {
                    fields: old(self).content@.entries[idx as int].fields.remove(field as int),
                    last_update: final(self).content.last_update,
                    ..old(self).content@.entries[idx as int]
                },
                final(self).content.last_update,
            ),
            final(self).content.last_update == now,
            now.at_or_after(old(self).content@.entries[idx as int].last_update)
                ==> final(self).content@.entries[idx as int].last_update.at_or_after(
                old(self).content@.entries[idx as int].last_update,
            ) && final(self).content.last_update.at_or_after(
                old(self).content@.entries[idx as int].last_update,
            ),
    {
        self.entry_mut(idx).remove_field_at(field, now);
        assert(self.content@.entries =~= old(self).content@.entries.update(
            idx as int,
            self.content.inner@[idx as int]@,
        ));
    }

    /// Takes the field at `field` out of the entry at `idx`, and records the
    /// change.
    pub fn remove_entry_field(&mut self, idx: usize, field: usize)
        requires
            old(self).wf(),
            idx < old(self).content@.entries.len(),
            field < old(self).content@.entries[idx as int].fields.len(),
        ensures
            final(self).wf(),
            final(self).key == old(self).key,
            final(self).unsaved,
            final(self).content@ == old(self).content@.with_entry(
                idx as int,
                EntryView {
                    fields: old(self).content@.entries[idx as int].fields.remove(field as int),
                    last_update: final(self).content.last_update,
                    ..old(self).content@.entries[idx as int]
                },
                final(self).content.last_update,
            ),
    {
        self.remove_entry_field_at(idx, field, Timestamp::now())
    }

    /// Sets the field at `field` of the entry at `idx` to what the builder
    /// holds, or adds it as a new last field, and records the change as made
    /// at `now`. A value that has to be encrypted is refused while the store is
    /// locked, and the store then stays as it was.
    pub fn set_entry_field_at(&mut self, idx: usize, field: usize, builder: FieldBuilder, now: Timestamp) -> (r:
        Result<(), SetFieldError>)
        requires
            old(self).wf(),
            idx < old(self).content@.entries.len(),
            field <= old(self).content@.entries[idx as int].fields.len(),
            builder.name is Some,
            builder.value is Some,
            builder.is_protected is Some,
        ensures
            final(self).wf(),
            final(self).key == old(self).key,
            match r {
                Ok(()) => {
                    &&& spec_set_field_refusal(builder.is_protected->0, key_view(old(self).key))
                        is None
                    &&& final(self).unsaved
                    &&& final(self).content@ == old(self).content@.with_entry(
                        idx as int,
                        EntryView {
                            fields: final(self).content@.entries[idx as int].fields,
                            last_update: final(self).content.last_update,
                            ..old(self).content@.entries[idx as int]
                        },
                        final(self).content.last_update,
                    )
                    &&& spec_field_set(
                        old(self).content@.entries[idx as int].fields,
                        final(self).content@.entries[idx as int].fields,
                        field as int,
                        builder.name->0@,
                    )
                    &&& match key_view(old(self).key) {
                        Some(k) => spec_value_keeps(
                            final(self).content@.entries[idx as int].fields[field as int].value,
                            PlainValueView::Manual {
                                value: builder.value->0@,
                                protected: builder.is_protected->0,
                            },
                            old(self).content@.iv,
                            k,
                        ),
                        None => final(self).content@.entries[idx as int].fields[field as int].value
                            == ValueView::Basic(builder.value->0@),
                    }
                },
                Err(e) => {
                    &&& spec_set_field_refusal(builder.is_protected->0, key_view(old(self).key))
                        == Some(e)
                    &&& final(self).content@ == old(self).content@
                    &&& final(self).unsaved == old(self).unsaved
                },
            },
            r is Ok ==> {
                &&& final(self).content.last_update == now
                &&& now.at_or_after(old(self).content@.entries[idx as int].last_update)
                    ==> final(self).content@.entries[idx as int].last_update.at_or_after(
                    old(self).content@.entries[idx as int].last_update,
                ) && final(self).content.last_update.at_or_after(
                    old(self).content@.entries[idx as int].last_update,
                )
            },
    {
        let r = self.entry_mut(idx).set_field_at(field, builder, now);
        assert(self.content@.entries =~= old(self).content@.entries.update(
            idx as int,
            self.content.inner@[idx as int]@,
        ));
        if r.is_err() {
            assert(self.content@.entries =~= old(self).content@.entries);
        }
        r
    }

    /// Sets the field at `field` of the entry at `idx` to what the builder
    /// holds, or adds it as a new last field, and records the change. A value
    /// that has to be encrypted is refused while the store is locked, and the
    /// store then stays as it was.
    pub fn set_entry_field(&mut self, idx: usize, field: usize, builder: FieldBuilder) -> (r:
        Result<(), SetFieldError>)
        requires
            old(self).wf(),
            idx < old(self).content@.entries.len(),
            field <= old(self).content@.entries[idx as int].fields.len(),
            builder.name is Some,
            builder.value is Some,
            builder.is_protected is Some,
        ensures
            final(self).wf(),
            final(self).key == old(self).key,
            match r {
                Ok(()) => {
                    &&& spec_set_field_refusal(builder.is_protected->0, key_view(old(self).key))
                        is None
                    &&& final(self).unsaved
                    &&& final(self).content@ == old(self).content@.with_entry(
                        idx as int,
                        EntryView {
                            fields: final(self).content@.entries[idx as int].fields,
                            last_update: final(self).content.last_update,
                            ..old(self).content@.entries[idx as int]
                        },
                        final(self).content.last_update,
                    )
                    &&& spec_field_set(
                        old(self).content@.entries[idx as int].fields,
                        final(self).content@.entries[idx as int].fields,
                        field as int,
                        builder.name->0@,
                    )
                    &&& match key_view(old(self).key) {
                        Some(k) => spec_value_keeps(
                            final(self).content@.entries[idx as int].fields[field as int].value,
                            PlainValueView::Manual {
                                value: builder.value->0@,
                                protected: builder.is_protected->0,
                            },
                            old(self).content@.iv,
                            k,
                        ),
                        None => final(self).content@.entries[idx as int].fields[field as int].value
                            == ValueView::Basic(builder.value->0@),
                    }
                },
                Err(e) => {
                    &&& spec_set_field_refusal(builder.is_protected->0, key_view(old(self).key))
                        == Some(e)
                    &&& final(self).content@ == old(self).content@
                    &&& final(self).unsaved == old(self).unsaved
                },
            },
    {
        self.set_entry_field_at(idx, field, builder, Timestamp::now())
    }

    /// Moves the field at `field` of the entry at `idx` between plain and
    /// protected, and records the change as made at `now`. Where the change is
    /// refused the store stays as it was.
    pub fn swap_field_encryption_at(&mut self, idx: usize, field: usize, now: Timestamp) -> (r: Result<
        (),
        SwapEncryptionError,
    >)
        requires
            old(self).wf(),
            idx < old(self).content@.entries.len(),
            field < old(self).content@.entries[idx as int].fields.len(),
        ensures
            final(self).wf(),
            final(self).key == old(self).key,
            match r {
                Ok(()) => {
                    &&& spec_swap_refusal(
                        old(self).content@.entries[idx as int].fields[field as int].value,
                        old(self).content@.iv,
                        key_view(old(self).key),
                    ) is None
                    &&& final(self).unsaved
                    &&& final(self).content@ == old(self).content@.with_entry(
                        idx as int,
                        EntryView {
                            fields: old(self).content@.entries[idx as int].fields.update(
                                field as int,
                                FieldView {
                                    value: final(self).content@.entries[idx as int].fields[field as int].value,
                                    ..old(self).content@.entries[idx as int].fields[field as int]
                                },
                            ),
                            last_update: final(self).content.last_update,
                            ..old(self).content@.entries[idx as int]
                        },
                        final(self).content.last_update,
                    )
                    &&& spec_swapped(
                        old(self).content@.entries[idx as int].fields[field as int].value,
                        final(self).content@.entries[idx as int].fields[field as int].value,
                        old(self).content@.iv,
                        old(self).key->0@,
                    )
                },
                Err(e) => {
                    &&& spec_swap_refusal(
                        old(self).content@.entries[idx as int].fields[field as int].value,
                        old(self).content@.iv,
                        key_view(old(self).key),
                    ) == Some(e)
                    &&& final(self).content@ == old(self).content@
                    &&& final(self).unsaved == old(self).unsaved
                },
            },
            r is Ok ==> {
                &&& final(self).content.last_update == now
                &&& now.at_or_after(old(self).content@.entries[idx as int].last_update)
                    ==> final(self).content@.entries[idx as int].last_update.at_or_after(
                    old(self).content@.entries[idx as int].last_update,
                ) && final(self).content.last_update.at_or_after(
                    old(self).content@.entries[idx as int].last_update,
                )
            },
    {
        let mut entry = self.entry_mut(idx);
        let r = entry.field_mut(field).swap_encryption_at(now);
        assert(self.content.inner@[idx as int]@.fields =~= old(self).content@.entries[idx as int].fields.update(
            field as int,
            self.content.inner@[idx as int].fields@[field as int]@,
        ));
        assert(self.content@.entries =~= old(self).content@.entries.update(
            idx as int,
            self.content.inner@[idx as int]@,
        ));
        if r.is_err() {
            assert(self.content.inner@[idx as int]@.fields =~= old(
                self,
            ).content@.entries[idx as int].fields);
            assert(self.content@.entries =~= old(self).content@.entries);
        }
        r
    }

    /// Moves the field at `field` of the entry at `idx` between plain and
    /// protected, and records the change. Where the change is refused the
    /// store stays as it was.
    pub fn swap_field_encryption(&mut self, idx: usize, field: usize) -> (r: Result<
        (),
        SwapEncryptionError,
    >)
        requires
            old(self).wf(),
            idx < old(self).content@.entries.len(),
            field < old(self).content@.entries[idx as int].fields.len(),
        ensures
            final(self).wf(),
            final(self).key == old(self).key,
            match r {
                Ok(()) => {
                    &&& spec_swap_refusal(
                        old(self).content@.entries[idx as int].fields[field as int].value,
                        old(self).content@.iv,
                        key_view(old(self).key),
                    ) is None
                    &&& final(self).unsaved
                    &&& final(self).content@ == old(self).content@.with_entry(
                        idx as int,
                        EntryView {
                            fields: old(self).content@.entries[idx as int].fields.update(
                                field as int,
                                FieldView {
                                    value: final(self).content@.entries[idx as int].fields[field as int].value,
                                    ..old(self).content@.entries[idx as int].fields[field as int]
                                },
                            ),
                            last_update: final(self).content.last_update,
                            ..old(self).content@.entries[idx as int]
                        },
                        final(self).content.last_update,
                    )
                    &&& spec_swapped(
                        old(self).content@.entries[idx as int].fields[field as int].value,
                        final(self).content@.entries[idx as int].fields[field as int].value,
                        old(self).content@.iv,
                        old(self).key->0@,
                    )
                },
                Err(e) => {
                    &&& spec_swap_refusal(
                        old(self).content@.entries[idx as int].fields[field as int].value,
                        old(self).content@.iv,
                        key_view(old(self).key),
                    ) == Some(e)
                    &&& final(self).content@ == old(self).content@
                    &&& final(self).unsaved == old(self).unsaved
                },
            },
    {
        self.swap_field_encryption_at(idx, field, Timestamp::now())
    }
}

} // verus!

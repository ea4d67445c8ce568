//! The newest generation of the file format: that of the second generation,
//! with one more kind of value, the seed of a time-based one-time password.

use crate::cipher::{totp, totp_code, IV_LEN, KEY_LEN};
use crate::utils::{borrow_strings, bytes_equal, str_equal, Base64Vec};
use crate::version::errors::{
    DecryptError, GetValueError, SetFieldError, SwapEncryptionError, UnsupportedFeature,
};
use crate::version::v0_3::{
    encrypt_string, is_usable_salt, spec_decrypt_string, spec_field_set, spec_hash_key,
    spec_holds_text, spec_plaintext_value, spec_swap_refusal, spec_swapped, spec_unlocks,
    spec_value_keeps, usable_salt,
};
pub use crate::version::v0_3::{decrypt, decrypt_string, encrypt, hash_key, ENCRYPT_TOKEN_STR};
use crate::version::{
    key_view, strings_view, ContentView, CryptStateRef, EntryView, FieldView, Keyed,
    PlainValueView, PlaintextValue, Timestamp, ValueKind, ValueView, Warning,
};
use vstd::string::StringExecFns;
use vstd::prelude::*;

verus! {

/// The tag that a store of this format carries.
pub const VERSION_STR: &'static str = "v0.4";

/// The warning due to someone who opens a store of this format: none.
pub fn warning() -> (w: Option<Warning>)
    ensures
        w is None,
{
    None
}

/// A store as it is kept in a file.
pub struct FileContent {
    pub version: String,
    pub token: Base64Vec,
    pub iv: Base64Vec,
    pub salt: String,
    pub last_update: Timestamp,
    pub inner: Vec<Entry>,
}

/// One entry of a store.
pub struct Entry {
    pub name: String,
    pub tags: Vec<String>,
    pub fields: Vec<Field>,
    pub first_added: Timestamp,
    pub last_update: Timestamp,
}

/// One field of an entry.
pub struct Field {
    pub name: String,
    pub value: Value,
}

/// The value of a field.
pub enum Value {
    Basic(String),
    Protected(Base64Vec),
    Totp { issuer: String, secret: Base64Vec },
}

impl View for Value {
    type V = ValueView;

    open spec fn view(&self) -> ValueView {
        match self {
            Value::Basic(s) => ValueView::Basic(s@),
            Value::Protected(bs) => ValueView::Protected(bs@),
            Value::Totp { issuer, secret } => ValueView::Totp { issuer: issuer@, secret: secret@ },
        }
    }
}

impl View for Field {
    type V = FieldView;

    open spec fn view(&self) -> FieldView {
        FieldView { name: self.name@, value: self.value@ }
    }
}

/// The model of a list of fields.
pub open spec fn fields_view(fields: Seq<Field>) -> Seq<FieldView> {
    fields.map_values(|f: Field| f@)
}

impl View for Entry {
    type V = EntryView;

    open spec fn view(&self) -> EntryView {
        EntryView {
            name: self.name@,
            tags: strings_view(self.tags@),
            fields: fields_view(self.fields@),
            first_added: self.first_added,
            last_update: self.last_update,
        }
    }
}

/// The model of a list of entries.
pub open spec fn entries_view(entries: Seq<Entry>) -> Seq<EntryView> {
    entries.map_values(|e: Entry| e@)
}

impl View for FileContent {
    type V = ContentView;

    open spec fn view(&self) -> ContentView {
        ContentView {
            version: self.version@,
            token: self.token@,
            iv: self.iv@,
            salt: self.salt@,
            last_update: self.last_update,
            entries: entries_view(self.inner@),
        }
    }
}

impl FileContent {
    /// What is asked of a store before it is worked on: it carries the tag
    /// of this format, a vector of the length that the cipher takes, and a
    /// salt that the key derivation can use.
    pub open spec fn valid(&self) -> bool {
        &&& self.version@ == VERSION_STR@
        &&& self.iv@.len() == IV_LEN
        &&& usable_salt(self.salt@)
    }

    /// Tests whether the store is valid.
    pub fn is_valid(&self) -> (valid: bool)
        ensures
            valid == self.valid(),
    {
        str_equal(self.version.as_str(), VERSION_STR) && self.iv.0.len() == IV_LEN
            && is_usable_salt(self.salt.as_str())
    }
}

impl Keyed<FileContent> {
    /// The store is valid, and the key, where there is one, has the length
    /// that the cipher takes.
    pub open spec fn wf(&self) -> bool {
        &&& self.content.valid()
        &&& self.key matches Some(k) ==> k@.len() == KEY_LEN
    }

    /// Takes `hashed` as the key of the store if the token decrypts under it
    /// to what it should, and refuses it with `BadCrypt` otherwise, leaving
    /// the container as it was.
    pub fn set_hashed_key(&mut self, hashed: Vec<u8>) -> (r: Result<(), DecryptError>)
        requires
            old(self).wf(),
            hashed@.len() == KEY_LEN,
        ensures
            final(self).wf(),
            final(self).content == old(self).content,
            final(self).unsaved == old(self).unsaved,
            match r {
                Ok(()) => spec_unlocks(old(self).content@, Some(hashed@)) && final(self).key
                    == Some(hashed),
                Err(e) => e == DecryptError::BadCrypt && !spec_unlocks(
                    old(self).content@,
                    Some(hashed@),
                ) && final(self).key == old(self).key,
            },
    {
        let decrypted_token = decrypt(
            self.content.token.as_ref(),
            self.content.iv.as_ref(),
            hashed.as_slice(),
        );
        match decrypted_token {
            Some(bs) => {
                if bytes_equal(bs.as_slice(), ENCRYPT_TOKEN_STR.as_bytes()) {
                    self.key = Some(hashed);
                    Ok(())
                } else {
                    Err(DecryptError::BadCrypt)
                }
            },
            None => Err(DecryptError::BadCrypt),
        }
    }

    /// Tests a password: derives the key from it and the store's salt, and
    /// takes the key if the token decrypts under it to what it should. A
    /// password that fails, or from which no key can be derived, is refused
    /// with `BadCrypt` and leaves the container as it was, unlocked if it was.
    pub fn set_key(&mut self, key: String) -> (r: Result<(), DecryptError>)
        requires
            old(self).wf(),
        ensures
            final(self).wf(),
            final(self).content == old(self).content,
            final(self).unsaved == old(self).unsaved,
            match r {
                Ok(()) => spec_unlocks(
                    old(self).content@,
                    spec_hash_key(old(self).content.salt@, key@),
                ) && key_view(final(self).key) == spec_hash_key(old(self).content.salt@, key@),
                Err(e) => e == DecryptError::BadCrypt && !spec_unlocks(
                    old(self).content@,
                    spec_hash_key(old(self).content.salt@, key@),
                ) && final(self).key == old(self).key,
            },
    {
        match hash_key(self.content.salt.as_str(), key.as_str()) {
            Some(hashed) => self.set_hashed_key(hashed),
            None => Err(DecryptError::BadCrypt),
        }
    }

    /// Brings the store to the newest format, which it has: the password is
    /// tested, and the store comes back as it was, unlocked. A password that
    /// fails is refused with `BadCrypt`.
    pub fn to_current(self, pwd: String) -> (r: Result<Keyed<FileContent>, DecryptError>)
        requires
            self.wf(),
        ensures
            match r {
                Ok(current) => {
                    &&& spec_unlocks(self.content@, spec_hash_key(self.content.salt@, pwd@))
                    &&& current.wf()
                    &&& current.content == self.content
                    &&& current.unsaved == self.unsaved
                    &&& key_view(current.key) == spec_hash_key(self.content.salt@, pwd@)
                },
                Err(e) => e == DecryptError::BadCrypt && !spec_unlocks(
                    self.content@,
                    spec_hash_key(self.content.salt@, pwd@),
                ),
            },
    {
        let mut this = self;
        match this.set_key(pwd) {
            Ok(()) => Ok(this),
            Err(e) => Err(e),
        }
    }

    /// Whether the store holds changes that were not written.
    pub fn unsaved(&self) -> (unsaved: bool)
        ensures
            unsaved == self.unsaved,
    {
        self.unsaved
    }

    /// Records that the store was written as it is.
    pub fn mark_saved(&mut self)
        ensures
            !final(self).unsaved,
            final(self).content == old(self).content,
            final(self).key == old(self).key,
    {
        self.unsaved = false;
    }

    /// Whether a password has been accepted.
    pub fn decrypted(&self) -> (decrypted: bool)
        ensures
            decrypted == self.key is Some,
    {
        self.key.is_some()
    }

    /// The number of entries.
    pub fn num_entries(&self) -> (n: usize)
        ensures
            n == self.content@.entries.len(),
    {
        self.content.inner.len()
    }
}

/// The character of a decimal digit.
pub open spec fn spec_digit(d: int) -> char {
    if d == 0 {
        '0'
    } else if d == 1 {
        '1'
    } else if d == 2 {
        '2'
    } else if d == 3 {
        '3'
    } else if d == 4 {
        '4'
    } else if d == 5 {
        '5'
    } else if d == 6 {
        '6'
    } else if d == 7 {
        '7'
    } else if d == 8 {
        '8'
    } else {
        '9'
    }
}

/// The text of a decimal digit.
fn digit_str(d: u64) -> (text: &'static str)
    requires
        d < 10,
    ensures
        text@ == seq![spec_digit(d as int)],
{
    proof {
        reveal_strlit("0");
        reveal_strlit("1");
        reveal_strlit("2");
        reveal_strlit("3");
        reveal_strlit("4");
        reveal_strlit("5");
        reveal_strlit("6");
        reveal_strlit("7");
        reveal_strlit("8");
        reveal_strlit("9");
    }
    let text = if d == 0 {
        "0"
    } else if d == 1 {
        "1"
    } else if d == 2 {
        "2"
    } else if d == 3 {
        "3"
    } else if d == 4 {
        "4"
    } else if d == 5 {
        "5"
    } else if d == 6 {
        "6"
    } else if d == 7 {
        "7"
    } else if d == 8 {
        "8"
    } else {
        "9"
    };
    assert(text@ =~= seq![spec_digit(d as int)]);
    text
}

/// The seconds left of the thirty-second slice that `unix_time` lies in,
/// from 1 to 30.
pub open spec fn spec_seconds_remaining(unix_time: u64) -> int {
    30 - unix_time % 30
}

/// The seconds left of the thirty-second slice that `unix_time` lies in:
/// after so long, a one-time password shown now is no longer the one to show.
pub fn seconds_remaining(unix_time: u64) -> (secs: u64)
    ensures
        secs == spec_seconds_remaining(unix_time),
        1 <= secs <= 30,
{
    30 - unix_time % 30
}

/// What is shown for a one-time password: the code, and the time left to
/// use it, the seconds in two digits.
pub open spec fn spec_totp_display(code: Seq<char>, unix_time: u64) -> Seq<char> {
    code + "  (00:"@ + seq![
        spec_digit(spec_seconds_remaining(unix_time) / 10),
        spec_digit(spec_seconds_remaining(unix_time) % 10),
    ] + " remaining)"@
}

/// Puts together what is shown for a one-time password.
pub fn totp_display(code: String, unix_time: u64) -> (text: String)
    ensures
        text@ == spec_totp_display(code@, unix_time),
{
    let secs: u64 = seconds_remaining(unix_time);
    let mut text = code;
    text.append("  (00:");
    text.append(digit_str(secs / 10));
    text.append(digit_str(secs % 10));
    text.append(" remaining)");
    assert(text@ =~= spec_totp_display(code@, unix_time));
    text
}

/// What is shown for the seed `secret` at `unix_time`, seconds since the
/// epoch: the one-time password of the slice `unix_time / 30`. A seed that
/// the generator refuses is a `BadTotpSecret`; so is any seed in the first
/// slice after the epoch, which the generator does not serve.
pub open spec fn spec_totp_value(secret: Seq<char>, unix_time: u64) -> Result<
    Seq<char>,
    GetValueError,
> {
    if unix_time < 30 {
        Err(GetValueError::BadTotpSecret)
    } else {
        match totp_code(secret, unix_time / 30) {
            Some(code) => Ok(spec_totp_display(code, unix_time)),
            None => Err(GetValueError::BadTotpSecret),
        }
    }
}

/// Computes what is shown for the seed `secret` at `unix_time`.
pub fn totp_value(secret: &str, unix_time: u64) -> (r: Result<String, GetValueError>)
    ensures
        match r {
            Ok(text) => spec_totp_value(secret@, unix_time) == Ok::<Seq<char>, GetValueError>(
                text@,
            ),
            Err(e) => spec_totp_value(secret@, unix_time) == Err::<Seq<char>, GetValueError>(e),
        },
{
    let time_slice: u64 = unix_time / 30;
    if time_slice == 0 {
        return Err(GetValueError::BadTotpSecret);
    }
    match totp(secret, time_slice) {
        Some(code) => Ok(totp_display(code, unix_time)),
        None => Err(GetValueError::BadTotpSecret),
    }
}

/// What is shown for a value at `unix_time`: the text of a plain or
/// protected value, and the one-time password of a seed.
pub open spec fn spec_value_at(
    v: ValueView,
    iv: Seq<u8>,
    key: Option<Seq<u8>>,
    unix_time: u64,
) -> Result<Seq<char>, GetValueError> {
    match spec_plaintext_value(v, iv, key) {
        Ok(PlainValueView::Manual { value, .. }) => Ok(value),
        Ok(PlainValueView::Totp { secret, .. }) => spec_totp_value(secret, unix_time),
        Err(e) => Err(e),
    }
}

/// Reads a value as it is once decrypted.
pub fn plaintext_value_of(value: &Value, crypt: CryptStateRef<'_>) -> (r: Result<
    PlaintextValue,
    GetValueError,
>)
    requires
        crypt.wf(),
    ensures
        match r {
            Ok(p) => spec_plaintext_value(value@, crypt.iv@, crypt.key_view()) == Ok::<
                PlainValueView,
                GetValueError,
            >(p@),
            Err(e) => spec_plaintext_value(value@, crypt.iv@, crypt.key_view()) == Err::<
                PlainValueView,
                GetValueError,
            >(e),
        },
{
    match value {
        Value::Basic(s) => Ok(PlaintextValue::Manual { value: s.clone(), protected: false }),
        Value::Protected(bs) => match crypt.key {
            Some(k) => match decrypt_string(bs.as_ref(), crypt.iv, k) {
                Ok(value) => Ok(PlaintextValue::Manual { value, protected: true }),
                Err(e) => Err(GetValueError::Decrypt(e)),
            },
            None => Err(GetValueError::ContentsNotUnlocked),
        },
        Value::Totp { issuer, secret } => match crypt.key {
            Some(k) => match decrypt_string(secret.as_ref(), crypt.iv, k) {
                Ok(secret) => Ok(PlaintextValue::Totp { issuer: issuer.clone(), secret }),
                Err(e) => Err(GetValueError::Decrypt(e)),
            },
            None => Err(GetValueError::ContentsNotUnlocked),
        },
    }
}

/// Gives what is shown for a value at `unix_time`.
pub fn value_at(value: &Value, crypt: CryptStateRef<'_>, unix_time: u64) -> (r: Result<
    String,
    GetValueError,
>)
    requires
        crypt.wf(),
    ensures
        match r {
            Ok(text) => spec_value_at(value@, crypt.iv@, crypt.key_view(), unix_time) == Ok::<
                Seq<char>,
                GetValueError,
            >(text@),
            Err(e) => spec_value_at(value@, crypt.iv@, crypt.key_view(), unix_time) == Err::<
                Seq<char>,
                GetValueError,
            >(e),
        },
{
    match plaintext_value_of(value, crypt) {
        Ok(PlaintextValue::Manual { value, .. }) => Ok(value),
        Ok(PlaintextValue::Totp { secret, .. }) => totp_value(secret.as_str(), unix_time),
        Err(e) => Err(e),
    }
}

/// The kind of a value.
pub fn kind_of(value: &Value) -> (kind: ValueKind)
    ensures
        kind == value@.kind(),
{
    match value {
        Value::Basic(_) => ValueKind::Basic,
        Value::Protected(_) => ValueKind::Protected,
        Value::Totp { .. } => ValueKind::Totp,
    }
}

/// A view of one field for reading.
pub struct FieldRef<'a> {
    pub field: &'a Field,
    pub crypt: CryptStateRef<'a>,
}

impl<'a> FieldRef<'a> {
    /// The name of the field.
    pub fn name(&self) -> (name: &'a str)
        ensures
            name@ == self.field@.name,
    {
        self.field.name.as_str()
    }

    /// The kind of value that the field holds.
    pub fn value_kind(&self) -> (kind: ValueKind)
        ensures
            kind == self.field@.value.kind(),
    {
        kind_of(&self.field.value)
    }

    /// What is shown for the field at `unix_time`, seconds since the epoch.
    pub fn value_at(&self, unix_time: u64) -> (r: Result<String, GetValueError>)
        requires
            self.crypt.wf(),
        ensures
            match r {
                Ok(text) => spec_value_at(
                    self.field@.value,
                    self.crypt.iv@,
                    self.crypt.key_view(),
                    unix_time,
                ) == Ok::<Seq<char>, GetValueError>(text@),
                Err(e) => spec_value_at(
                    self.field@.value,
                    self.crypt.iv@,
                    self.crypt.key_view(),
                    unix_time,
                ) == Err::<Seq<char>, GetValueError>(e),
            },
    {
        value_at(&self.field.value, self.crypt, unix_time)
    }

    /// What is shown for the field now. For a seed that is the one-time
    /// password of the running slice; for any other value the time does not
    /// matter.
    pub fn value(&self) -> (r: Result<String, GetValueError>)
        requires
            self.crypt.wf(),
        ensures
            exists|unix_time: u64|
                match r {
                    Ok(text) => #[trigger] spec_value_at(
                        self.field@.value,
                        self.crypt.iv@,
                        self.crypt.key_view(),
                        unix_time,
                    ) == Ok::<Seq<char>, GetValueError>(text@),
                    Err(e) => spec_value_at(
                        self.field@.value,
                        self.crypt.iv@,
                        self.crypt.key_view(),
                        unix_time,
                    ) == Err::<Seq<char>, GetValueError>(e),
                },
    {
        let now = Timestamp::now();
        self.value_at(now.secs_since_epoch)
    }

    /// The value of the field as it is entered and edited.
    pub fn plaintext_value(&self) -> (r: Result<PlaintextValue, GetValueError>)
        requires
            self.crypt.wf(),
        ensures
            match r {
                Ok(p) => spec_plaintext_value(
                    self.field@.value,
                    self.crypt.iv@,
                    self.crypt.key_view(),
                ) == Ok::<PlainValueView, GetValueError>(p@),
                Err(e) => spec_plaintext_value(
                    self.field@.value,
                    self.crypt.iv@,
                    self.crypt.key_view(),
                ) == Err::<PlainValueView, GetValueError>(e),
            },
    {
        plaintext_value_of(&self.field.value, self.crypt)
    }
}

/// A view of one entry for reading.
pub struct EntryRef<'a> {
    pub entry: &'a Entry,
    pub crypt: CryptStateRef<'a>,
}

impl<'a> EntryRef<'a> {
    /// The name of the entry.
    pub fn name(&self) -> (name: &'a str)
        ensures
            name@ == self.entry@.name,
    {
        self.entry.name.as_str()
    }

    /// The tags of the entry, in their order.
    pub fn tags(&self) -> (tags: Vec<&'a str>)
        ensures
            tags@.len() == self.entry@.tags.len(),
            forall|i: int| 0 <= i < tags@.len() ==> (#[trigger] tags@[i])@ == self.entry@.tags[i],
    {
        borrow_strings(&self.entry.tags)
    }

    /// When the entry was made.
    pub fn first_added(&self) -> (t: Timestamp)
        ensures
            t == self.entry@.first_added,
    {
        self.entry.first_added
    }

    /// When the entry or one of its fields was last changed.
    pub fn last_update(&self) -> (t: Timestamp)
        ensures
            t == self.entry@.last_update,
    {
        self.entry.last_update
    }

    /// The field at `idx`.
    pub fn field(&self, idx: usize) -> (r: FieldRef<'a>)
        requires
            idx < self.entry@.fields.len(),
        ensures
            *r.field == self.entry.fields@[idx as int],
            r.field@ == self.entry@.fields[idx as int],
            r.crypt == self.crypt,
    {
        FieldRef { field: &self.entry.fields[idx], crypt: self.crypt }
    }

    /// The number of fields.
    pub fn num_fields(&self) -> (n: usize)
        ensures
            n == self.entry@.fields.len(),
    {
        self.entry.fields.len()
    }
}

/// The parts of a field that is being put together, before it is set.
pub struct FieldBuilder {
    pub name: Option<String>,
    pub value: Option<PlaintextValue>,
}

impl FieldBuilder {
    /// Announces a field of plain or protected text. Every builder of this
    /// format takes one.
    pub fn make_manual(&mut self)
        ensures
            *final(self) == *old(self),
    {
    }

    /// Announces the seed of a one-time password, which this format holds.
    pub fn make_totp(&mut self) -> (r: Result<(), UnsupportedFeature>)
        ensures
            r is Ok,
            *final(self) == *old(self),
    {
        Ok(())
    }

    /// Gives the field its name.
    pub fn set_name(&mut self, name: String)
        ensures
            final(self).name == Some(name),
            final(self).value == old(self).value,
    {
        self.name = Some(name);
    }

    /// Gives the field its value.
    pub fn set_value(&mut self, value: PlaintextValue)
        ensures
            final(self).value == Some(value),
            final(self).name == old(self).name,
    {
        self.value = Some(value);
    }
}

/// The error with which a value is refused while the store is locked, if it
/// is: text that is to be protected and seeds need the key.
pub open spec fn spec_set_field_refusal(p: PlainValueView, key: Option<Seq<u8>>) -> Option<
    SetFieldError,
> {
    if key is None && p != (PlainValueView::Manual { value: p->value, protected: false }) {
        Some(SetFieldError::ContentsNotUnlocked(ValueKind::Totp))
    } else {
        None
    }
}

/// Turns a value as it was entered into the value that is kept, encrypting
/// what is to be protected.
pub fn keep_value(value: PlaintextValue, crypt: CryptStateRef<'_>) -> (r: Result<
    Value,
    SetFieldError,
>)
    requires
        crypt.wf(),
    ensures
        match r {
            Ok(v) => spec_set_field_refusal(value@, crypt.key_view()) is None && (match
                crypt.key_view() {
                Some(k) => spec_value_keeps(v@, value@, crypt.iv@, k),
                None => v@ == ValueView::Basic(value@->value),
            }),
            Err(e) => spec_set_field_refusal(value@, crypt.key_view()) == Some(e),
        },
{
    match value {
        PlaintextValue::Manual { value, protected } => {
            if !protected {
                Ok(Value::Basic(value))
            } else {
                match crypt.key {
                    Some(k) => Ok(
                        Value::Protected(Base64Vec(encrypt_string(value.as_str(), crypt.iv, k))),
                    ),
                    None => Err(SetFieldError::ContentsNotUnlocked(ValueKind::Totp)),
                }
            }
        },
        PlaintextValue::Totp { issuer, secret } => {
            match crypt.key {
                Some(k) => Ok(
                    Value::Totp {
                        issuer,
                        secret: Base64Vec(encrypt_string(secret.as_str(), crypt.iv, k)),
                    },
                ),
                None => Err(SetFieldError::ContentsNotUnlocked(ValueKind::Totp)),
            }
        },
    }
}

/// A view of one field for reading and changing. What it changes it changes
/// in the store that it was taken from.
pub struct FieldMut<'a> {
    pub field: &'a mut Field,
    pub crypt: CryptStateRef<'a>,
    pub unsaved: &'a mut bool,
    pub entry_update: &'a mut Timestamp,
    pub global_update: &'a mut Timestamp,
}

impl<'a> FieldMut<'a> {
    /// The name of the field.
    pub fn name(&self) -> (name: &str)
        ensures
            name@ == old(self.field)@.name,
    {
        self.field.name.as_str()
    }

    /// The kind of value that the field holds.
    pub fn value_kind(&self) -> (kind: ValueKind)
        ensures
            kind == old(self.field)@.value.kind(),
    {
        kind_of(&self.field.value)
    }

    /// What is shown for the field at `unix_time`, seconds since the epoch.
    pub fn value_at(&self, unix_time: u64) -> (r: Result<String, GetValueError>)
        requires
            self.crypt.wf(),
        ensures
            match r {
                Ok(text) => spec_value_at(
                    old(self.field)@.value,
                    self.crypt.iv@,
                    self.crypt.key_view(),
                    unix_time,
                ) == Ok::<Seq<char>, GetValueError>(text@),
                Err(e) => spec_value_at(
                    old(self.field)@.value,
                    self.crypt.iv@,
                    self.crypt.key_view(),
                    unix_time,
                ) == Err::<Seq<char>, GetValueError>(e),
            },
    {
        value_at(&self.field.value, self.crypt, unix_time)
    }

    /// What is shown for the field now.
    pub fn value(&self) -> (r: Result<String, GetValueError>)
        requires
            self.crypt.wf(),
        ensures
            exists|unix_time: u64|
                match r {
                    Ok(text) => #[trigger] spec_value_at(
                        old(self.field)@.value,
                        self.crypt.iv@,
                        self.crypt.key_view(),
                        unix_time,
                    ) == Ok::<Seq<char>, GetValueError>(text@),
                    Err(e) => spec_value_at(
                        old(self.field)@.value,
                        self.crypt.iv@,
                        self.crypt.key_view(),
                        unix_time,
                    ) == Err::<Seq<char>, GetValueError>(e),
                },
    {
        let now = Timestamp::now();
        self.value_at(now.secs_since_epoch)
    }

    /// The value of the field as it is entered and edited.
    pub fn plaintext_value(&self) -> (r: Result<PlaintextValue, GetValueError>)
        requires
            self.crypt.wf(),
        ensures
            match r {
                Ok(p) => spec_plaintext_value(
                    old(self.field)@.value,
                    self.crypt.iv@,
                    self.crypt.key_view(),
                ) == Ok::<PlainValueView, GetValueError>(p@),
                Err(e) => spec_plaintext_value(
                    old(self.field)@.value,
                    self.crypt.iv@,
                    self.crypt.key_view(),
                ) == Err::<PlainValueView, GetValueError>(e),
            },
    {
        plaintext_value_of(&self.field.value, self.crypt)
    }

    /// Records a change made at `now`: the entry and the store were last
    /// updated then, and the store has something to save.
    pub fn updated_at(&mut self, now: Timestamp)
        ensures
            *final(self).entry_update == now,
            *final(self).global_update == now,
            *final(self).unsaved,
            now.at_or_after(*old(self).entry_update) ==> final(self).entry_update.at_or_after(
                *old(self).entry_update,
            ) && final(self).global_update.at_or_after(*old(self).entry_update),
            *final(self).field == *old(self).field,
            final(self).crypt == old(self).crypt,
            *final(final(self).field) == *final(old(self).field),
            *final(final(self).unsaved) == *final(old(self).unsaved),
            *final(final(self).entry_update) == *final(old(self).entry_update),
            *final(final(self).global_update) == *final(old(self).global_update),
    {
        *self.entry_update = now;
        *self.global_update = now;
        *self.unsaved = true;
    }

    /// Records a change made now.
    fn updated(&mut self)
        ensures
            *final(self).entry_update == *final(self).global_update,
            *final(self).unsaved,
            *final(self).field == *old(self).field,
            final(self).crypt == old(self).crypt,
            *final(final(self).field) == *final(old(self).field),
            *final(final(self).unsaved) == *final(old(self).unsaved),
            *final(final(self).entry_update) == *final(old(self).entry_update),
            *final(final(self).global_update) == *final(old(self).global_update),
    {
        self.updated_at(Timestamp::now());
    }

    /// Moves the field between plain and protected, and records the change
    /// as made at `now`. A field that is refused stays as it was, and nothing
    /// is recorded as changed.
    pub fn swap_encryption_at(&mut self, now: Timestamp) -> (r: Result<(), SwapEncryptionError>)
        requires
            old(self).crypt.wf(),
        ensures
            final(self).crypt == old(self).crypt,
            *final(final(self).field) == *final(old(self).field),
            *final(final(self).unsaved) == *final(old(self).unsaved),
            *final(final(self).entry_update) == *final(old(self).entry_update),
            *final(final(self).global_update) == *final(old(self).global_update),
            final(self).field@.name == old(self).field@.name,
            match r {
                Ok(()) => {
                    &&& old(self).crypt.key_view() matches Some(k)
                    &&& match old(self).field@.value {
                        ValueView::Basic(s) => final(self).field@.value matches ValueView::Protected(
                            bs,
                        ) && spec_holds_text(bs, s, old(self).crypt.iv@, k),
                        ValueView::Protected(bs) => spec_decrypt_string(
                            bs,
                            old(self).crypt.iv@,
                            k,
                        ) == Ok::<Seq<char>, DecryptError>(final(self).field@.value->Basic_0)
                            && final(self).field@.value is Basic,
                        ValueView::Totp { .. } => false,
                    }
                    &&& *final(self).entry_update == *final(self).global_update
                    &&& *final(self).unsaved
                },
                Err(e) => {
                    &&& e == spec_swap_refusal(
                        old(self).field@.value,
                        old(self).crypt.iv@,
                        old(self).crypt.key_view(),
                    )->0
                    &&& spec_swap_refusal(
                        old(self).field@.value,
                        old(self).crypt.iv@,
                        old(self).crypt.key_view(),
                    ) is Some
                    &&& *final(self).field == *old(self).field
                    &&& *final(self).entry_update == *old(self).entry_update
                    &&& *final(self).global_update == *old(self).global_update
                    &&& *final(self).unsaved == *old(self).unsaved
                },
            },
            r is Ok ==> {
                &&& *final(self).entry_update == now
                &&& *final(self).global_update == now
                &&& now.at_or_after(*old(self).entry_update)
                    ==> final(self).entry_update.at_or_after(*old(self).entry_update)
                    && final(self).global_update.at_or_after(*old(self).entry_update)
            },
    {
        let key = match self.crypt.key {
            Some(k) => k,
            None => return Err(SwapEncryptionError::ContentsNotUnlocked),
        };
        let new_val = match &self.field.value {
            Value::Basic(s) => Value::Protected(
                Base64Vec(encrypt_string(s.as_str(), self.crypt.iv, key)),
            ),
            Value::Protected(bs) => match decrypt_string(bs.as_ref(), self.crypt.iv, key) {
                Ok(s) => Value::Basic(s),
                Err(e) => return Err(SwapEncryptionError::Decrypt(e)),
            },
            Value::Totp { .. } => return Err(SwapEncryptionError::IsTotp),
        };
        self.field.value = new_val;
        self.updated_at(now);
        Ok(())
    }

    /// Moves the field between plain and protected: plain text is encrypted,
    /// protected text decrypted. Refused while the store is locked, for a seed,
    /// and for a ciphertext that does not decrypt to text; a field that is
    /// refused stays as it was, and nothing is recorded as changed.
    pub fn swap_encryption(&mut self) -> (r: Result<(), SwapEncryptionError>)
        requires
            old(self).crypt.wf(),
        ensures
            final(self).crypt == old(self).crypt,
            *final(final(self).field) == *final(old(self).field),
            *final(final(self).unsaved) == *final(old(self).unsaved),
            *final(final(self).entry_update) == *final(old(self).entry_update),
            *final(final(self).global_update) == *final(old(self).global_update),
            final(self).field@.name == old(self).field@.name,
            match r {
                Ok(()) => {
                    &&& old(self).crypt.key_view() matches Some(k)
                    &&& match old(self).field@.value {
                        ValueView::Basic(s) => final(self).field@.value matches ValueView::Protected(
                            bs,
                        ) && spec_holds_text(bs, s, old(self).crypt.iv@, k),
                        ValueView::Protected(bs) => spec_decrypt_string(
                            bs,
                            old(self).crypt.iv@,
                            k,
                        ) == Ok::<Seq<char>, DecryptError>(final(self).field@.value->Basic_0)
                            && final(self).field@.value is Basic,
                        ValueView::Totp { .. } => false,
                    }
                    &&& *final(self).entry_update == *final(self).global_update
                    &&& *final(self).unsaved
                },
                Err(e) => {
                    &&& e == spec_swap_refusal(
                        old(self).field@.value,
                        old(self).crypt.iv@,
                        old(self).crypt.key_view(),
                    )->0
                    &&& spec_swap_refusal(
                        old(self).field@.value,
                        old(self).crypt.iv@,
                        old(self).crypt.key_view(),
                    ) is Some
                    &&& *final(self).field == *old(self).field
                    &&& *final(self).entry_update == *old(self).entry_update
                    &&& *final(self).global_update == *old(self).global_update
                    &&& *final(self).unsaved == *old(self).unsaved
                },
            },
    {
        self.swap_encryption_at(Timestamp::now())
    }
}

/// A view of one entry for reading and changing. What it changes it changes
/// in the store that it was taken from.
pub struct EntryMut<'a> {
    pub entry: &'a mut Entry,
    pub crypt: CryptStateRef<'a>,
    pub unsaved: &'a mut bool,
    pub global_update: &'a mut Timestamp,
}

impl<'a> EntryMut<'a> {
    /// The name of the entry.
    pub fn name(&self) -> (name: &str)
        ensures
            name@ == old(self.entry)@.name,
    {
        self.entry.name.as_str()
    }

    /// The tags of the entry, in their order.
    pub fn tags(&self) -> (tags: Vec<&str>)
        ensures
            tags@.len() == old(self.entry)@.tags.len(),
            forall|i: int|
                0 <= i < tags@.len() ==> (#[trigger] tags@[i])@ == old(self.entry)@.tags[i],
    {
        borrow_strings(&self.entry.tags)
    }

    /// When the entry was made.
    pub fn first_added(&self) -> (t: Timestamp)
        ensures
            t == old(self.entry)@.first_added,
    {
        self.entry.first_added
    }

    /// When the entry or one of its fields was last changed.
    pub fn last_update(&self) -> (t: Timestamp)
        ensures
            t == old(self.entry)@.last_update,
    {
        self.entry.last_update
    }

    /// The field at `idx`, for reading.
    pub fn field(&self, idx: usize) -> (r: FieldRef<'_>)
        requires
            idx < old(self.entry)@.fields.len(),
        ensures
            *r.field == old(self.entry).fields@[idx as int],
            r.field@ == old(self.entry)@.fields[idx as int],
            r.crypt == self.crypt,
    {
        FieldRef { field: &self.entry.fields[idx], crypt: self.crypt }
    }

    /// The number of fields.
    pub fn num_fields(&self) -> (n: usize)
        ensures
            n == old(self.entry)@.fields.len(),
    {
        self.entry.fields.len()
    }

    /// Records a change made at `now`: the entry and the store were last
    /// updated then, and the store has something to save.
    pub fn updated_at(&mut self, now: Timestamp)
        ensures
            *final(self).entry == (Entry { last_update: now, ..*old(self).entry }),
            *final(self).global_update == now,
            *final(self).unsaved,
            now.at_or_after(old(self).entry.last_update)
                ==> final(self).entry.last_update.at_or_after(old(self).entry.last_update)
                && final(self).global_update.at_or_after(old(self).entry.last_update),
            final(self).crypt == old(self).crypt,
            *final(final(self).entry) == *final(old(self).entry),
            *final(final(self).unsaved) == *final(old(self).unsaved),
            *final(final(self).global_update) == *final(old(self).global_update),
    {
        self.entry.last_update = now;
        *self.global_update = now;
        *self.unsaved = true;
    }

    /// Records a change made now.
    fn updated(&mut self)
        ensures
            *final(self).entry == (Entry {
                last_update: final(self).entry.last_update,
                ..*old(self).entry
            }),
            final(self).entry.last_update == *final(self).global_update,
            *final(self).unsaved,
            final(self).crypt == old(self).crypt,
            *final(final(self).entry) == *final(old(self).entry),
            *final(final(self).unsaved) == *final(old(self).unsaved),
            *final(final(self).global_update) == *final(old(self).global_update),
    {
        self.updated_at(Timestamp::now());
    }

    /// Gives the entry another name, and records the change as made at `now`.
    pub fn set_name_at(&mut self, name: String, now: Timestamp)
        ensures
            *final(self).entry == (Entry {
                name,
                last_update: final(self).entry.last_update,
                ..*old(self).entry
            }),
            final(self).entry.last_update == *final(self).global_update,
            *final(self).unsaved,
            final(self).crypt == old(self).crypt,
            *final(final(self).entry) == *final(old(self).entry),
            *final(final(self).unsaved) == *final(old(self).unsaved),
            *final(final(self).global_update) == *final(old(self).global_update),
            final(self).entry.last_update == now,
            *final(self).global_update == now,
            now.at_or_after(old(self).entry.last_update)
                ==> final(self).entry.last_update.at_or_after(old(self).entry.last_update)
                && final(self).global_update.at_or_after(old(self).entry.last_update),
    {
        self.entry.name = name;
        self.updated_at(now);
    }

    /// Gives the entry another name, and records the change.
    pub fn set_name(&mut self, name: String)
        ensures
            *final(self).entry == (Entry {
                name,
                last_update: final(self).entry.last_update,
                ..*old(self).entry
            }),
            final(self).entry.last_update == *final(self).global_update,
            *final(self).unsaved,
            final(self).crypt == old(self).crypt,
            *final(final(self).entry) == *final(old(self).entry),
            *final(final(self).unsaved) == *final(old(self).unsaved),
            *final(final(self).global_update) == *final(old(self).global_update),
    {
        self.set_name_at(name, Timestamp::now())
    }

    /// Gives the entry other tags, and records the change as made at `now`.
    pub fn set_tags_at(&mut self, tags: Vec<String>, now: Timestamp)
        ensures
            *final(self).entry == (Entry {
                tags,
                last_update: final(self).entry.last_update,
                ..*old(self).entry
            }),
            final(self).entry.last_update == *final(self).global_update,
            *final(self).unsaved,
            final(self).crypt == old(self).crypt,
            *final(final(self).entry) == *final(old(self).entry),
            *final(final(self).unsaved) == *final(old(self).unsaved),
            *final(final(self).global_update) == *final(old(self).global_update),
            final(self).entry.last_update == now,
            *final(self).global_update == now,
            now.at_or_after(old(self).entry.last_update)
                ==> final(self).entry.last_update.at_or_after(old(self).entry.last_update)
                && final(self).global_update.at_or_after(old(self).entry.last_update),
    {
        self.entry.tags = tags;
        self.updated_at(now);
    }

    /// Gives the entry other tags, and records the change.
    pub fn set_tags(&mut self, tags: Vec<String>)
        ensures
            *final(self).entry == (Entry {
                tags,
                last_update: final(self).entry.last_update,
                ..*old(self).entry
            }),
            final(self).entry.last_update == *final(self).global_update,
            *final(self).unsaved,
            final(self).crypt == old(self).crypt,
            *final(final(self).entry) == *final(old(self).entry),
            *final(final(self).unsaved) == *final(old(self).unsaved),
            *final(final(self).global_update) == *final(old(self).global_update),
    {
        self.set_tags_at(tags, Timestamp::now())
    }

    /// The field at `idx`, for reading and changing.
    pub fn field_mut(&mut self, idx: usize) -> (r: FieldMut<'_>)
        requires
            idx < old(self).entry.fields@.len(),
        ensures
            *r.field == old(self).entry.fields@[idx as int],
            r.crypt == old(self).crypt,
            *r.unsaved == *old(self).unsaved,
            *r.entry_update == old(self).entry.last_update,
            *r.global_update == *old(self).global_update,
            final(self).entry.fields@ == old(self).entry.fields@.update(
                idx as int,
                *final(r.field),
            ),
            final(self).entry.name == old(self).entry.name,
            final(self).entry.tags == old(self).entry.tags,
            final(self).entry.first_added == old(self).entry.first_added,
            final(self).entry.last_update == *final(r.entry_update),
            *final(self).unsaved == *final(r.unsaved),
            *final(self).global_update == *final(r.global_update),
            final(self).crypt == old(self).crypt,
            *final(final(self).entry) == *final(old(self).entry),
            *final(final(self).unsaved) == *final(old(self).unsaved),
            *final(final(self).global_update) == *final(old(self).global_update),
    {
        FieldMut {
            field: &mut self.entry.fields[idx],
            crypt: self.crypt,
            unsaved: &mut *self.unsaved,
            entry_update: &mut self.entry.last_update,
            global_update: &mut *self.global_update,
        }
    }

    /// A builder for a field of this entry, with nothing set.
    pub fn field_builder(&self) -> (builder: FieldBuilder)
        ensures
            builder.name is None,
            builder.value is None,
    {
        FieldBuilder { name: None, value: None }
    }

    /// Sets the field at `idx` to what the builder holds, or adds it as a new
    /// last field where `idx` is the number of fields, and records the change
    /// as made at `now`. A value that has to be encrypted is refused while the
    /// store is locked; the entry then stays as it was.
    pub fn set_field_at(&mut self, idx: usize, builder: FieldBuilder, now: Timestamp) -> (r:
        Result<(), SetFieldError>)
        requires
            old(self).crypt.wf(),
            builder.name is Some,
            builder.value is Some,
            idx <= old(self).entry.fields@.len(),
        ensures
            final(self).crypt == old(self).crypt,
            *final(final(self).entry) == *final(old(self).entry),
            *final(final(self).unsaved) == *final(old(self).unsaved),
            *final(final(self).global_update) == *final(old(self).global_update),
            match r {
                Ok(()) => {
                    &&& spec_set_field_refusal(builder.value->0@, old(self).crypt.key_view())
                        is None
                    &&& final(self).entry@.fields.len() == if idx == old(self).entry@.fields.len() {
                        idx + 1
                    } else {
                        old(self).entry@.fields.len() as int
                    }
                    &&& final(self).entry@.fields[idx as int].name == builder.name->0@
                    &&& match old(self).crypt.key_view() {
                        Some(k) => spec_value_keeps(
                            final(self).entry@.fields[idx as int].value,
                            builder.value->0@,
                            old(self).crypt.iv@,
                            k,
                        ),
                        None => final(self).entry@.fields[idx as int].value == ValueView::Basic(
                            builder.value->0@->value,
                        ),
                    }
                    &&& forall|j: int|
                        0 <= j < old(self).entry@.fields.len() && j != idx
                            ==> #[trigger] final(self).entry@.fields[j]
                            == old(self).entry@.fields[j]
                    &&& final(self).entry.name == old(self).entry.name
                    &&& final(self).entry.tags == old(self).entry.tags
                    &&& final(self).entry.first_added == old(self).entry.first_added
                    &&& final(self).entry.last_update == *final(self).global_update
                    &&& *final(self).unsaved
                },
                Err(e) => {
                    &&& spec_set_field_refusal(builder.value->0@, old(self).crypt.key_view())
                        == Some(e)
                    &&& *final(self).entry == *old(self).entry
                    &&& *final(self).global_update == *old(self).global_update
                    &&& *final(self).unsaved == *old(self).unsaved
                },
            },
            r is Ok ==> {
                &&& final(self).entry.last_update == now
                &&& *final(self).global_update == now
                &&& now.at_or_after(old(self).entry.last_update)
                ==> final(self).entry.last_update.at_or_after(old(self).entry.last_update)
                && final(self).global_update.at_or_after(old(self).entry.last_update)
            },
    {
        let name = builder.name.unwrap();
        let value = match keep_value(builder.value.unwrap(), self.crypt) {
            Ok(v) => v,
            Err(e) => return Err(e),
        };
        let field = Field { name, value };
        if idx == self.entry.fields.len() {
            self.entry.fields.push(field);
        } else {
            self.entry.fields[idx] = field;
        }
        self.updated_at(now);
        Ok(())
    }

    /// Sets the field at `idx` to what the builder holds, or adds it as a new
    /// last field where `idx` is the number of fields, and records the change.
    /// Text that is to be protected and seeds are encrypted, and refused
    /// while the store is locked; the entry then stays as it was.
    pub fn set_field(&mut self, idx: usize, builder: FieldBuilder) -> (r: Result<(), SetFieldError>)
        requires
            old(self).crypt.wf(),
            builder.name is Some,
            builder.value is Some,
            idx <= old(self).entry.fields@.len(),
        ensures
            final(self).crypt == old(self).crypt,
            *final(final(self).entry) == *final(old(self).entry),
            *final(final(self).unsaved) == *final(old(self).unsaved),
            *final(final(self).global_update) == *final(old(self).global_update),
            match r {
                Ok(()) => {
                    &&& spec_set_field_refusal(builder.value->0@, old(self).crypt.key_view())
                        is None
                    &&& final(self).entry@.fields.len() == if idx == old(self).entry@.fields.len() {
                        idx + 1
                    } else {
                        old(self).entry@.fields.len() as int
                    }
                    &&& final(self).entry@.fields[idx as int].name == builder.name->0@
                    &&& match old(self).crypt.key_view() {
                        Some(k) => spec_value_keeps(
                            final(self).entry@.fields[idx as int].value,
                            builder.value->0@,
                            old(self).crypt.iv@,
                            k,
                        ),
                        None => final(self).entry@.fields[idx as int].value == ValueView::Basic(
                            builder.value->0@->value,
                        ),
                    }
                    &&& forall|j: int|
                        0 <= j < old(self).entry@.fields.len() && j != idx
                            ==> #[trigger] final(self).entry@.fields[j]
                            == old(self).entry@.fields[j]
                    &&& final(self).entry.name == old(self).entry.name
                    &&& final(self).entry.tags == old(self).entry.tags
                    &&& final(self).entry.first_added == old(self).entry.first_added
                    &&& final(self).entry.last_update == *final(self).global_update
                    &&& *final(self).unsaved
                },
                Err(e) => {
                    &&& spec_set_field_refusal(builder.value->0@, old(self).crypt.key_view())
                        == Some(e)
                    &&& *final(self).entry == *old(self).entry
                    &&& *final(self).global_update == *old(self).global_update
                    &&& *final(self).unsaved == *old(self).unsaved
                },
            },
    {
        self.set_field_at(idx, builder, Timestamp::now())
    }

    /// Takes the field at `idx` out of the entry, and records the change as
    /// made at `now`.
    pub fn remove_field_at(&mut self, idx: usize, now: Timestamp)
        requires
            idx < old(self).entry.fields@.len(),
        ensures
            final(self).entry.fields@ == old(self).entry.fields@.remove(idx as int),
            final(self).entry@.fields == old(self).entry@.fields.remove(idx as int),
            final(self).entry.name == old(self).entry.name,
            final(self).entry.tags == old(self).entry.tags,
            final(self).entry.first_added == old(self).entry.first_added,
            final(self).entry.last_update == *final(self).global_update,
            *final(self).unsaved,
            final(self).crypt == old(self).crypt,
            *final(final(self).entry) == *final(old(self).entry),
            *final(final(self).unsaved) == *final(old(self).unsaved),
            *final(final(self).global_update) == *final(old(self).global_update),
            final(self).entry.last_update == now,
            *final(self).global_update == now,
            now.at_or_after(old(self).entry.last_update)
                ==> final(self).entry.last_update.at_or_after(old(self).entry.last_update)
                && final(self).global_update.at_or_after(old(self).entry.last_update),
    {
        self.entry.fields.remove(idx);
        self.updated_at(now);
        assert(self.entry@.fields =~= old(self).entry@.fields.remove(idx as int));
    }

    /// Takes the field at `idx` out of the entry, and records the change.
    pub fn remove_field(&mut self, idx: usize)
        requires
            idx < old(self).entry.fields@.len(),
        ensures
            final(self).entry.fields@ == old(self).entry.fields@.remove(idx as int),
            final(self).entry@.fields == old(self).entry@.fields.remove(idx as int),
            final(self).entry.name == old(self).entry.name,
            final(self).entry.tags == old(self).entry.tags,
            final(self).entry.first_added == old(self).entry.first_added,
            final(self).entry.last_update == *final(self).global_update,
            *final(self).unsaved,
            final(self).crypt == old(self).crypt,
            *final(final(self).entry) == *final(old(self).entry),
            *final(final(self).unsaved) == *final(old(self).unsaved),
            *final(final(self).global_update) == *final(old(self).global_update),
    {
        self.remove_field_at(idx, Timestamp::now())
    }
}

impl Keyed<FileContent> {
    /// The vector and the key of the store, for an accessor.
    pub fn crypt_state(&self) -> (crypt: CryptStateRef<'_>)
        requires
            self.wf(),
        ensures
            crypt.iv@ == self.content.iv@,
            crypt.key_view() == key_view(self.key),
            crypt.wf(),
    {
        let key: Option<&[u8]> = match &self.key {
            Some(k) => Some(k.as_slice()),
            None => None,
        };
        CryptStateRef { iv: self.content.iv.as_ref(), key }
    }

    /// The entry at `idx`, for reading.
    pub fn entry(&self, idx: usize) -> (r: EntryRef<'_>)
        requires
            self.wf(),
            idx < self.content.inner@.len(),
        ensures
            *r.entry == self.content.inner@[idx as int],
            r.entry@ == self.content@.entries[idx as int],
            r.crypt.iv@ == self.content.iv@,
            r.crypt.key_view() == key_view(self.key),
            r.crypt.wf(),
    {
        EntryRef { entry: &self.content.inner[idx], crypt: self.crypt_state() }
    }

    /// The entry at `idx`, for reading and changing.
    pub fn entry_mut(&mut self, idx: usize) -> (r: EntryMut<'_>)
        requires
            old(self).wf(),
            idx < old(self).content.inner@.len(),
        ensures
            *r.entry == old(self).content.inner@[idx as int],
            r.crypt.iv@ == old(self).content.iv@,
            r.crypt.key_view() == key_view(old(self).key),
            r.crypt.wf(),
            *r.unsaved == old(self).unsaved,
            *r.global_update == old(self).content.last_update,
            final(self).content.inner@ == old(self).content.inner@.update(
                idx as int,
                *final(r.entry),
            ),
            final(self).unsaved == *final(r.unsaved),
            final(self).content.last_update == *final(r.global_update),
            final(self).content.version == old(self).content.version,
            final(self).content.token == old(self).content.token,
            final(self).content.iv == old(self).content.iv,
            final(self).content.salt == old(self).content.salt,
            final(self).key == old(self).key,
            final(self).wf(),
    {
        let key: Option<&[u8]> = match &self.key {
            Some(k) => Some(k.as_slice()),
            None => None,
        };
        EntryMut {
            entry: &mut self.content.inner[idx],
            crypt: CryptStateRef { iv: self.content.iv.0.as_slice(), key },
            unsaved: &mut self.unsaved,
            global_update: &mut self.content.last_update,
        }
    }

    /// Adds an entry of the given name, made at `now`, after the others, and
    /// gives its index. The entry has neither tags nor fields.
    pub fn add_empty_entry_at(&mut self, name: String, now: Timestamp) -> (idx: usize)
        ensures
            idx == old(self).content@.entries.len(),
            final(self).content@ == (ContentView {
                last_update: now,
                entries: old(self).content@.entries.push(
                    EntryView {
                        name: name@,
                        tags: Seq::empty(),
                        fields: Seq::empty(),
                        first_added: now,
                        last_update: now,
                    },
                ),
                ..old(self).content@
            }),
            final(self).content.version == old(self).content.version,
            final(self).content.iv == old(self).content.iv,
            final(self).key == old(self).key,
            final(self).unsaved,
    {
        let idx: usize = self.num_entries();
        let entry = Entry {
            name,
            tags: Vec::new(),
            fields: Vec::new(),
            first_added: now,
            last_update: now,
        };
        assert(entry@.tags =~= Seq::empty());
        assert(entry@.fields =~= Seq::empty());
        self.content.inner.push(entry);
        self.content.last_update = now;
        self.unsaved = true;
        assert(self.content@.entries =~= old(self).content@.entries.push(entry@));
        idx
    }

    /// Adds an entry of the given name, made now, after the others, and gives
    /// its index. The entry has neither tags nor fields.
    pub fn add_empty_entry(&mut self, name: String) -> (idx: usize)
        ensures
            idx == old(self).content@.entries.len(),
            final(self).content@ == (ContentView {
                last_update: final(self).content.last_update,
                entries: old(self).content@.entries.push(
                    EntryView {
                        name: name@,
                        tags: Seq::empty(),
                        fields: Seq::empty(),
                        first_added: final(self).content.last_update,
                        last_update: final(self).content.last_update,
                    },
                ),
                ..old(self).content@
            }),
            final(self).content.version == old(self).content.version,
            final(self).content.iv == old(self).content.iv,
            final(self).key == old(self).key,
            final(self).unsaved,
    {
        self.add_empty_entry_at(name, Timestamp::now())
    }

    /// Takes the entry at `idx` out of the store, at `now`.
    pub fn remove_entry_at(&mut self, idx: usize, now: Timestamp)
        requires
            idx < old(self).content.inner@.len(),
        ensures
            final(self).content@ == (ContentView {
                last_update: now,
                entries: old(self).content@.entries.remove(idx as int),
                ..old(self).content@
            }),
            final(self).content.version == old(self).content.version,
            final(self).content.iv == old(self).content.iv,
            final(self).key == old(self).key,
            final(self).unsaved,
    {
        self.content.inner.remove(idx);
        self.content.last_update = now;
        self.unsaved = true;
        assert(self.content@.entries =~= old(self).content@.entries.remove(idx as int));
    }

    /// Takes the entry at `idx` out of the store.
    pub fn remove_entry(&mut self, idx: usize)
        requires
            idx < old(self).content.inner@.len(),
        ensures
            final(self).content@ == (ContentView {
                last_update: final(self).content.last_update,
                entries: old(self).content@.entries.remove(idx as int),
                ..old(self).content@
            }),
            final(self).content.version == old(self).content.version,
            final(self).content.iv == old(self).content.iv,
            final(self).key == old(self).key,
            final(self).unsaved,
    {
        self.remove_entry_at(idx, Timestamp::now());
    }
}

impl Keyed<FileContent> {
    /// Gives the entry at `idx` another name, and records the change as made
    /// at `now`.
    pub fn set_entry_name_at(&mut self, idx: usize, name: String, now: Timestamp)
        requires
            old(self).wf(),
            idx < old(self).content@.entries.len(),
        ensures
            final(self).wf(),
            final(self).key == old(self).key,
            final(self).unsaved,
            final(self).content@ == old(self).content@.with_entry(
                idx as int,
                EntryView {
                    name: name@,
                    last_update: final(self).content.last_update,
                    ..old(self).content@.entries[idx as int]
                },
                final(self).content.last_update,
            ),
            final(self).content.last_update == now,
            now.at_or_after(old(self).content@.entries[idx as int].last_update)
                ==> final(self).content@.entries[idx as int].last_update.at_or_after(
                old(self).content@.entries[idx as int].last_update,
            ) && final(self).content.last_update.at_or_after(
                old(self).content@.entries[idx as int].last_update,
            ),
    {
        self.entry_mut(idx).set_name_at(name, now);
        assert(self.content@.entries =~= old(self).content@.entries.update(
            idx as int,
            self.content.inner@[idx as int]@,
        ));
    }

    /// Gives the entry at `idx` another name, and records the change.
    pub fn set_entry_name(&mut self, idx: usize, name: String)
        requires
            old(self).wf(),
            idx < old(self).content@.entries.len(),
        ensures
            final(self).wf(),
            final(self).key == old(self).key,
            final(self).unsaved,
            final(self).content@ == old(self).content@.with_entry(
                idx as int,
                EntryView {
                    name: name@,
                    last_update: final(self).content.last_update,
                    ..old(self).content@.entries[idx as int]
                },
                final(self).content.last_update,
            ),
    {
        self.set_entry_name_at(idx, name, Timestamp::now())
    }

    /// Gives the entry at `idx` other tags, and records the change as made at
    /// `now`.
    pub fn set_entry_tags_at(&mut self, idx: usize, tags: Vec<String>, now: Timestamp)
        requires
            old(self).wf(),
            idx < old(self).content@.entries.len(),
        ensures
            final(self).wf(),
            final(self).key == old(self).key,
            final(self).unsaved,
            final(self).content@ == old(self).content@.with_entry(
                idx as int,
                EntryView {
                    tags: strings_view(tags@),
                    last_update: final(self).content.last_update,
                    ..old(self).content@.entries[idx as int]
                },
                final(self).content.last_update,
            ),
            final(self).content.last_update == now,
            now.at_or_after(old(self).content@.entries[idx as int].last_update)
                ==> final(self).content@.entries[idx as int].last_update.at_or_after(
                old(self).content@.entries[idx as int].last_update,
            ) && final(self).content.last_update.at_or_after(
                old(self).content@.entries[idx as int].last_update,
            ),
    {
        self.entry_mut(idx).set_tags_at(tags, now);
        assert(self.content@.entries =~= old(self).content@.entries.update(
            idx as int,
            self.content.inner@[idx as int]@,
        ));
    }

    /// Gives the entry at `idx` other tags, and records the change.
    pub fn set_entry_tags(&mut self, idx: usize, tags: Vec<String>)
        requires
            old(self).wf(),
            idx < old(self).content@.entries.len(),
        ensures
            final(self).wf(),
            final(self).key == old(self).key,
            final(self).unsaved,
            final(self).content@ == old(self).content@.with_entry(
                idx as int,
                EntryView {
                    tags: strings_view(tags@),
                    last_update: final(self).content.last_update,
                    ..old(self).content@.entries[idx as int]
                },
                final(self).content.last_update,
            ),
    {
        self.set_entry_tags_at(idx, tags, Timestamp::now())
    }

    /// Takes the field at `field` out of the entry at `idx`, and records the
    /// change as made at `now`.
    pub fn remove_entry_field_at(&mut self, idx: usize, field: usize, now: Timestamp)
        requires
            old(self).wf(),
            idx < old(self).content@.entries.len(),
            field < old(self).content@.entries[idx as int].fields.len(),
        ensures
            final(self).wf(),
            final(self).key == old(self).key,
            final(self).unsaved,
            final(self).content@ == old(self).content@.with_entry(
                idx as int,
                EntryView {
                    fields: old(self).content@.entries[idx as int].fields.remove(field as int),
                    last_update: final(self).content.last_update,
                    ..old(self).content@.entries[idx as int]
                },
                final(self).content.last_update,
            ),
            final(self).content.last_update == now,
            now.at_or_after(old(self).content@.entries[idx as int].last_update)
                ==> final(self).content@.entries[idx as int].last_update.at_or_after(
                old(self).content@.entries[idx as int].last_update,
            ) && final(self).content.last_update.at_or_after(
                old(self).content@.entries[idx as int].last_update,
            ),
    {
        self.entry_mut(idx).remove_field_at(field, now);
        assert(self.content@.entries =~= old(self).content@.entries.update(
            idx as int,
            self.content.inner@[idx as int]@,
        ));
    }

    /// Takes the field at `field` out of the entry at `idx`, and records the
    /// change.
    pub fn remove_entry_field(&mut self, idx: usize, field: usize)
        requires
            old(self).wf(),
            idx < old(self).content@.entries.len(),
            field < old(self).content@.entries[idx as int].fields.len(),
        ensures
            final(self).wf(),
            final(self).key == old(self).key,
            final(self).unsaved,
            final(self).content@ == old(self).content@.with_entry(
                idx as int,
                EntryView {
                    fields: old(self).content@.entries[idx as int].fields.remove(field as int),
                    last_update: final(self).content.last_update,
                    ..old(self).content@.entries[idx as int]
                },
                final(self).content.last_update,
            ),
    {
        self.remove_entry_field_at(idx, field, Timestamp::now())
    }

    /// Sets the field at `field` of the entry at `idx` to what the builder
    /// holds, or adds it as a new last field, and records the change as made
    /// at `now`. A value that has to be encrypted is refused while the store is
    /// locked, and the store then stays as it was.
    pub fn set_entry_field_at(&mut self, idx: usize, field: usize, builder: FieldBuilder, now: Timestamp) -> (r:
        Result<(), SetFieldError>)
        requires
            old(self).wf(),
            idx < old(self).content@.entries.len(),
            field <= old(self).content@.entries[idx as int].fields.len(),
            builder.name is Some,
            builder.value is Some,
        ensures
            final(self).wf(),
            final(self).key == old(self).key,
            match r {
                Ok(()) => {
                    &&& spec_set_field_refusal(builder.value->0@, key_view(old(self).key)) is None
                    &&& final(self).unsaved
                    &&& final(self).content@ == old(self).content@.with_entry(
                        idx as int,
                        EntryView {
                            fields: final(self).content@.entries[idx as int].fields,
                            last_update: final(self).content.last_update,
                            ..old(self).content@.entries[idx as int]
                        },
                        final(self).content.last_update,
                    )
                    &&& spec_field_set(
                        old(self).content@.entries[idx as int].fields,
                        final(self).content@.entries[idx as int].fields,
                        field as int,
                        builder.name->0@,
                    )
                    &&& match key_view(old(self).key) {
                        Some(k) => spec_value_keeps(
                            final(self).content@.entries[idx as int].fields[field as int].value,
                            builder.value->0@,
                            old(self).content@.iv,
                            k,
                        ),
                        None => final(self).content@.entries[idx as int].fields[field as int].value
                            == ValueView::Basic(builder.value->0@->value),
                    }
                },
                Err(e) => {
                    &&& spec_set_field_refusal(builder.value->0@, key_view(old(self).key))
                        == Some(e)
                    &&& final(self).content@ == old(self).content@
                    &&& final(self).unsaved == old(self).unsaved
                },
            },
            r is Ok ==> {
                &&& final(self).content.last_update == now
                &&& now.at_or_after(old(self).content@.entries[idx as int].last_update)
                    ==> final(self).content@.entries[idx as int].last_update.at_or_after(
                    old(self).content@.entries[idx as int].last_update,
                ) && final(self).content.last_update.at_or_after(
                    old(self).content@.entries[idx as int].last_update,
                )
            },
    {
        let r = self.entry_mut(idx).set_field_at(field, builder, now);
        assert(self.content@.entries =~= old(self).content@.entries.update(
            idx as int,
            self.content.inner@[idx as int]@,
        ));
        if r.is_err() {
            assert(self.content@.entries =~= old(self).content@.entries);
        }
        r
    }

    /// Sets the field at `field` of the entry at `idx` to what the builder
    /// holds, or adds it as a new last field, and records the change. A value
    /// that has to be encrypted is refused while the store is locked, and the
    /// store then stays as it was.
    pub fn set_entry_field(&mut self, idx: usize, field: usize, builder: FieldBuilder) -> (r:
        Result<(), SetFieldError>)
        requires
            old(self).wf(),
            idx < old(self).content@.entries.len(),
            field <= old(self).content@.entries[idx as int].fields.len(),
            builder.name is Some,
            builder.value is Some,
        ensures
            final(self).wf(),
            final(self).key == old(self).key,
            match r {
                Ok(()) => {
                    &&& spec_set_field_refusal(builder.value->0@, key_view(old(self).key)) is None
                    &&& final(self).unsaved
                    &&& final(self).content@ == old(self).content@.with_entry(
                        idx as int,
                        EntryView {
                            fields: final(self).content@.entries[idx as int].fields,
                            last_update: final(self).content.last_update,
                            ..old(self).content@.entries[idx as int]
                        },
                        final(self).content.last_update,
                    )
                    &&& spec_field_set(
                        old(self).content@.entries[idx as int].fields,
                        final(self).content@.entries[idx as int].fields,
                        field as int,
                        builder.name->0@,
                    )
                    &&& match key_view(old(self).key) {
                        Some(k) => spec_value_keeps(
                            final(self).content@.entries[idx as int].fields[field as int].value,
                            builder.value->0@,
                            old(self).content@.iv,
                            k,
                        ),
                        None => final(self).content@.entries[idx as int].fields[field as int].value
                            == ValueView::Basic(builder.value->0@->value),
                    }
                },
                Err(e) => {
                    &&& spec_set_field_refusal(builder.value->0@, key_view(old(self).key))
                        == Some(e)
                    &&& final(self).content@ == old(self).content@
                    &&& final(self).unsaved == old(self).unsaved
                },
            },
    {
        self.set_entry_field_at(idx, field, builder, Timestamp::now())
    }

    /// Moves the field at `field` of the entry at `idx` between plain and
    /// protected, and records the change as made at `now`. Where the change is
    /// refused the store stays as it was.
    pub fn swap_field_encryption_at(&mut self, idx: usize, field: usize, now: Timestamp) -> (r: Result<
        (),
        SwapEncryptionError,
    >)
        requires
            old(self).wf(),
            idx < old(self).content@.entries.len(),
            field < old(self).content@.entries[idx as int].fields.len(),
        ensures
            final(self).wf(),
            final(self).key == old(self).key,
            match r {
                Ok(()) => {
                    &&& spec_swap_refusal(
                        old(self).content@.entries[idx as int].fields[field as int].value,
                        old(self).content@.iv,
                        key_view(old(self).key),
                    ) is None
                    &&& final(self).unsaved
                    &&& final(self).content@ == old(self).content@.with_entry(
                        idx as int,
                        EntryView {
                            fields: old(self).content@.entries[idx as int].fields.update(
                                field as int,
                                FieldView {
                                    value: final(self).content@.entries[idx as int].fields[field as int].value,
                                    ..old(self).content@.entries[idx as int].fields[field as int]
                                },
                            ),
                            last_update: final(self).content.last_update,
                            ..old(self).content@.entries[idx as int]
                        },
                        final(self).content.last_update,
                    )
                    &&& spec_swapped(
                        old(self).content@.entries[idx as int].fields[field as int].value,
                        final(self).content@.entries[idx as int].fields[field as int].value,
                        old(self).content@.iv,
                        old(self).key->0@,
                    )
                },
                Err(e) => {
                    &&& spec_swap_refusal(
                        old(self).content@.entries[idx as int].fields[field as int].value,
                        old(self).content@.iv,
                        key_view(old(self).key),
                    ) == Some(e)
                    &&& final(self).content@ == old(self).content@
                    &&& final(self).unsaved == old(self).unsaved
                },
            },
            r is Ok ==> {
                &&& final(self).content.last_update == now
                &&& now.at_or_after(old(self).content@.entries[idx as int].last_update)
                    ==> final(self).content@.entries[idx as int].last_update.at_or_after(
                    old(self).content@.entries[idx as int].last_update,
                ) && final(self).content.last_update.at_or_after(
                    old(self).content@.entries[idx as int].last_update,
                )
            },
    {
        let mut entry = self.entry_mut(idx);
        let r = entry.field_mut(field).swap_encryption_at(now);
        assert(self.content.inner@[idx as int]@.fields =~= old(self).content@.entries[idx as int].fields.update(
            field as int,
            self.content.inner@[idx as int].fields@[field as int]@,
        ));
        assert(self.content@.entries =~= old(self).content@.entries.update(
            idx as int,
            self.content.inner@[idx as int]@,
        ));
        if r.is_err() {
            assert(self.content.inner@[idx as int]@.fields =~= old(
                self,
            ).content@.entries[idx as int].fields);
            assert(self.content@.entries =~= old(self).content@.entries);
        }
        r
    }

    /// Moves the field at `field` of the entry at `idx` between plain and
    /// protected, and records the change. Where the change is refused the
    /// store stays as it was.
    pub fn swap_field_encryption(&mut self, idx: usize, field: usize) -> (r: Result<
        (),
        SwapEncryptionError,
    >)
        requires
            old(self).wf(),
            idx < old(self).content@.entries.len(),
            field < old(self).content@.entries[idx as int].fields.len(),
        ensures
            final(self).wf(),
            final(self).key == old(self).key,
            match r {
                Ok(()) => {
                    &&& spec_swap_refusal(
                        old(self).content@.entries[idx as int].fields[field as int].value,
                        old(self).content@.iv,
                        key_view(old(self).key),
                    ) is None
                    &&& final(self).unsaved
                    &&& final(self).content@ == old(self).content@.with_entry(
                        idx as int,
                        EntryView {
                            fields: old(self).content@.entries[idx as int].fields.update(
                                field as int,
                                FieldView {
                                    value: final(self).content@.entries[idx as int].fields[field as int].value,
                                    ..old(self).content@.entries[idx as int].fields[field as int]
                                },
                            ),
                            last_update: final(self).content.last_update,
                            ..old(self).content@.entries[idx as int]
                        },
                        final(self).content.last_update,
                    )
                    &&& spec_swapped(
                        old(self).content@.entries[idx as int].fields[field as int].value,
                        final(self).content@.entries[idx as int].fields[field as int].value,
                        old(self).content@.iv,
                        old(self).key->0@,
                    )
                },
                Err(e) => {
                    &&& spec_swap_refusal(
                        old(self).content@.entries[idx as int].fields[field as int].value,
                        old(self).content@.iv,
                        key_view(old(self).key),
                    ) == Some(e)
                    &&& final(self).content@ == old(self).content@
                    &&& final(self).unsaved == old(self).unsaved
                },
            },
    {
        self.swap_field_encryption_at(idx, field, Timestamp::now())
    }
}

} // verus!

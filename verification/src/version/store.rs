//! A store of whatever format, and accessors to its entries and fields that
//! do not ask which format it is: what differs between the formats (how keys
//! are derived, how values are encrypted, whether seeds can be held) is
//! decided here by the format of the store at hand.

use crate::cipher::MAX_PASSWORD_LEN;
use crate::version::errors::{
    DecryptError, GetValueError, SetFieldError, SwapEncryptionError, UnsupportedFeature,
};
use crate::version::latest::{spec_content_keeps, spec_to_plaintext};
use crate::version::{
    key_view, strings_view, v0_2, v0_3, v0_4, ContentView, EntryView, FieldView, Keyed,
    PlainValueView, PlaintextValue, Timestamp, ValueKind, ValueView, Warning,
};
use vstd::prelude::*;
use vstd::utf8::encode_utf8;

verus! {

/// The formats that a store can be kept in, oldest first.
#[derive(Debug, Clone, Copy, PartialEq, Eq, Structural)]
pub enum Format {
    V0_2,
    V0_3,
    V0_4,
}

impl Format {
    /// The key that a password gives for a store of this format with the
    /// given salt, where one can be derived. The oldest format has no salt.
    pub open spec fn spec_derived_key(self, salt: Seq<char>, pwd: Seq<char>) -> Option<Seq<u8>> {
        match self {
            Format::V0_2 => Some(v0_2::spec_hash_key(pwd)),
            _ => v0_3::spec_hash_key(salt, pwd),
        }
    }

    /// Whether `key` is a key under which the token of the store decrypts to
    /// what it should.
    pub open spec fn spec_unlocks(self, content: ContentView, key: Option<Seq<u8>>) -> bool {
        match self {
            Format::V0_2 => v0_2::spec_unlocks(content, key),
            _ => v0_3::spec_unlocks(content, key),
        }
    }

    /// What a value reads as once decrypted.
    pub open spec fn spec_plaintext_value(
        self,
        v: ValueView,
        iv: Seq<u8>,
        key: Option<Seq<u8>>,
    ) -> Result<PlainValueView, GetValueError> {
        match self {
            Format::V0_2 => v0_2::spec_plaintext_value(v, iv, key),
            _ => v0_3::spec_plaintext_value(v, iv, key),
        }
    }

    /// What is shown for a value at `unix_time`.
    pub open spec fn spec_value_at(
        self,
        v: ValueView,
        iv: Seq<u8>,
        key: Option<Seq<u8>>,
        unix_time: u64,
    ) -> Result<Seq<char>, GetValueError> {
        match self {
            Format::V0_2 => v0_2::spec_value(v, iv, key),
            Format::V0_3 => v0_3::spec_value(v, iv, key),
            Format::V0_4 => v0_4::spec_value_at(v, iv, key, unix_time),
        }
    }

    /// Whether the value `v` is what `p` is kept as.
    pub open spec fn spec_value_keeps(
        self,
        v: ValueView,
        p: PlainValueView,
        iv: Seq<u8>,
        key: Seq<u8>,
    ) -> bool {
        match self {
            Format::V0_2 => v0_2::spec_value_keeps(v, p, iv, key),
            _ => v0_3::spec_value_keeps(v, p, iv, key),
        }
    }

    /// The error with which a value is refused while the store is locked, if
    /// it is.
    pub open spec fn spec_set_field_refusal(self, p: PlainValueView, key: Option<Seq<u8>>) -> Option<
        SetFieldError,
    > {
        match self {
            Format::V0_2 => v0_2::spec_set_field_refusal(p->protected, key),
            Format::V0_3 => v0_3::spec_set_field_refusal(p->protected, key),
            Format::V0_4 => v0_4::spec_set_field_refusal(p, key),
        }
    }

    /// The error with which a change between plain and protected is refused,
    /// if it is.
    pub open spec fn spec_swap_refusal(self, v: ValueView, iv: Seq<u8>, key: Option<Seq<u8>>) -> Option<
        SwapEncryptionError,
    > {
        match self {
            Format::V0_2 => v0_2::spec_swap_refusal(v, iv, key),
            _ => v0_3::spec_swap_refusal(v, iv, key),
        }
    }

    /// Whether the value `after` is the value `before` moved between plain
    /// and protected.
    pub open spec fn spec_swapped(
        self,
        before: ValueView,
        after: ValueView,
        iv: Seq<u8>,
        key: Seq<u8>,
    ) -> bool {
        match self {
            Format::V0_2 => v0_2::spec_swapped(before, after, iv, key),
            _ => v0_3::spec_swapped(before, after, iv, key),
        }
    }

    /// The tag that a store of this format carries.
    pub open spec fn spec_version_str(self) -> Seq<char> {
        match self {
            Format::V0_2 => v0_2::VERSION_STR@,
            Format::V0_3 => v0_3::VERSION_STR@,
            Format::V0_4 => v0_4::VERSION_STR@,
        }
    }

    /// The tag that a store of this format carries.
    pub fn version_str(&self) -> (tag: &'static str)
        ensures
            tag@ == self.spec_version_str(),
    {
        match self {
            Format::V0_2 => v0_2::VERSION_STR,
            Format::V0_3 => v0_3::VERSION_STR,
            Format::V0_4 => v0_4::VERSION_STR,
        }
    }

    /// The format that carries the given tag, if there is one.
    pub fn from_version_str(tag: &str) -> (format: Option<Format>)
        ensures
            match format {
                Some(f) => tag@ == f.spec_version_str(),
                None => forall|f: Format| tag@ != f.spec_version_str(),
            },
    {
        if crate::utils::str_equal(tag, v0_2::VERSION_STR) {
            Some(Format::V0_2)
        } else if crate::utils::str_equal(tag, v0_3::VERSION_STR) {
            Some(Format::V0_3)
        } else if crate::utils::str_equal(tag, v0_4::VERSION_STR) {
            Some(Format::V0_4)
        } else {
            None
        }
    }

    /// The warning due to someone who opens a store of this format: the
    /// oldest should no longer be used.
    pub fn warning(&self) -> (w: Option<Warning>)
        ensures
            w is Some <==> self == Format::V0_2,
            w matches Some(warning) ==> warning.reason@ == v0_2::DEPRECATION_REASON@,
    {
        match self {
            Format::V0_2 => v0_2::warning(),
            Format::V0_3 => v0_3::warning(),
            Format::V0_4 => v0_4::warning(),
        }
    }
}

/// A store of whatever format, with its key and the mark of unsaved changes.
pub enum Store {
    V0_2(Keyed<v0_2::FileContent>),
    V0_3(Keyed<v0_3::FileContent>),
    V0_4(Keyed<v0_4::FileContent>),
}

impl View for Store {
    type V = ContentView;

    open spec fn view(&self) -> ContentView {
        match self {
            Store::V0_2(k) => k.content@,
            Store::V0_3(k) => k.content@,
            Store::V0_4(k) => k.content@,
        }
    }
}

impl Store {
    /// The format of the store.
    pub open spec fn spec_format(&self) -> Format {
        match self {
            Store::V0_2(_) => Format::V0_2,
            Store::V0_3(_) => Format::V0_3,
            Store::V0_4(_) => Format::V0_4,
        }
    }

    /// The key of the store, once a password has been accepted.
    pub open spec fn spec_key(&self) -> Option<Seq<u8>> {
        match self {
            Store::V0_2(k) => key_view(k.key),
            Store::V0_3(k) => key_view(k.key),
            Store::V0_4(k) => key_view(k.key),
        }
    }

    /// Whether the store holds changes that were not written.
    pub open spec fn spec_unsaved(&self) -> bool {
        match self {
            Store::V0_2(k) => k.unsaved,
            Store::V0_3(k) => k.unsaved,
            Store::V0_4(k) => k.unsaved,
        }
    }

    /// The store is valid for its format, and the key, where there is one,
    /// has the length that the cipher takes.
    pub open spec fn wf(&self) -> bool {
        match self {
            Store::V0_2(k) => k.wf(),
            Store::V0_3(k) => k.wf(),
            Store::V0_4(k) => k.wf(),
        }
    }

    /// The key that a password gives for this store.
    pub open spec fn spec_derived_key(&self, pwd: Seq<char>) -> Option<Seq<u8>> {
        self.spec_format().spec_derived_key(self@.salt, pwd)
    }

    /// Takes a store of the oldest format as it was read, locked and with
    /// nothing to save; `None` where it is not valid for its format.
    pub fn from_v0_2(content: v0_2::FileContent) -> (store: Option<Store>)
        ensures
            store is Some <==> content.valid(),
            store matches Some(s) ==> s.wf() && s == Store::V0_2(
                Keyed { content, key: None, unsaved: false },
            ),
    {
        if content.is_valid() {
            Some(Store::V0_2(Keyed::new(content)))
        } else {
            None
        }
    }

    /// Takes a store of the second format as it was read, locked and with
    /// nothing to save; `None` where it is not valid for its format.
    pub fn from_v0_3(content: v0_3::FileContent) -> (store: Option<Store>)
        ensures
            store is Some <==> content.valid(),
            store matches Some(s) ==> s.wf() && s == Store::V0_3(
                Keyed { content, key: None, unsaved: false },
            ),
    {
        if content.is_valid() {
            Some(Store::V0_3(Keyed::new(content)))
        } else {
            None
        }
    }

    /// Takes a store of the newest format as it was read, locked and with
    /// nothing to save; `None` where it is not valid for its format.
    pub fn from_v0_4(content: v0_4::FileContent) -> (store: Option<Store>)
        ensures
            store is Some <==> content.valid(),
            store matches Some(s) ==> s.wf() && s == Store::V0_4(
                Keyed { content, key: None, unsaved: false },
            ),
    {
        if content.is_valid() {
            Some(Store::V0_4(Keyed::new(content)))
        } else {
            None
        }
    }

    /// The format of the store.
    pub fn format(&self) -> (format: Format)
        ensures
            format == self.spec_format(),
    {
        match self {
            Store::V0_2(_) => Format::V0_2,
            Store::V0_3(_) => Format::V0_3,
            Store::V0_4(_) => Format::V0_4,
        }
    }

    /// The warning due to someone who opens this store.
    pub fn warning(&self) -> (w: Option<Warning>)
        ensures
            w is Some <==> self.spec_format() == Format::V0_2,
            w matches Some(warning) ==> warning.reason@ == v0_2::DEPRECATION_REASON@,
    {
        self.format().warning()
    }

    /// Tests a password: derives the key from it as the format of the store
    /// has it, and takes the key if the token decrypts under it to what it
    /// should. A password that fails is refused with `BadCrypt` and leaves the
    /// store as it was, unlocked if it was.
    pub fn set_key(&mut self, key: String) -> (r: Result<(), DecryptError>)
        requires
            old(self).wf(),
        ensures
            final(self).wf(),
            final(self)@ == old(self)@,
            final(self).spec_format() == old(self).spec_format(),
            final(self).spec_unsaved() == old(self).spec_unsaved(),
            match r {
                Ok(()) => old(self).spec_format().spec_unlocks(
                    old(self)@,
                    old(self).spec_derived_key(key@),
                ) && final(self).spec_key() == old(self).spec_derived_key(key@),
                Err(e) => e == DecryptError::BadCrypt && !old(self).spec_format().spec_unlocks(
                    old(self)@,
                    old(self).spec_derived_key(key@),
                ) && final(self).spec_key() == old(self).spec_key(),
            },
    {
        match self {
            Store::V0_2(k) => k.set_key(key),
            Store::V0_3(k) => k.set_key(key),
            Store::V0_4(k) => k.set_key(key),
        }
    }

    /// Whether the store holds changes that were not written.
    pub fn unsaved(&self) -> (unsaved: bool)
        ensures
            unsaved == self.spec_unsaved(),
    {
        match self {
            Store::V0_2(k) => k.unsaved(),
            Store::V0_3(k) => k.unsaved(),
            Store::V0_4(k) => k.unsaved(),
        }
    }

    /// Records that the store was written as it is.
    pub fn mark_saved(&mut self)
        ensures
            !final(self).spec_unsaved(),
            final(self)@ == old(self)@,
            final(self).spec_key() == old(self).spec_key(),
            final(self).spec_format() == old(self).spec_format(),
            old(self).wf() ==> final(self).wf(),
    {
        match self {
            Store::V0_2(k) => k.mark_saved(),
            Store::V0_3(k) => k.mark_saved(),
            Store::V0_4(k) => k.mark_saved(),
        }
    }

    /// Whether a password has been accepted.
    pub fn decrypted(&self) -> (decrypted: bool)
        ensures
            decrypted == self.spec_key() is Some,
    {
        match self {
            Store::V0_2(k) => k.decrypted(),
            Store::V0_3(k) => k.decrypted(),
            Store::V0_4(k) => k.decrypted(),
        }
    }

    /// The number of entries.
    pub fn num_entries(&self) -> (n: usize)
        ensures
            n == self@.entries.len(),
    {
        match self {
            Store::V0_2(k) => k.num_entries(),
            Store::V0_3(k) => k.num_entries(),
            Store::V0_4(k) => k.num_entries(),
        }
    }

    /// Adds an entry of the given name, made now, after the others, and gives
    /// its index. The entry has neither tags nor fields.
    pub fn add_empty_entry(&mut self, name: String) -> (idx: usize)
        requires
            old(self).wf(),
        ensures
            final(self).wf(),
            idx == old(self)@.entries.len(),
            final(self)@ == (ContentView {
                last_update: final(self)@.last_update,
                entries: old(self)@.entries.push(
                    EntryView {
                        name: name@,
                        tags: Seq::empty(),
                        fields: Seq::empty(),
                        first_added: final(self)@.last_update,
                        last_update: final(self)@.last_update,
                    },
                ),
                ..old(self)@
            }),
            final(self).spec_key() == old(self).spec_key(),
            final(self).spec_format() == old(self).spec_format(),
            final(self).spec_unsaved(),
    {
        match self {
            Store::V0_2(k) => k.add_empty_entry(name),
            Store::V0_3(k) => k.add_empty_entry(name),
            Store::V0_4(k) => k.add_empty_entry(name),
        }
    }

    /// Takes the entry at `idx` out of the store.
    pub fn remove_entry(&mut self, idx: usize)
        requires
            old(self).wf(),
            idx < old(self)@.entries.len(),
        ensures
            final(self).wf(),
            final(self)@ == (ContentView {
                last_update: final(self)@.last_update,
                entries: old(self)@.entries.remove(idx as int),
                ..old(self)@
            }),
            final(self).spec_key() == old(self).spec_key(),
            final(self).spec_format() == old(self).spec_format(),
            final(self).spec_unsaved(),
    {
        match self {
            Store::V0_2(k) => k.remove_entry(idx),
            Store::V0_3(k) => k.remove_entry(idx),
            Store::V0_4(k) => k.remove_entry(idx),
        }
    }
}

/// A view of one field for reading, of whatever format.
pub enum FieldRef<'a> {
    V0_2(v0_2::FieldRef<'a>),
    V0_3(v0_3::FieldRef<'a>),
    V0_4(v0_4::FieldRef<'a>),
}

impl<'a> View for FieldRef<'a> {
    type V = FieldView;

    open spec fn view(&self) -> FieldView {
        match self {
            FieldRef::V0_2(f) => f.field@,
            FieldRef::V0_3(f) => f.field@,
            FieldRef::V0_4(f) => f.field@,
        }
    }
}

impl<'a> FieldRef<'a> {
    /// The format of the store that the field is in.
    pub open spec fn spec_format(&self) -> Format {
        match self {
            FieldRef::V0_2(_) => Format::V0_2,
            FieldRef::V0_3(_) => Format::V0_3,
            FieldRef::V0_4(_) => Format::V0_4,
        }
    }

    /// The vector of the store.
    pub open spec fn spec_iv(&self) -> Seq<u8> {
        match self {
            FieldRef::V0_2(f) => f.crypt.iv@,
            FieldRef::V0_3(f) => f.crypt.iv@,
            FieldRef::V0_4(f) => f.crypt.iv@,
        }
    }

    /// The key of the store, once a password has been accepted.
    pub open spec fn spec_key(&self) -> Option<Seq<u8>> {
        match self {
            FieldRef::V0_2(f) => f.crypt.key_view(),
            FieldRef::V0_3(f) => f.crypt.key_view(),
            FieldRef::V0_4(f) => f.crypt.key_view(),
        }
    }

    /// The vector and the key have the lengths that the cipher takes.
    pub open spec fn wf(&self) -> bool {
        match self {
            FieldRef::V0_2(f) => f.crypt.wf(),
            FieldRef::V0_3(f) => f.crypt.wf(),
            FieldRef::V0_4(f) => f.crypt.wf(),
        }
    }

    /// What is shown for the field at `unix_time`.
    pub open spec fn spec_value_at(&self, unix_time: u64) -> Result<Seq<char>, GetValueError> {
        self.spec_format().spec_value_at(self@.value, self.spec_iv(), self.spec_key(), unix_time)
    }

    /// The value of the field as it is entered and edited.
    pub open spec fn spec_plaintext_value(&self) -> Result<PlainValueView, GetValueError> {
        self.spec_format().spec_plaintext_value(self@.value, self.spec_iv(), self.spec_key())
    }

    /// The name of the field.
    pub fn name(&self) -> (name: &'a str)
        ensures
            name@ == self@.name,
    {
        match self {
            FieldRef::V0_2(f) => f.name(),
            FieldRef::V0_3(f) => f.name(),
            FieldRef::V0_4(f) => f.name(),
        }
    }

    /// The kind of value that the field holds.
    pub fn value_kind(&self) -> (kind: ValueKind)
        ensures
            kind == self@.value.kind(),
    {
        match self {
            FieldRef::V0_2(f) => f.value_kind(),
            FieldRef::V0_3(f) => f.value_kind(),
            FieldRef::V0_4(f) => f.value_kind(),
        }
    }

    /// Whether what is shown for the field changes with the time: so it is
    /// with the one-time password of a seed, which has to be shown anew when
    /// its slice has run out.
    pub fn is_time_sensitive(&self) -> (sensitive: bool)
        ensures
            sensitive == (self@.value.kind() == ValueKind::Totp),
    {
        self.value_kind() == ValueKind::Totp
    }

    /// What is shown for the field at `unix_time`, seconds since the epoch:
    /// the text of a plain or protected value, the one-time password of a seed.
    pub fn value_at(&self, unix_time: u64) -> (r: Result<String, GetValueError>)
        requires
            self.wf(),
        ensures
            match r {
                Ok(text) => self.spec_value_at(unix_time) == Ok::<Seq<char>, GetValueError>(
                    text@,
                ),
                Err(e) => self.spec_value_at(unix_time) == Err::<Seq<char>, GetValueError>(e),
            },
    {
        match self {
            FieldRef::V0_2(f) => f.value(),
            FieldRef::V0_3(f) => f.value(),
            FieldRef::V0_4(f) => f.value_at(unix_time),
        }
    }

    /// What is shown for the field now.
    pub fn value(&self) -> (r: Result<String, GetValueError>)
        requires
            self.wf(),
        ensures
            exists|unix_time: u64|
                match r {
                    Ok(text) => #[trigger] self.spec_value_at(unix_time) == Ok::<
                        Seq<char>,
                        GetValueError,
                    >(text@),
                    Err(e) => self.spec_value_at(unix_time) == Err::<Seq<char>, GetValueError>(e),
                },
    {
        let now = Timestamp::now();
        self.value_at(now.secs_since_epoch)
    }

    /// The value of the field as it is entered and edited.
    pub fn plaintext_value(&self) -> (r: Result<PlaintextValue, GetValueError>)
        requires
            self.wf(),
        ensures
            match r {
                Ok(p) => self.spec_plaintext_value() == Ok::<PlainValueView, GetValueError>(p@),
                Err(e) => self.spec_plaintext_value() == Err::<PlainValueView, GetValueError>(e),
            },
    {
        match self {
            FieldRef::V0_2(f) => f.plaintext_value(),
            FieldRef::V0_3(f) => f.plaintext_value(),
            FieldRef::V0_4(f) => f.plaintext_value(),
        }
    }
}

/// A view of one entry for reading, of whatever format.
pub enum EntryRef<'a> {
    V0_2(v0_2::EntryRef<'a>),
    V0_3(v0_3::EntryRef<'a>),
    V0_4(v0_4::EntryRef<'a>),
}

impl<'a> View for EntryRef<'a> {
    type V = EntryView;

    open spec fn view(&self) -> EntryView {
        match self {
            EntryRef::V0_2(e) => e.entry@,
            EntryRef::V0_3(e) => e.entry@,
            EntryRef::V0_4(e) => e.entry@,
        }
    }
}

impl<'a> EntryRef<'a> {
    /// The format of the store that the entry is in.
    pub open spec fn spec_format(&self) -> Format {
        match self {
            EntryRef::V0_2(_) => Format::V0_2,
            EntryRef::V0_3(_) => Format::V0_3,
            EntryRef::V0_4(_) => Format::V0_4,
        }
    }

    /// The vector of the store.
    pub open spec fn spec_iv(&self) -> Seq<u8> {
        match self {
            EntryRef::V0_2(e) => e.crypt.iv@,
            EntryRef::V0_3(e) => e.crypt.iv@,
            EntryRef::V0_4(e) => e.crypt.iv@,
        }
    }

    /// The key of the store, once a password has been accepted.
    pub open spec fn spec_key(&self) -> Option<Seq<u8>> {
        match self {
            EntryRef::V0_2(e) => e.crypt.key_view(),
            EntryRef::V0_3(e) => e.crypt.key_view(),
            EntryRef::V0_4(e) => e.crypt.key_view(),
        }
    }

    /// The vector and the key have the lengths that the cipher takes.
    pub open spec fn wf(&self) -> bool {
        match self {
            EntryRef::V0_2(e) => e.crypt.wf(),
            EntryRef::V0_3(e) => e.crypt.wf(),
            EntryRef::V0_4(e) => e.crypt.wf(),
        }
    }

    /// The name of the entry.
    pub fn name(&self) -> (name: &'a str)
        ensures
            name@ == self@.name,
    {
        match self {
            EntryRef::V0_2(e) => e.name(),
            EntryRef::V0_3(e) => e.name(),
            EntryRef::V0_4(e) => e.name(),
        }
    }

    /// The tags of the entry, in their order.
    pub fn tags(&self) -> (tags: Vec<&'a str>)
        ensures
            tags@.len() == self@.tags.len(),
            forall|i: int| 0 <= i < tags@.len() ==> (#[trigger] tags@[i])@ == self@.tags[i],
    {
        match self {
            EntryRef::V0_2(e) => e.tags(),
            EntryRef::V0_3(e) => e.tags(),
            EntryRef::V0_4(e) => e.tags(),
        }
    }

    /// When the entry was made.
    pub fn first_added(&self) -> (t: Timestamp)
        ensures
            t == self@.first_added,
    {
        match self {
            EntryRef::V0_2(e) => e.first_added(),
            EntryRef::V0_3(e) => e.first_added(),
            EntryRef::V0_4(e) => e.first_added(),
        }
    }

    /// When the entry or one of its fields was last changed.
    pub fn last_update(&self) -> (t: Timestamp)
        ensures
            t == self@.last_update,
    {
        match self {
            EntryRef::V0_2(e) => e.last_update(),
            EntryRef::V0_3(e) => e.last_update(),
            EntryRef::V0_4(e) => e.last_update(),
        }
    }

    /// The number of fields.
    pub fn num_fields(&self) -> (n: usize)
        ensures
            n == self@.fields.len(),
    {
        match self {
            EntryRef::V0_2(e) => e.num_fields(),
            EntryRef::V0_3(e) => e.num_fields(),
            EntryRef::V0_4(e) => e.num_fields(),
        }
    }

    /// The field at `idx`.
    pub fn field(&self, idx: usize) -> (r: FieldRef<'a>)
        requires
            idx < self@.fields.len(),
        ensures
            r@ == self@.fields[idx as int],
            r.spec_format() == self.spec_format(),
            r.spec_iv() == self.spec_iv(),
            r.spec_key() == self.spec_key(),
            r.wf() == self.wf(),
    {
        match self {
            EntryRef::V0_2(e) => FieldRef::V0_2(e.field(idx)),
            EntryRef::V0_3(e) => FieldRef::V0_3(e.field(idx)),
            EntryRef::V0_4(e) => FieldRef::V0_4(e.field(idx)),
        }
    }
}

impl Store {
    /// The entry at `idx`, for reading.
    pub fn entry(&self, idx: usize) -> (r: EntryRef<'_>)
        requires
            self.wf(),
            idx < self@.entries.len(),
        ensures
            r@ == self@.entries[idx as int],
            r.spec_format() == self.spec_format(),
            r.spec_iv() == self@.iv,
            r.spec_key() == self.spec_key(),
            r.wf(),
    {
        match self {
            Store::V0_2(k) => EntryRef::V0_2(k.entry(idx)),
            Store::V0_3(k) => EntryRef::V0_3(k.entry(idx)),
            Store::V0_4(k) => EntryRef::V0_4(k.entry(idx)),
        }
    }

    /// Brings the store to the newest format. The password is tested against
    /// the store first, whatever its format and whether it is locked or not;
    /// one that fails is refused with `BadCrypt`. A store of the newest format
    /// is then handed back as it is, unlocked. A store of an older format is
    /// decrypted under the key that the password gives, and encrypted anew
    /// under a key derived from the password and a salt drawn at random, with
    /// a vector drawn at random; a field that does not decrypt to text is an
    /// error.
    pub fn to_current(self, pwd: String) -> (r: Result<Keyed<v0_4::FileContent>, DecryptError>)
        requires
            self.wf(),
            encode_utf8(pwd@).len() <= MAX_PASSWORD_LEN,
        ensures
            r matches Ok(current) ==> current.wf(),
            match self {
                Store::V0_2(_) => match r {
                    Ok(current) => {
                        &&& v0_2::spec_unlocks(self@, Some(v0_2::spec_hash_key(pwd@)))
                        &&& current.key is None
                        &&& !current.unsaved
                        &&& v0_2::spec_to_plaintext(self@, v0_2::spec_hash_key(pwd@)) matches Ok(
                            plain,
                        ) && v0_3::spec_hash_key(current.content@.salt, pwd@) matches Some(key)
                            && spec_content_keeps(current.content@, plain, key)
                    },
                    Err(e) => if !v0_2::spec_unlocks(self@, Some(v0_2::spec_hash_key(pwd@))) {
                        e == DecryptError::BadCrypt
                    } else {
                        v0_2::spec_to_plaintext(self@, v0_2::spec_hash_key(pwd@)) == Err::<
                            crate::version::PlainContentView,
                            DecryptError,
                        >(e)
                    },
                },
                Store::V0_3(k) => match r {
                    Ok(current) => {
                        &&& v0_3::spec_unlocks(self@, self.spec_derived_key(pwd@))
                        &&& !current.unsaved
                        &&& spec_to_plaintext(self@, self.spec_derived_key(pwd@)->0) matches Ok(
                            plain,
                        ) && v0_3::spec_hash_key(current.content@.salt, pwd@) matches Some(key)
                            && spec_content_keeps(current.content@, plain, key) && key_view(
                            current.key,
                        ) == Some(key)
                    },
                    Err(e) => if !v0_3::spec_unlocks(self@, self.spec_derived_key(pwd@)) {
                        e == DecryptError::BadCrypt
                    } else {
                        spec_to_plaintext(self@, self.spec_derived_key(pwd@)->0) == Err::<
                            crate::version::PlainContentView,
                            DecryptError,
                        >(e)
                    },
                },
                Store::V0_4(k) => match r {
                    Ok(current) => {
                        &&& v0_3::spec_unlocks(self@, self.spec_derived_key(pwd@))
                        &&& current.content == k.content
                        &&& current.unsaved == k.unsaved
                        &&& key_view(current.key) == self.spec_derived_key(pwd@)
                    },
                    Err(e) => e == DecryptError::BadCrypt && !v0_3::spec_unlocks(
                        self@,
                        self.spec_derived_key(pwd@),
                    ),
                },
            },
    {
        match self {
            Store::V0_2(k) => k.to_current(pwd),
            Store::V0_3(k) => k.to_current(pwd),
            Store::V0_4(k) => k.to_current(pwd),
        }
    }
}

/// The parts of a field that is being put together, before it is set, for a
/// store of whatever format.
pub enum FieldBuilder {
    V0_2(v0_2::FieldBuilder),
    V0_3(v0_3::FieldBuilder),
    V0_4(v0_4::FieldBuilder),
}

impl FieldBuilder {
    /// The format of the store that the builder is for.
    pub open spec fn spec_format(&self) -> Format {
        match self {
            FieldBuilder::V0_2(_) => Format::V0_2,
            FieldBuilder::V0_3(_) => Format::V0_3,
            FieldBuilder::V0_4(_) => Format::V0_4,
        }
    }

    /// The name that the builder holds, once it was given one.
    pub open spec fn spec_name(&self) -> Option<Seq<char>> {
        match self {
            FieldBuilder::V0_2(b) => match b.name {
                Some(n) => Some(n@),
                None => None,
            },
            FieldBuilder::V0_3(b) => match b.name {
                Some(n) => Some(n@),
                None => None,
            },
            FieldBuilder::V0_4(b) => match b.name {
                Some(n) => Some(n@),
                None => None,
            },
        }
    }

    /// The value that the builder holds, once it was given one.
    pub open spec fn spec_value(&self) -> Option<PlainValueView> {
        match self {
            FieldBuilder::V0_2(b) => if b.value is Some && b.is_protected is Some {
                Some(PlainValueView::Manual { value: b.value->0@, protected: b.is_protected->0 })
            } else {
                None
            },
            FieldBuilder::V0_3(b) => if b.value is Some && b.is_protected is Some {
                Some(PlainValueView::Manual { value: b.value->0@, protected: b.is_protected->0 })
            } else {
                None
            },
            FieldBuilder::V0_4(b) => match b.value {
                Some(v) => Some(v@),
                None => None,
            },
        }
    }

    /// Announces a field of plain or protected text, which every format
    /// holds.
    pub fn make_manual(&mut self)
        ensures
            *final(self) == *old(self),
    {
    }

    /// Announces the seed of a one-time password. Only the newest format
    /// holds one; for any other the builder says so.
    pub fn make_totp(&mut self) -> (r: Result<(), UnsupportedFeature>)
        ensures
            *final(self) == *old(self),
            r is Ok <==> old(self).spec_format() == Format::V0_4,
            r matches Err(e) ==> e == UnsupportedFeature::Totp,
    {
        match self {
            FieldBuilder::V0_2(b) => b.make_totp(),
            FieldBuilder::V0_3(b) => b.make_totp(),
            FieldBuilder::V0_4(b) => b.make_totp(),
        }
    }

    /// Gives the field its name.
    pub fn set_name(&mut self, name: String)
        ensures
            final(self).spec_format() == old(self).spec_format(),
            final(self).spec_name() == Some(name@),
            final(self).spec_value() == old(self).spec_value(),
    {
        match self {
            FieldBuilder::V0_2(b) => b.set_name(name),
            FieldBuilder::V0_3(b) => b.set_name(name),
            FieldBuilder::V0_4(b) => b.set_name(name),
        }
    }

    /// Gives the field its value. A seed can only be given to a builder of
    /// the newest format, the one for which `make_totp` succeeds.
    pub fn set_value(&mut self, value: PlaintextValue)
        requires
            value is Manual || old(self).spec_format() == Format::V0_4,
        ensures
            final(self).spec_format() == old(self).spec_format(),
            final(self).spec_value() == Some(value@),
            final(self).spec_name() == old(self).spec_name(),
    {
        match self {
            FieldBuilder::V0_2(b) => b.set_value(value),
            FieldBuilder::V0_3(b) => b.set_value(value),
            FieldBuilder::V0_4(b) => b.set_value(value),
        }
    }
}

/// A view of one field for reading and changing, of whatever format. What it
/// changes it changes in the store that it was taken from.
pub struct FieldMut<'a> {
    pub store: &'a mut Store,
    pub entry: usize,
    pub field: usize,
}

impl<'a> FieldMut<'a> {
    /// The store is well formed, and holds the field.
    pub open spec fn wf(&self) -> bool {
        &&& self.store.wf()
        &&& self.entry < self.store@.entries.len()
        &&& self.field < self.store@.entries[self.entry as int].fields.len()
    }

    /// The field.
    pub open spec fn view(&self) -> FieldView {
        self.store@.entries[self.entry as int].fields[self.field as int]
    }

    /// The format of the store.
    pub open spec fn spec_format(&self) -> Format {
        self.store.spec_format()
    }

    /// The vector of the store.
    pub open spec fn spec_iv(&self) -> Seq<u8> {
        self.store@.iv
    }

    /// The key of the store, once a password has been accepted.
    pub open spec fn spec_key(&self) -> Option<Seq<u8>> {
        self.store.spec_key()
    }

    /// The field, for reading.
    pub fn as_ref(&self) -> (r: FieldRef<'_>)
        requires
            self.wf(),
        ensures
            r@ == self.view(),
            r.spec_format() == self.spec_format(),
            r.spec_iv() == self.spec_iv(),
            r.spec_key() == self.spec_key(),
            r.wf(),
    {
        self.store.entry(self.entry).field(self.field)
    }

    /// The name of the field.
    pub fn name(&self) -> (name: &str)
        requires
            self.wf(),
        ensures
            name@ == self.view().name,
    {
        self.as_ref().name()
    }

    /// The kind of value that the field holds.
    pub fn value_kind(&self) -> (kind: ValueKind)
        requires
            self.wf(),
        ensures
            kind == self.view().value.kind(),
    {
        self.as_ref().value_kind()
    }

    /// What is shown for the field now.
    pub fn value(&self) -> (r: Result<String, GetValueError>)
        requires
            self.wf(),
        ensures
            exists|unix_time: u64|
                match r {
                    Ok(text) => #[trigger] self.spec_format().spec_value_at(
                        self.view().value,
                        self.spec_iv(),
                        self.spec_key(),
                        unix_time,
                    ) == Ok::<Seq<char>, GetValueError>(text@),
                    Err(e) => self.spec_format().spec_value_at(
                        self.view().value,
                        self.spec_iv(),
                        self.spec_key(),
                        unix_time,
                    ) == Err::<Seq<char>, GetValueError>(e),
                },
    {
        let now = Timestamp::now();
        self.as_ref().value_at(now.secs_since_epoch)
    }

    /// The value of the field as it is entered and edited.
    pub fn plaintext_value(&self) -> (r: Result<PlaintextValue, GetValueError>)
        requires
            self.wf(),
        ensures
            match r {
                Ok(p) => self.spec_format().spec_plaintext_value(
                    self.view().value,
                    self.spec_iv(),
                    self.spec_key(),
                ) == Ok::<PlainValueView, GetValueError>(p@),
                Err(e) => self.spec_format().spec_plaintext_value(
                    self.view().value,
                    self.spec_iv(),
                    self.spec_key(),
                ) == Err::<PlainValueView, GetValueError>(e),
            },
    {
        self.as_ref().plaintext_value()
    }

    /// Moves the field between plain and protected, and records the change
    /// as made at `now`. Where the change is refused the store stays as it was.
    pub fn swap_encryption_at(&mut self, now: Timestamp) -> (r: Result<(), SwapEncryptionError>)
        requires
            old(self).wf(),
        ensures
            final(self).wf(),
            final(self).entry == old(self).entry,
            final(self).field == old(self).field,
            *final(final(self).store) == *final(old(self).store),
            final(self).store.spec_format() == old(self).store.spec_format(),
            final(self).store.spec_key() == old(self).store.spec_key(),
            match r {
                Ok(()) => {
                    &&& old(self).store.spec_format().spec_swap_refusal(
                        old(self).view().value,
                        old(self).store@.iv,
                        old(self).store.spec_key(),
                    ) is None
                    &&& final(self).store.spec_unsaved()
                    &&& final(self).store@ == old(self).store@.with_entry(
                        old(self).entry as int,
                        EntryView {
                            fields: old(self).store@.entries[old(self).entry as int].fields.update(
                                old(self).field as int,
                                FieldView { value: final(self).view().value, ..old(self).view() },
                            ),
                            last_update: final(self).store@.last_update,
                            ..old(self).store@.entries[old(self).entry as int]
                        },
                        final(self).store@.last_update,
                    )
                    &&& old(self).store.spec_format().spec_swapped(
                        old(self).view().value,
                        final(self).view().value,
                        old(self).store@.iv,
                        old(self).store.spec_key()->0,
                    )
                },
                Err(e) => {
                    &&& old(self).store.spec_format().spec_swap_refusal(
                        old(self).view().value,
                        old(self).store@.iv,
                        old(self).store.spec_key(),
                    ) == Some(e)
                    &&& final(self).store@ == old(self).store@
                    &&& final(self).store.spec_unsaved() == old(self).store.spec_unsaved()
                },
            },
            r is Ok ==> {
                &&& final(self).store@.last_update == now
                &&& now.at_or_after(old(self).store@.entries[old(self).entry as int].last_update)
                    ==> final(self).store@.entries[old(self).entry as int].last_update.at_or_after(
                    old(self).store@.entries[old(self).entry as int].last_update,
                ) && final(self).store@.last_update.at_or_after(
                    old(self).store@.entries[old(self).entry as int].last_update,
                )
            },
    {
        match &mut *self.store {
            Store::V0_2(k) => k.swap_field_encryption_at(self.entry, self.field, now),
            Store::V0_3(k) => k.swap_field_encryption_at(self.entry, self.field, now),
            Store::V0_4(k) => k.swap_field_encryption_at(self.entry, self.field, now),
        }
    }

    /// Moves the field between plain and protected: plain text is encrypted,
    /// protected text decrypted. Refused while the store is locked, for a seed,
    /// and for a ciphertext that does not decrypt to text; the store then stays
    /// as it was. A change is recorded: the entry and the store were last
    /// updated at the same instant, and the store has something to save.
    pub fn swap_encryption(&mut self) -> (r: Result<(), SwapEncryptionError>)
        requires
            old(self).wf(),
        ensures
            final(self).wf(),
            final(self).entry == old(self).entry,
            final(self).field == old(self).field,
            *final(final(self).store) == *final(old(self).store),
            final(self).store.spec_format() == old(self).store.spec_format(),
            final(self).store.spec_key() == old(self).store.spec_key(),
            match r {
                Ok(()) => {
                    &&& old(self).store.spec_format().spec_swap_refusal(
                        old(self).view().value,
                        old(self).store@.iv,
                        old(self).store.spec_key(),
                    ) is None
                    &&& final(self).store.spec_unsaved()
                    &&& final(self).store@ == old(self).store@.with_entry(
                        old(self).entry as int,
                        EntryView {
                            fields: old(self).store@.entries[old(self).entry as int].fields.update(
                                old(self).field as int,
                                FieldView { value: final(self).view().value, ..old(self).view() },
                            ),
                            last_update: final(self).store@.last_update,
                            ..old(self).store@.entries[old(self).entry as int]
                        },
                        final(self).store@.last_update,
                    )
                    &&& old(self).store.spec_format().spec_swapped(
                        old(self).view().value,
                        final(self).view().value,
                        old(self).store@.iv,
                        old(self).store.spec_key()->0,
                    )
                },
                Err(e) => {
                    &&& old(self).store.spec_format().spec_swap_refusal(
                        old(self).view().value,
                        old(self).store@.iv,
                        old(self).store.spec_key(),
                    ) == Some(e)
                    &&& final(self).store@ == old(self).store@
                    &&& final(self).store.spec_unsaved() == old(self).store.spec_unsaved()
                },
            },
    {
        self.swap_encryption_at(Timestamp::now())
    }
}

/// A view of one entry for reading and changing, of whatever format. What it
/// changes it changes in the store that it was taken from.
pub struct EntryMut<'a> {
    pub store: &'a mut Store,
    pub idx: usize,
}

impl<'a> EntryMut<'a> {
    /// The store is well formed, and holds the entry.
    pub open spec fn wf(&self) -> bool {
        &&& self.store.wf()
        &&& self.idx < self.store@.entries.len()
    }

    /// The entry.
    pub open spec fn view(&self) -> EntryView {
        self.store@.entries[self.idx as int]
    }

    /// The format of the store.
    pub open spec fn spec_format(&self) -> Format {
        self.store.spec_format()
    }

    /// The vector of the store.
    pub open spec fn spec_iv(&self) -> Seq<u8> {
        self.store@.iv
    }

    /// The key of the store, once a password has been accepted.
    pub open spec fn spec_key(&self) -> Option<Seq<u8>> {
        self.store.spec_key()
    }

    /// The entry, for reading.
    pub fn as_ref(&self) -> (r: EntryRef<'_>)
        requires
            self.wf(),
        ensures
            r@ == self.view(),
            r.spec_format() == self.spec_format(),
            r.spec_iv() == self.spec_iv(),
            r.spec_key() == self.spec_key(),
            r.wf(),
    {
        self.store.entry(self.idx)
    }

    /// The name of the entry.
    pub fn name(&self) -> (name: &str)
        requires
            self.wf(),
        ensures
            name@ == self.view().name,
    {
        self.as_ref().name()
    }

    /// The tags of the entry, in their order.
    pub fn tags(&self) -> (tags: Vec<&str>)
        requires
            self.wf(),
        ensures
            tags@.len() == self.view().tags.len(),
            forall|i: int| 0 <= i < tags@.len() ==> (#[trigger] tags@[i])@ == self.view().tags[i],
    {
        self.as_ref().tags()
    }

    /// When the entry was made.
    pub fn first_added(&self) -> (t: Timestamp)
        requires
            self.wf(),
        ensures
            t == self.view().first_added,
    {
        self.as_ref().first_added()
    }

    /// When the entry or one of its fields was last changed.
    pub fn last_update(&self) -> (t: Timestamp)
        requires
            self.wf(),
        ensures
            t == self.view().last_update,
    {
        self.as_ref().last_update()
    }

    /// The number of fields.
    pub fn num_fields(&self) -> (n: usize)
        requires
            self.wf(),
        ensures
            n == self.view().fields.len(),
    {
        self.as_ref().num_fields()
    }

    /// The field at `idx`, for reading.
    pub fn field(&self, idx: usize) -> (r: FieldRef<'_>)
        requires
            self.wf(),
            idx < self.view().fields.len(),
        ensures
            r@ == self.view().fields[idx as int],
            r.spec_format() == self.spec_format(),
            r.spec_iv() == self.spec_iv(),
            r.spec_key() == self.spec_key(),
            r.wf(),
    {
        self.store.entry(self.idx).field(idx)
    }

    /// The field at `idx`, for reading and changing.
    pub fn field_mut(&mut self, idx: usize) -> (r: FieldMut<'_>)
        requires
            old(self).wf(),
            idx < old(self).view().fields.len(),
        ensures
            *r.store == *old(self).store,
            r.entry == old(self).idx,
            r.field == idx,
            r.wf(),
            *final(self).store == *final(r.store),
            final(self).idx == old(self).idx,
            *final(final(self).store) == *final(old(self).store),
    {
        FieldMut { store: &mut *self.store, entry: self.idx, field: idx }
    }

    /// A builder for a field of this entry, with nothing set.
    pub fn field_builder(&self) -> (builder: FieldBuilder)
        ensures
            builder.spec_format() == self.spec_format(),
            builder.spec_name() is None,
            builder.spec_value() is None,
    {
        match &*self.store {
            Store::V0_2(_) => FieldBuilder::V0_2(
                v0_2::FieldBuilder { name: None, value: None, is_protected: None },
            ),
            Store::V0_3(_) => FieldBuilder::V0_3(
                v0_3::FieldBuilder { name: None, value: None, is_protected: None },
            ),
            Store::V0_4(_) => FieldBuilder::V0_4(v0_4::FieldBuilder { name: None, value: None }),
        }
    }

    /// Gives the entry another name, and records the change as made at `now`.
    pub fn set_name_at(&mut self, name: String, now: Timestamp)
        requires
            old(self).wf(),
        ensures
            final(self).wf(),
            final(self).idx == old(self).idx,
            *final(final(self).store) == *final(old(self).store),
            final(self).store.spec_format() == old(self).store.spec_format(),
            final(self).store.spec_key() == old(self).store.spec_key(),
            final(self).store.spec_unsaved(),
            final(self).store@ == old(self).store@.with_entry(
                old(self).idx as int,
                EntryView {
                    name: name@,
                    last_update: final(self).store@.last_update,
                    ..old(self).view()
                },
                final(self).store@.last_update,
            ),
            final(self).store@.last_update == now,
            now.at_or_after(old(self).view().last_update)
                ==> final(self).view().last_update.at_or_after(old(self).view().last_update)
                && final(self).store@.last_update.at_or_after(old(self).view().last_update),
    {
        match &mut *self.store {
            Store::V0_2(k) => k.set_entry_name_at(self.idx, name, now),
            Store::V0_3(k) => k.set_entry_name_at(self.idx, name, now),
            Store::V0_4(k) => k.set_entry_name_at(self.idx, name, now),
        }
    }

    /// Gives the entry another name, and records the change: the entry and
    /// the store were last updated at the same instant, and the store has
    /// something to save.
    pub fn set_name(&mut self, name: String)
        requires
            old(self).wf(),
        ensures
            final(self).wf(),
            final(self).idx == old(self).idx,
            *final(final(self).store) == *final(old(self).store),
            final(self).store.spec_format() == old(self).store.spec_format(),
            final(self).store.spec_key() == old(self).store.spec_key(),
            final(self).store.spec_unsaved(),
            final(self).store@ == old(self).store@.with_entry(
                old(self).idx as int,
                EntryView {
                    name: name@,
                    last_update: final(self).store@.last_update,
                    ..old(self).view()
                },
                final(self).store@.last_update,
            ),
    {
        self.set_name_at(name, Timestamp::now())
    }

    /// Gives the entry other tags, and records the change as made at `now`.
    pub fn set_tags_at(&mut self, tags: Vec<String>, now: Timestamp)
        requires
            old(self).wf(),
        ensures
            final(self).wf(),
            final(self).idx == old(self).idx,
            *final(final(self).store) == *final(old(self).store),
            final(self).store.spec_format() == old(self).store.spec_format(),
            final(self).store.spec_key() == old(self).store.spec_key(),
            final(self).store.spec_unsaved(),
            final(self).store@ == old(self).store@.with_entry(
                old(self).idx as int,
                EntryView {
                    tags: strings_view(tags@),
                    last_update: final(self).store@.last_update,
                    ..old(self).view()
                },
                final(self).store@.last_update,
            ),
            final(self).store@.last_update == now,
            now.at_or_after(old(self).view().last_update)
                ==> final(self).view().last_update.at_or_after(old(self).view().last_update)
                && final(self).store@.last_update.at_or_after(old(self).view().last_update),
    {
        match &mut *self.store {
            Store::V0_2(k) => k.set_entry_tags_at(self.idx, tags, now),
            Store::V0_3(k) => k.set_entry_tags_at(self.idx, tags, now),
            Store::V0_4(k) => k.set_entry_tags_at(self.idx, tags, now),
        }
    }

    /// Gives the entry other tags, and records the change.
    pub fn set_tags(&mut self, tags: Vec<String>)
        requires
            old(self).wf(),
        ensures
            final(self).wf(),
            final(self).idx == old(self).idx,
            *final(final(self).store) == *final(old(self).store),
            final(self).store.spec_format() == old(self).store.spec_format(),
            final(self).store.spec_key() == old(self).store.spec_key(),
            final(self).store.spec_unsaved(),
            final(self).store@ == old(self).store@.with_entry(
                old(self).idx as int,
                EntryView {
                    tags: strings_view(tags@),
                    last_update: final(self).store@.last_update,
                    ..old(self).view()
                },
                final(self).store@.last_update,
            ),
    {
        self.set_tags_at(tags, Timestamp::now())
    }

    /// Takes the field at `idx` out of the entry, and records the change as
    /// made at `now`.
    pub fn remove_field_at(&mut self, idx: usize, now: Timestamp)
        requires
            old(self).wf(),
            idx < old(self).view().fields.len(),
        ensures
            final(self).wf(),
            final(self).idx == old(self).idx,
            *final(final(self).store) == *final(old(self).store),
            final(self).store.spec_format() == old(self).store.spec_format(),
            final(self).store.spec_key() == old(self).store.spec_key(),
            final(self).store.spec_unsaved(),
            final(self).store@ == old(self).store@.with_entry(
                old(self).idx as int,
                EntryView {
                    fields: old(self).view().fields.remove(idx as int),
                    last_update: final(self).store@.last_update,
                    ..old(self).view()
                },
                final(self).store@.last_update,
            ),
            final(self).store@.last_update == now,
            now.at_or_after(old(self).view().last_update)
                ==> final(self).view().last_update.at_or_after(old(self).view().last_update)
                && final(self).store@.last_update.at_or_after(old(self).view().last_update),
    {
        match &mut *self.store {
            Store::V0_2(k) => k.remove_entry_field_at(self.idx, idx, now),
            Store::V0_3(k) => k.remove_entry_field_at(self.idx, idx, now),
            Store::V0_4(k) => k.remove_entry_field_at(self.idx, idx, now),
        }
    }

    /// Takes the field at `idx` out of the entry, and records the change.
    pub fn remove_field(&mut self, idx: usize)
        requires
            old(self).wf(),
            idx < old(self).view().fields.len(),
        ensures
            final(self).wf(),
            final(self).idx == old(self).idx,
            *final(final(self).store) == *final(old(self).store),
            final(self).store.spec_format() == old(self).store.spec_format(),
            final(self).store.spec_key() == old(self).store.spec_key(),
            final(self).store.spec_unsaved(),
            final(self).store@ == old(self).store@.with_entry(
                old(self).idx as int,
                EntryView {
                    fields: old(self).view().fields.remove(idx as int),
                    last_update: final(self).store@.last_update,
                    ..old(self).view()
                },
                final(self).store@.last_update,
            ),
    {
        self.remove_field_at(idx, Timestamp::now())
    }

    /// Sets the field at `idx` to what the builder holds, or adds it as a new
    /// last field where `idx` is the number of fields, and records the change
    /// as made at `now`. The builder is one that an entry of this store gave
    /// out, with a name and a value set. A value that has to be encrypted is
    /// refused while the store is locked, and the store then stays as it was.
    pub fn set_field_at(&mut self, idx: usize, builder: FieldBuilder, now: Timestamp) -> (r:
        Result<(), SetFieldError>)
        requires
            old(self).wf(),
            idx <= old(self).view().fields.len(),
            builder.spec_format() == old(self).store.spec_format(),
            builder.spec_name() is Some,
            builder.spec_value() is Some,
        ensures
            final(self).wf(),
            final(self).idx == old(self).idx,
            *final(final(self).store) == *final(old(self).store),
            final(self).store.spec_format() == old(self).store.spec_format(),
            final(self).store.spec_key() == old(self).store.spec_key(),
            match r {
                Ok(()) => {
                    &&& old(self).store.spec_format().spec_set_field_refusal(
                        builder.spec_value()->0,
                        old(self).store.spec_key(),
                    ) is None
                    &&& final(self).store.spec_unsaved()
                    &&& final(self).store@ == old(self).store@.with_entry(
                        old(self).idx as int,
                        EntryView {
                            fields: final(self).view().fields,
                            last_update: final(self).store@.last_update,
                            ..old(self).view()
                        },
                        final(self).store@.last_update,
                    )
                    &&& v0_3::spec_field_set(
                        old(self).view().fields,
                        final(self).view().fields,
                        idx as int,
                        builder.spec_name()->0,
                    )
                    &&& match old(self).store.spec_key() {
                        Some(k) => old(self).store.spec_format().spec_value_keeps(
                            final(self).view().fields[idx as int].value,
                            builder.spec_value()->0,
                            old(self).store@.iv,
                            k,
                        ),
                        None => final(self).view().fields[idx as int].value == ValueView::Basic(
                            builder.spec_value()->0->value,
                        ),
                    }
                },
                Err(e) => {
                    &&& old(self).store.spec_format().spec_set_field_refusal(
                        builder.spec_value()->0,
                        old(self).store.spec_key(),
                    ) == Some(e)
                    &&& final(self).store@ == old(self).store@
                    &&& final(self).store.spec_unsaved() == old(self).store.spec_unsaved()
                },
            },
            r is Ok ==> {
                &&& final(self).store@.last_update == now
                &&& now.at_or_after(old(self).view().last_update)
                    ==> final(self).view().last_update.at_or_after(old(self).view().last_update)
                    && final(self).store@.last_update.at_or_after(old(self).view().last_update)
            },
    {
        match (&mut *self.store, builder) {
            (Store::V0_2(k), FieldBuilder::V0_2(b)) => k.set_entry_field_at(self.idx, idx, b, now),
            (Store::V0_3(k), FieldBuilder::V0_3(b)) => k.set_entry_field_at(self.idx, idx, b, now),
            (Store::V0_4(k), FieldBuilder::V0_4(b)) => k.set_entry_field_at(self.idx, idx, b, now),
            _ => vstd::pervasive::unreached(),
        }
    }

    /// Sets the field at `idx` to what the builder holds, or adds it as a new
    /// last field where `idx` is the number of fields, and records the change.
    /// The builder is one that an entry of this store gave out, with a name
    /// and a value set. A value that has to be encrypted is refused while the
    /// store is locked, and the store then stays as it was.
    pub fn set_field(&mut self, idx: usize, builder: FieldBuilder) -> (r: Result<(), SetFieldError>)
        requires
            old(self).wf(),
            idx <= old(self).view().fields.len(),
            builder.spec_format() == old(self).store.spec_format(),
            builder.spec_name() is Some,
            builder.spec_value() is Some,
        ensures
            final(self).wf(),
            final(self).idx == old(self).idx,
            *final(final(self).store) == *final(old(self).store),
            final(self).store.spec_format() == old(self).store.spec_format(),
            final(self).store.spec_key() == old(self).store.spec_key(),
            match r {
                Ok(()) => {
                    &&& old(self).store.spec_format().spec_set_field_refusal(
                        builder.spec_value()->0,
                        old(self).store.spec_key(),
                    ) is None
                    &&& final(self).store.spec_unsaved()
                    &&& final(self).store@ == old(self).store@.with_entry(
                        old(self).idx as int,
                        EntryView {
                            fields: final(self).view().fields,
                            last_update: final(self).store@.last_update,
                            ..old(self).view()
                        },
                        final(self).store@.last_update,
                    )
                    &&& v0_3::spec_field_set(
                        old(self).view().fields,
                        final(self).view().fields,
                        idx as int,
                        builder.spec_name()->0,
                    )
                    &&& match old(self).store.spec_key() {
                        Some(k) => old(self).store.spec_format().spec_value_keeps(
                            final(self).view().fields[idx as int].value,
                            builder.spec_value()->0,
                            old(self).store@.iv,
                            k,
                        ),
                        None => final(self).view().fields[idx as int].value == ValueView::Basic(
                            builder.spec_value()->0->value,
                        ),
                    }
                },
                Err(e) => {
                    &&& old(self).store.spec_format().spec_set_field_refusal(
                        builder.spec_value()->0,
                        old(self).store.spec_key(),
                    ) == Some(e)
                    &&& final(self).store@ == old(self).store@
                    &&& final(self).store.spec_unsaved() == old(self).store.spec_unsaved()
                },
            },
    {
        self.set_field_at(idx, builder, Timestamp::now())
    }
}

impl Store {
    /// The entry at `idx`, for reading and changing.
    pub fn entry_mut(&mut self, idx: usize) -> (r: EntryMut<'_>)
        requires
            old(self).wf(),
            idx < old(self)@.entries.len(),
        ensures
            *r.store == *old(self),
            r.idx == idx,
            r.wf(),
            *final(self) == *final(r.store),
    {
        EntryMut { store: self, idx }
    }
}

} // verus!

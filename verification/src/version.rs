//! The generations of the file format, and what they share: the container
//! that holds a store with its key, the unencrypted form of a store, and the
//! mathematical model of entries, fields and values.

pub mod errors;
pub mod latest;
pub mod store;
pub mod v0_2;
pub mod v0_3;
pub mod v0_4;

use std::time::{SystemTime, UNIX_EPOCH};
use vstd::prelude::*;

verus! {

/// A point in time: whole seconds since the Unix epoch and the nanoseconds
/// of the running second.
#[derive(Debug, Clone, Copy, PartialEq, Eq, Structural)]
pub struct Timestamp {
    pub secs_since_epoch: u64,
    pub nanos_since_epoch: u32,
}

impl Timestamp {
    /// Whether `self` is `other` or later.
    pub open spec fn at_or_after(self, other: Timestamp) -> bool {
        self.secs_since_epoch > other.secs_since_epoch || (self.secs_since_epoch
            == other.secs_since_epoch && self.nanos_since_epoch >= other.nanos_since_epoch)
    }

    /// Whether `self` is `other` or later.
    pub fn is_at_or_after(&self, other: &Timestamp) -> (later: bool)
        ensures
            later == self.at_or_after(*other),
    {
        self.secs_since_epoch > other.secs_since_epoch || (self.secs_since_epoch
            == other.secs_since_epoch && self.nanos_since_epoch >= other.nanos_since_epoch)
    }

    /// `SystemTime::now`, as the time since the Unix epoch; the epoch itself
    /// where the clock stands before it. Nothing is claimed of the time read.
    #[verifier::external_body]
    pub(crate) fn now() -> (now: Timestamp) {
        let since = SystemTime::now().duration_since(UNIX_EPOCH).unwrap_or_default();
        Timestamp { secs_since_epoch: since.as_secs(), nanos_since_epoch: since.subsec_nanos() }
    }
}

/// The kinds of value that a field can hold.
#[derive(Debug, Clone, Copy, PartialEq, Eq, Structural)]
pub enum ValueKind {
    /// Text kept and shown as it is.
    Basic,
    /// Text kept encrypted under the store's key.
    Protected,
    /// The seed of a time-based one-time password, kept encrypted.
    Totp,
}

impl ValueKind {
    /// The word for this kind in messages.
    pub open spec fn spec_name(self) -> Seq<char> {
        match self {
            ValueKind::Basic => "basic"@,
            ValueKind::Protected => "protected"@,
            ValueKind::Totp => "TOTP"@,
        }
    }

    /// The word for this kind in messages.
    pub fn name(&self) -> (text: &'static str)
        ensures
            text@ == self.spec_name(),
    {
        match self {
            ValueKind::Basic => "basic",
            ValueKind::Protected => "protected",
            ValueKind::Totp => "TOTP",
        }
    }
}

/// Said of a store in a format that should no longer be used.
#[derive(Debug, Clone, Copy)]
pub struct Warning {
    pub reason: &'static str,
}

/// The vector and, once a password has been accepted, the key of the store
/// that an accessor reaches into.
#[derive(Clone, Copy)]
pub struct CryptStateRef<'a> {
    pub iv: &'a [u8],
    pub key: Option<&'a [u8]>,
}

impl<'a> CryptStateRef<'a> {
    /// The key as bytes.
    pub open spec fn key_view(self) -> Option<Seq<u8>> {
        match self.key {
            Some(k) => Some(k@),
            None => None,
        }
    }

    /// The vector and the key have the lengths that the cipher takes.
    pub open spec fn wf(self) -> bool {
        &&& self.iv@.len() == crate::cipher::IV_LEN
        &&& self.key matches Some(k) ==> k@.len() == crate::cipher::KEY_LEN
    }
}

/// The key of a container as bytes.
pub open spec fn key_view(key: Option<Vec<u8>>) -> Option<Seq<u8>> {
    match key {
        Some(k) => Some(k@),
        None => None,
    }
}

/// The model of a value: text as characters, ciphertext as bytes.
pub enum ValueView {
    Basic(Seq<char>),
    Protected(Seq<u8>),
    Totp { issuer: Seq<char>, secret: Seq<u8> },
}

impl ValueView {
    /// The kind of the value.
    pub open spec fn kind(self) -> ValueKind {
        match self {
            ValueView::Basic(_) => ValueKind::Basic,
            ValueView::Protected(_) => ValueKind::Protected,
            ValueView::Totp { .. } => ValueKind::Totp,
        }
    }
}

/// The model of a field.
pub struct FieldView {
    pub name: Seq<char>,
    pub value: ValueView,
}

/// The model of an entry.
pub struct EntryView {
    pub name: Seq<char>,
    pub tags: Seq<Seq<char>>,
    pub fields: Seq<FieldView>,
    pub first_added: Timestamp,
    pub last_update: Timestamp,
}

/// The model of a store as it is kept in a file. The oldest format has no
/// salt: its model holds the empty string there.
pub struct ContentView {
    pub version: Seq<char>,
    pub token: Seq<u8>,
    pub iv: Seq<u8>,
    pub salt: Seq<char>,
    pub last_update: Timestamp,
    pub entries: Seq<EntryView>,
}

impl ContentView {
    /// The store after a change made at `now` that left `entry` at `idx`.
    pub open spec fn with_entry(self, idx: int, entry: EntryView, now: Timestamp) -> ContentView {
        ContentView { last_update: now, entries: self.entries.update(idx, entry), ..self }
    }
}

/// The model of a value that is not encrypted.
pub enum PlainValueView {
    Manual { value: Seq<char>, protected: bool },
    Totp { issuer: Seq<char>, secret: Seq<char> },
}

/// The model of a field that is not encrypted.
pub struct PlainFieldView {
    pub name: Seq<char>,
    pub value: PlainValueView,
}

/// The model of an entry that is not encrypted.
pub struct PlainEntryView {
    pub name: Seq<char>,
    pub tags: Seq<Seq<char>>,
    pub fields: Seq<PlainFieldView>,
    pub first_added: Timestamp,
    pub last_update: Timestamp,
}

/// The model of a store that is not encrypted.
pub struct PlainContentView {
    pub last_update: Timestamp,
    pub entries: Seq<PlainEntryView>,
}

/// The model of a list of strings.
pub open spec fn strings_view(strings: Seq<String>) -> Seq<Seq<char>> {
    strings.map_values(|s: String| s@)
}

/// What a list of outcomes comes to when they are gathered in order: the
/// values, where every outcome is one, and otherwise the first error.
pub open spec fn spec_collect<T, E>(outcomes: Seq<Result<T, E>>) -> Result<Seq<T>, E>
    decreases outcomes.len(),
{
    if outcomes.len() == 0 {
        Ok(Seq::empty())
    } else {
        match spec_collect(outcomes.drop_last()) {
            Err(e) => Err(e),
            Ok(values) => match outcomes.last() {
                Err(e) => Err(e),
                Ok(value) => Ok(values.push(value)),
            },
        }
    }
}

/// The first error decides: an error among the first `n` outcomes is the
/// error of the whole list.
pub proof fn lemma_collect_error_stays<T, E>(outcomes: Seq<Result<T, E>>, n: int)
    requires
        0 <= n <= outcomes.len(),
        spec_collect(outcomes.take(n)) is Err,
    ensures
        spec_collect(outcomes) == spec_collect(outcomes.take(n)),
    decreases outcomes.len() - n,
{
    if n < outcomes.len() {
        assert(outcomes.take(n + 1).drop_last() =~= outcomes.take(n));
        lemma_collect_error_stays(outcomes, n + 1);
    } else {
        assert(outcomes.take(n) =~= outcomes);
    }
}

/// Outcomes that are all values come to the list of the values.
pub proof fn lemma_collect_values<T, E>(outcomes: Seq<Result<T, E>>, values: Seq<T>)
    requires
        outcomes.len() == values.len(),
        forall|i: int| 0 <= i < outcomes.len() ==> #[trigger] outcomes[i] == Ok::<T, E>(values[i]),
    ensures
        spec_collect(outcomes) == Ok::<Seq<T>, E>(values),
    decreases outcomes.len(),
{
    if outcomes.len() == 0 {
        assert(values =~= Seq::empty());
    } else {
        assert forall|i: int| 0 <= i < outcomes.drop_last().len() implies #[trigger] outcomes.drop_last()[i]
            == Ok::<T, E>(values.drop_last()[i]) by {
            assert(outcomes.drop_last()[i] == outcomes[i]);
        }
        lemma_collect_values(outcomes.drop_last(), values.drop_last());
        assert(outcomes.last() == Ok::<T, E>(values.last()));
        assert(values.drop_last().push(values.last()) =~= values);
    }
}

/// One more outcome gathered after the first `n`, which came to `values`.
pub proof fn lemma_collect_step<T, E>(outcomes: Seq<Result<T, E>>, n: int, values: Seq<T>)
    requires
        0 <= n < outcomes.len(),
        spec_collect(outcomes.take(n)) == Ok::<Seq<T>, E>(values),
    ensures
        spec_collect(outcomes.take(n + 1)) == match outcomes[n] {
            Ok(value) => Ok::<Seq<T>, E>(values.push(value)),
            Err(e) => Err::<Seq<T>, E>(e),
        },
{
    assert(outcomes.take(n + 1).drop_last() =~= outcomes.take(n));
    assert(outcomes.take(n + 1).last() == outcomes[n]);
}

/// A value with nothing encrypted: what is exported, imported, and handed
/// to a field builder.
#[derive(Debug, Clone)]
pub enum PlaintextValue {
    /// Text, with the mark that says whether it is to be kept encrypted.
    Manual { value: String, protected: bool },
    /// The issuer and the base32 seed of a one-time password.
    Totp { issuer: String, secret: String },
}

impl View for PlaintextValue {
    type V = PlainValueView;

    open spec fn view(&self) -> PlainValueView {
        match self {
            PlaintextValue::Manual { value, protected } => PlainValueView::Manual {
                value: value@,
                protected: *protected,
            },
            PlaintextValue::Totp { issuer, secret } => PlainValueView::Totp {
                issuer: issuer@,
                secret: secret@,
            },
        }
    }
}

/// A field with nothing encrypted.
#[derive(Debug, Clone)]
pub struct PlaintextField {
    pub name: String,
    pub value: PlaintextValue,
}

impl View for PlaintextField {
    type V = PlainFieldView;

    open spec fn view(&self) -> PlainFieldView {
        PlainFieldView { name: self.name@, value: self.value@ }
    }
}

/// An entry with nothing encrypted.
#[derive(Debug, Clone)]
pub struct PlaintextEntry {
    pub name: String,
    pub tags: Vec<String>,
    pub fields: Vec<PlaintextField>,
    pub first_added: Timestamp,
    pub last_update: Timestamp,
}

impl View for PlaintextEntry {
    type V = PlainEntryView;

    open spec fn view(&self) -> PlainEntryView {
        PlainEntryView {
            name: self.name@,
            tags: strings_view(self.tags@),
            fields: self.fields@.map_values(|f: PlaintextField| f@),
            first_added: self.first_added,
            last_update: self.last_update,
        }
    }
}

/// A store with nothing encrypted: the form in which a store is exported and
/// imported, whatever the format it is kept in.
#[derive(Debug, Clone)]
pub struct PlaintextContent {
    pub last_update: Timestamp,
    pub entries: Vec<PlaintextEntry>,
}

impl View for PlaintextContent {
    type V = PlainContentView;

    open spec fn view(&self) -> PlainContentView {
        PlainContentView {
            last_update: self.last_update,
            entries: self.entries@.map_values(|e: PlaintextEntry| e@),
        }
    }
}

impl PlaintextContent {
    /// A store without entries, last updated at `now`.
    pub fn init_at(now: Timestamp) -> (content: PlaintextContent)
        ensures
            content@ == (PlainContentView { last_update: now, entries: Seq::empty() }),
    {
        let content = PlaintextContent { last_update: now, entries: Vec::new() };
        assert(content@.entries =~= Seq::empty());
        content
    }

    /// A store without entries, last updated at the time of the call.
    pub fn init() -> (content: PlaintextContent)
        ensures
            content@.entries == Seq::<PlainEntryView>::empty(),
    {
        PlaintextContent::init_at(Timestamp::now())
    }
}

/// A store together with the key derived for it, once a password has been
/// accepted, and the mark that says whether it holds changes not yet written.
pub struct Keyed<T> {
    pub content: T,
    pub key: Option<Vec<u8>>,
    pub unsaved: bool,
}

impl<T> Keyed<T> {
    /// Wraps a store as it was read or made: locked, and with nothing to
    /// save.
    pub fn new(content: T) -> (keyed: Keyed<T>)
        ensures
            keyed.content == content,
            keyed.key is None,
            !keyed.unsaved,
    {
        Keyed { content, key: None, unsaved: false }
    }
}

} // verus!

//! What only the newest format offers: making a store, from nothing or from
//! its unencrypted form, and giving a store out unencrypted.

use crate::cipher::{random_bytes, random_salt_string, IV_LEN, KEY_LEN, MAX_PASSWORD_LEN};
use crate::utils::Base64Vec;
use crate::version::errors::DecryptError;
use crate::version::v0_3::{
    decrypt_string, encrypt, encrypt_string, hash_key, lemma_kept_value_reads_back,
    spec_hash_key, spec_open_value, spec_unlocks, spec_value_keeps, usable_salt,
    ENCRYPT_TOKEN_STR,
};
use crate::version::v0_4::{Entry, Field, FileContent, Value, VERSION_STR};
use crate::version::{
    lemma_collect_error_stays, lemma_collect_step, lemma_collect_values, spec_collect,
    ContentView, EntryView, FieldView, Keyed, PlainContentView, PlainEntryView, PlainFieldView,
    PlainValueView, PlaintextContent, PlaintextEntry, PlaintextField, PlaintextValue,
};
use vstd::prelude::*;
use vstd::utf8::encode_utf8;

verus! {

/// Draws the salt of a new store at random: one that the key derivation can
/// use.
pub fn gen_salt() -> (salt: String)
    ensures
        usable_salt(salt@),
{
    random_salt_string()
}

/// Whether the fields `fs` are what the plain fields `ps` are kept as: one
/// for one, under the same names.
pub open spec fn spec_fields_keep(
    fs: Seq<FieldView>,
    ps: Seq<PlainFieldView>,
    iv: Seq<u8>,
    key: Seq<u8>,
) -> bool {
    &&& fs.len() == ps.len()
    &&& forall|i: int|
        0 <= i < fs.len() ==> (#[trigger] fs[i]).name == ps[i].name && spec_value_keeps(
            fs[i].value,
            ps[i].value,
            iv,
            key,
        )
}

/// Whether the entry `e` is what the plain entry `p` is kept as.
pub open spec fn spec_entry_keeps(e: EntryView, p: PlainEntryView, iv: Seq<u8>, key: Seq<u8>) -> bool {
    &&& e.name == p.name
    &&& e.tags == p.tags
    &&& e.first_added == p.first_added
    &&& e.last_update == p.last_update
    &&& spec_fields_keep(e.fields, p.fields, iv, key)
}

/// Whether the entries `es` are what the plain entries `ps` are kept as, one
/// for one.
pub open spec fn spec_entries_keep(
    es: Seq<EntryView>,
    ps: Seq<PlainEntryView>,
    iv: Seq<u8>,
    key: Seq<u8>,
) -> bool {
    &&& es.len() == ps.len()
    &&& forall|i: int| 0 <= i < es.len() ==> spec_entry_keeps(#[trigger] es[i], ps[i], iv, key)
}

/// Whether the store `c` is what the plain store `p` is kept as under `key`:
/// it carries the tag of the newest format and a token that `key` opens, and
/// its entries keep those of `p`.
pub open spec fn spec_content_keeps(c: ContentView, p: PlainContentView, key: Seq<u8>) -> bool {
    &&& c.version == VERSION_STR@
    &&& c.iv.len() == IV_LEN
    &&& usable_salt(c.salt)
    &&& spec_unlocks(c, Some(key))
    &&& c.last_update == p.last_update
    &&& spec_entries_keep(c.entries, p.entries, c.iv, key)
}

/// What a field reads as once decrypted.
pub open spec fn spec_open_field(f: FieldView, iv: Seq<u8>, key: Seq<u8>) -> Result<
    PlainFieldView,
    DecryptError,
> {
    match spec_open_value(f.value, iv, key) {
        Err(e) => Err(e),
        Ok(value) => Ok(PlainFieldView { name: f.name, value }),
    }
}

/// What a list of fields reads as once decrypted: the error of the first
/// field that does not decrypt, if there is one.
pub open spec fn spec_open_fields(fs: Seq<FieldView>, iv: Seq<u8>, key: Seq<u8>) -> Result<
    Seq<PlainFieldView>,
    DecryptError,
> {
    spec_collect(fs.map_values(|f: FieldView| spec_open_field(f, iv, key)))
}

/// What an entry reads as once decrypted.
pub open spec fn spec_open_entry(e: EntryView, iv: Seq<u8>, key: Seq<u8>) -> Result<
    PlainEntryView,
    DecryptError,
> {
    match spec_open_fields(e.fields, iv, key) {
        Err(err) => Err(err),
        Ok(fields) => Ok(
            PlainEntryView {
                name: e.name,
                tags: e.tags,
                fields,
                first_added: e.first_added,
                last_update: e.last_update,
            },
        ),
    }
}

/// What a list of entries reads as once decrypted: the error of the first
/// field of the first entry that does not decrypt, if there is one.
pub open spec fn spec_open_entries(es: Seq<EntryView>, iv: Seq<u8>, key: Seq<u8>) -> Result<
    Seq<PlainEntryView>,
    DecryptError,
> {
    spec_collect(es.map_values(|e: EntryView| spec_open_entry(e, iv, key)))
}

/// What a store reads as once decrypted under `key`.
pub open spec fn spec_to_plaintext(c: ContentView, key: Seq<u8>) -> Result<
    PlainContentView,
    DecryptError,
> {
    match spec_open_entries(c.entries, c.iv, key) {
        Err(e) => Err(e),
        Ok(entries) => Ok(PlainContentView { last_update: c.last_update, entries }),
    }
}

/// Fields that keep plain fields read as those plain fields.
pub proof fn lemma_kept_fields_open(
    fs: Seq<FieldView>,
    ps: Seq<PlainFieldView>,
    iv: Seq<u8>,
    key: Seq<u8>,
)
    requires
        spec_fields_keep(fs, ps, iv, key),
    ensures
        spec_open_fields(fs, iv, key) == Ok::<Seq<PlainFieldView>, DecryptError>(ps),
{
    let outcomes = fs.map_values(|f: FieldView| spec_open_field(f, iv, key));
    assert forall|i: int| 0 <= i < outcomes.len() implies #[trigger] outcomes[i] == Ok::<
        PlainFieldView,
        DecryptError,
    >(ps[i]) by {
        assert(fs[i].name == ps[i].name);
        lemma_kept_value_reads_back(fs[i].value, ps[i].value, iv, key);
    }
    lemma_collect_values(outcomes, ps);
}

/// Entries that keep plain entries read as those plain entries.
pub proof fn lemma_kept_entries_open(
    es: Seq<EntryView>,
    ps: Seq<PlainEntryView>,
    iv: Seq<u8>,
    key: Seq<u8>,
)
    requires
        spec_entries_keep(es, ps, iv, key),
    ensures
        spec_open_entries(es, iv, key) == Ok::<Seq<PlainEntryView>, DecryptError>(ps),
{
    let outcomes = es.map_values(|e: EntryView| spec_open_entry(e, iv, key));
    assert forall|i: int| 0 <= i < outcomes.len() implies #[trigger] outcomes[i] == Ok::<
        PlainEntryView,
        DecryptError,
    >(ps[i]) by {
        assert(spec_entry_keeps(es[i], ps[i], iv, key));
        lemma_kept_fields_open(es[i].fields, ps[i].fields, iv, key);
    }
    lemma_collect_values(outcomes, ps);
}

/// A store given out unencrypted is the store that was taken in: whatever
/// `from_plaintext_with` makes of a plain store, `to_plaintext` reads back as
/// that plain store under the same key.
pub proof fn lemma_plaintext_round_trip(c: ContentView, p: PlainContentView, key: Seq<u8>)
    requires
        spec_content_keeps(c, p, key),
    ensures
        spec_to_plaintext(c, key) == Ok::<PlainContentView, DecryptError>(p),
{
    lemma_kept_entries_open(c.entries, p.entries, c.iv, key);
}

/// Turns one plain value into the value that is kept, encrypting what is to
/// be protected.
fn keep_value_under(value: PlaintextValue, iv: &[u8], key: &[u8]) -> (kept: Value)
    requires
        iv@.len() == IV_LEN,
        key@.len() == KEY_LEN,
    ensures
        spec_value_keeps(kept@, value@, iv@, key@),
{
    match value {
        PlaintextValue::Manual { value, protected } => {
            if protected {
                Value::Protected(Base64Vec(encrypt_string(value.as_str(), iv, key)))
            } else {
                Value::Basic(value)
            }
        },
        PlaintextValue::Totp { issuer, secret } => {
            let secret = Base64Vec(encrypt_string(secret.as_str(), iv, key));
            Value::Totp { issuer, secret }
        },
    }
}

/// Turns plain fields into the fields that are kept.
fn keep_fields(fields: Vec<PlaintextField>, iv: &[u8], key: &[u8]) -> (kept: Vec<Field>)
    requires
        iv@.len() == IV_LEN,
        key@.len() == KEY_LEN,
    ensures
        spec_fields_keep(
            kept@.map_values(|f: Field| f@),
            fields@.map_values(|f: PlaintextField| f@),
            iv@,
            key@,
        ),
{
    let ghost all = fields@;
    let mut kept: Vec<Field> = Vec::new();
    for f in it: fields.into_iter()
        invariant
            it.seq() == all,
            iv@.len() == IV_LEN,
            key@.len() == KEY_LEN,
            kept@.len() == it.index(),
            forall|i: int|
                0 <= i < kept@.len() ==> (#[trigger] kept@[i])@.name == all[i]@.name
                    && spec_value_keeps(kept@[i]@.value, all[i]@.value, iv@, key@),
    {
        let PlaintextField { name, value } = f;
        kept.push(Field { name, value: keep_value_under(value, iv, key) });
    }
    kept
}

/// Turns plain entries into the entries that are kept.
fn keep_entries(entries: Vec<PlaintextEntry>, iv: &[u8], key: &[u8]) -> (kept: Vec<Entry>)
    requires
        iv@.len() == IV_LEN,
        key@.len() == KEY_LEN,
    ensures
        spec_entries_keep(
            kept@.map_values(|e: Entry| e@),
            entries@.map_values(|e: PlaintextEntry| e@),
            iv@,
            key@,
        ),
{
    let ghost all = entries@;
    let mut kept: Vec<Entry> = Vec::new();
    for e in it: entries.into_iter()
        invariant
            it.seq() == all,
            iv@.len() == IV_LEN,
            key@.len() == KEY_LEN,
            kept@.len() == it.index(),
            forall|i: int|
                0 <= i < kept@.len() ==> spec_entry_keeps(
                    (#[trigger] kept@[i])@,
                    all[i]@,
                    iv@,
                    key@,
                ),
    {
        let PlaintextEntry { name, tags, fields, first_added, last_update } = e;
        let fields = keep_fields(fields, iv, key);
        kept.push(Entry { name, tags, fields, first_added, last_update });
    }
    kept
}

/// Reads one value as it is once decrypted.
fn open_value(value: Value, iv: &[u8], key: &[u8]) -> (r: Result<PlaintextValue, DecryptError>)
    requires
        iv@.len() == IV_LEN,
        key@.len() == KEY_LEN,
    ensures
        match r {
            Ok(p) => spec_open_value(value@, iv@, key@) == Ok::<PlainValueView, DecryptError>(p@),
            Err(e) => spec_open_value(value@, iv@, key@) == Err::<PlainValueView, DecryptError>(
                e,
            ),
        },
{
    match value {
        Value::Basic(s) => Ok(PlaintextValue::Manual { value: s, protected: false }),
        Value::Protected(bs) => match decrypt_string(bs.as_ref(), iv, key) {
            Ok(value) => Ok(PlaintextValue::Manual { value, protected: true }),
            Err(e) => Err(e),
        },
        Value::Totp { issuer, secret } => match decrypt_string(secret.as_ref(), iv, key) {
            Ok(secret) => Ok(PlaintextValue::Totp { issuer, secret }),
            Err(e) => Err(e),
        },
    }
}

/// Reads fields as they are once decrypted, up to the first that does not
/// decrypt.
fn open_fields(fields: Vec<Field>, iv: &[u8], key: &[u8]) -> (r: Result<
    Vec<PlaintextField>,
    DecryptError,
>)
    requires
        iv@.len() == IV_LEN,
        key@.len() == KEY_LEN,
    ensures
        match r {
            Ok(ps) => spec_open_fields(fields@.map_values(|f: Field| f@), iv@, key@) == Ok::<
                Seq<PlainFieldView>,
                DecryptError,
            >(ps@.map_values(|f: PlaintextField| f@)),
            Err(e) => spec_open_fields(fields@.map_values(|f: Field| f@), iv@, key@) == Err::<
                Seq<PlainFieldView>,
                DecryptError,
            >(e),
        },
{
    let ghost all = fields@;
    let ghost outcomes = fields@.map_values(|f: Field| f@).map_values(
        |f: FieldView| spec_open_field(f, iv@, key@),
    );
    let mut opened: Vec<PlaintextField> = Vec::new();
    assert(outcomes.take(0) =~= Seq::empty());
    assert(opened@.map_values(|f: PlaintextField| f@) =~= Seq::empty());
    for f in it: fields.into_iter()
        invariant
            it.seq() == all,
            outcomes == all.map_values(|f: Field| f@).map_values(
                |f: FieldView| spec_open_field(f, iv@, key@),
            ),
            iv@.len() == IV_LEN,
            key@.len() == KEY_LEN,
            spec_collect(outcomes.take(it.index() as int)) == Ok::<
                Seq<PlainFieldView>,
                DecryptError,
            >(opened@.map_values(|f: PlaintextField| f@)),
    {
        let ghost i = it.index() as int;
        let ghost before = opened@.map_values(|f: PlaintextField| f@);
        let Field { name, value } = f;
        proof {
            lemma_collect_step(outcomes, i, before);
        }
        match open_value(value, iv, key) {
            Ok(value) => {
                opened.push(PlaintextField { name, value });
                assert(opened@.map_values(|f: PlaintextField| f@) =~= before.push(
                    PlainFieldView { name: name@, value: value@ },
                ));
            },
            Err(e) => {
                proof {
                    lemma_collect_error_stays(outcomes, i + 1);
                }
                return Err(e);
            },
        }
    }
    assert(outcomes.take(outcomes.len() as int) =~= outcomes);
    Ok(opened)
}

/// Reads entries as they are once decrypted, up to the first field that does
/// not decrypt.
fn open_entries(entries: Vec<Entry>, iv: &[u8], key: &[u8]) -> (r: Result<
    Vec<PlaintextEntry>,
    DecryptError,
>)
    requires
        iv@.len() == IV_LEN,
        key@.len() == KEY_LEN,
    ensures
        match r {
            Ok(ps) => spec_open_entries(entries@.map_values(|e: Entry| e@), iv@, key@) == Ok::<
                Seq<PlainEntryView>,
                DecryptError,
            >(ps@.map_values(|e: PlaintextEntry| e@)),
            Err(e) => spec_open_entries(entries@.map_values(|e: Entry| e@), iv@, key@) == Err::<
                Seq<PlainEntryView>,
                DecryptError,
            >(e),
        },
{
    let ghost all = entries@;
    let ghost outcomes = entries@.map_values(|e: Entry| e@).map_values(
        |e: EntryView| spec_open_entry(e, iv@, key@),
    );
    let mut opened: Vec<PlaintextEntry> = Vec::new();
    assert(outcomes.take(0) =~= Seq::empty());
    assert(opened@.map_values(|e: PlaintextEntry| e@) =~= Seq::empty());
    for e in it: entries.into_iter()
        invariant
            it.seq() == all,
            outcomes == all.map_values(|e: Entry| e@).map_values(
                |e: EntryView| spec_open_entry(e, iv@, key@),
            ),
            iv@.len() == IV_LEN,
            key@.len() == KEY_LEN,
            spec_collect(outcomes.take(it.index() as int)) == Ok::<
                Seq<PlainEntryView>,
                DecryptError,
            >(opened@.map_values(|e: PlaintextEntry| e@)),
    {
        let ghost i = it.index() as int;
        let ghost before = opened@.map_values(|e: PlaintextEntry| e@);
        let Entry { name, tags, fields, first_added, last_update } = e;
        proof {
            lemma_collect_step(outcomes, i, before);
        }
        match open_fields(fields, iv, key) {
            Ok(fields) => {
                let entry = PlaintextEntry { name, tags, fields, first_added, last_update };
                opened.push(entry);
                assert(opened@.map_values(|e: PlaintextEntry| e@) =~= before.push(entry@));
            },
            Err(e) => {
                proof {
                    lemma_collect_error_stays(outcomes, i + 1);
                }
                return Err(e);
            },
        }
    }
    assert(outcomes.take(outcomes.len() as int) =~= outcomes);
    Ok(opened)
}

impl Keyed<FileContent> {
    /// Gives the store out unencrypted, under the key that the container
    /// holds: every protected text and every seed is decrypted. The error is
    /// that of the first field, in the order of the store, that does not
    /// decrypt to text.
    pub fn to_plaintext(self) -> (r: Result<PlaintextContent, DecryptError>)
        requires
            self.wf(),
            self.key is Some,
        ensures
            match r {
                Ok(p) => spec_to_plaintext(self.content@, self.key->0@) == Ok::<
                    PlainContentView,
                    DecryptError,
                >(p@),
                Err(e) => spec_to_plaintext(self.content@, self.key->0@) == Err::<
                    PlainContentView,
                    DecryptError,
                >(e),
            },
    {
        let Keyed { content, key, unsaved: _ } = self;
        let key = key.unwrap();
        let FileContent { version: _, token: _, iv, salt: _, last_update, inner } = content;
        match open_entries(inner, iv.as_ref(), key.as_slice()) {
            Ok(entries) => Ok(PlaintextContent { last_update, entries }),
            Err(e) => Err(e),
        }
    }

    /// Makes a store of the newest format from its unencrypted form, with the
    /// given salt and vector and under the key `hashed_key`. The store comes
    /// locked and with nothing to save. It keeps the plain store: the token and
    /// every value that is to be protected are encrypted under the key, each
    /// behind a salt of its own.
    pub fn from_plaintext_with(
        pwd_salt: String,
        iv: Vec<u8>,
        hashed_key: &[u8],
        content: PlaintextContent,
    ) -> (keyed: Keyed<FileContent>)
        requires
            usable_salt(pwd_salt@),
            iv@.len() == IV_LEN,
            hashed_key@.len() == KEY_LEN,
        ensures
            keyed.wf(),
            keyed.key is None,
            !keyed.unsaved,
            keyed.content@.salt == pwd_salt@,
            keyed.content@.iv == iv@,
            spec_content_keeps(keyed.content@, content@, hashed_key@),
    {
        let token = encrypt(ENCRYPT_TOKEN_STR.as_bytes(), iv.as_slice(), hashed_key);
        let PlaintextContent { last_update, entries } = content;
        let inner = keep_entries(entries, iv.as_slice(), hashed_key);
        Keyed::new(
            FileContent {
                version: VERSION_STR.to_owned(),
                token: Base64Vec(token),
                iv: Base64Vec(iv),
                salt: pwd_salt,
                last_update,
                inner,
            },
        )
    }

    /// Makes a store of the newest format from its unencrypted form, under a
    /// key derived from the password and a salt drawn at random. The store
    /// comes locked; the password opens it, and it keeps the plain store
    /// under the key that the password then gives.
    pub fn from_plaintext(pwd: String, content: PlaintextContent) -> (keyed: Keyed<FileContent>)
        requires
            encode_utf8(pwd@).len() <= MAX_PASSWORD_LEN,
        ensures
            keyed.wf(),
            keyed.key is None,
            !keyed.unsaved,
            spec_hash_key(keyed.content@.salt, pwd@) matches Some(key) && spec_content_keeps(
                keyed.content@,
                content@,
                key,
            ),
    {
        let pwd_salt = gen_salt();
        let iv = random_bytes::<16>();
        match hash_key(pwd_salt.as_str(), pwd.as_str()) {
            Some(hashed_key) => Keyed::from_plaintext_with(
                pwd_salt,
                vstd::slice::slice_to_vec(iv.as_slice()),
                hashed_key.as_slice(),
                content,
            ),
            None => vstd::pervasive::unreached(),
        }
    }

    /// Makes a store without entries that the password opens.
    pub fn make_new(pwd: String) -> (keyed: Keyed<FileContent>)
        requires
            encode_utf8(pwd@).len() <= MAX_PASSWORD_LEN,
        ensures
            keyed.wf(),
            keyed.key is None,
            !keyed.unsaved,
            keyed.content@.entries == Seq::<EntryView>::empty(),
            spec_unlocks(keyed.content@, spec_hash_key(keyed.content@.salt, pwd@)),
    {
        let keyed = Keyed::from_plaintext(pwd, PlaintextContent::init());
        assert(keyed.content@.entries =~= Seq::empty());
        keyed
    }
}

} // verus!

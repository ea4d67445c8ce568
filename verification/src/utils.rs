//! Helpers that stand on their own.

use std::borrow::Cow;
use vstd::prelude::*;
use vstd::string::StringExecFns;

verus! {

/// The standard base64 text of `bytes`, with padding.
pub uninterp spec fn base64_encoded(bytes: Seq<u8>) -> Seq<char>;

/// The bytes that `text` stands for in standard base64, or `None` where it
/// is not base64.
pub uninterp spec fn base64_decoded(text: Seq<char>) -> Option<Seq<u8>>;

/// `base64::encode`. The contract names the text.
#[verifier::external_body]
fn base64_encode(bytes: &[u8]) -> (text: String)
    ensures
        text@ == base64_encoded(bytes@),
{
    base64::encode(bytes)
}

/// `base64::decode`, its error mapped to `None`. The contract names the
/// outcome.
#[verifier::external_body]
fn base64_decode(text: &str) -> (bytes: Option<Vec<u8>>)
    ensures
        match bytes {
            Some(b) => base64_decoded(text@) == Some(b@),
            None => base64_decoded(text@) is None,
        },
{
    base64::decode(text).ok()
}

/// Bytes that are written to a file as base64 text.
#[derive(Debug, Clone)]
pub struct Base64Vec(pub Vec<u8>);

impl View for Base64Vec {
    type V = Seq<u8>;

    open spec fn view(&self) -> Seq<u8> {
        self.0@
    }
}

impl Base64Vec {
    /// The bytes.
    pub fn as_ref(&self) -> (bytes: &[u8])
        ensures
            bytes@ == self@,
    {
        self.0.as_slice()
    }

    /// The text that is written for the bytes.
    pub fn encode(&self) -> (text: String)
        ensures
            text@ == base64_encoded(self@),
    {
        base64_encode(self.0.as_slice())
    }

    /// The bytes that a text read from a file stands for; `None` where the
    /// text is not base64.
    pub fn decode(text: &str) -> (decoded: Option<Base64Vec>)
        ensures
            match decoded {
                Some(bytes) => base64_decoded(text@) == Some(bytes@),
                None => base64_decoded(text@) is None,
            },
    {
        match base64_decode(text) {
            Some(bytes) => Some(Base64Vec(bytes)),
            None => None,
        }
    }
}

/// Whether two byte strings are the same.
pub fn bytes_equal(a: &[u8], b: &[u8]) -> (same: bool)
    ensures
        same == (a@ == b@),
{
    if a.len() != b.len() {
        return false;
    }
    let mut i: usize = 0;
    while i < a.len()
        invariant
            i <= a.len(),
            a.len() == b.len(),
            forall|j: int| 0 <= j < i ==> a@[j] == b@[j],
        decreases a.len() - i,
    {
        if a[i] != b[i] {
            return false;
        }
        i += 1;
    }
    assert(a@ =~= b@);
    true
}

/// Whether two strings are the same.
pub fn str_equal(a: &str, b: &str) -> (same: bool)
    ensures
        same == (a@ == b@),
{
    proof {
        vstd::utf8::encode_utf8_decode_utf8(a@);
        vstd::utf8::encode_utf8_decode_utf8(b@);
    }
    bytes_equal(a.as_bytes(), b.as_bytes())
}

/// Borrows the strings of a list.
pub fn borrow_strings(strings: &Vec<String>) -> (borrowed: Vec<&str>)
    ensures
        borrowed@.len() == strings@.len(),
        forall|i: int| 0 <= i < strings@.len() ==> (#[trigger] borrowed@[i])@ == strings@[i]@,
{
    let mut borrowed: Vec<&str> = Vec::new();
    let mut i: usize = 0;
    while i < strings.len()
        invariant
            i <= strings.len(),
            borrowed@.len() == i,
            forall|j: int| 0 <= j < i ==> (#[trigger] borrowed@[j])@ == strings@[j]@,
        decreases strings.len() - i,
    {
        borrowed.push(strings[i].as_str());
        i += 1;
    }
    borrowed
}

/// The strings of a list put one after the other, a comma between each two.
pub open spec fn spec_joined(strs: Seq<Seq<char>>) -> Seq<char>
    decreases strs.len(),
{
    if strs.len() == 0 {
        Seq::empty()
    } else if strs.len() == 1 {
        strs[0]
    } else {
        spec_joined(strs.drop_last()) + seq![','] + strs.last()
    }
}

/// What is shown for a list of strings: the strings with commas between
/// them, and a word for "none" where the list is empty.
pub open spec fn spec_comma_strings(strs: Seq<Seq<char>>) -> Seq<char> {
    if strs.len() == 0 {
        "<None>"@
    } else {
        spec_joined(strs)
    }
}

/// The model of a list of borrowed strings.
pub open spec fn strs_view(strs: Seq<&str>) -> Seq<Seq<char>> {
    strs.map_values(|s: &str| s@)
}

/// Puts the strings of a list one after the other, a comma between each
/// two; gives `<None>` for an empty list.
pub fn comma_strings(strs: &[&str]) -> (joined: String)
    ensures
        joined@ == spec_comma_strings(strs_view(strs@)),
{
    if strs.len() == 0 {
        return "<None>".to_owned();
    }
    let ghost all = strs_view(strs@);
    let mut result: String = strs[0].to_owned();
    assert(all.take(1) =~= seq![strs@[0]@]);
    let mut i: usize = 1;
    while i < strs.len()
        invariant
            1 <= i <= strs.len(),
            all == strs_view(strs@),
            result@ == spec_joined(all.take(i as int)),
        decreases strs.len() - i,
    {
        proof {
            reveal_strlit(",");
            assert(all.take(i + 1).drop_last() =~= all.take(i as int));
            assert(all.take(i + 1).last() == strs@[i as int]@);
            assert(","@ =~= seq![',']);
        }
        result.append(",");
        result.append(strs[i]);
        i += 1;
    }
    assert(all.take(strs.len() as int) =~= all);
    result
}

/// The text `s` with every `from` replaced by the text `to`.
pub open spec fn spec_replaced(s: Seq<char>, from: char, to: Seq<char>) -> Seq<char>
    decreases s.len(),
{
    if s.len() == 0 {
        Seq::empty()
    } else if s.last() == from {
        spec_replaced(s.drop_last(), from, to) + to
    } else {
        spec_replaced(s.drop_last(), from, to).push(s.last())
    }
}

/// A character replaced by itself leaves the text as it was.
pub proof fn lemma_replaced_by_itself(s: Seq<char>, c: char)
    ensures
        spec_replaced(s, c, seq![c]) == s,
    decreases s.len(),
{
    if s.len() > 0 {
        lemma_replaced_by_itself(s.drop_last(), c);
        assert(s.drop_last() + seq![s.last()] =~= s);
        assert(s.drop_last().push(s.last()) =~= s);
    }
}

/// `str::contains` for a character: whether the character occurs in the
/// text.
#[verifier::external_body]
fn str_contains_char(s: &str, c: char) -> (found: bool)
    ensures
        found == s@.contains(c),
{
    s.contains(c)
}

/// `str::replace` for a character: the text with every occurrence of the
/// character replaced by `to`.
#[verifier::external_body]
fn str_replace_char(s: &str, from: char, to: &str) -> (replaced: String)
    ensures
        replaced@ == spec_replaced(s@, from, to@),
{
    s.replace(from, to)
}

/// The text with every double quote replaced by a double quote, which
/// leaves it as it was: a copy where it holds a quote, and the text itself
/// where it holds none.
pub fn escape_quotes(s: &str) -> (escaped: Cow<'_, str>)
    ensures
        escaped@ == spec_replaced(s@, '"', "\""@),
        escaped@ == s@,
        escaped is Owned == s@.contains('"'),
{
    proof {
        reveal_strlit("\"");
        assert("\""@ =~= seq!['"']);
        lemma_replaced_by_itself(s@, '"');
    }
    if str_contains_char(s, '"') {
        Cow::Owned(str_replace_char(s, '"', "\""))
    } else {
        Cow::Borrowed(s)
    }
}

} // verus!

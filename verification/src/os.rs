//! Operating-system strings: raw bytes that need not be valid UTF-8.

use crate::text;
use vstd::prelude::*;
use vstd::slice::*;
use vstd::string::*;
use vstd::utf8::*;

verus! {

/// The bytes of a literal.
pub open spec fn lit(text: &str) -> Seq<u8> {
    encode_utf8(text@)
}

/// A string of the operating system, such as an argument, a path or the value
/// of an environment variable.
#[derive(Debug, PartialEq, Eq)]
pub struct OsText {
    pub bytes: Vec<u8>,
}

/// A path, kept as the bytes that the operating system sees.
pub type PathText = OsText;

impl View for OsText {
    type V = Seq<u8>;

    open spec fn view(&self) -> Seq<u8> {
        self.bytes@
    }
}

impl Clone for OsText {
    fn clone(&self) -> (copy: Self)
        ensures
            copy@ == self@,
    {
        OsText { bytes: self.bytes.clone() }
    }
}

/// What a path looks like in a message: its text, with the replacement
/// character standing for what is not valid UTF-8.
pub uninterp spec fn lossy_text(bytes: Seq<u8>) -> Seq<char>;

/// Calls `String::from_utf8_lossy`, which turns bytes into text. Its result is
/// a function of the bytes, named `lossy_text`; of valid UTF-8 it is the text
/// that the bytes encode.
#[verifier::external_body]
fn from_utf8_lossy(bytes: &[u8]) -> (text: String)
    ensures
        text@ == lossy_text(bytes@),
        valid_utf8(bytes@) ==> text@ == decode_utf8(bytes@),
{
    String::from_utf8_lossy(bytes).into_owned()
}

/// Calls `String::from_utf8`, which succeeds exactly on valid UTF-8 and then
/// gives the text that the bytes encode.
#[verifier::external_body]
fn from_utf8(bytes: Vec<u8>) -> (text: Option<String>)
    ensures
        text is Some <==> valid_utf8(bytes@),
        text is Some ==> text->0@ == decode_utf8(bytes@),
{
    String::from_utf8(bytes).ok()
}

/// The text of bytes: what they encode, or what stands for them in a message.
pub open spec fn shown(bytes: Seq<u8>) -> Seq<char> {
    if valid_utf8(bytes) {
        decode_utf8(bytes)
    } else {
        lossy_text(bytes)
    }
}

/// Text for a message, with replacement characters where `bytes` is not UTF-8.
pub fn lossy(bytes: &[u8]) -> (text: String)
    ensures
        text@ == lossy_text(bytes@),
        valid_utf8(bytes@) ==> text@ == decode_utf8(bytes@),
{
    from_utf8_lossy(bytes)
}

impl OsText {
    /// The bytes of `text`.
    pub fn new(text: &str) -> (made: OsText)
        ensures
            made@ == lit(text),
    {
        OsText { bytes: slice_to_vec(text.as_bytes()) }
    }

    pub fn from_bytes(bytes: &[u8]) -> (made: OsText)
        ensures
            made@ == bytes@,
    {
        OsText { bytes: slice_to_vec(bytes) }
    }

    /// Whether both hold the same bytes.
    pub fn same(&self, other: &OsText) -> (equal: bool)
        ensures
            equal == (self@ == other@),
    {
        text::same_bytes(self.bytes.as_slice(), other.bytes.as_slice())
    }

    /// Whether the bytes are those of `text`.
    pub fn is_text(&self, text: &str) -> (equal: bool)
        ensures
            equal == (self@ == lit(text)),
    {
        text::same_bytes(self.bytes.as_slice(), text.as_bytes())
    }

    pub fn is_empty(&self) -> (empty: bool)
        ensures
            empty == (self@.len() == 0),
    {
        self.bytes.len() == 0
    }

    /// The text that the bytes encode, if they are valid UTF-8.
    pub fn as_text(&self) -> (text: Option<String>)
        ensures
            text is Some <==> valid_utf8(self@),
            text is Some ==> text->0@ == decode_utf8(self@),
    {
        from_utf8(self.bytes.clone())
    }

    /// The text shown to a user.
    pub fn display(&self) -> (text: String)
        ensures
            text@ == lossy_text(self@),
            valid_utf8(self@) ==> text@ == decode_utf8(self@),
    {
        from_utf8_lossy(self.bytes.as_slice())
    }

    /// What follows `prefix` in valid text that begins with it.
    pub fn strip_text_prefix(&self, prefix: &str) -> (rest: Option<OsText>)
        ensures
            rest is Some <==> valid_utf8(self@) && lit(prefix).is_prefix_of(self@),
            rest is Some ==> rest->0@ == self@.skip(lit(prefix).len() as int),
    {
        if self.as_text().is_none() {
            return None;
        }
        let head = prefix.as_bytes();
        if !starts_with_bytes(self.bytes.as_slice(), head) {
            return None;
        }
        let rest = slice_to_vec(slice_subrange(self.bytes.as_slice(), head.len(), self.bytes.len()));
        assert(rest@ =~= self@.skip(lit(prefix).len() as int));
        Some(OsText { bytes: rest })
    }
}

/// The bytes of an ASCII literal are its characters.
pub proof fn lemma_lit(text: &str)
    requires
        is_ascii_chars(text@),
    ensures
        lit(text).len() == text@.len(),
        forall|i: int| 0 <= i < text@.len() ==> #[trigger] lit(text)[i] == text@[i] as u8,
{
    is_ascii_chars_encode_utf8(text@);
}

/// Whether `bytes` begins with `head`.
pub fn starts_with_bytes(bytes: &[u8], head: &[u8]) -> (found: bool)
    ensures
        found == head@.is_prefix_of(bytes@),
{
    if head.len() > bytes.len() {
        return false;
    }
    let front = slice_subrange(bytes, 0, head.len());
    let found = text::same_bytes(front, head);
    assert(front@ == bytes@.take(head@.len() as int));
    found
}

/// Whether `bytes` ends with `tail`.
pub fn ends_with_bytes(bytes: &[u8], tail: &[u8]) -> (found: bool)
    ensures
        found == tail@.is_suffix_of(bytes@),
{
    if tail.len() > bytes.len() {
        return false;
    }
    text::same_bytes(slice_subrange(bytes, bytes.len() - tail.len(), bytes.len()), tail)
}

/// The contents of a list of strings.
pub open spec fn texts(list: Seq<OsText>) -> Seq<Seq<u8>> {
    list.map_values(|text: OsText| text@)
}

/// The contents of a list of pairs of strings.
pub open spec fn pairs(list: Seq<(OsText, OsText)>) -> Seq<(Seq<u8>, Seq<u8>)> {
    list.map_values(|pair: (OsText, OsText)| (pair.0@, pair.1@))
}

/// Appends the bytes of a literal.
pub fn push_lit(list: &mut Vec<OsText>, text: &str)
    ensures
        texts(final(list)@) == texts(old(list)@).push(lit(text)),
{
    list.push(OsText::new(text));
    assert(texts(list@) =~= texts(old(list)@).push(lit(text)));
}

/// Appends a copy of `text`.
pub fn push_text(list: &mut Vec<OsText>, text: &OsText)
    ensures
        texts(final(list)@) == texts(old(list)@).push(text@),
{
    list.push(text.clone());
    assert(texts(list@) =~= texts(old(list)@).push(text@));
}

/// Appends copies of all of `more`.
pub fn push_texts(list: &mut Vec<OsText>, more: &Vec<OsText>)
    ensures
        texts(final(list)@) == texts(old(list)@) + texts(more@),
{
    let mut index: usize = 0;
    assert(texts(list@) =~= texts(old(list)@) + texts(more@).take(0));
    while index < more.len()
        invariant
            index <= more.len(),
            texts(list@) == texts(old(list)@) + texts(more@).take(index as int),
        decreases more.len() - index,
    {
        push_text(list, &more[index]);
        index = index + 1;
        assert(texts(list@) =~= texts(old(list)@) + texts(more@).take(index as int));
    }
    assert(texts(more@).take(index as int) =~= texts(more@));
}

/// A copy of a list of strings.
pub fn copy_texts(list: &Vec<OsText>) -> (copy: Vec<OsText>)
    ensures
        texts(copy@) == texts(list@),
{
    let mut copy: Vec<OsText> = Vec::new();
    push_texts(&mut copy, list);
    assert(texts(copy@) =~= texts(list@));
    copy
}

/// Appends a pair of strings.
pub fn push_pair(list: &mut Vec<(OsText, OsText)>, key: OsText, value: OsText)
    ensures
        pairs(final(list)@) == pairs(old(list)@).push((key@, value@)),
{
    list.push((key, value));
    assert(pairs(list@) =~= pairs(old(list)@).push((key@, value@)));
}

/// A copy of a list of pairs of strings.
pub fn copy_pairs(list: &Vec<(OsText, OsText)>) -> (copy: Vec<(OsText, OsText)>)
    ensures
        pairs(copy@) == pairs(list@),
{
    let mut copy: Vec<(OsText, OsText)> = Vec::new();
    let mut index: usize = 0;
    while index < list.len()
        invariant
            index <= list.len(),
            pairs(copy@) == pairs(list@).take(index as int),
        decreases list.len() - index,
    {
        push_pair(&mut copy, list[index].0.clone(), list[index].1.clone());
        index = index + 1;
        assert(pairs(copy@) =~= pairs(list@).take(index as int));
    }
    assert(pairs(list@).take(index as int) =~= pairs(list@));
    copy
}

/// Whether `list` holds `text`.
pub fn contains_text(list: &Vec<OsText>, text: &OsText) -> (found: bool)
    ensures
        found == texts(list@).contains(text@),
{
    let mut index: usize = 0;
    while index < list.len()
        invariant
            index <= list.len(),
            forall|i: int| 0 <= i < index ==> texts(list@)[i] != text@,
        decreases list.len() - index,
    {
        if list[index].same(text) {
            assert(texts(list@)[index as int] == text@);
            return true;
        }
        index = index + 1;
    }
    false
}

} // verus!

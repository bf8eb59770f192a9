//! Text assembly and scanning on sequences of characters.

use vstd::prelude::*;
use vstd::string::*;
use vstd::utf8::*;

verus! {

/// Appending a character, as the documentation of `String::push` describes it.
pub assume_specification[ String::push ](receiver: &mut String, c: char)
    ensures
        final(receiver)@ == old(receiver)@.push(c),
;

/// Left-to-right assembly of messages.
pub trait Compose: Sized {
    spec fn content(&self) -> Seq<char>;

    /// The text followed by `more`.
    fn with(self, more: &str) -> (joined: String)
        ensures
            joined@ == self.content() + more@,
    ;
}

impl Compose for String {
    open spec fn content(&self) -> Seq<char> {
        self@
    }

    fn with(self, more: &str) -> (joined: String) {
        let mut joined = self;
        joined.append(more);
        joined
    }
}

/// The same text in an owned string.
pub fn owned(text: &str) -> (copy: String)
    ensures
        copy@ == text@,
{
    text.to_owned()
}

/// Whether two byte sequences are equal.
pub fn same_bytes(left: &[u8], right: &[u8]) -> (equal: bool)
    ensures
        equal == (left@ == right@),
{
    if left.len() != right.len() {
        return false;
    }
    let mut index: usize = 0;
    while index < left.len()
        invariant
            index <= left.len() == right.len(),
            forall|i: int| 0 <= i < index ==> left@[i] == right@[i],
        decreases left.len() - index,
    {
        if left[index] != right[index] {
            assert(left@[index as int] != right@[index as int]);
            return false;
        }
        index = index + 1;
    }
    assert(left@ =~= right@);
    true
}

/// Two texts are equal exactly when their encodings are.
pub proof fn lemma_same_encoding(left: Seq<char>, right: Seq<char>)
    ensures
        encode_utf8(left) == encode_utf8(right) <==> left == right,
{
    broadcast use encode_utf8_decode_utf8;

    assert(decode_utf8(encode_utf8(left)) == left);
    assert(decode_utf8(encode_utf8(right)) == right);
}

/// Whether two texts are equal.
pub fn same_text(left: &str, right: &str) -> (equal: bool)
    ensures
        equal == (left@ == right@),
{
    proof {
        lemma_same_encoding(left@, right@);
    }
    same_bytes(left.as_bytes(), right.as_bytes())
}

/// The characters of a text.
pub fn characters(text: &str) -> (characters: Vec<char>)
    ensures
        characters@ == text@,
{
    let mut characters: Vec<char> = Vec::new();
    for c in it: text.chars()
        invariant
            characters@ == it.seq().take(it.index() as int),
            it.seq() == text@,
    {
        characters.push(c);
    }
    characters
}

/// The text made of `characters[from..to]`.
pub fn text_of(characters: &Vec<char>, from: usize, to: usize) -> (text: String)
    requires
        from <= to <= characters.len(),
    ensures
        text@ == characters@.subrange(from as int, to as int),
{
    let mut text = String::new();
    let mut index: usize = from;
    proof {
        reveal_strlit("");
    }
    assert(text@ =~= characters@.subrange(from as int, from as int));
    while index < to
        invariant
            from <= index <= to <= characters.len(),
            text@ == characters@.subrange(from as int, index as int),
        decreases to - index,
    {
        text.push(characters[index]);
        index = index + 1;
        assert(text@ =~= characters@.subrange(from as int, index as int));
    }
    text
}

/// The decimal digit of a number below ten.
pub open spec fn digit(value: nat) -> char {
    (('0' as u32) + value) as char
}

/// A number in decimal notation, without leading zeros.
pub open spec fn decimal(value: nat) -> Seq<char>
    decreases value,
{
    if value < 10 {
        seq![digit(value)]
    } else {
        decimal(value / 10).push(digit(value % 10))
    }
}

fn digit_character(value: u128) -> (c: char)
    requires
        value < 10,
    ensures
        c == digit(value as nat),
{
    match value {
        0 => '0',
        1 => '1',
        2 => '2',
        3 => '3',
        4 => '4',
        5 => '5',
        6 => '6',
        7 => '7',
        8 => '8',
        _ => '9',
    }
}

/// The decimal notation of `value`.
pub fn decimal_text(value: u64) -> (text: String)
    ensures
        text@ == decimal(value as nat),
{
    wide_decimal_text(value as u128)
}

/// The decimal notation of `value`.
pub fn wide_decimal_text(value: u128) -> (text: String)
    ensures
        text@ == decimal(value as nat),
    decreases value,
{
    if value < 10 {
        let mut text = String::new();
        proof {
            reveal_strlit("");
        }
        text.push(digit_character(value));
        assert(text@ =~= seq![digit(value as nat)]);
        text
    } else {
        let mut text = wide_decimal_text(value / 10);
        text.push(digit_character(value % 10));
        text
    }
}

/// The decimal notation of a signed number.
pub open spec fn signed_decimal(value: int) -> Seq<char> {
    if value < 0 {
        "-"@ + decimal((-value) as nat)
    } else {
        decimal(value as nat)
    }
}

/// The decimal notation of `value`.
pub fn signed_text(value: i32) -> (text: String)
    ensures
        text@ == signed_decimal(value as int),
{
    if value < 0 {
        owned("-").with(decimal_text((-(value as i64)) as u64).as_str())
    } else {
        decimal_text(value as u64)
    }
}

} // verus!

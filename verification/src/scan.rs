//! Reading text: white space, lines, words, substrings and numbers.

use crate::text;
use vstd::prelude::*;
use vstd::string::*;

verus! {

/// The characters with the Unicode property `White_Space`.
pub open spec fn is_space(c: char) -> bool {
    let code = c as u32;
    ||| 0x9 <= code <= 0xd
    ||| code == 0x20
    ||| code == 0x85
    ||| code == 0xa0
    ||| code == 0x1680
    ||| 0x2000 <= code <= 0x200a
    ||| code == 0x2028
    ||| code == 0x2029
    ||| code == 0x202f
    ||| code == 0x205f
    ||| code == 0x3000
}

fn space(c: char) -> (yes: bool)
    ensures
        yes == is_space(c),
{
    let code = c as u32;
    (0x9 <= code && code <= 0xd) || code == 0x20 || code == 0x85 || code == 0xa0 || code == 0x1680
        || (0x2000 <= code && code <= 0x200a) || code == 0x2028 || code == 0x2029 || code == 0x202f
        || code == 0x205f || code == 0x3000
}

/// The first place from `index` on that is not white space.
pub open spec fn word_start(s: Seq<char>, index: int) -> int
    decreases s.len() - index,
{
    if 0 <= index < s.len() && is_space(s[index]) {
        word_start(s, index + 1)
    } else {
        index
    }
}

/// The first place from `index` on that is white space.
pub open spec fn word_end(s: Seq<char>, index: int) -> int
    decreases s.len() - index,
{
    if 0 <= index < s.len() && !is_space(s[index]) {
        word_end(s, index + 1)
    } else {
        index
    }
}

/// The place behind the last character before `end` that is not white space,
/// but not before `start`.
pub open spec fn trimmed_end(s: Seq<char>, start: int, end: int) -> int
    decreases end - start,
{
    if start < end && is_space(s[end - 1]) {
        trimmed_end(s, start, end - 1)
    } else {
        end
    }
}

/// The text without white space at either end.
pub open spec fn trimmed(s: Seq<char>) -> Seq<char> {
    let start = word_start(s, 0);
    s.subrange(start, trimmed_end(s, start, s.len() as int))
}

fn find_word_start(characters: &Vec<char>, index: usize) -> (start: usize)
    requires
        index <= characters.len(),
    ensures
        start as int == word_start(characters@, index as int),
        index <= start <= characters.len(),
{
    let mut start: usize = index;
    while start < characters.len() && space(characters[start])
        invariant
            index <= start <= characters.len(),
            word_start(characters@, index as int) == word_start(characters@, start as int),
        decreases characters.len() - start,
    {
        start = start + 1;
    }
    start
}

fn find_word_end(characters: &Vec<char>, index: usize) -> (end: usize)
    requires
        index <= characters.len(),
    ensures
        end as int == word_end(characters@, index as int),
        index <= end <= characters.len(),
        index < characters.len() && !is_space(characters[index as int]) ==> index < end,
{
    let mut end: usize = index;
    while end < characters.len() && !space(characters[end])
        invariant
            index <= end <= characters.len(),
            word_end(characters@, index as int) == word_end(characters@, end as int),
            index < characters.len() && !is_space(characters[index as int]) ==> index < end
                || end == index,
        decreases characters.len() - end,
    {
        end = end + 1;
    }
    end
}

/// The text without white space at either end.
pub fn trim(text: &str) -> (inner: String)
    ensures
        inner@ == trimmed(text@),
{
    let characters = text::characters(text);
    let start = find_word_start(&characters, 0);
    let mut end: usize = characters.len();
    while start < end && space(characters[end - 1])
        invariant
            start <= end <= characters.len(),
            trimmed_end(characters@, start as int, characters@.len() as int) == trimmed_end(
                characters@,
                start as int,
                end as int,
            ),
        decreases end,
    {
        end = end - 1;
    }
    text::text_of(&characters, start, end)
}

pub proof fn lemma_word_bounds(s: Seq<char>, index: int)
    requires
        0 <= index <= s.len(),
    ensures
        index <= word_start(s, index) <= s.len(),
        word_start(s, index) < s.len() ==> !is_space(s[word_start(s, index)]),
        index <= word_end(s, index) <= s.len(),
        index < s.len() && !is_space(s[index]) ==> index < word_end(s, index),
    decreases s.len() - index,
{
    if index < s.len() {
        lemma_word_bounds(s, index + 1);
    }
}

/// The words from `index` on: maximal runs without white space.
pub open spec fn words_from(s: Seq<char>, index: int) -> Seq<Seq<char>>
    decreases s.len() - index,
{
    if index < 0 || index > s.len() {
        Seq::empty()
    } else {
        let start = word_start(s, index);
        if start >= s.len() {
            Seq::empty()
        } else {
            let end = word_end(s, start);
            proof {
                lemma_word_bounds(s, index);
                lemma_word_bounds(s, start);
            }
            seq![s.subrange(start, end)] + words_from(s, end)
        }
    }
}

/// The words of a text.
pub open spec fn words(s: Seq<char>) -> Seq<Seq<char>> {
    words_from(s, 0)
}

/// The contents of a list of texts.
pub open spec fn strings(list: Seq<String>) -> Seq<Seq<char>> {
    list.map_values(|text: String| text@)
}

/// Appends a text to a list.
pub fn push_string(list: &mut Vec<String>, text: String)
    ensures
        strings(final(list)@) == strings(old(list)@).push(text@),
{
    list.push(text);
    assert(strings(list@) =~= strings(old(list)@).push(text@));
}

/// The words of a text, split at white space.
pub fn split_words(text: &str) -> (list: Vec<String>)
    ensures
        strings(list@) == words(text@),
{
    let characters = text::characters(text);
    let mut list: Vec<String> = Vec::new();
    let mut index: usize = 0;
    assert(strings(list@) + words_from(characters@, 0) =~= words(characters@));
    loop
        invariant
            index <= characters.len(),
            strings(list@) + words_from(characters@, index as int) == words(characters@),
            characters@ == text@,
        decreases characters.len() - index,
    {
        let start = find_word_start(&characters, index);
        proof {
            lemma_word_bounds(characters@, index as int);
            lemma_word_bounds(characters@, start as int);
        }
        if start >= characters.len() {
            assert(strings(list@) + Seq::<Seq<char>>::empty() =~= strings(list@));
            return list;
        }
        let end = find_word_end(&characters, start);
        let ghost before = strings(list@);
        let ghost word = characters@.subrange(start as int, end as int);
        push_string(&mut list, text::text_of(&characters, start, end));
        assert(before.push(word) + words_from(characters@, end as int) =~= before + (seq![word]
            + words_from(characters@, end as int)));
        index = end;
    }
}

/// The first line break from `index` on, or the end.
pub open spec fn line_end(s: Seq<char>, index: int) -> int
    decreases s.len() - index,
{
    if 0 <= index < s.len() && s[index] != '\n' {
        line_end(s, index + 1)
    } else {
        index
    }
}

/// A line that was followed by a line break, without a carriage return before
/// the break.
pub open spec fn without_return(line: Seq<char>) -> Seq<char> {
    if line.len() > 0 && line.last() == '\r' {
        line.drop_last()
    } else {
        line
    }
}

pub proof fn lemma_line_end(s: Seq<char>, index: int)
    requires
        0 <= index <= s.len(),
    ensures
        index <= line_end(s, index) <= s.len(),
    decreases s.len() - index,
{
    if index < s.len() && s[index] != '\n' {
        lemma_line_end(s, index + 1);
    }
}

/// The lines from `index` on.
pub open spec fn lines_from(s: Seq<char>, index: int) -> Seq<Seq<char>>
    decreases s.len() - index,
{
    if index < 0 || index >= s.len() {
        Seq::empty()
    } else {
        let end = line_end(s, index);
        proof {
            lemma_line_end(s, index);
        }
        if end < s.len() {
            seq![without_return(s.subrange(index, end))] + lines_from(s, end + 1)
        } else {
            seq![s.subrange(index, s.len() as int)]
        }
    }
}

/// The lines of a text; a line break at the very end starts no further line.
pub open spec fn lines(s: Seq<char>) -> Seq<Seq<char>> {
    lines_from(s, 0)
}

/// The lines of a text.
pub fn split_lines(text: &str) -> (list: Vec<String>)
    ensures
        strings(list@) == lines(text@),
{
    let characters = text::characters(text);
    let mut list: Vec<String> = Vec::new();
    let mut index: usize = 0;
    assert(strings(list@) + lines_from(characters@, 0) =~= lines(characters@));
    while index < characters.len()
        invariant
            index <= characters.len(),
            strings(list@) + lines_from(characters@, index as int) == lines(characters@),
            characters@ == text@,
        decreases characters.len() - index,
    {
        let mut end: usize = index;
        while end < characters.len() && characters[end] != '\n'
            invariant
                index <= end <= characters.len(),
                line_end(characters@, index as int) == line_end(characters@, end as int),
            decreases characters.len() - end,
        {
            end = end + 1;
        }
        proof {
            lemma_line_end(characters@, index as int);
        }
        let ghost before = strings(list@);
        if end < characters.len() {
            let last = if end > index && characters[end - 1] == '\r' {
                end - 1
            } else {
                end
            };
            let ghost raw = characters@.subrange(index as int, end as int);
            let ghost line = without_return(raw);
            let piece = text::text_of(&characters, index, last);
            assert(end > index ==> raw.last() == characters[end - 1]);
            assert(piece@ =~= line);
            push_string(&mut list, piece);
            assert(before.push(line) + lines_from(characters@, end + 1) =~= before + (seq![line]
                + lines_from(characters@, end + 1)));
            index = end + 1;
        } else {
            let ghost line = characters@.subrange(index as int, end as int);
            push_string(&mut list, text::text_of(&characters, index, end));
            assert(before.push(line) + Seq::<Seq<char>>::empty() =~= before + seq![line]);
            assert(lines_from(characters@, end as int) =~= Seq::empty());
            index = end;
        }
    }
    assert(strings(list@) + lines_from(characters@, index as int) =~= strings(list@));
    list
}

/// Whether `pattern` stands at `index`.
pub open spec fn occurs_at(s: Seq<char>, pattern: Seq<char>, index: int) -> bool {
    0 <= index && index + pattern.len() <= s.len() && s.subrange(index, index + pattern.len())
        == pattern
}

/// Whether `pattern` stands anywhere.
pub open spec fn occurs(s: Seq<char>, pattern: Seq<char>) -> bool {
    exists|index: int| occurs_at(s, pattern, index)
}

/// The first place from `index` on where `pattern` stands.
pub open spec fn found_from(s: Seq<char>, pattern: Seq<char>, index: int) -> Option<int>
    decreases s.len() + 1 - index,
{
    if index < 0 || index > s.len() {
        None
    } else if occurs_at(s, pattern, index) {
        Some(index)
    } else {
        found_from(s, pattern, index + 1)
    }
}

fn stands_at(characters: &Vec<char>, pattern: &Vec<char>, index: usize) -> (yes: bool)
    requires
        index <= characters.len(),
    ensures
        yes == occurs_at(characters@, pattern@, index as int),
{
    if pattern.len() > characters.len() - index {
        return false;
    }
    let mut offset: usize = 0;
    let ghost part = characters@.subrange(index as int, index + pattern@.len());
    while offset < pattern.len()
        invariant
            offset <= pattern.len(),
            index + pattern.len() <= characters.len(),
            part == characters@.subrange(index as int, index + pattern@.len()),
            forall|i: int| 0 <= i < offset ==> part[i] == pattern@[i],
        decreases pattern.len() - offset,
    {
        if characters[index + offset] != pattern[offset] {
            assert(part[offset as int] != pattern@[offset as int]);
            return false;
        }
        offset = offset + 1;
    }
    assert(part =~= pattern@);
    true
}

fn find(characters: &Vec<char>, pattern: &Vec<char>, from: usize) -> (place: Option<usize>)
    requires
        from <= characters.len(),
    ensures
        match place {
            Some(place) => found_from(characters@, pattern@, from as int) == Some(place as int)
                && place + pattern.len() <= characters.len(),
            None => found_from(characters@, pattern@, from as int) is None,
        },
{
    let mut index: usize = from;
    loop
        invariant
            index <= characters.len(),
            found_from(characters@, pattern@, from as int) == found_from(
                characters@,
                pattern@,
                index as int,
            ),
        decreases characters.len() - index,
    {
        if stands_at(characters, pattern, index) {
            return Some(index);
        }
        if index == characters.len() {
            assert(found_from(characters@, pattern@, index + 1) is None);
            return None;
        }
        index = index + 1;
    }
}

pub proof fn lemma_found(s: Seq<char>, pattern: Seq<char>, index: int)
    requires
        0 <= index,
    ensures
        match found_from(s, pattern, index) {
            Some(place) => index <= place && occurs_at(s, pattern, place) && forall|i: int|
                index <= i < place ==> !occurs_at(s, pattern, i),
            None => forall|i: int| index <= i ==> !occurs_at(s, pattern, i),
        },
    decreases s.len() + 1 - index,
{
    if index <= s.len() && !occurs_at(s, pattern, index) {
        lemma_found(s, pattern, index + 1);
    }
}

/// Whether `text` holds `pattern`.
pub fn contains(text: &str, pattern: &str) -> (yes: bool)
    ensures
        yes == occurs(text@, pattern@),
{
    let characters = text::characters(text);
    let sought = text::characters(pattern);
    proof {
        lemma_found(text@, pattern@, 0);
    }
    match find(&characters, &sought, 0) {
        Some(_) => true,
        None => false,
    }
}

/// What stands before and behind the first `pattern`.
pub open spec fn split_first(s: Seq<char>, pattern: Seq<char>) -> Option<(Seq<char>, Seq<char>)> {
    match found_from(s, pattern, 0) {
        Some(place) => Some((s.take(place), s.skip(place + pattern.len()))),
        None => None,
    }
}

/// What stands before and behind the first `pattern`.
pub fn split_once(text: &str, pattern: &str) -> (halves: Option<(String, String)>)
    ensures
        match halves {
            Some((before, behind)) => split_first(text@, pattern@) == Some((before@, behind@)),
            None => split_first(text@, pattern@) is None,
        },
{
    let characters = text::characters(text);
    let sought = text::characters(pattern);
    match find(&characters, &sought, 0) {
        Some(place) => {
            let before = text::text_of(&characters, 0, place);
            let behind = text::text_of(&characters, place + sought.len(), characters.len());
            assert(before@ =~= text@.take(place as int));
            assert(behind@ =~= text@.skip(place + pattern@.len()));
            Some((before, behind))
        },
        None => None,
    }
}

/// The text from `index` on with every `pattern`, taken from the left and
/// without overlap, replaced.
pub open spec fn replaced_from(
    s: Seq<char>,
    pattern: Seq<char>,
    replacement: Seq<char>,
    index: int,
) -> Seq<char>
    decreases s.len() - index,
{
    if index < 0 || index > s.len() || pattern.len() == 0 {
        Seq::empty()
    } else {
        match found_from(s, pattern, index) {
            Some(place) => {
                proof {
                    lemma_found(s, pattern, index);
                }
                s.subrange(index, place) + replacement + replaced_from(
                    s,
                    pattern,
                    replacement,
                    place + pattern.len(),
                )
            },
            None => s.skip(index),
        }
    }
}

/// The text with every `pattern` replaced.
pub fn replace_all(text: &str, pattern: &str, replacement: &str) -> (result: String)
    requires
        pattern@.len() > 0,
    ensures
        result@ == replaced_from(text@, pattern@, replacement@, 0),
{
    let characters = text::characters(text);
    let sought = text::characters(pattern);
    let mut result = String::new();
    let mut index: usize = 0;
    proof {
        reveal_strlit("");
    }
    assert(result@ + replaced_from(text@, pattern@, replacement@, 0) =~= replaced_from(
        text@,
        pattern@,
        replacement@,
        0,
    ));
    loop
        invariant
            index <= characters.len(),
            characters@ == text@,
            sought@ == pattern@,
            pattern@.len() > 0,
            result@ + replaced_from(text@, pattern@, replacement@, index as int) == replaced_from(
                text@,
                pattern@,
                replacement@,
                0,
            ),
        decreases characters.len() - index,
    {
        proof {
            lemma_found(text@, pattern@, index as int);
        }
        match find(&characters, &sought, index) {
            Some(place) => {
                let ghost before = result@;
                let piece = text::text_of(&characters, index, place);
                result.append(piece.as_str());
                result.append(replacement);
                let ghost rest = replaced_from(
                    text@,
                    pattern@,
                    replacement@,
                    place + pattern@.len(),
                );
                assert(before + (piece@ + replacement@ + rest) =~= before + piece@ + replacement@
                    + rest);
                index = place + sought.len();
            },
            None => {
                let piece = text::text_of(&characters, index, characters.len());
                assert(piece@ =~= text@.skip(index as int));
                result.append(piece.as_str());
                return result;
            },
        }
    }
}

/// Text without the pattern is left as it is.
pub proof fn lemma_replace_nothing(s: Seq<char>, pattern: Seq<char>, replacement: Seq<char>)
    requires
        pattern.len() > 0,
        !occurs(s, pattern),
    ensures
        replaced_from(s, pattern, replacement, 0) == s,
{
    lemma_found(s, pattern, 0);
    assert(s.skip(0) =~= s);
}

/// Why text is not a number.
#[derive(Clone, Copy, Debug, PartialEq, Eq, Structural)]
pub enum NumberFault {
    Empty,
    InvalidDigit,
    TooLarge,
}

impl NumberFault {
    pub open spec fn message(self) -> Seq<char> {
        match self {
            NumberFault::Empty => "cannot parse integer from empty string"@,
            NumberFault::InvalidDigit => "invalid digit found in string"@,
            NumberFault::TooLarge => "number too large to fit in target type"@,
        }
    }

    pub fn as_str(self) -> (message: &'static str)
        ensures
            message@ == self.message(),
    {
        match self {
            NumberFault::Empty => "cannot parse integer from empty string",
            NumberFault::InvalidDigit => "invalid digit found in string",
            NumberFault::TooLarge => "number too large to fit in target type",
        }
    }
}

pub open spec fn is_digit(c: char) -> bool {
    '0' <= c <= '9'
}

/// The number that the digits from `index` on complete.
pub open spec fn number_from(s: Seq<char>, index: int, value: nat, max: nat) -> Result<
    nat,
    NumberFault,
>
    decreases s.len() - index,
{
    if index < 0 || index >= s.len() {
        Ok(value)
    } else if !is_digit(s[index]) {
        Err(NumberFault::InvalidDigit)
    } else {
        let next = value * 10 + (s[index] as u32 - '0' as u32) as nat;
        if next > max {
            Err(NumberFault::TooLarge)
        } else {
            number_from(s, index + 1, next, max)
        }
    }
}

/// The number that a text stands for: decimal digits behind an optional `+`.
pub open spec fn number(s: Seq<char>, max: nat) -> Result<nat, NumberFault> {
    if s.len() == 0 {
        Err(NumberFault::Empty)
    } else if s[0] == '+' && s.len() > 1 {
        number_from(s, 1, 0, max)
    } else {
        number_from(s, 0, 0, max)
    }
}

/// Reads a number no larger than `max`.
pub fn parse_number(text: &str, max: u64) -> (parsed: Result<u64, NumberFault>)
    ensures
        match parsed {
            Ok(value) => number(text@, max as nat) == Ok::<nat, NumberFault>(value as nat) && value
                <= max,
            Err(fault) => number(text@, max as nat) == Err::<nat, NumberFault>(fault),
        },
{
    let characters = text::characters(text);
    if characters.len() == 0 {
        return Err(NumberFault::Empty);
    }
    let mut value: u64 = 0;
    let mut index: usize = if characters[0] == '+' && characters.len() > 1 { 1 } else { 0 };
    while index < characters.len()
        invariant
            characters@ == text@,
            index <= characters.len(),
            value <= max,
            number(text@, max as nat) == number_from(
                text@,
                index as int,
                value as nat,
                max as nat,
            ),
        decreases characters.len() - index,
    {
        let c = characters[index];
        if !('0' <= c && c <= '9') {
            return Err(NumberFault::InvalidDigit);
        }
        let digit = (c as u32 - '0' as u32) as u64;
        let wide: u128 = (value as u128) * 10 + (digit as u128);
        if wide > max as u128 {
            return Err(NumberFault::TooLarge);
        }
        value = wide as u64;
        index = index + 1;
    }
    Ok(value)
}

} // verus!

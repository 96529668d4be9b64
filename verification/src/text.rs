//! Text, by characters and by bytes.
//!
//! Spans in a syntax tree are byte offsets, so everything that looks into the source of an
//! expression works on its UTF-8 bytes.

use vstd::prelude::*;
use vstd::utf8::*;

verus! {

/// The number of bytes that `text` takes in UTF-8.
pub open spec fn byte_count(text: Seq<char>) -> nat {
    encode_utf8(text).len()
}

/// `needle` stands in `bytes` at offset `at`, and ends no later than `end`.
pub open spec fn occurs_at(bytes: Seq<u8>, needle: Seq<u8>, at: int, end: int) -> bool {
    &&& 0 <= at
    &&& at + needle.len() <= end <= bytes.len()
    &&& bytes.subrange(at, at + needle.len()) == needle
}

/// The offset of the first occurrence of `needle` in `bytes[start..end]`.
/// Ranges that are empty or reach past the end of `bytes` hold nothing.
pub open spec fn find_in(bytes: Seq<u8>, needle: Seq<u8>, start: int, end: int) -> Option<int>
    decreases end - start,
{
    if start < 0 || start >= end || end > bytes.len() {
        None
    } else if occurs_at(bytes, needle, start, end) {
        Some(start)
    } else {
        find_in(bytes, needle, start + 1, end)
    }
}

/// ASCII white space: space, tab, line feed, form feed and carriage return.
pub open spec fn is_ascii_space(byte: u8) -> bool {
    byte == 0x20 || byte == 0x09 || byte == 0x0A || byte == 0x0C || byte == 0x0D
}

/// The first offset from `start` on, at most `end`, that does not hold ASCII white space.
pub open spec fn after_spaces(bytes: Seq<u8>, start: int, end: int) -> int
    decreases end - start,
{
    if 0 <= start < end && start < bytes.len() && is_ascii_space(bytes[start]) {
        after_spaces(bytes, start + 1, end)
    } else {
        start
    }
}

/// The last offset up to `end`, at least `start`, that no ASCII white space stands right before.
pub open spec fn before_spaces(bytes: Seq<u8>, start: int, end: int) -> int
    decreases end - start,
{
    if 0 <= start < end <= bytes.len() && is_ascii_space(bytes[end - 1]) {
        before_spaces(bytes, start, end - 1)
    } else {
        end
    }
}

/// A search finds an occurrence if there is one, and no occurrence stands before the one found.
pub proof fn find_in_is_first(bytes: Seq<u8>, needle: Seq<u8>, start: int, end: int)
    requires
        needle.len() > 0,
        0 <= start,
    ensures
        match find_in(bytes, needle, start, end) {
            Some(found) => {
                &&& start <= found
                &&& occurs_at(bytes, needle, found, end)
                &&& forall|at: int| start <= at < found ==> !occurs_at(bytes, needle, at, end)
            },
            None => forall|at: int| start <= at ==> !occurs_at(bytes, needle, at, end),
        },
    decreases end - start,
{
    if start >= end || end > bytes.len() {
    } else if occurs_at(bytes, needle, start, end) {
    } else {
        find_in_is_first(bytes, needle, start + 1, end);
    }
}

/// Skipping white space stays within the range, skips nothing but white space, and ends at the end of
/// the range, at the end of the text or at something else.
pub proof fn after_spaces_in_range(bytes: Seq<u8>, start: int, end: int)
    ensures
        start <= end ==> start <= after_spaces(bytes, start, end) <= end,
        0 <= start <= end ==> ({
            let at = after_spaces(bytes, start, end);
            &&& at <= bytes.len() || at == start
            &&& forall|i: int| start <= i < at ==> is_ascii_space(#[trigger] bytes[i])
            &&& at < end && at < bytes.len() ==> !is_ascii_space(bytes[at])
        }),
    decreases end - start,
{
    if 0 <= start < end && start < bytes.len() && is_ascii_space(bytes[start]) {
        after_spaces_in_range(bytes, start + 1, end);
    }
}

/// Going back past white space stays within the range, passes nothing but white space, and ends at
/// the start of the range or right behind something else.
pub proof fn before_spaces_is_last(bytes: Seq<u8>, start: int, end: int)
    requires
        0 <= start <= end <= bytes.len(),
    ensures
        ({
            let at = before_spaces(bytes, start, end);
            &&& start <= at <= end
            &&& forall|i: int| at <= i < end ==> is_ascii_space(#[trigger] bytes[i])
            &&& at == start || !is_ascii_space(bytes[at - 1])
        }),
    decreases end - start,
{
    if start < end && is_ascii_space(bytes[end - 1]) {
        before_spaces_is_last(bytes, start, end - 1);
    }
}

/// Two texts with the same UTF-8 bytes are the same text.
pub proof fn encoding_is_injective(a: Seq<char>, b: Seq<char>)
    requires
        encode_utf8(a) == encode_utf8(b),
    ensures
        a == b,
{
    encode_utf8_decode_utf8(a);
    encode_utf8_decode_utf8(b);
}

/// The length of `text` in bytes.
pub fn byte_len(text: &str) -> (count: usize)
    ensures
        count == byte_count(text@),
{
    text.as_bytes().len()
}

/// Whether `bytes[at..at + needle.len()]` is `needle`.
pub fn matches_at(bytes: &[u8], needle: &[u8], at: usize) -> (found: bool)
    requires
        at + needle@.len() <= bytes@.len(),
    ensures
        found == (bytes@.subrange(at as int, at + needle@.len()) == needle@),
{
    let size: usize = bytes.len();
    let mut i: usize = 0;
    while i < needle.len()
        invariant
            i <= needle@.len(),
            at + needle@.len() <= bytes@.len() == size,
            forall|k: int| 0 <= k < i ==> bytes@[at + k] == needle@[k],
        decreases needle@.len() - i,
    {
        if bytes[at + i] != needle[i] {
            assert(bytes@.subrange(at as int, at + needle@.len())[i as int] != needle@[i as int]);
            return false;
        }
        i += 1;
    }
    assert(bytes@.subrange(at as int, at + needle@.len()) =~= needle@);
    true
}

/// Whether two strings hold the same text.
pub fn same_text(a: &str, b: &str) -> (same: bool)
    ensures
        same == (a@ == b@),
{
    let left = a.as_bytes();
    let right = b.as_bytes();
    if left.len() != right.len() {
        return false;
    }
    let same = matches_at(left, right, 0);
    proof {
        assert(left@.subrange(0, right@.len() as int) =~= left@);
        if same {
            encoding_is_injective(a@, b@);
        }
    }
    same
}

/// Searches `bytes[start..end]` for `needle`.
pub fn find_bytes(bytes: &[u8], needle: &[u8], start: usize, end: usize) -> (found: Option<usize>)
    requires
        needle@.len() > 0,
    ensures
        match found {
            Some(at) => find_in(bytes@, needle@, start as int, end as int) == Some(at as int),
            None => find_in(bytes@, needle@, start as int, end as int) is None,
        },
{
    if start >= end || end > bytes.len() {
        return None;
    }
    let mut at: usize = start;
    while at < end
        invariant
            start <= at <= end <= bytes@.len(),
            needle@.len() > 0,
            find_in(bytes@, needle@, start as int, end as int) == find_in(
                bytes@,
                needle@,
                at as int,
                end as int,
            ),
        decreases end - at,
    {
        if needle.len() <= end - at && matches_at(bytes, needle, at) {
            return Some(at);
        }
        at += 1;
    }
    None
}

/// The UTF-8 encoding of one character.
pub fn encode_char(c: char) -> (bytes: Vec<u8>)
    ensures
        bytes@ == encode_utf8(seq![c]),
{
    let v: u32 = c as u32;
    let mut bytes: Vec<u8> = Vec::new();
    proof {
        reveal_with_fuel(encode_utf8, 2);
        assert(seq![c].drop_first() =~= Seq::<char>::empty());
        char_is_scalar(c);
    }
    if v <= 0x7F {
        bytes.push((v & 0x7F) as u8);
    } else if v <= 0x7FF {
        bytes.push(0xC0 | ((v >> 6) & 0x1F) as u8);
        bytes.push(0x80 | (v & 0x3F) as u8);
    } else if v <= 0xFFFF {
        bytes.push(0xE0 | ((v >> 12) & 0x0F) as u8);
        bytes.push(0x80 | ((v >> 6) & 0x3F) as u8);
        bytes.push(0x80 | (v & 0x3F) as u8);
    } else {
        bytes.push(0xF0 | ((v >> 18) & 0x7) as u8);
        bytes.push(0x80 | ((v >> 12) & 0x3F) as u8);
        bytes.push(0x80 | ((v >> 6) & 0x3F) as u8);
        bytes.push(0x80 | (v & 0x3F) as u8);
    }
    assert(bytes@ =~= encode_scalar(c as u32));
    assert(encode_utf8(seq![c]) =~= encode_scalar(c as u32));
    bytes
}

/// The characters with the Unicode property `White_Space`.
pub open spec fn is_white_space(c: char) -> bool {
    ||| '\u{9}' <= c <= '\u{D}'
    ||| c == '\u{20}'
    ||| c == '\u{85}'
    ||| c == '\u{A0}'
    ||| c == '\u{1680}'
    ||| '\u{2000}' <= c <= '\u{200A}'
    ||| c == '\u{2028}'
    ||| c == '\u{2029}'
    ||| c == '\u{202F}'
    ||| c == '\u{205F}'
    ||| c == '\u{3000}'
}

/// `text` without the white space that it starts with.
pub open spec fn trim_start(text: Seq<char>) -> Seq<char>
    decreases text.len(),
{
    if text.len() > 0 && is_white_space(text[0]) {
        trim_start(text.drop_first())
    } else {
        text
    }
}

/// `text` without the white space that it ends with.
pub open spec fn trim_end(text: Seq<char>) -> Seq<char>
    decreases text.len(),
{
    if text.len() > 0 && is_white_space(text.last()) {
        trim_end(text.drop_last())
    } else {
        text
    }
}

/// `text` without the white space around it.
pub open spec fn trimmed(text: Seq<char>) -> Seq<char> {
    trim_end(trim_start(text))
}

/// The method `trim` of `str`. The contract claims that it takes away the white space at both ends
/// and nothing else, white space being what has the Unicode property `White_Space`.
pub assume_specification[ str::trim ](s: &str) -> (rest: &str)
    ensures
        rest@ == trimmed(s@),
;

/// Trimming leaves a part of the text, and no white space at its ends. What it takes away is white
/// space.
pub proof fn trimmed_is_part(text: Seq<char>)
    ensures
        trimmed(text).len() <= text.len(),
        trimmed(text).len() > 0 ==> !is_white_space(trimmed(text)[0]),
        trimmed(text).len() > 0 ==> !is_white_space(trimmed(text).last()),
        exists|start: int, end: int|
            {
                &&& 0 <= start <= end <= text.len()
                &&& trimmed(text) == #[trigger] text.subrange(start, end)
                &&& forall|i: int|
                    0 <= i < start || end <= i < text.len() ==> is_white_space(#[trigger] text[i])
            },
{
    trim_start_is_suffix(text);
    trim_end_is_prefix(trim_start(text));
    let start = text.len() - trim_start(text).len();
    let end = start + trimmed(text).len();
    assert(trimmed(text) =~= text.subrange(start, end));
    assert forall|i: int| 0 <= i < start || end <= i < text.len() implies is_white_space(
        #[trigger] text[i],
    ) by {
        if end <= i {
            assert(text[i] == trim_start(text)[i - start]);
        }
    }
}

proof fn trim_start_is_suffix(text: Seq<char>)
    ensures
        trim_start(text).len() <= text.len(),
        trim_start(text) == text.skip(text.len() - trim_start(text).len()),
        forall|i: int|
            0 <= i < text.len() - trim_start(text).len() ==> is_white_space(#[trigger] text[i]),
        trim_start(text).len() > 0 ==> !is_white_space(trim_start(text)[0]),
    decreases text.len(),
{
    if text.len() > 0 && is_white_space(text[0]) {
        trim_start_is_suffix(text.drop_first());
        let rest = trim_start(text);
        assert(text.drop_first().skip(text.drop_first().len() - rest.len()) =~= text.skip(
            text.len() - rest.len(),
        ));
        assert forall|i: int| 0 <= i < text.len() - rest.len() implies is_white_space(
            #[trigger] text[i],
        ) by {
            if i > 0 {
                assert(text[i] == text.drop_first()[i - 1]);
            }
        }
    } else {
        assert(text.skip(0) =~= text);
    }
}

proof fn trim_end_is_prefix(text: Seq<char>)
    ensures
        trim_end(text).len() <= text.len(),
        trim_end(text) == text.take(trim_end(text).len() as int),
        forall|i: int|
            trim_end(text).len() <= i < text.len() ==> is_white_space(#[trigger] text[i]),
        trim_end(text).len() > 0 ==> !is_white_space(trim_end(text).last()),
    decreases text.len(),
{
    if text.len() > 0 && is_white_space(text.last()) {
        trim_end_is_prefix(text.drop_last());
        let rest = trim_end(text);
        assert(text.drop_last().take(rest.len() as int) =~= text.take(rest.len() as int));
        assert forall|i: int| rest.len() <= i < text.len() implies is_white_space(
            #[trigger] text[i],
        ) by {
            if i < text.len() - 1 {
                assert(text[i] == text.drop_last()[i]);
            }
        }
    } else {
        assert(text.take(text.len() as int) =~= text);
    }
}

/// White space in front of a text and behind it makes no difference to the trimmed text.
pub proof fn trimming_ignores_padding(before: Seq<char>, text: Seq<char>, after: Seq<char>)
    requires
        forall|i: int| 0 <= i < before.len() ==> is_white_space(#[trigger] before[i]),
        forall|i: int| 0 <= i < after.len() ==> is_white_space(#[trigger] after[i]),
    ensures
        trimmed(before + text + after) == trimmed(text),
    decreases before.len() + after.len(),
{
    if before.len() > 0 {
        let whole = before + text + after;
        assert(whole.drop_first() =~= before.drop_first() + text + after);
        assert(whole[0] == before[0]);
        trimming_ignores_padding(before.drop_first(), text, after);
    } else if after.len() > 0 {
        let rest = after.drop_last();
        trimming_ignores_padding(before, text, rest);
        assert(before + text + after =~= (text + rest).push(after.last()));
        assert(before + text + rest =~= text + rest);
        trimming_ignores_last(text + rest, after.last());
    } else {
        assert(before + text + after =~= text);
    }
}

proof fn trimming_ignores_last(text: Seq<char>, space: char)
    requires
        is_white_space(space),
    ensures
        trimmed(text.push(space)) == trimmed(text),
    decreases text.len(),
{
    if text.len() == 0 {
        reveal_with_fuel(trim_start, 2);
        assert(text.push(space).drop_first() =~= text);
    } else if is_white_space(text[0]) {
        assert(text.push(space).drop_first() =~= text.drop_first().push(space));
        trimming_ignores_last(text.drop_first(), space);
    } else {
        assert(text.push(space).drop_last() =~= text);
    }
}

/// ASCII white space is the white space among the ASCII characters, but for the vertical tab.
pub proof fn ascii_spaces_are_white_space(byte: u8)
    ensures
        is_ascii_space(byte) == (byte < 0x80 && byte != 0x0B && is_white_space(byte as char)),
{
}

} // verus!

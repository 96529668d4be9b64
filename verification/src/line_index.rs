//! Positions of byte offsets, as editors count them.
//!
//! Editors address text by line and by UTF-16 code unit within the line, both counted from zero.

use vstd::prelude::*;
use vstd::utf8::*;

verus! {

/// A place in a text: a line, and a number of UTF-16 code units from its start.
#[derive(Debug, Clone, Copy, PartialEq, Eq)]
pub struct Position {
    pub line: u32,
    pub character: u32,
}

/// The UTF-16 code units that a byte of UTF-8 accounts for. The first byte of a character accounts
/// for all of its code units: two if it starts a four-byte sequence, otherwise one.
pub open spec fn utf16_units(byte: u8) -> int {
    if 0x80 <= byte <= 0xBF {
        0
    } else if 0xF0 <= byte {
        2
    } else {
        1
    }
}

/// The line of offset `n` and the number of UTF-16 code units before it on that line.
pub open spec fn cursor_at(bytes: Seq<u8>, n: int) -> (int, int)
    decreases n,
{
    if n <= 0 {
        (0, 0)
    } else {
        let (line, column) = cursor_at(bytes, n - 1);
        if bytes[n - 1] == 0x0A {
            (line + 1, 0)
        } else {
            (line, column + utf16_units(bytes[n - 1]))
        }
    }
}

/// The position of a byte offset. Offsets past the end have the position of the end. A line or a
/// column beyond the range of `u32` is reduced modulo its size.
pub open spec fn position_of(bytes: Seq<u8>, offset: int) -> Position {
    let (line, column) = cursor_at(
        bytes,
        if offset < bytes.len() {
            offset
        } else {
            bytes.len() as int
        },
    );
    Position { line: line as u32, character: column as u32 }
}

/// A text with the offsets at which its lines start.
pub struct LineIndex {
    source: String,
    line_starts: Vec<usize>,
}

impl LineIndex {
    /// The text.
    pub closed spec fn text(&self) -> Seq<char> {
        self.source@
    }

    /// The bytes of the text.
    pub open spec fn bytes(&self) -> Seq<u8> {
        encode_utf8(self.text())
    }

    /// The first line starts at offset zero, and entry `k` is the offset at which line `k` starts.
    #[verifier::type_invariant]
    spec fn well_formed(self) -> bool {
        starts_of(encode_utf8(self.source@), self.line_starts@)
    }

    /// Indexes the lines of a text.
    pub fn new(source: String) -> (index: Self)
        ensures
            index.text() == source@,
    {
        let mut line_starts: Vec<usize> = Vec::new();
        line_starts.push(0);
        let bytes = source.as_str().as_bytes();
        let mut i: usize = 0;
        while i < bytes.len()
            invariant
                i <= bytes@.len(),
                starts_of(bytes@, line_starts@),
                line_starts@.len() <= i + 1,
                cursor_at(bytes@, i as int).0 == line_starts@.len() - 1,
            decreases bytes@.len() - i,
        {
            if bytes[i] == 0x0A {
                line_starts.push(i + 1);
            }
            i += 1;
        }
        LineIndex { source, line_starts }
    }

    /// The text.
    pub fn source(&self) -> (source: &str)
        ensures
            source@ == self.text(),
    {
        self.source.as_str()
    }

    /// The position of a byte offset.
    pub fn offset_to_position(&self, offset: usize) -> (position: Position)
        ensures
            position == position_of(self.bytes(), offset as int),
    {
        proof {
            use_type_invariant(self);
        }
        let bytes = self.source.as_str().as_bytes();
        let target: usize = if offset < bytes.len() {
            offset
        } else {
            bytes.len()
        };
        let mut low: usize = 0;
        let mut high: usize = self.line_starts.len();
        while high - low > 1
            invariant
                low < high <= self.line_starts@.len(),
                self.line_starts@[low as int] <= target,
            decreases high - low,
        {
            let middle: usize = low + (high - low) / 2;
            if self.line_starts[middle] <= target {
                low = middle;
            } else {
                high = middle;
            }
        }
        let mut line: usize = low;
        let mut column: u128 = 0;
        let mut i: usize = self.line_starts[low];
        while i < target
            invariant
                i <= target <= bytes@.len(),
                bytes@.len() == bytes.len(),
                line <= i,
                column <= 2 * i,
                cursor_at(bytes@, i as int) == (line as int, column as int),
            decreases target - i,
        {
            let byte: u8 = bytes[i];
            if byte == 0x0A {
                line += 1;
                column = 0;
            } else if 0x80 <= byte && byte <= 0xBF {
            } else if 0xF0 <= byte {
                column += 2;
            } else {
                column += 1;
            }
            i += 1;
        }
        Position { line: line as u32, character: column as u32 }
    }
}

/// Entry `k` is the offset at which line `k` of `bytes` starts.
spec fn starts_of(bytes: Seq<u8>, line_starts: Seq<usize>) -> bool {
    &&& line_starts.len() > 0
    &&& line_starts[0] == 0
    &&& forall|k: int|
        0 <= k < line_starts.len() ==> {
            &&& k <= #[trigger] line_starts[k] <= bytes.len()
            &&& cursor_at(bytes, line_starts[k] as int) == (k, 0int)
        }
}

/// A position never comes before the position of an earlier offset.
pub proof fn positions_are_ordered(bytes: Seq<u8>, a: int, b: int)
    requires
        0 <= a <= b,
    ensures
        cursor_at(bytes, a).0 <= cursor_at(bytes, b).0,
        cursor_at(bytes, a).0 == cursor_at(bytes, b).0 ==> cursor_at(bytes, a).1 <= cursor_at(
            bytes,
            b,
        ).1,
    decreases b,
{
    positions_are_bounded(bytes, a);
    if a < b {
        positions_are_ordered(bytes, a, b - 1);
    }
}

/// An offset lies no further down than there are bytes before it, and no further to the right than
/// twice as many code units.
pub proof fn positions_are_bounded(bytes: Seq<u8>, n: int)
    requires
        0 <= n,
    ensures
        0 <= cursor_at(bytes, n).0 <= n,
        0 <= cursor_at(bytes, n).1 <= 2 * n,
    decreases n,
{
    if n > 0 {
        positions_are_bounded(bytes, n - 1);
    }
}

/// The position after the last character of a text, counted character by character: a line feed
/// starts a line, and a character takes two code units if it lies above the basic plane.
pub open spec fn cursor_after(text: Seq<char>) -> (int, int)
    decreases text.len(),
{
    if text.len() == 0 {
        (0, 0)
    } else {
        let (line, column) = cursor_after(text.drop_last());
        if text.last() == '\n' {
            (line + 1, 0)
        } else {
            (line, column + if text.last() as u32 >= 0x10000 { 2int } else { 1int })
        }
    }
}

/// Columns are UTF-16 code units: at the end of any text, counting bytes and counting the code
/// units of its characters come to the same position.
pub proof fn columns_count_utf16(text: Seq<char>)
    ensures
        cursor_at(encode_utf8(text), encode_utf8(text).len() as int) == cursor_after(text),
    decreases text.len(),
{
    if text.len() > 0 {
        let c = text.last();
        let before = encode_utf8(text.drop_last());
        let all = encode_utf8(text);
        let code = encode_scalar(c as u32);
        let n = before.len() as int;
        columns_count_utf16(text.drop_last());
        encode_utf8_push(text.drop_last(), c);
        assert(text.drop_last().push(c) =~= text);
        assert(all == before + code);
        cursor_ignores_rest(before, code, n);
        assert(cursor_at(all, n) == cursor_after(text.drop_last()));
        char_units(c);
        assert(all[n] == code[0]);
        assert(cursor_at(all, n + 1) == cursor_after(text));
        if code.len() >= 2 {
            assert(all[n + 1] == code[1]);
            assert(cursor_at(all, n + 2) == cursor_after(text));
        }
        if code.len() >= 3 {
            assert(all[n + 2] == code[2]);
            assert(cursor_at(all, n + 3) == cursor_after(text));
        }
        if code.len() >= 4 {
            assert(all[n + 3] == code[3]);
            assert(cursor_at(all, n + 4) == cursor_after(text));
        }
    }
}

/// Between two characters of a text stands the position that counting the characters before leads
/// to, whatever comes behind.
pub proof fn positions_count_characters(before: Seq<char>, after: Seq<char>)
    requires
        cursor_after(before).0 <= u32::MAX,
        cursor_after(before).1 <= u32::MAX,
    ensures
        ({
            let position = position_of(
                encode_utf8(before + after),
                encode_utf8(before).len() as int,
            );
            &&& position.line == cursor_after(before).0
            &&& position.character == cursor_after(before).1
        }),
{
    let a = encode_utf8(before);
    let b = encode_utf8(after);
    encode_utf8_concat(before, after);
    columns_count_utf16(before);
    cursor_ignores_rest(a, b, a.len() as int);
    positions_are_bounded(a, a.len() as int);
}

/// A line feed starts a line, on which the columns are counted anew.
pub proof fn line_feeds_start_lines(before: Seq<char>, line: Seq<char>)
    requires
        !line.contains('\n'),
    ensures
        cursor_after(line).0 == 0,
        cursor_after(before + seq!['\n'] + line) == (
            cursor_after(before).0 + 1,
            cursor_after(line).1,
        ),
    decreases line.len(),
{
    let whole = before + seq!['\n'] + line;
    if line.len() == 0 {
        assert(whole.drop_last() =~= before);
    } else {
        let shorter = line.drop_last();
        assert forall|i: int| 0 <= i < shorter.len() implies shorter[i] != '\n' by {
            assert(line.contains(line[i]));
        }
        line_feeds_start_lines(before, shorter);
        assert(line.contains(line.last()));
        assert(whole.drop_last() =~= before + seq!['\n'] + shorter);
    }
}

/// On one line, the characters of the basic plane take a column each, and others take two.
pub proof fn columns_count_characters(line: Seq<char>)
    requires
        !line.contains('\n'),
    ensures
        line.len() <= cursor_after(line).1 <= 2 * line.len(),
        (forall|i: int| 0 <= i < line.len() ==> (#[trigger] line[i]) as u32 <= 0xFFFF)
            ==> cursor_after(line).1 == line.len(),
        (forall|i: int| 0 <= i < line.len() ==> (#[trigger] line[i]) as u32 > 0xFFFF)
            ==> cursor_after(line).1 == 2 * line.len(),
    decreases line.len(),
{
    if line.len() > 0 {
        let shorter = line.drop_last();
        assert forall|i: int| 0 <= i < shorter.len() implies shorter[i] != '\n' by {
            assert(line.contains(line[i]));
        }
        assert(line.contains(line.last()));
        columns_count_characters(shorter);
    }
}

/// An offset inside a character has the position right behind the character.
pub proof fn offsets_inside_characters_are_behind_them(
    before: Seq<char>,
    c: char,
    after: Seq<char>,
    k: int,
)
    requires
        0 < k <= encode_utf8(seq![c]).len(),
    ensures
        ({
            let bytes = encode_utf8(before + seq![c] + after);
            let start = encode_utf8(before).len() as int;
            position_of(bytes, start + k) == position_of(
                bytes,
                start + encode_utf8(seq![c]).len(),
            )
        }),
{
    let a = encode_utf8(before);
    let code = encode_scalar(c as u32);
    let b = encode_utf8(after);
    let n = a.len() as int;
    encode_utf8_concat(before + seq![c], after);
    encode_utf8_concat(before, seq![c]);
    encode_utf8_push(Seq::empty(), c);
    assert(Seq::<char>::empty().push(c) =~= seq![c]);
    assert(encode_utf8(seq![c]) =~= code);
    char_units(c);
    let bytes = a + code + b;
    assert(code.len() >= 2 ==> bytes[n + 1] == code[1]);
    assert(code.len() >= 3 ==> bytes[n + 2] == code[2]);
    assert(code.len() >= 4 ==> bytes[n + 3] == code[3]);
    reveal_with_fuel(cursor_at, 4);
}

/// Offsets past the end have the position of the end.
pub proof fn offsets_end_with_the_text(bytes: Seq<u8>, offset: int)
    requires
        offset >= bytes.len(),
    ensures
        position_of(bytes, offset) == position_of(bytes, bytes.len() as int),
{
}

proof fn encode_utf8_concat(a: Seq<char>, b: Seq<char>)
    ensures
        encode_utf8(a + b) == encode_utf8(a) + encode_utf8(b),
    decreases b.len(),
{
    if b.len() == 0 {
        assert(a + b =~= a);
        assert(encode_utf8(a) + encode_utf8(b) =~= encode_utf8(a));
    } else {
        let rest = b.drop_last();
        encode_utf8_concat(a, rest);
        encode_utf8_push(rest, b.last());
        encode_utf8_push(a + rest, b.last());
        assert(rest.push(b.last()) =~= b);
        assert((a + rest).push(b.last()) =~= a + b);
        assert(encode_utf8(a + b) =~= encode_utf8(a) + encode_utf8(b));
    }
}

/// A position depends only on the bytes before it.
proof fn cursor_ignores_rest(a: Seq<u8>, b: Seq<u8>, n: int)
    requires
        0 <= n <= a.len(),
    ensures
        cursor_at(a + b, n) == cursor_at(a, n),
    decreases n,
{
    if n > 0 {
        cursor_ignores_rest(a, b, n - 1);
    }
}

/// Encoding a text with one more character adds the encoding of that character.
proof fn encode_utf8_push(text: Seq<char>, c: char)
    ensures
        encode_utf8(text.push(c)) == encode_utf8(text) + encode_scalar(c as u32),
    decreases text.len(),
{
    if text.len() == 0 {
        reveal_with_fuel(encode_utf8, 2);
        assert(text.push(c).drop_first() =~= Seq::<char>::empty());
        assert(encode_utf8(text.push(c)) =~= encode_utf8(text) + encode_scalar(c as u32));
    } else {
        encode_utf8_push(text.drop_first(), c);
        assert(text.push(c).drop_first() =~= text.drop_first().push(c));
        assert(encode_utf8(text.push(c)) =~= encode_utf8(text) + encode_scalar(c as u32));
    }
}

/// The first byte of a character accounts for its code units, and only a line feed starts with a
/// line feed byte.
proof fn char_units(c: char)
    ensures
        ({
            let code = encode_scalar(c as u32);
            &&& 1 <= code.len() <= 4
            &&& code[0] == 0x0A <==> c == '\n'
            &&& c == '\n' ==> code.len() == 1
            &&& utf16_units(code[0]) == if c as u32 >= 0x10000 { 2int } else { 1int }
            &&& forall|k: int|
                1 <= k < code.len() ==> (#[trigger] code[k]) != 0x0A && utf16_units(code[k]) == 0
        }),
{
    char_is_scalar(c);
    let v = c as u32;
    assert(v <= 0x7F ==> (v & 0x7F) as u8 == v) by (bit_vector);
    assert(0xC0 <= 0xC0u8 | ((v >> 6) & 0x1F) as u8 <= 0xDF) by (bit_vector);
    assert(0xE0 <= 0xE0u8 | ((v >> 12) & 0x0F) as u8 <= 0xEF) by (bit_vector);
    assert(0xF0 <= 0xF0u8 | ((v >> 18) & 0x7) as u8) by (bit_vector);
    assert(0x80 <= 0x80u8 | (v & 0x3F) as u8 <= 0xBF) by (bit_vector);
    assert(0x80 <= 0x80u8 | ((v >> 6) & 0x3F) as u8 <= 0xBF) by (bit_vector);
    assert(0x80 <= 0x80u8 | ((v >> 12) & 0x3F) as u8 <= 0xBF) by (bit_vector);
}

} // verus!

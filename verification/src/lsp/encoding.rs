//! The wire form of semantic tokens.
//!
//! Clients are sent the tokens in the order of their positions, each position relative to that of
//! the token before it.

use super::highlight::RawToken;
use crate::line_index;
use crate::line_index::{LineIndex, Position};
use vstd::prelude::*;

verus! {

/// A token with a position relative to the token before it: lines down, and code units to the
/// right of that token or, on another line, of the start of the line.
#[derive(Debug, Clone, Copy, PartialEq, Eq)]
pub struct SemanticToken {
    pub delta_line: u32,
    pub delta_start: u32,
    pub length: u32,
    pub token_type: u32,
    pub token_modifiers_bitset: u32,
}

/// `sorted` with `token` put behind all tokens that do not start after it.
pub open spec fn insert_by_start(sorted: Seq<RawToken>, token: RawToken) -> Seq<RawToken>
    decreases sorted.len(),
{
    if sorted.len() == 0 || sorted.last().start <= token.start {
        sorted.push(token)
    } else {
        insert_by_start(sorted.drop_last(), token).push(sorted.last())
    }
}

/// The tokens in the order in which they start. Tokens that start together keep their order.
pub open spec fn by_start(tokens: Seq<RawToken>) -> Seq<RawToken>
    decreases tokens.len(),
{
    if tokens.len() == 0 {
        tokens
    } else {
        insert_by_start(by_start(tokens.drop_last()), tokens.last())
    }
}

/// The length of the receiver of the first comprehension that starts at `start`.
pub open spec fn receiver_length(ranges: Seq<(usize, usize)>, start: usize) -> Option<usize>
    decreases ranges.len(),
{
    if ranges.len() == 0 {
        None
    } else if ranges[0].0 == start {
        Some(ranges[0].1)
    } else {
        receiver_length(ranges.drop_first(), start)
    }
}

/// Where a comprehension starts, only a token as long as its receiver counts as genuine. The rule
/// is there for tokens of nodes that the macro expansion put into the tree. It also leaves out the
/// first token of a receiver that is made of several, such as the `a` of `a.b`.
pub open spec fn is_genuine(ranges: Seq<(usize, usize)>, token: RawToken) -> bool {
    match receiver_length(ranges, token.start) {
        Some(length) => token.length == length,
        None => true,
    }
}

/// The genuine tokens.
pub open spec fn genuine(ranges: Seq<(usize, usize)>, tokens: Seq<RawToken>) -> Seq<RawToken> {
    tokens.filter(|token: RawToken| is_genuine(ranges, token))
}

/// A token at position `at`, relative to position `from`.
pub open spec fn relative(from: Position, at: Position, token: RawToken) -> SemanticToken {
    SemanticToken {
        delta_line: at.line.wrapping_sub(from.line),
        delta_start: if at.line == from.line {
            at.character.wrapping_sub(from.character)
        } else {
            at.character
        },
        length: token.length as u32,
        token_type: token.token_type,
        token_modifiers_bitset: token.token_modifiers,
    }
}

/// The position that token `i` is relative to: that of the token before it, or the start of the
/// text.
pub open spec fn reference_position(bytes: Seq<u8>, tokens: Seq<RawToken>, i: int) -> Position {
    if i == 0 {
        Position { line: 0, character: 0 }
    } else {
        line_index::position_of(bytes, tokens[i - 1].start as int)
    }
}

/// The wire form of tokens of a text.
pub open spec fn encoded(bytes: Seq<u8>, tokens: Seq<RawToken>) -> Seq<SemanticToken> {
    Seq::new(
        tokens.len(),
        |i: int|
            relative(
                reference_position(bytes, tokens, i),
                line_index::position_of(bytes, tokens[i].start as int),
                tokens[i],
            ),
    )
}

/// Puts the tokens in the order in which they start.
pub fn sort_by_start(tokens: &Vec<RawToken>) -> (sorted: Vec<RawToken>)
    ensures
        sorted@ == by_start(tokens@),
{
    let mut sorted: Vec<RawToken> = Vec::new();
    let mut i: usize = 0;
    while i < tokens.len()
        invariant
            i <= tokens.len(),
            sorted@ == by_start(tokens@.take(i as int)),
        decreases tokens.len() - i,
    {
        let token = tokens[i];
        let mut at: usize = sorted.len();
        while at > 0 && sorted[at - 1].start > token.start
            invariant
                at <= sorted@.len(),
                forall|k: int| at <= k < sorted@.len() ==> (#[trigger] sorted@[k]).start > token.start,
            decreases at,
        {
            at -= 1;
        }
        proof {
            insertion_point(sorted@, token, at as int);
            assert(tokens@.take(i + 1).drop_last() =~= tokens@.take(i as int));
        }
        sorted.insert(at, token);
        i += 1;
    }
    proof {
        assert(tokens@.take(i as int) =~= tokens@);
    }
    sorted
}

/// Drops the tokens that are not genuine.
pub fn drop_synthetic(ranges: &Vec<(usize, usize)>, tokens: &Vec<RawToken>) -> (kept: Vec<RawToken>)
    ensures
        kept@ == genuine(ranges@, tokens@),
{
    let ghost pred = |token: RawToken| is_genuine(ranges@, token);
    let mut kept: Vec<RawToken> = Vec::new();
    let mut i: usize = 0;
    proof {
        reveal(Seq::filter);
    }
    while i < tokens.len()
        invariant
            i <= tokens.len(),
            pred == (|token: RawToken| is_genuine(ranges@, token)),
            kept@ == tokens@.take(i as int).filter(pred),
        decreases tokens.len() - i,
    {
        let token = tokens[i];
        let keep = match find_receiver(ranges, token.start) {
            Some(length) => token.length == length,
            None => true,
        };
        proof {
            reveal(Seq::filter);
            assert(tokens@.take(i + 1).drop_last() =~= tokens@.take(i as int));
        }
        if keep {
            kept.push(token);
        }
        i += 1;
    }
    proof {
        assert(tokens@.take(i as int) =~= tokens@);
    }
    kept
}

/// Looks up the receiver of the first comprehension that starts at `start`.
fn find_receiver(ranges: &Vec<(usize, usize)>, start: usize) -> (length: Option<usize>)
    ensures
        length == receiver_length(ranges@, start),
{
    let mut i: usize = 0;
    proof {
        assert(ranges@.skip(0) =~= ranges@);
    }
    while i < ranges.len()
        invariant
            i <= ranges.len(),
            receiver_length(ranges@, start) == receiver_length(ranges@.skip(i as int), start),
        decreases ranges.len() - i,
    {
        if ranges[i].0 == start {
            return Some(ranges[i].1);
        }
        proof {
            assert(ranges@.skip(i as int).drop_first() =~= ranges@.skip(i + 1));
        }
        i += 1;
    }
    None
}

/// Puts tokens into their wire form.
pub fn encode_tokens(tokens: &Vec<RawToken>, line_index: &LineIndex) -> (result: Vec<SemanticToken>)
    ensures
        result@ == encoded(line_index.bytes(), tokens@),
{
    let mut result: Vec<SemanticToken> = Vec::new();
    let mut previous = Position { line: 0, character: 0 };
    let mut i: usize = 0;
    while i < tokens.len()
        invariant
            i <= tokens.len(),
            previous == reference_position(line_index.bytes(), tokens@, i as int),
            result@ == encoded(line_index.bytes(), tokens@).take(i as int),
        decreases tokens.len() - i,
    {
        let token = tokens[i];
        let position = line_index.offset_to_position(token.start);
        let delta_line: u32 = position.line.wrapping_sub(previous.line);
        let delta_start: u32 = if position.line == previous.line {
            position.character.wrapping_sub(previous.character)
        } else {
            position.character
        };
        result.push(
            SemanticToken {
                delta_line,
                delta_start,
                length: token.length as u32,
                token_type: token.token_type,
                token_modifiers_bitset: token.token_modifiers,
            },
        );
        proof {
            let all = encoded(line_index.bytes(), tokens@);
            assert(all.take(i + 1) =~= all.take(i as int).push(all[i as int]));
        }
        previous = position;
        i += 1;
    }
    proof {
        let all = encoded(line_index.bytes(), tokens@);
        assert(all.take(i as int) =~= all);
    }
    result
}

/// Where a token belongs in a sorted sequence.
proof fn insertion_point(sorted: Seq<RawToken>, token: RawToken, at: int)
    requires
        0 <= at <= sorted.len(),
        forall|k: int| at <= k < sorted.len() ==> (#[trigger] sorted[k]).start > token.start,
        at > 0 ==> sorted[at - 1].start <= token.start,
    ensures
        insert_by_start(sorted, token) == sorted.insert(at, token),
    decreases sorted.len(),
{
    if at == sorted.len() {
        assert(sorted.push(token) =~= sorted.insert(at, token));
    } else {
        insertion_point(sorted.drop_last(), token, at);
        assert(sorted.drop_last().insert(at, token).push(sorted.last()) =~= sorted.insert(at, token));
    }
}

/// The tokens are in the order in which they start.
pub open spec fn is_sorted(tokens: Seq<RawToken>) -> bool {
    forall|i: int, j: int| 0 <= i <= j < tokens.len() ==> tokens[i].start <= tokens[j].start
}

/// The tokens that start at `start`.
pub open spec fn starting_at(tokens: Seq<RawToken>, start: usize) -> Seq<RawToken> {
    tokens.filter(|token: RawToken| token.start == start)
}

/// Sorting puts tokens in the order in which they start, and at every start keeps the same tokens
/// in the same order.
pub proof fn sorting_is_stable(tokens: Seq<RawToken>)
    ensures
        is_sorted(by_start(tokens)),
        by_start(tokens).len() == tokens.len(),
        forall|start: usize| #[trigger]
            starting_at(by_start(tokens), start) == starting_at(tokens, start),
    decreases tokens.len(),
{
    if tokens.len() > 0 {
        let sorted = by_start(tokens.drop_last());
        sorting_is_stable(tokens.drop_last());
        insertion_keeps_order(sorted, tokens.last());
        assert forall|start: usize| #[trigger]
            starting_at(by_start(tokens), start) == starting_at(tokens, start) by {
            reveal(Seq::filter);
            insertion_keeps_tokens(sorted, tokens.last(), start);
            assert(starting_at(sorted, start) == starting_at(tokens.drop_last(), start));
            assert(sorted.push(tokens.last()).drop_last() =~= sorted);
        }
    }
}

proof fn insertion_keeps_order(sorted: Seq<RawToken>, token: RawToken)
    requires
        is_sorted(sorted),
    ensures
        is_sorted(insert_by_start(sorted, token)),
        insert_by_start(sorted, token).len() == sorted.len() + 1,
        forall|i: int|
            0 <= i < sorted.len() + 1 ==> {
                ||| (#[trigger] insert_by_start(sorted, token)[i]).start <= token.start
                ||| sorted.len() > 0 && insert_by_start(sorted, token)[i].start
                    <= sorted.last().start
            },
    decreases sorted.len(),
{
    if sorted.len() > 0 && sorted.last().start > token.start {
        insertion_keeps_order(sorted.drop_last(), token);
    }
}

proof fn insertion_keeps_tokens(sorted: Seq<RawToken>, token: RawToken, start: usize)
    ensures
        starting_at(insert_by_start(sorted, token), start) == starting_at(sorted.push(token), start),
    decreases sorted.len(),
{
    if sorted.len() > 0 && sorted.last().start > token.start {
        reveal_with_fuel(Seq::filter, 3);
        let rest = sorted.drop_last();
        let last = sorted.last();
        insertion_keeps_tokens(rest, token, start);
        assert(insert_by_start(rest, token).push(last).drop_last() =~= insert_by_start(rest, token));
        assert(rest.push(token).drop_last() =~= rest);
        assert(sorted.push(token).drop_last() =~= sorted);
    }
}

/// After dropping synthetic tokens, each token that starts where a comprehension does is as long
/// as the receiver of that comprehension, and no other tokens are dropped.
pub proof fn only_receivers_start_comprehensions(
    ranges: Seq<(usize, usize)>,
    tokens: Seq<RawToken>,
)
    ensures
        forall|i: int|
            0 <= i < genuine(ranges, tokens).len() ==> is_genuine(
                ranges,
                #[trigger] genuine(ranges, tokens)[i],
            ),
        forall|i: int|
            0 <= i < tokens.len() && is_genuine(ranges, tokens[i]) ==> #[trigger] genuine(
                ranges,
                tokens,
            ).contains(tokens[i]),
{
    broadcast use vstd::seq_lib::group_filter_ensures;

}

/// Range `i` is the first that starts where the token does.
pub open spec fn is_range_of(ranges: Seq<(usize, usize)>, i: int, token: RawToken) -> bool {
    &&& 0 <= i < ranges.len()
    &&& ranges[i].0 == token.start
    &&& forall|j: int| 0 <= j < i ==> (#[trigger] ranges[j]).0 != token.start
}

/// Tokens are dropped one by one: a token is kept if no comprehension starts where it does, or if it
/// is as long as the receiver of the first one that does, and is dropped otherwise.
pub proof fn tokens_are_dropped_one_by_one(ranges: Seq<(usize, usize)>, token: RawToken)
    ensures
        (forall|i: int| 0 <= i < ranges.len() ==> (#[trigger] ranges[i]).0 != token.start)
            ==> genuine(ranges, seq![token]) == seq![token],
        forall|i: int| #[trigger]
            is_range_of(ranges, i, token) && ranges[i].1 == token.length ==> genuine(
                ranges,
                seq![token],
            ) == seq![token],
        forall|i: int| #[trigger]
            is_range_of(ranges, i, token) && ranges[i].1 != token.length ==> genuine(
                ranges,
                seq![token],
            ) == Seq::<RawToken>::empty(),
{
    reveal_with_fuel(Seq::filter, 2);
    assert(seq![token].drop_last() =~= Seq::empty());
    assert(Seq::<RawToken>::empty().push(token) =~= seq![token]);
    receiver_is_first(ranges, token);
}

proof fn receiver_is_first(ranges: Seq<(usize, usize)>, token: RawToken)
    ensures
        (forall|i: int| 0 <= i < ranges.len() ==> (#[trigger] ranges[i]).0 != token.start)
            ==> receiver_length(ranges, token.start) is None,
        forall|i: int| #[trigger]
            is_range_of(ranges, i, token) ==> receiver_length(ranges, token.start) == Some(
                ranges[i].1,
            ),
    decreases ranges.len(),
{
    if ranges.len() > 0 && ranges[0].0 != token.start {
        let rest = ranges.drop_first();
        receiver_is_first(rest, token);
        assert forall|i: int| #[trigger] is_range_of(ranges, i, token) implies receiver_length(
            ranges,
            token.start,
        ) == Some(ranges[i].1) by {
            assert forall|j: int| 0 <= j < i - 1 implies (#[trigger] rest[j]).0 != token.start by {
                assert(rest[j] == ranges[j + 1]);
            }
            assert(is_range_of(rest, i - 1, token));
        }
        if forall|i: int| 0 <= i < ranges.len() ==> (#[trigger] ranges[i]).0 != token.start {
            assert forall|i: int| 0 <= i < rest.len() implies (#[trigger] rest[i]).0
                != token.start by {
                assert(rest[i] == ranges[i + 1]);
            }
        }
    } else if ranges.len() > 0 {
        assert forall|i: int| #[trigger] is_range_of(ranges, i, token) implies i == 0 by {
            if i > 0 {
                assert(ranges[0].0 != token.start);
            }
        }
    }
}

/// What is dropped of two sequences of tokens together is what is dropped of each.
pub proof fn dropping_keeps_apart(
    ranges: Seq<(usize, usize)>,
    a: Seq<RawToken>,
    b: Seq<RawToken>,
)
    ensures
        genuine(ranges, a + b) == genuine(ranges, a) + genuine(ranges, b),
{
    Seq::filter_distributes_over_add(a, b, |token: RawToken| is_genuine(ranges, token));
}

/// The wire form has one token for each, with its length, its type and its modifiers.
pub proof fn wire_form_keeps_tokens(bytes: Seq<u8>, tokens: Seq<RawToken>, i: int)
    requires
        0 <= i < tokens.len(),
    ensures
        encoded(bytes, tokens).len() == tokens.len(),
        tokens[i].length <= u32::MAX ==> encoded(bytes, tokens)[i].length == tokens[i].length,
        encoded(bytes, tokens)[i].token_type == tokens[i].token_type,
        encoded(bytes, tokens)[i].token_modifiers_bitset == tokens[i].token_modifiers,
{
}

/// The first token is relative to the start of the text.
pub proof fn first_token_is_absolute(bytes: Seq<u8>, tokens: Seq<RawToken>)
    requires
        tokens.len() > 0,
        token_cursor(bytes, tokens[0]).0 <= u32::MAX,
        token_cursor(bytes, tokens[0]).1 <= u32::MAX,
    ensures
        encoded(bytes, tokens)[0].delta_line == token_cursor(bytes, tokens[0]).0,
        encoded(bytes, tokens)[0].delta_start == token_cursor(bytes, tokens[0]).1,
{
    let size = bytes.len() as int;
    let at = if tokens[0].start < size { tokens[0].start as int } else { size };
    line_index::positions_are_bounded(bytes, at);
}

/// Without comprehensions, no token is dropped.
pub proof fn no_comprehension_drops_nothing(tokens: Seq<RawToken>)
    ensures
        genuine(seq![], tokens) == tokens,
    decreases tokens.len(),
{
    reveal(Seq::filter);
    if tokens.len() > 0 {
        no_comprehension_drops_nothing(tokens.drop_last());
        assert(tokens.drop_last().push(tokens.last()) =~= tokens);
    }
}

/// Dropping synthetic tokens keeps the others in order.
pub proof fn dropping_keeps_order(ranges: Seq<(usize, usize)>, tokens: Seq<RawToken>)
    requires
        is_sorted(tokens),
    ensures
        is_sorted(genuine(ranges, tokens)),
        forall|i: int|
            0 <= i < genuine(ranges, tokens).len() ==> (#[trigger] genuine(ranges, tokens)[i]).start
                <= tokens.last().start,
    decreases tokens.len(),
{
    reveal(Seq::filter);
    if tokens.len() > 0 {
        dropping_keeps_order(ranges, tokens.drop_last());
        let rest = genuine(ranges, tokens.drop_last());
        assert forall|i: int| 0 <= i < rest.len() implies (#[trigger] rest[i]).start
            <= tokens.last().start by {
            assert(tokens.drop_last().last().start <= tokens.last().start);
        }
    }
}

/// The position of token `n - 1` as a client works it out: the sum of the relative positions.
pub open spec fn decoded(tokens: Seq<SemanticToken>, n: int) -> Position
    decreases n,
{
    if n <= 0 {
        Position { line: 0, character: 0 }
    } else {
        let from = decoded(tokens, n - 1);
        let token = tokens[n - 1];
        Position {
            line: from.line.wrapping_add(token.delta_line),
            character: if token.delta_line == 0 {
                from.character.wrapping_add(token.delta_start)
            } else {
                token.delta_start
            },
        }
    }
}

/// A client that adds up relative positions finds every token where it stands in the text.
pub proof fn decoding_restores_positions(bytes: Seq<u8>, tokens: Seq<RawToken>, i: int)
    requires
        0 <= i < tokens.len(),
    ensures
        decoded(encoded(bytes, tokens), i + 1) == line_index::position_of(
            bytes,
            tokens[i].start as int,
        ),
    decreases i,
{
    reveal_with_fuel(decoded, 2);
    if i > 0 {
        decoding_restores_positions(bytes, tokens, i - 1);
    }
}

/// The cursor at which a token starts.
pub open spec fn token_cursor(bytes: Seq<u8>, token: RawToken) -> (int, int) {
    line_index::cursor_at(
        bytes,
        if token.start < bytes.len() {
            token.start as int
        } else {
            bytes.len() as int
        },
    )
}

/// Relative positions of sorted tokens are true distances: tokens never go back to an earlier line,
/// nor to the left on a line, as long as lines and columns fit their wire type.
pub proof fn relative_positions_are_distances(bytes: Seq<u8>, tokens: Seq<RawToken>, i: int)
    requires
        is_sorted(tokens),
        0 < i < tokens.len(),
        forall|k: int|
            0 <= k < tokens.len() ==> token_cursor(bytes, #[trigger] tokens[k]).0 <= u32::MAX
                && token_cursor(bytes, tokens[k]).1 <= u32::MAX,
    ensures
        ({
            let from = token_cursor(bytes, tokens[i - 1]);
            let at = token_cursor(bytes, tokens[i]);
            let token = encoded(bytes, tokens)[i];
            &&& token.delta_line == at.0 - from.0
            &&& token.delta_start == if at.0 == from.0 {
                at.1 - from.1
            } else {
                at.1
            }
        }),
{
    let a = tokens[i - 1].start as int;
    let b = tokens[i].start as int;
    let size = bytes.len() as int;
    let from = if a < size { a } else { size };
    let at = if b < size { b } else { size };
    line_index::positions_are_ordered(bytes, from, at);
    line_index::positions_are_bounded(bytes, from);
    line_index::positions_are_bounded(bytes, at);
}

} // verus!

//! What clients are shown: the tokens of an expression or of a document as they come out of their
//! wire form.

use super::coverage;
use super::encoding;
use super::encoding::SemanticToken;
use super::highlight;
use super::highlight::RawToken;
use super::proto_tokens;
use super::semantic_tokens;
use crate::document::ProtoDocumentState;
use crate::line_index;
use crate::parts;
use crate::syntax::SpannedExpr;
use vstd::prelude::*;

verus! {

/// A client that reads token `k` of the wire form finds this token there.
pub open spec fn is_shown_at(
    bytes: Seq<u8>,
    wire: Seq<SemanticToken>,
    token: RawToken,
    k: int,
) -> bool {
    &&& 0 <= k < wire.len()
    &&& encoding::decoded(wire, k + 1) == line_index::position_of(bytes, token.start as int)
    &&& wire[k].length == token.length as u32
    &&& wire[k].token_type == token.token_type
    &&& wire[k].token_modifiers_bitset == token.token_modifiers
}

/// A client finds the token in the wire form.
pub open spec fn is_shown(bytes: Seq<u8>, wire: Seq<SemanticToken>, token: RawToken) -> bool {
    exists|k: int| is_shown_at(bytes, wire, token, k)
}

proof fn encoded_tokens_are_shown(bytes: Seq<u8>, tokens: Seq<RawToken>, k: int)
    requires
        0 <= k < tokens.len(),
    ensures
        is_shown_at(bytes, encoding::encoded(bytes, tokens), tokens[k], k),
{
    encoding::decoding_restores_positions(bytes, tokens, k);
}

proof fn filters_commute(tokens: Seq<RawToken>, ranges: Seq<(usize, usize)>, start: usize)
    ensures
        encoding::starting_at(encoding::genuine(ranges, tokens), start) == encoding::genuine(
            ranges,
            encoding::starting_at(tokens, start),
        ),
    decreases tokens.len(),
{
    reveal_with_fuel(Seq::filter, 2);
    if tokens.len() > 0 {
        let rest = tokens.drop_last();
        let last = tokens.last();
        filters_commute(rest, ranges, start);
        let kept = encoding::genuine(ranges, rest);
        let started = encoding::starting_at(rest, start);
        assert(kept.push(last).drop_last() =~= kept);
        assert(started.push(last).drop_last() =~= started);
    }
}

/// The tokens of an expression come in the order in which they start. At every start there are
/// those that the expression is highlighted with there, in their order, but for those that are
/// dropped where a comprehension starts.
pub proof fn expressions_are_shown_in_order(bytes: Seq<u8>, ast: SpannedExpr, start: usize)
    ensures
        encoding::is_sorted(semantic_tokens::kept_tokens(bytes, ast)),
        encoding::starting_at(semantic_tokens::kept_tokens(bytes, ast), start)
            == encoding::genuine(
            highlight::iter_ranges(bytes.len() as int, ast),
            encoding::starting_at(highlight::expr_tokens(bytes, ast), start),
        ),
{
    let all = highlight::expr_tokens(bytes, ast);
    let ranges = highlight::iter_ranges(bytes.len() as int, ast);
    encoding::sorting_is_stable(all);
    encoding::dropping_keeps_order(ranges, encoding::by_start(all));
    filters_commute(encoding::by_start(all), ranges, start);
}

/// The wire form holds the tokens that are kept, one for each and in their order.
pub proof fn kept_tokens_are_shown(bytes: Seq<u8>, ast: SpannedExpr, k: int)
    ensures
        ({
            let kept = semantic_tokens::kept_tokens(bytes, ast);
            let wire = semantic_tokens::ast_tokens(bytes, ast);
            &&& wire.len() == kept.len()
            &&& 0 <= k < kept.len() ==> is_shown_at(bytes, wire, kept[k], k)
        }),
{
    let kept = semantic_tokens::kept_tokens(bytes, ast);
    if 0 <= k < kept.len() {
        encoded_tokens_are_shown(bytes, kept, k);
    }
}

/// The token is not dropped: no comprehension of the expression starts where it does, or it is as
/// long as the receiver of the first that does.
pub open spec fn is_kept(size: int, ast: SpannedExpr, token: RawToken) -> bool {
    let ranges = highlight::iter_ranges(size, ast);
    ||| forall|i: int| 0 <= i < ranges.len() ==> (#[trigger] ranges[i]).0 != token.start
    ||| exists|i: int| #[trigger]
        encoding::is_range_of(ranges, i, token) && ranges[i].1 == token.length
}

proof fn starting_tokens_are_tokens(tokens: Seq<RawToken>, token: RawToken)
    ensures
        tokens.contains(token) == encoding::starting_at(tokens, token.start).contains(token),
{
    let started = encoding::starting_at(tokens, token.start);
    broadcast use vstd::seq_lib::group_filter_ensures;

    let starts = |t: RawToken| t.start == token.start;
    assert(started == tokens.filter(starts));
    if tokens.contains(token) {
        let i = choose|i: int| 0 <= i < tokens.len() && tokens[i] == token;
        assert(starts(tokens[i]));
        assert(started.contains(tokens[i]));
    }
    if started.contains(token) {
        filtered_tokens_are_tokens(tokens, starts, token);
    }
}

proof fn filtered_tokens_are_tokens(
    tokens: Seq<RawToken>,
    pred: spec_fn(RawToken) -> bool,
    token: RawToken,
)
    requires
        tokens.filter(pred).contains(token),
    ensures
        tokens.contains(token),
    decreases tokens.len(),
{
    reveal(Seq::filter);
    if tokens.len() > 0 {
        let rest = tokens.drop_last();
        if rest.filter(pred).contains(token) {
            filtered_tokens_are_tokens(rest, pred, token);
            let i = choose|i: int| 0 <= i < rest.len() && rest[i] == token;
            assert(tokens[i] == token);
        } else {
            let found = tokens.filter(pred);
            let i = choose|i: int| 0 <= i < found.len() && found[i] == token;
            if i < rest.filter(pred).len() {
                assert(rest.filter(pred)[i] == token);
            }
            assert(tokens[tokens.len() - 1] == token);
        }
    }
}

/// What an expression is highlighted with is shown to clients, unless it is dropped where a
/// comprehension starts.
pub proof fn highlights_are_shown(bytes: Seq<u8>, ast: SpannedExpr, token: RawToken)
    requires
        highlight::expr_tokens(bytes, ast).contains(token),
        is_kept(bytes.len() as int, ast, token),
    ensures
        is_shown(bytes, semantic_tokens::ast_tokens(bytes, ast), token),
{
    let all = highlight::expr_tokens(bytes, ast);
    let ranges = highlight::iter_ranges(bytes.len() as int, ast);
    let kept = semantic_tokens::kept_tokens(bytes, ast);
    expressions_are_shown_in_order(bytes, ast, token.start);
    starting_tokens_are_tokens(all, token);
    starting_tokens_are_tokens(kept, token);
    let started = encoding::starting_at(all, token.start);
    let i = choose|i: int| 0 <= i < started.len() && started[i] == token;
    encoding::tokens_are_dropped_one_by_one(ranges, token);
    assert(encoding::genuine(ranges, seq![token]) == seq![token]);
    encoding::only_receivers_start_comprehensions(ranges, seq![token]);
    assert(encoding::genuine(ranges, seq![token])[0] == token);
    encoding::only_receivers_start_comprehensions(ranges, started);
    assert(encoding::genuine(ranges, started).contains(started[i]));
    let k = choose|k: int| 0 <= k < kept.len() && kept[k] == token;
    kept_tokens_are_shown(bytes, ast, k);
}

/// Clients are shown nothing but what the expression is highlighted with.
pub proof fn only_highlights_are_shown(bytes: Seq<u8>, ast: SpannedExpr, k: int)
    requires
        0 <= k < semantic_tokens::ast_tokens(bytes, ast).len(),
    ensures
        exists|token: RawToken| #[trigger]
            highlight::expr_tokens(bytes, ast).contains(token) && is_shown_at(
                bytes,
                semantic_tokens::ast_tokens(bytes, ast),
                token,
                k,
            ),
{
    let all = highlight::expr_tokens(bytes, ast);
    let ranges = highlight::iter_ranges(bytes.len() as int, ast);
    let kept = semantic_tokens::kept_tokens(bytes, ast);
    kept_tokens_are_shown(bytes, ast, k);
    let token = kept[k];
    filtered_tokens_are_tokens(
        encoding::by_start(all),
        |t: RawToken| encoding::is_genuine(ranges, t),
        token,
    );
    encoding::sorting_is_stable(all);
    starting_tokens_are_tokens(encoding::by_start(all), token);
    assert(encoding::starting_at(encoding::by_start(all), token.start) == encoding::starting_at(
        all,
        token.start,
    ));
    starting_tokens_are_tokens(all, token);
}

/// The token of a name or a literal.
pub open spec fn leaf_token(leaf: SpannedExpr) -> RawToken {
    let (token_type, token_modifiers) = coverage::leaf_kind(leaf.node)->0;
    coverage::token(leaf.span.start as int, leaf.span.end as int, token_type, token_modifiers)
}

/// Every name and every literal in a tree is shown to clients, with exactly the bytes that it takes,
/// as long as the expressions that it is a part of lie in the source and it is not dropped where a
/// comprehension starts.
pub proof fn names_and_literals_are_shown(bytes: Seq<u8>, path: Seq<SpannedExpr>)
    requires
        coverage::is_path(bytes.len() as int, path),
        path.last().span.start < path.last().span.end <= bytes.len() <= usize::MAX,
        coverage::leaf_kind(path.last().node) is Some,
        is_kept(bytes.len() as int, path[0], leaf_token(path.last())),
    ensures
        is_shown(
            bytes,
            semantic_tokens::ast_tokens(bytes, path[0]),
            leaf_token(path.last()),
        ),
        leaf_token(path.last()).start == path.last().span.start,
        leaf_token(path.last()).length == path.last().span.end - path.last().span.start,
        coverage::leaf_kind(path.last().node) == Some(
            (leaf_token(path.last()).token_type, leaf_token(path.last()).token_modifiers),
        ),
{
    coverage::names_and_literals_are_highlighted(bytes, path);
    highlights_are_shown(bytes, path[0], leaf_token(path.last()));
}

/// The tokens of a protocol buffer definition come in the order in which they start. At every start
/// there are those of its regions, in the order of the regions.
pub proof fn documents_are_shown_in_order(state: ProtoDocumentState, start: usize)
    ensures
        encoding::is_sorted(proto_tokens::sorted_tokens(state)),
        encoding::starting_at(proto_tokens::sorted_tokens(state), start)
            == encoding::starting_at(
            proto_tokens::regions_tokens(state.regions@, state.regions@.len() as int),
            start,
        ),
        proto_tokens::proto_tokens(state).len() == proto_tokens::regions_tokens(
            state.regions@,
            state.regions@.len() as int,
        ).len(),
{
    encoding::sorting_is_stable(
        proto_tokens::regions_tokens(state.regions@, state.regions@.len() as int),
    );
}

/// Every token of every region of a protocol buffer definition is shown to clients, where the
/// document holds the byte that it starts at.
pub proof fn regions_are_shown(state: ProtoDocumentState, r: int, i: int)
    requires
        0 <= r < state.regions@.len(),
        state.regions@[r].tree() is Some,
        0 <= i < highlight::expr_tokens(
            state.regions@[r].bytes(),
            state.regions@[r].tree()->0,
        ).len(),
    ensures
        ({
            let region = state.regions@[r];
            let token = highlight::expr_tokens(region.bytes(), region.tree()->0)[i];
            is_shown(
                state.line_index.bytes(),
                proto_tokens::proto_tokens(state),
                RawToken {
                    start: region.host_offsets()[token.start as int],
                    length: token.length,
                    token_type: token.token_type,
                    token_modifiers: token.token_modifiers,
                },
            )
        }),
{
    let regions = state.regions@;
    let all = proto_tokens::regions_tokens(regions, regions.len() as int);
    let sorted = proto_tokens::sorted_tokens(state);
    proto_tokens::region_tokens_stand_in_place(regions[r], i);
    proto_tokens::all_regions_are_highlighted(regions);
    let each = proto_tokens::tokens_of_each_region(regions);
    assert(each[r] == proto_tokens::region_tokens(regions[r]));
    parts::parts_are_contained(all, each, r, i);
    let token = each[r][i];
    documents_are_shown_in_order(state, token.start);
    starting_tokens_are_tokens(all, token);
    starting_tokens_are_tokens(sorted, token);
    let k = choose|k: int| 0 <= k < sorted.len() && sorted[k] == token;
    encoded_tokens_are_shown(state.line_index.bytes(), sorted, k);
}

} // verus!

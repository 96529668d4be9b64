//! Semantic tokens for CEL expressions in protocol buffer definitions.

use super::encoding;
use super::encoding::SemanticToken;
use super::highlight;
use super::highlight::RawToken;
use super::semantic_tokens::TokenCollector;
use crate::document::{ProtoDocumentState, RegionState};
use crate::parts;
use vstd::prelude::*;

verus! {

/// A token of an expression at its place in the document.
pub open spec fn placed(host_offsets: Seq<usize>, token: RawToken) -> RawToken {
    RawToken {
        start: host_offsets[token.start as int],
        length: token.length,
        token_type: token.token_type,
        token_modifiers: token.token_modifiers,
    }
}

/// The tokens of one region, at their places in the document. An expression that could not be
/// parsed has none.
pub open spec fn region_tokens(region: RegionState) -> Seq<RawToken> {
    match region.tree() {
        Some(ast) => highlight::expr_tokens(region.bytes(), ast).map_values(
            |token: RawToken| placed(region.host_offsets(), token),
        ),
        None => seq![],
    }
}

/// The tokens of the first `n` regions.
pub open spec fn regions_tokens(regions: Seq<RegionState>, n: int) -> Seq<RawToken>
    decreases n,
{
    if n <= 0 {
        seq![]
    } else {
        regions_tokens(regions, n - 1) + region_tokens(regions[n - 1])
    }
}

/// The tokens of all regions of a document, in the order in which they start.
pub open spec fn sorted_tokens(state: ProtoDocumentState) -> Seq<RawToken> {
    encoding::by_start(regions_tokens(state.regions@, state.regions@.len() as int))
}

/// The semantic tokens of all regions of a document.
pub open spec fn proto_tokens(state: ProtoDocumentState) -> Seq<SemanticToken> {
    encoding::encoded(state.line_index.bytes(), sorted_tokens(state))
}

/// The semantic tokens of all regions of a document.
pub fn tokens_for_proto(state: &ProtoDocumentState) -> (tokens: Vec<SemanticToken>)
    ensures
        tokens@ == proto_tokens(*state),
{
    let mut all_tokens: Vec<RawToken> = Vec::new();
    let mut i: usize = 0;
    while i < state.regions.len()
        invariant
            i <= state.regions@.len(),
            all_tokens@ == regions_tokens(state.regions@, i as int),
        decreases state.regions@.len() - i,
    {
        let mut region = place_tokens(&state.regions[i]);
        all_tokens.append(&mut region);
        i += 1;
    }
    encoding::encode_tokens(&encoding::sort_by_start(&all_tokens), &state.line_index)
}

/// The tokens of one region, at their places in the document.
fn place_tokens(region: &RegionState) -> (tokens: Vec<RawToken>)
    ensures
        tokens@ == region_tokens(*region),
{
    let ast = match region.ast() {
        Some(ast) => ast,
        None => {
            return Vec::new();
        },
    };
    let source = region.source();
    let mut collector = TokenCollector::new(source);
    collector.visit_expr(ast);
    let ghost local = highlight::expr_tokens(region.bytes(), *ast);
    let size: usize = crate::text::byte_len(source);
    proof {
        assert(collector.tokens@ =~= local);
        highlight::tokens_are_sound(region.bytes(), *ast);
        reveal(highlight::all_sound);
    }
    let mut tokens: Vec<RawToken> = Vec::new();
    let mut i: usize = 0;
    while i < collector.tokens.len()
        invariant
            i <= collector.tokens@.len(),
            collector.tokens@ == local,
            forall|k: int|
                0 <= k < local.len() ==> highlight::is_sound(
                    region.bytes().len() as int,
                    #[trigger] local[k],
                ),
            tokens@ == local.take(i as int).map_values(
                |token: RawToken| placed(region.host_offsets(), token),
            ),
        decreases collector.tokens@.len() - i,
    {
        let token = collector.tokens[i];
        assert(highlight::is_sound(region.bytes().len() as int, local[i as int]));
        let start: usize = region.to_host(token.start);
        tokens.push(
            RawToken {
                start,
                length: token.length,
                token_type: token.token_type,
                token_modifiers: token.token_modifiers,
            },
        );
        i += 1;
    }
    assert(local.take(i as int) =~= local);
    tokens
}

/// The semantic tokens of a document never go back in the text, in whatever order its regions come:
/// each is at its true distance from the one before it, as long as lines and columns fit their wire
/// type.
pub proof fn proto_tokens_are_in_order(state: ProtoDocumentState, i: int)
    requires
        0 < i < proto_tokens(state).len(),
        forall|k: int|
            0 <= k < sorted_tokens(state).len() ==> ({
                let cursor = encoding::token_cursor(
                    state.line_index.bytes(),
                    #[trigger] sorted_tokens(state)[k],
                );
                cursor.0 <= u32::MAX && cursor.1 <= u32::MAX
            }),
    ensures
        ({
            let bytes = state.line_index.bytes();
            let from = encoding::token_cursor(bytes, sorted_tokens(state)[i - 1]);
            let at = encoding::token_cursor(bytes, sorted_tokens(state)[i]);
            let token = proto_tokens(state)[i];
            &&& token.delta_line == at.0 - from.0
            &&& token.delta_start == if at.0 == from.0 {
                at.1 - from.1
            } else {
                at.1
            }
        }),
{
    encoding::sorting_is_stable(regions_tokens(state.regions@, state.regions@.len() as int));
    encoding::relative_positions_are_distances(
        state.line_index.bytes(),
        sorted_tokens(state),
        i,
    );
}

/// A token of a region covers in the document what it covers in the expression: it starts where the
/// document holds the byte that it starts at, and is otherwise what it is. Each token of the
/// expression is there, in its order.
pub proof fn region_tokens_stand_in_place(region: RegionState, i: int)
    requires
        region.tree() is Some,
        0 <= i < highlight::expr_tokens(region.bytes(), region.tree()->0).len(),
    ensures
        ({
            let local = highlight::expr_tokens(region.bytes(), region.tree()->0);
            let token = region_tokens(region)[i];
            &&& region_tokens(region).len() == local.len()
            &&& token.start == region.host_offsets()[local[i].start as int]
            &&& token.length == local[i].length
            &&& token.token_type == local[i].token_type
            &&& token.token_modifiers == local[i].token_modifiers
        }),
{
}

/// The document holds the bytes of the region one behind the other, from `from` on.
pub open spec fn is_contiguous(region: RegionState, from: int) -> bool {
    &&& region.bytes().len() <= region.host_offsets().len()
    &&& forall|i: int|
        0 <= i < region.bytes().len() ==> #[trigger] region.host_offsets()[i] == from + i
}

/// The tokens of a region that the document holds in one piece are those of the expression, moved to
/// where the piece starts. The distances between them stay the same.
pub proof fn contiguous_regions_are_moved(region: RegionState, from: int, i: int, j: int)
    requires
        region.tree() is Some,
        region.bytes().len() <= usize::MAX,
        is_contiguous(region, from),
        0 <= i < highlight::expr_tokens(region.bytes(), region.tree()->0).len(),
        0 <= j < highlight::expr_tokens(region.bytes(), region.tree()->0).len(),
    ensures
        ({
            let local = highlight::expr_tokens(region.bytes(), region.tree()->0);
            let tokens = region_tokens(region);
            &&& tokens[i].start == from + local[i].start
            &&& tokens[j].start - tokens[i].start == local[j].start - local[i].start
        }),
{
    let local = highlight::expr_tokens(region.bytes(), region.tree()->0);
    highlight::tokens_are_sound(region.bytes(), region.tree()->0);
    reveal(highlight::all_sound);
    assert(highlight::is_sound(region.bytes().len() as int, local[i]));
    assert(highlight::is_sound(region.bytes().len() as int, local[j]));
    region_tokens_stand_in_place(region, i);
    region_tokens_stand_in_place(region, j);
}

/// The tokens of each of several regions.
pub open spec fn tokens_of_each_region(regions: Seq<RegionState>) -> Seq<Seq<RawToken>> {
    regions.map_values(|region: RegionState| region_tokens(region))
}

/// A document is highlighted by the tokens of all its regions, and by nothing else.
pub proof fn all_regions_are_highlighted(regions: Seq<RegionState>)
    ensures
        parts::made_of(
            regions_tokens(regions, regions.len() as int),
            tokens_of_each_region(regions),
            0,
        ),
{
    first_regions_are_highlighted(regions, regions.len() as int);
    assert(regions.take(regions.len() as int) =~= regions);
}

proof fn first_regions_are_highlighted(regions: Seq<RegionState>, n: int)
    requires
        0 <= n <= regions.len(),
    ensures
        parts::made_of(
            regions_tokens(regions, n),
            tokens_of_each_region(regions.take(n)),
            0,
        ),
    decreases n,
{
    let parts = tokens_of_each_region(regions.take(n));
    if n == 0 {
        assert(parts =~= seq![]);
    } else {
        let others = tokens_of_each_region(regions.take(n - 1));
        let last = region_tokens(regions[n - 1]);
        first_regions_are_highlighted(regions, n - 1);
        parts::made_of_itself(last);
        parts::made_of_both(
            regions_tokens(regions, n - 1),
            others,
            0,
            last,
            seq![last],
            0,
        );
        assert(parts =~= others + seq![last]);
    }
}

/// A region that could not be parsed is not highlighted.
pub proof fn broken_regions_are_not_highlighted(region: RegionState)
    requires
        region.tree() is None,
    ensures
        region_tokens(region).len() == 0,
{
}

} // verus!

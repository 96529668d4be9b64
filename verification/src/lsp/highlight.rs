//! Which tokens an expression is highlighted with.
//!
//! The functions here say it of a syntax tree and the bytes of its source;
//! the collector of `semantic_tokens` computes it.

use super::token_modifiers::DEFAULT_LIBRARY;
use super::token_types::{FUNCTION, KEYWORD, METHOD, NUMBER, OPERATOR, PUNCTUATION, STRING, VARIABLE};
use crate::builtins;
use crate::syntax::{BinaryOp, ComprehensionData, Expr, ListElement, MapEntry, Span, SpannedExpr, StructField};
use crate::text;
use vstd::prelude::*;
use vstd::utf8::*;

verus! {

/// A highlighted piece of source: a byte range with its token type and modifiers.
#[derive(Debug, Clone, Copy, PartialEq, Eq)]
pub struct RawToken {
    pub start: usize,
    pub length: usize,
    pub token_type: u32,
    pub token_modifiers: u32,
}

/// The token for the bytes from `start` up to `end` of a source of `size` bytes. There is none
/// for a range that is empty or does not lie within the source.
#[verifier::opaque]
pub open spec fn piece(
    size: int,
    start: int,
    end: int,
    token_type: u32,
    token_modifiers: u32,
) -> Seq<RawToken> {
    if 0 <= start < end <= size {
        seq![
            RawToken {
                start: start as usize,
                length: (end - start) as usize,
                token_type,
                token_modifiers,
            },
        ]
    } else {
        Seq::empty()
    }
}

/// An empty range and a range that does not lie within the source have no token.
pub proof fn no_piece(size: int, start: int, end: int, token_type: u32, token_modifiers: u32)
    requires
        !(0 <= start < end <= size),
    ensures
        piece(size, start, end, token_type, token_modifiers) == Seq::<RawToken>::empty(),
{
    reveal(piece);
}

/// The token for one byte of punctuation at offset `at`.
pub open spec fn punctuation(size: int, at: int) -> Seq<RawToken> {
    piece(size, at, at + 1, PUNCTUATION, 0)
}

/// The offset of the first `c` in `source[start..end]`.
pub open spec fn char_in(source: Seq<u8>, start: int, end: int, c: char) -> Option<int> {
    text::find_in(source, encode_utf8(seq![c]), start, end)
}

/// The token for the first `c` in `source[start..end]`.
pub open spec fn punctuation_in(source: Seq<u8>, start: int, end: int, c: char) -> Seq<RawToken> {
    match char_in(source, start, end, c) {
        Some(at) => punctuation(source.len() as int, at),
        None => Seq::empty(),
    }
}

/// The token for the first occurrence of the operator in `source[start..end]`.
pub open spec fn operator_in(source: Seq<u8>, start: int, end: int, op: BinaryOp) -> Seq<RawToken> {
    match text::find_in(source, encode_utf8(op.text()), start, end) {
        Some(at) => piece(
            source.len() as int,
            at,
            at + text::byte_count(op.text()),
            OPERATOR,
            0,
        ),
        None => Seq::empty(),
    }
}

/// The modifiers of a token that names `name`.
pub open spec fn name_modifiers(name: Seq<char>) -> u32 {
    if builtins::builtin_names().contains(name) {
        DEFAULT_LIBRARY
    } else {
        0
    }
}

/// The token for a name that ends at `end`.
pub open spec fn name_before(
    size: int,
    end: int,
    name: Seq<char>,
    token_type: u32,
    token_modifiers: u32,
) -> Seq<RawToken> {
    piece(size, end - text::byte_count(name), end, token_type, token_modifiers)
}

/// A node is highlighted only if its span lies within a source of `size` bytes.
pub open spec fn in_source(size: int, span: Span) -> bool {
    span.start <= span.end <= size
}

/// The tokens of an expression, in the order in which they are collected.
pub open spec fn expr_tokens(source: Seq<u8>, e: SpannedExpr) -> Seq<RawToken>
    decreases e, 0nat,
{
    let size = source.len() as int;
    let start = e.span.start as int;
    let end = e.span.end as int;
    if !in_source(size, e.span) {
        Seq::empty()
    } else {
        match e.node {
            Expr::Null => piece(size, start, end, KEYWORD, 0),
            Expr::Bool(_) => piece(size, start, end, KEYWORD, 0),
            Expr::Int(_) => piece(size, start, end, NUMBER, 0),
            Expr::UInt(_) => piece(size, start, end, NUMBER, 0),
            Expr::Float => piece(size, start, end, NUMBER, 0),
            Expr::String(_) => piece(size, start, end, STRING, 0),
            Expr::Bytes(_) => piece(size, start, end, STRING, 0),
            Expr::Ident(name) => piece(size, start, end, VARIABLE, name_modifiers(name@)),
            Expr::RootIdent(name) => piece(size, start, end, VARIABLE, name_modifiers(name@)),
            Expr::List(items) => {
                punctuation(size, start)
                    + list_tokens(source, items@)
                    + list_commas(source, items@)
                    + punctuation(size, end - 1)
            },
            Expr::MapLiteral(entries) => {
                punctuation(size, start)
                    + entry_tokens(source, entries@)
                    + entry_commas(source, entries@)
                    + punctuation(size, end - 1)
            },
            Expr::Unary { op, expr } => {
                piece(size, start, start + 1, OPERATOR, 0) + expr_tokens(source, *expr)
            },
            Expr::Binary { op, left, right } => {
                expr_tokens(source, *left)
                    + operator_in(source, left.span.end as int, right.span.start as int, op)
                    + expr_tokens(source, *right)
            },
            Expr::Ternary { cond, then_expr, else_expr } => {
                expr_tokens(source, *cond)
                    + punctuation_in(source, cond.span.end as int, then_expr.span.start as int, '?')
                    + expr_tokens(source, *then_expr)
                    + punctuation_in(source, then_expr.span.end as int, else_expr.span.start as int, ':')
                    + expr_tokens(source, *else_expr)
            },
            Expr::Member { expr, field, optional } => {
                expr_tokens(source, *expr)
                    + dot_after(size, expr.span, e.span)
                    + name_before(size, end, field@, VARIABLE, 0)
            },
            Expr::Index { expr, index, optional } => {
                expr_tokens(source, *expr)
                    + punctuation_in(source, expr.span.end as int, index.span.start as int, '[')
                    + expr_tokens(source, *index)
                    + punctuation(size, end - 1)
            },
            Expr::Call { expr, args } => {
                callee_tokens(source, *expr)
                    + punctuation_in(source, expr.span.end as int, end, '(')
                    + arg_tokens(source, args@)
                    + arg_commas(source, args@)
                    + punctuation(size, end - 1)
            },
            Expr::Struct { message_type, fields } => {
                expr_tokens(source, *message_type)
                    + punctuation_in(source, message_type.span.end as int, end, '{')
                    + field_tokens(source, message_type.span.end as int, fields@)
                    + field_commas(source, fields@)
                    + punctuation(size, end - 1)
            },
            Expr::Comprehension(comp) => comprehension_tokens(source, e.span, comp),
            Expr::MemberTestOnly { expr, field } => presence_tokens(source, e.span, *expr, field@),
            Expr::Bind { var_name, init, body } => {
                expr_tokens(source, *init) + expr_tokens(source, *body)
            },
            Expr::Error => Seq::empty(),
        }
    }
}

/// The token for the dot between an operand and the end of what it is a part of.
pub open spec fn dot_after(size: int, operand: Span, whole: Span) -> Seq<RawToken> {
    if operand.end < whole.end {
        punctuation(size, operand.end as int)
    } else {
        Seq::empty()
    }
}

/// The tokens of what is called. A name is a function, a member is a method.
pub open spec fn callee_tokens(source: Seq<u8>, callee: SpannedExpr) -> Seq<RawToken>
    decreases callee, 1nat,
{
    let size = source.len() as int;
    match callee.node {
        Expr::Ident(name) => piece(
            size,
            callee.span.start as int,
            callee.span.end as int,
            FUNCTION,
            name_modifiers(name@),
        ),
        Expr::Member { expr, field, optional } => {
            expr_tokens(source, *expr)
                + dot_after(size, expr.span, callee.span)
                + name_before(
                    size,
                    callee.span.end as int,
                    field@,
                    METHOD,
                    name_modifiers(field@),
                )
        },
        _ => expr_tokens(source, callee),
    }
}

/// The tokens of a comprehension that takes `span` in the source: the receiver, the macro with its
/// iteration variables, the repeated expression and the closing parenthesis.
pub open spec fn comprehension_tokens(
    source: Seq<u8>,
    span: Span,
    comp: ComprehensionData,
) -> Seq<RawToken>
    decreases comp, 0nat,
{
    let end = span.end as int;
    expr_tokens(source, *comp.iter_range)
        + macro_tokens(
            source,
            comp.iter_range.span.end as int,
            end,
            comp.iter_var@,
            comp.iter_var2@,
        )
        + expr_tokens(source, *comp.loop_step)
        + punctuation(source.len() as int, end - 1)
}

/// The tokens of `has(inner.field)`, which takes `span` in the source.
pub open spec fn presence_tokens(
    source: Seq<u8>,
    span: Span,
    inner: SpannedExpr,
    field: Seq<char>,
) -> Seq<RawToken>
    decreases inner, 1nat,
{
    let size = source.len() as int;
    let start = span.start as int;
    let end = span.end as int;
    piece(size, start, start + 3, FUNCTION, DEFAULT_LIBRARY)
        + punctuation_in(source, start + 3, inner.span.start as int, '(')
        + expr_tokens(source, inner)
        + punctuation_in(source, inner.span.end as int, end, '.')
        + name_before(size, end - 1, field, VARIABLE, 0)
        + punctuation(size, end - 1)
}

/// The tokens of the elements of a list, one element after the other.
pub open spec fn list_tokens(source: Seq<u8>, items: Seq<ListElement>) -> Seq<RawToken>
    decreases items, 0nat,
{
    if items.len() == 0 {
        Seq::empty()
    } else {
        list_tokens(source, items.drop_last()) + expr_tokens(source, items.last().expr)
    }
}

/// The tokens for the commas between neighbouring list elements.
pub open spec fn list_commas(source: Seq<u8>, items: Seq<ListElement>) -> Seq<RawToken>
    decreases items.len(),
{
    if items.len() < 2 {
        Seq::empty()
    } else {
        list_commas(source, items.drop_last()) + punctuation_in(
            source,
            items[items.len() - 2].expr.span.end as int,
            items.last().expr.span.start as int,
            ',',
        )
    }
}

/// The tokens of the entries of a map: key, colon, value.
pub open spec fn entry_tokens(source: Seq<u8>, entries: Seq<MapEntry>) -> Seq<RawToken>
    decreases entries, 0nat,
{
    if entries.len() == 0 {
        Seq::empty()
    } else {
        let entry = entries.last();
        entry_tokens(source, entries.drop_last())
            + expr_tokens(source, entry.key)
            + punctuation_in(source, entry.key.span.end as int, entry.value.span.start as int, ':')
            + expr_tokens(source, entry.value)
    }
}

/// The tokens for the commas between neighbouring map entries.
pub open spec fn entry_commas(source: Seq<u8>, entries: Seq<MapEntry>) -> Seq<RawToken>
    decreases entries.len(),
{
    if entries.len() < 2 {
        Seq::empty()
    } else {
        entry_commas(source, entries.drop_last()) + punctuation_in(
            source,
            entries[entries.len() - 2].value.span.end as int,
            entries.last().key.span.start as int,
            ',',
        )
    }
}

/// The tokens of the arguments of a call, one after the other.
pub open spec fn arg_tokens(source: Seq<u8>, args: Seq<SpannedExpr>) -> Seq<RawToken>
    decreases args, 0nat,
{
    if args.len() == 0 {
        Seq::empty()
    } else {
        arg_tokens(source, args.drop_last()) + expr_tokens(source, args.last())
    }
}

/// The tokens for the commas between neighbouring arguments.
pub open spec fn arg_commas(source: Seq<u8>, args: Seq<SpannedExpr>) -> Seq<RawToken>
    decreases args.len(),
{
    if args.len() < 2 {
        Seq::empty()
    } else {
        arg_commas(source, args.drop_last()) + punctuation_in(
            source,
            args[args.len() - 2].span.end as int,
            args.last().span.start as int,
            ',',
        )
    }
}

/// The tokens for the name and the colon of a field. The colon is the first one between `from`,
/// where what comes before the field ends, and the value. The name ends at the colon, or at the
/// white space before it.
pub open spec fn field_label(source: Seq<u8>, from: int, field: StructField) -> Seq<RawToken> {
    let size = source.len() as int;
    match char_in(source, from, field.value.span.start as int, ':') {
        Some(colon) => {
            let end = text::before_spaces(source, from, colon);
            let width = text::byte_count(field.name@) as int;
            let start = if end < width { 0 } else { end - width };
            piece(size, start, end, VARIABLE, 0) + punctuation(size, colon)
        },
        None => Seq::empty(),
    }
}

/// Where what comes before field `i` of a message ends: the message type, which ends at
/// `type_end`, or the value of the field before it.
pub open spec fn field_from(type_end: int, fields: Seq<StructField>, i: int) -> int {
    if i <= 0 {
        type_end
    } else {
        fields[i - 1].value.span.end as int
    }
}

/// The tokens of the fields of a message whose type ends at `type_end`: name, colon, value.
pub open spec fn field_tokens(
    source: Seq<u8>,
    type_end: int,
    fields: Seq<StructField>,
) -> Seq<RawToken>
    decreases fields, 0nat,
{
    if fields.len() == 0 {
        Seq::empty()
    } else {
        field_tokens(source, type_end, fields.drop_last())
            + field_label(source, field_from(type_end, fields, fields.len() - 1), fields.last())
            + expr_tokens(source, fields.last().value)
    }
}

/// The tokens for the commas between the values of neighbouring fields.
pub open spec fn field_commas(source: Seq<u8>, fields: Seq<StructField>) -> Seq<RawToken>
    decreases fields.len(),
{
    if fields.len() < 2 {
        Seq::empty()
    } else {
        field_commas(source, fields.drop_last()) + punctuation_in(
            source,
            fields[fields.len() - 2].value.span.end as int,
            fields.last().value.span.start as int,
            ',',
        )
    }
}

/// Where an iteration variable is looked for from offset `at` on.
pub open spec fn variable_start(source: Seq<u8>, at: int, end: int, name: Seq<char>) -> int {
    if name.len() == 0 {
        at
    } else {
        text::after_spaces(source, at, end)
    }
}

/// Where the search goes on after looking for the iteration variable at offset `at`.
pub open spec fn variable_end(source: Seq<u8>, at: int, end: int, name: Seq<char>) -> int {
    if text::occurs_at(source, encode_utf8(name), at, end) {
        at + text::byte_count(name)
    } else {
        at
    }
}

/// The token for the iteration variable, if it stands at offset `at`.
pub open spec fn variable_token(source: Seq<u8>, at: int, end: int, name: Seq<char>) -> Seq<RawToken> {
    if text::occurs_at(source, encode_utf8(name), at, end) {
        piece(source.len() as int, at, at + text::byte_count(name), VARIABLE, 0)
    } else {
        Seq::empty()
    }
}

/// The tokens for the iteration variables of a macro call and the commas that follow them. The
/// arguments of the call start at offset `at`.
pub open spec fn macro_variables(
    source: Seq<u8>,
    at: int,
    end: int,
    iter_var: Seq<char>,
    iter_var2: Seq<char>,
) -> Seq<RawToken> {
    let first = variable_start(source, at, end, iter_var);
    let cursor = variable_end(source, first, end, iter_var);
    variable_token(source, first, end, iter_var) + (if iter_var2.len() == 0 {
        punctuation_in(source, cursor, end, ',')
    } else {
        match char_in(source, cursor, end, ',') {
            Some(comma) => {
                let second = text::after_spaces(source, comma + 1, end);
                punctuation(source.len() as int, comma)
                    + variable_token(source, second, end, iter_var2)
                    + punctuation_in(source, variable_end(source, second, end, iter_var2), end, ',')
            },
            None => Seq::empty(),
        }
    })
}

/// The tokens for the call of a macro between its receiver, which ends at `after`, and the
/// expression that it repeats: dot, name, parenthesis, iteration variables and commas.
pub open spec fn macro_tokens(
    source: Seq<u8>,
    after: int,
    end: int,
    iter_var: Seq<char>,
    iter_var2: Seq<char>,
) -> Seq<RawToken> {
    let size = source.len() as int;
    match char_in(source, after, end, '.') {
        Some(dot) => punctuation(size, dot) + match char_in(source, dot + 1, end, '(') {
            Some(paren) => {
                piece(size, dot + 1, paren, FUNCTION, DEFAULT_LIBRARY)
                    + punctuation(size, paren)
                    + macro_variables(source, paren + 1, end, iter_var, iter_var2)
            },
            None => Seq::empty(),
        },
        None => Seq::empty(),
    }
}

/// For each comprehension in an expression, in the order in which they are met: where it starts,
/// and how many bytes its receiver takes.
pub open spec fn iter_ranges(size: int, e: SpannedExpr) -> Seq<(usize, usize)>
    decreases e, 0nat,
{
    if !in_source(size, e.span) {
        Seq::empty()
    } else {
        match e.node {
            Expr::List(items) => list_ranges(size, items@),
            Expr::MapLiteral(entries) => entry_ranges(size, entries@),
            Expr::Unary { op, expr } => iter_ranges(size, *expr),
            Expr::Binary { op, left, right } => iter_ranges(size, *left) + iter_ranges(size, *right),
            Expr::Ternary { cond, then_expr, else_expr } => {
                iter_ranges(size, *cond) + iter_ranges(size, *then_expr) + iter_ranges(size, *else_expr)
            },
            Expr::Member { expr, field, optional } => iter_ranges(size, *expr),
            Expr::Index { expr, index, optional } => iter_ranges(size, *expr) + iter_ranges(size, *index),
            Expr::Call { expr, args } => callee_ranges(size, *expr) + arg_ranges(size, args@),
            Expr::Struct { message_type, fields } => {
                iter_ranges(size, *message_type) + field_ranges(size, fields@)
            },
            Expr::Comprehension(comp) => comprehension_ranges(size, e.span, comp),
            Expr::MemberTestOnly { expr, field } => iter_ranges(size, *expr),
            Expr::Bind { var_name, init, body } => iter_ranges(size, *init) + iter_ranges(size, *body),
            _ => Seq::empty(),
        }
    }
}

/// The number of bytes that a span covers, zero where it ends before it starts.
pub open spec fn span_length(span: Span) -> usize {
    if span.end < span.start {
        0
    } else {
        (span.end - span.start) as usize
    }
}

/// A comprehension that takes `span` in the source, and those within it.
pub open spec fn comprehension_ranges(
    size: int,
    span: Span,
    comp: ComprehensionData,
) -> Seq<(usize, usize)>
    decreases comp, 0nat,
{
    seq![(span.start, span_length(comp.iter_range.span))]
        + iter_ranges(size, *comp.iter_range)
        + iter_ranges(size, *comp.loop_step)
}

/// The comprehensions in what is called.
pub open spec fn callee_ranges(size: int, callee: SpannedExpr) -> Seq<(usize, usize)>
    decreases callee, 1nat,
{
    match callee.node {
        Expr::Ident(_) => Seq::empty(),
        Expr::Member { expr, field, optional } => iter_ranges(size, *expr),
        _ => iter_ranges(size, callee),
    }
}

/// The comprehensions in the elements of a list.
pub open spec fn list_ranges(size: int, items: Seq<ListElement>) -> Seq<(usize, usize)>
    decreases items, 0nat,
{
    if items.len() == 0 {
        Seq::empty()
    } else {
        list_ranges(size, items.drop_last()) + iter_ranges(size, items.last().expr)
    }
}

/// The comprehensions in the entries of a map.
pub open spec fn entry_ranges(size: int, entries: Seq<MapEntry>) -> Seq<(usize, usize)>
    decreases entries, 0nat,
{
    if entries.len() == 0 {
        Seq::empty()
    } else {
        entry_ranges(size, entries.drop_last()) + iter_ranges(size, entries.last().key)
            + iter_ranges(size, entries.last().value)
    }
}

/// The comprehensions in the arguments of a call.
pub open spec fn arg_ranges(size: int, args: Seq<SpannedExpr>) -> Seq<(usize, usize)>
    decreases args, 0nat,
{
    if args.len() == 0 {
        Seq::empty()
    } else {
        arg_ranges(size, args.drop_last()) + iter_ranges(size, args.last())
    }
}

/// The comprehensions in the values of the fields of a message.
pub open spec fn field_ranges(size: int, fields: Seq<StructField>) -> Seq<(usize, usize)>
    decreases fields, 0nat,
{
    if fields.len() == 0 {
        Seq::empty()
    } else {
        field_ranges(size, fields.drop_last()) + iter_ranges(size, fields.last().value)
    }
}

/// Tokens that stand for names can have modifiers.
pub open spec fn may_be_modified(token_type: u32) -> bool {
    token_type == VARIABLE || token_type == FUNCTION || token_type == METHOD
}

/// A token covers at least one byte, lies within a source of `size` bytes, and has a type and
/// modifiers that the legend names. Only variables, functions and methods have modifiers.
pub open spec fn is_sound(size: int, token: RawToken) -> bool {
    &&& 0 < token.length
    &&& token.start + token.length <= size
    &&& token.token_type <= PUNCTUATION
    &&& token.token_modifiers == 0 || token.token_modifiers == DEFAULT_LIBRARY
    &&& token.token_modifiers != 0 ==> may_be_modified(token.token_type)
}

/// All tokens of a sequence are sound.
#[verifier::opaque]
pub open spec fn all_sound(size: int, tokens: Seq<RawToken>) -> bool {
    forall|i: int| 0 <= i < tokens.len() ==> is_sound(size, #[trigger] tokens[i])
}

/// No tokens are sound tokens.
broadcast proof fn sound_nothing(size: int)
    ensures
        #[trigger] all_sound(size, Seq::empty()),
{
    reveal(all_sound);
}

/// Sound tokens after sound tokens are sound.
pub broadcast proof fn sound_concat(size: int, a: Seq<RawToken>, b: Seq<RawToken>)
    requires
        all_sound(size, a),
        all_sound(size, b),
    ensures
        #[trigger] all_sound(size, a + b),
{
    reveal(all_sound);
}

/// The token of a range is sound if its type and modifiers are.
broadcast proof fn sound_piece(
    size: int,
    start: int,
    end: int,
    token_type: u32,
    token_modifiers: u32,
)
    requires
        size <= usize::MAX,
        token_type <= PUNCTUATION,
        token_modifiers == 0 || token_modifiers == DEFAULT_LIBRARY,
        token_modifiers != 0 ==> may_be_modified(token_type),
    ensures
        all_sound(size, #[trigger] piece(size, start, end, token_type, token_modifiers)),
{
    reveal(all_sound);
    reveal(piece);
}

/// Highlighting any tree over any source gives sound tokens only.
pub proof fn tokens_are_sound(source: Seq<u8>, e: SpannedExpr)
    requires
        source.len() <= usize::MAX,
    ensures
        all_sound(source.len() as int, expr_tokens(source, e)),
    decreases e, 0nat,
{
    broadcast use {sound_piece, sound_concat, sound_nothing};

    let size = source.len() as int;
    if in_source(size, e.span) {
        match e.node {
            Expr::List(items) => {
                list_tokens_are_sound(source, items@);
            },
            Expr::MapLiteral(entries) => {
                entry_tokens_are_sound(source, entries@);
            },
            Expr::Unary { op, expr } => {
                tokens_are_sound(source, *expr);
            },
            Expr::Binary { op, left, right } => {
                tokens_are_sound(source, *left);
                tokens_are_sound(source, *right);
            },
            Expr::Ternary { cond, then_expr, else_expr } => {
                tokens_are_sound(source, *cond);
                tokens_are_sound(source, *then_expr);
                tokens_are_sound(source, *else_expr);
            },
            Expr::Member { expr, field, optional } => {
                tokens_are_sound(source, *expr);
            },
            Expr::Index { expr, index, optional } => {
                tokens_are_sound(source, *expr);
                tokens_are_sound(source, *index);
            },
            Expr::Call { expr, args } => {
                callee_tokens_are_sound(source, *expr);
                arg_tokens_are_sound(source, args@);
            },
            Expr::Struct { message_type, fields } => {
                tokens_are_sound(source, *message_type);
                field_tokens_are_sound(source, message_type.span.end as int, fields@);
            },
            Expr::Comprehension(comp) => {
                tokens_are_sound(source, *comp.iter_range);
                macro_tokens_are_sound(
                    source,
                    comp.iter_range.span.end as int,
                    e.span.end as int,
                    comp.iter_var@,
                    comp.iter_var2@,
                );
                tokens_are_sound(source, *comp.loop_step);
                assert(all_sound(size, comprehension_tokens(source, e.span, comp)));
            },
            Expr::MemberTestOnly { expr, field } => {
                tokens_are_sound(source, *expr);
                assert(all_sound(size, presence_tokens(source, e.span, *expr, field@)));
            },
            Expr::Bind { var_name, init, body } => {
                tokens_are_sound(source, *init);
                tokens_are_sound(source, *body);
            },
            _ => {},
        }
    }
}

proof fn macro_tokens_are_sound(
    source: Seq<u8>,
    after: int,
    end: int,
    iter_var: Seq<char>,
    iter_var2: Seq<char>,
)
    requires
        source.len() <= usize::MAX,
    ensures
        all_sound(
            source.len() as int,
            macro_tokens(source, after, end, iter_var, iter_var2),
        ),
{
    broadcast use {sound_piece, sound_concat, sound_nothing};

    if let Some(dot) = char_in(source, after, end, '.') {
        if let Some(paren) = char_in(source, dot + 1, end, '(') {
            assert(all_sound(
                source.len() as int,
                macro_variables(source, paren + 1, end, iter_var, iter_var2),
            ));
        }
    }
}

proof fn callee_tokens_are_sound(source: Seq<u8>, callee: SpannedExpr)
    requires
        source.len() <= usize::MAX,
    ensures
        all_sound(source.len() as int, callee_tokens(source, callee)),
    decreases callee, 1nat,
{
    broadcast use {sound_piece, sound_concat, sound_nothing};

    match callee.node {
        Expr::Ident(_) => {},
        Expr::Member { expr, field, optional } => {
            tokens_are_sound(source, *expr);
        },
        _ => {
            tokens_are_sound(source, callee);
        },
    }
}

proof fn list_tokens_are_sound(source: Seq<u8>, items: Seq<ListElement>)
    requires
        source.len() <= usize::MAX,
    ensures
        all_sound(source.len() as int, list_tokens(source, items)),
        all_sound(source.len() as int, list_commas(source, items)),
    decreases items, 0nat,
{
    broadcast use {sound_piece, sound_concat, sound_nothing};

    if items.len() > 0 {
        list_tokens_are_sound(source, items.drop_last());
        tokens_are_sound(source, items.last().expr);
    }
}

proof fn entry_tokens_are_sound(source: Seq<u8>, entries: Seq<MapEntry>)
    requires
        source.len() <= usize::MAX,
    ensures
        all_sound(source.len() as int, entry_tokens(source, entries)),
        all_sound(source.len() as int, entry_commas(source, entries)),
    decreases entries, 0nat,
{
    broadcast use {sound_piece, sound_concat, sound_nothing};

    if entries.len() > 0 {
        entry_tokens_are_sound(source, entries.drop_last());
        tokens_are_sound(source, entries.last().key);
        tokens_are_sound(source, entries.last().value);
    }
}

proof fn arg_tokens_are_sound(source: Seq<u8>, args: Seq<SpannedExpr>)
    requires
        source.len() <= usize::MAX,
    ensures
        all_sound(source.len() as int, arg_tokens(source, args)),
        all_sound(source.len() as int, arg_commas(source, args)),
    decreases args, 0nat,
{
    broadcast use {sound_piece, sound_concat, sound_nothing};

    if args.len() > 0 {
        arg_tokens_are_sound(source, args.drop_last());
        tokens_are_sound(source, args.last());
    }
}

proof fn field_tokens_are_sound(source: Seq<u8>, type_end: int, fields: Seq<StructField>)
    requires
        source.len() <= usize::MAX,
    ensures
        all_sound(source.len() as int, field_tokens(source, type_end, fields)),
        all_sound(source.len() as int, field_commas(source, fields)),
    decreases fields, 0nat,
{
    broadcast use {sound_piece, sound_concat, sound_nothing};

    if fields.len() > 0 {
        field_tokens_are_sound(source, type_end, fields.drop_last());
        tokens_are_sound(source, fields.last().value);
    }
}

} // verus!

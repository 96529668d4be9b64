//! What the highlighting of a tree has to do with the tree.
//!
//! The laws here relate the tokens of an expression to those of its parts, and to the text between
//! the parts: nothing that a part is highlighted with gets lost, everything that is written between
//! the parts is highlighted, and there is no more than that.

use super::highlight;
use super::highlight::RawToken;
use super::token_modifiers::DEFAULT_LIBRARY;
use super::token_types::{FUNCTION, KEYWORD, METHOD, NUMBER, OPERATOR, PUNCTUATION, STRING, VARIABLE};
use crate::builtins;
use crate::parts;
use crate::syntax::{ComprehensionData, Expr, ListElement, MapEntry, Span, SpannedExpr, StructField};
use crate::text;
use vstd::prelude::*;
use vstd::utf8::*;

verus! {

/// The direct parts of an expression, in the order in which they are written. A name that is called
/// is no expression of its own, nor is a method that is called.
pub open spec fn children(e: SpannedExpr) -> Seq<SpannedExpr> {
    match e.node {
        Expr::List(items) => items@.map_values(|item: ListElement| item.expr),
        Expr::MapLiteral(entries) => entry_children(entries@),
        Expr::Unary { op, expr } => seq![*expr],
        Expr::Binary { op, left, right } => seq![*left, *right],
        Expr::Ternary { cond, then_expr, else_expr } => seq![*cond, *then_expr, *else_expr],
        Expr::Member { expr, field, optional } => seq![*expr],
        Expr::Index { expr, index, optional } => seq![*expr, *index],
        Expr::Call { expr, args } => match expr.node {
            Expr::Ident(_) => args@,
            Expr::Member { expr: object, field, optional } => seq![*object] + args@,
            _ => seq![*expr] + args@,
        },
        Expr::Struct { message_type, fields } => seq![*message_type] + fields@.map_values(
            |field: StructField| field.value,
        ),
        Expr::Comprehension(comp) => seq![*comp.iter_range, *comp.loop_step],
        Expr::MemberTestOnly { expr, field } => seq![*expr],
        Expr::Bind { var_name, init, body } => seq![*init, *body],
        _ => seq![],
    }
}

/// The keys and values of a map, in the order in which they are written.
pub open spec fn entry_children(entries: Seq<MapEntry>) -> Seq<SpannedExpr>
    decreases entries.len(),
{
    if entries.len() == 0 {
        seq![]
    } else {
        entry_children(entries.drop_last()) + seq![entries.last().key, entries.last().value]
    }
}

/// One if it holds, otherwise none.
pub open spec fn count(holds: bool) -> int {
    if holds {
        1
    } else {
        0
    }
}

/// `written` stands somewhere in `source[from..to]`.
pub open spec fn is_found(source: Seq<u8>, written: Seq<char>, from: int, to: int) -> bool {
    exists|at: int| from <= at && #[trigger] text::occurs_at(source, encode_utf8(written), at, to)
}

/// In how many of the ranges `c` stands.
pub open spec fn found_in_each(source: Seq<u8>, ranges: Seq<(int, int)>, c: char) -> int
    decreases ranges.len(),
{
    if ranges.len() == 0 {
        0
    } else {
        found_in_each(source, ranges.drop_last(), c) + count(
            is_found(source, seq![c], ranges.last().0, ranges.last().1),
        )
    }
}

/// What lies between neighbouring elements of a list.
pub open spec fn list_gaps(items: Seq<ListElement>) -> Seq<(int, int)> {
    Seq::new(
        gaps(items.len()),
        |i: int| (items[i].expr.span.end as int, items[i + 1].expr.span.start as int),
    )
}

/// What lies between neighbouring arguments.
pub open spec fn arg_gaps(args: Seq<SpannedExpr>) -> Seq<(int, int)> {
    Seq::new(gaps(args.len()), |i: int| (args[i].span.end as int, args[i + 1].span.start as int))
}

/// What lies between neighbouring entries of a map.
pub open spec fn entry_gaps(entries: Seq<MapEntry>) -> Seq<(int, int)> {
    Seq::new(
        gaps(entries.len()),
        |i: int| (entries[i].value.span.end as int, entries[i + 1].key.span.start as int),
    )
}

/// What lies between the keys and the values of a map.
pub open spec fn key_gaps(entries: Seq<MapEntry>) -> Seq<(int, int)> {
    Seq::new(
        entries.len(),
        |i: int| (entries[i].key.span.end as int, entries[i].value.span.start as int),
    )
}

/// What lies between the values of neighbouring fields.
pub open spec fn field_gaps(fields: Seq<StructField>) -> Seq<(int, int)> {
    Seq::new(
        gaps(fields.len()),
        |i: int| (fields[i].value.span.end as int, fields[i + 1].value.span.start as int),
    )
}

/// What lies before the values of the fields of a message whose type ends at `type_end`.
pub open spec fn label_gaps(type_end: int, fields: Seq<StructField>) -> Seq<(int, int)> {
    Seq::new(
        fields.len(),
        |i: int|
            (
                if i == 0 {
                    type_end
                } else {
                    fields[i - 1].value.span.end as int
                },
                fields[i].value.span.start as int,
            ),
    )
}

/// How many gaps there are between `n` things.
pub open spec fn gaps(n: nat) -> nat {
    if n == 0 {
        0
    } else {
        (n - 1) as nat
    }
}

/// How many tokens an expression may have besides those of its parts: one for each sign, bracket
/// and name that is written around the parts.
pub open spec fn own_tokens(source: Seq<u8>, e: SpannedExpr) -> int {
    let size = source.len() as int;
    let start = e.span.start as int;
    let end = e.span.end as int;
    match e.node {
        Expr::List(items) => count(start < size) + count(end > 0) + found_in_each(
            source,
            list_gaps(items@),
            ',',
        ),
        Expr::MapLiteral(entries) => count(start < size) + count(end > 0) + found_in_each(
            source,
            key_gaps(entries@),
            ':',
        ) + found_in_each(source, entry_gaps(entries@), ','),
        Expr::Unary { op, expr } => count(start < size),
        Expr::Binary { op, left, right } => count(
            is_found(source, op.text(), left.span.end as int, right.span.start as int),
        ),
        Expr::Ternary { cond, then_expr, else_expr } => count(
            is_found(source, seq!['?'], cond.span.end as int, then_expr.span.start as int),
        ) + count(
            is_found(source, seq![':'], then_expr.span.end as int, else_expr.span.start as int),
        ),
        Expr::Member { expr, field, optional } => count(expr.span.end < end) + count(
            0 < text::byte_count(field@) <= end,
        ),
        Expr::Index { expr, index, optional } => count(
            is_found(source, seq!['['], expr.span.end as int, index.span.start as int),
        ) + count(end > 0),
        Expr::Call { expr, args } => callee_tokens_limit(size, *expr) + count(
            is_found(source, seq!['('], expr.span.end as int, end),
        ) + found_in_each(source, arg_gaps(args@), ',') + count(end > 0),
        Expr::Struct { message_type, fields } => count(
            is_found(source, seq!['{'], message_type.span.end as int, end),
        ) + 2 * found_in_each(source, label_gaps(message_type.span.end as int, fields@), ':')
            + found_in_each(source, field_gaps(fields@), ',') + count(end > 0),
        Expr::Comprehension(comp) => macro_tokens_limit(
            source,
            comp.iter_range.span.end as int,
            end,
        ) + count(end > 0),
        Expr::MemberTestOnly { expr, field } => count(start + 3 <= size) + count(
            is_found(source, seq!['('], start + 3, expr.span.start as int),
        ) + count(is_found(source, seq!['.'], expr.span.end as int, end)) + count(
            0 < text::byte_count(field@) < end,
        ) + count(end > 0),
        Expr::Bind { var_name, init, body } => 0,
        Expr::Error => 0,
        _ => count(start < end),
    }
}

/// How many tokens what is called may have, besides those of the object of a method.
pub open spec fn callee_tokens_limit(size: int, callee: SpannedExpr) -> int {
    let end = callee.span.end as int;
    match callee.node {
        Expr::Ident(_) => count(callee.span.start < end <= size),
        Expr::Member { expr, field, optional } => count(expr.span.end < end && expr.span.end < size)
            + count(0 < text::byte_count(field@) <= end <= size),
        _ => 0,
    }
}

/// How many tokens the call of a macro may have between its receiver and what it repeats: a dot, a
/// name, a parenthesis, and up to two variables, each with a comma.
pub open spec fn macro_tokens_limit(source: Seq<u8>, after: int, end: int) -> int {
    if !is_found(source, seq!['.'], after, end) {
        0
    } else if !is_found(source, seq!['('], after, end) {
        1
    } else if !is_found(source, seq![','], after, end) {
        4
    } else {
        7
    }
}

/// The tokens of each of several expressions.
pub open spec fn tokens_of_each(source: Seq<u8>, exprs: Seq<SpannedExpr>) -> Seq<Seq<RawToken>> {
    exprs.map_values(|e: SpannedExpr| highlight::expr_tokens(source, e))
}

broadcast proof fn pieces_are_counted(
    size: int,
    start: int,
    end: int,
    token_type: u32,
    token_modifiers: u32,
)
    ensures
        (#[trigger] highlight::piece(size, start, end, token_type, token_modifiers)).len() == count(
            0 <= start < end <= size,
        ),
{
    reveal(highlight::piece);
}

proof fn search_is_counted(source: Seq<u8>, written: Seq<char>, from: int, to: int)
    requires
        written.len() > 0,
        0 <= from,
    ensures
        text::find_in(source, encode_utf8(written), from, to) is Some == is_found(
            source,
            written,
            from,
            to,
        ),
{
    encode_utf8_first_scalar(written);
    text::find_in_is_first(source, encode_utf8(written), from, to);
}

broadcast proof fn marks_are_counted(source: Seq<u8>, from: int, to: int, c: char)
    requires
        0 <= from,
    ensures
        (#[trigger] highlight::punctuation_in(source, from, to, c)).len() <= count(
            is_found(source, seq![c], from, to),
        ),
{
    broadcast use pieces_are_counted;

    search_is_counted(source, seq![c], from, to);
}

proof fn list_is_made_of(source: Seq<u8>, items: Seq<ListElement>)
    ensures
        parts::made_of(
            highlight::list_tokens(source, items),
            tokens_of_each(source, items.map_values(|item: ListElement| item.expr)),
            0,
        ),
        highlight::list_commas(source, items).len() <= found_in_each(source, list_gaps(items), ','),
    decreases items.len(),
{
    broadcast use {pieces_are_counted, marks_are_counted};

    let parts = tokens_of_each(source, items.map_values(|item: ListElement| item.expr));
    if items.len() == 0 {
        assert(parts =~= seq![]);
    } else {
        let before = items.drop_last();
        list_is_made_of(source, before);
        if before.len() > 0 {
            assert(list_gaps(items).drop_last() =~= list_gaps(before));
        }
        let last = highlight::expr_tokens(source, items.last().expr);
        let others = tokens_of_each(source, before.map_values(|item: ListElement| item.expr));
        parts::made_of_itself(last);
        parts::made_of_both(highlight::list_tokens(source, before), others, 0, last, seq![last], 0);
        assert(parts =~= others + seq![last]);
    }
}

proof fn args_are_made_of(source: Seq<u8>, args: Seq<SpannedExpr>)
    ensures
        parts::made_of(highlight::arg_tokens(source, args), tokens_of_each(source, args), 0),
        highlight::arg_commas(source, args).len() <= found_in_each(source, arg_gaps(args), ','),
    decreases args.len(),
{
    broadcast use {pieces_are_counted, marks_are_counted};

    let parts = tokens_of_each(source, args);
    if args.len() == 0 {
        assert(parts =~= seq![]);
    } else {
        let before = args.drop_last();
        args_are_made_of(source, before);
        if before.len() > 0 {
            assert(arg_gaps(args).drop_last() =~= arg_gaps(before));
        }
        let last = highlight::expr_tokens(source, args.last());
        let others = tokens_of_each(source, before);
        parts::made_of_itself(last);
        parts::made_of_both(highlight::arg_tokens(source, before), others, 0, last, seq![last], 0);
        assert(parts =~= others + seq![last]);
    }
}

proof fn entries_are_made_of(source: Seq<u8>, entries: Seq<MapEntry>)
    ensures
        parts::made_of(
            highlight::entry_tokens(source, entries),
            tokens_of_each(source, entry_children(entries)),
            found_in_each(source, key_gaps(entries), ':'),
        ),
        highlight::entry_commas(source, entries).len() <= found_in_each(
            source,
            entry_gaps(entries),
            ',',
        ),
    decreases entries.len(),
{
    broadcast use {pieces_are_counted, marks_are_counted};

    let parts = tokens_of_each(source, entry_children(entries));
    if entries.len() == 0 {
        assert(parts =~= seq![]);
    } else {
        let before = entries.drop_last();
        let entry = entries.last();
        entries_are_made_of(source, before);
        assert(key_gaps(entries).drop_last() =~= key_gaps(before));
        if before.len() > 0 {
            assert(entry_gaps(entries).drop_last() =~= entry_gaps(before));
        }
        let others = tokens_of_each(source, entry_children(before));
        let start = highlight::entry_tokens(source, before);
        let key = highlight::expr_tokens(source, entry.key);
        let colon = highlight::punctuation_in(
            source,
            entry.key.span.end as int,
            entry.value.span.start as int,
            ':',
        );
        let value = highlight::expr_tokens(source, entry.value);
        let n = found_in_each(source, key_gaps(before), ':');
        let m = colon.len() as int;
        parts::made_of_itself(key);
        parts::made_of_itself(value);
        parts::made_of_both(start, others, n, key, seq![key], 0);
        parts::made_of_more(start + key, others + seq![key], n, colon, m);
        parts::made_of_both(start + key + colon, others + seq![key], n + m, value, seq![value], 0);
        assert(parts =~= others + seq![key] + seq![value]);
    }
}

proof fn fields_are_made_of(source: Seq<u8>, type_end: int, fields: Seq<StructField>)
    requires
        0 <= type_end,
    ensures
        parts::made_of(
            highlight::field_tokens(source, type_end, fields),
            tokens_of_each(source, fields.map_values(|field: StructField| field.value)),
            2 * found_in_each(source, label_gaps(type_end, fields), ':'),
        ),
        highlight::field_commas(source, fields).len() <= found_in_each(
            source,
            field_gaps(fields),
            ',',
        ),
    decreases fields.len(),
{
    broadcast use {pieces_are_counted, marks_are_counted};

    let parts = tokens_of_each(source, fields.map_values(|field: StructField| field.value));
    if fields.len() == 0 {
        assert(parts =~= seq![]);
    } else {
        let before = fields.drop_last();
        fields_are_made_of(source, type_end, before);
        assert(label_gaps(type_end, fields).drop_last() =~= label_gaps(type_end, before));
        if before.len() > 0 {
            assert(field_gaps(fields).drop_last() =~= field_gaps(before));
        }
        let others = tokens_of_each(source, before.map_values(|field: StructField| field.value));
        let start = highlight::field_tokens(source, type_end, before);
        let label = highlight::field_label(
            source,
            highlight::field_from(type_end, fields, fields.len() - 1),
            fields.last(),
        );
        let value = highlight::expr_tokens(source, fields.last().value);
        let n = 2 * found_in_each(source, label_gaps(type_end, before), ':');
        let m = label.len() as int;
        let from = highlight::field_from(type_end, fields, fields.len() - 1);
        search_is_counted(source, seq![':'], from, fields.last().value.span.start as int);
        parts::made_of_more(start, others, n, label, m);
        parts::made_of_itself(value);
        parts::made_of_both(start + label, others, n + m, value, seq![value], 0);
        assert(parts =~= others + seq![value]);
    }
}

proof fn callee_is_made_of(source: Seq<u8>, callee: SpannedExpr)
    ensures
        match callee.node {
            Expr::Ident(_) => highlight::callee_tokens(source, callee).len() <= callee_tokens_limit(
                source.len() as int,
                callee,
            ),
            Expr::Member { expr, field, optional } => parts::made_of(
                highlight::callee_tokens(source, callee),
                seq![highlight::expr_tokens(source, *expr)],
                callee_tokens_limit(source.len() as int, callee),
            ),
            _ => parts::made_of(
                highlight::callee_tokens(source, callee),
                seq![highlight::expr_tokens(source, callee)],
                0,
            ),
        },
{
    broadcast use {pieces_are_counted, marks_are_counted};

    let size = source.len() as int;
    match callee.node {
        Expr::Ident(_) => {},
        Expr::Member { expr, field, optional } => {
            let object = highlight::expr_tokens(source, *expr);
            let dot = highlight::dot_after(size, expr.span, callee.span);
            let name = highlight::name_before(
                size,
                callee.span.end as int,
                field@,
                METHOD,
                highlight::name_modifiers(field@),
            );
            let m = dot.len() as int;
            parts::made_of_itself(object);
            parts::made_of_more(object, seq![object], 0, dot, m);
            parts::made_of_more(object + dot, seq![object], m, name, name.len() as int);
        },
        _ => {
            parts::made_of_itself(highlight::expr_tokens(source, callee));
        },
    }
}

/// An expression is highlighted by the tokens of its parts, all of them and in their order, and by a
/// bounded number of tokens of its own.
pub proof fn parts_are_highlighted(source: Seq<u8>, e: SpannedExpr)
    requires
        highlight::in_source(source.len() as int, e.span),
    ensures
        parts::made_of(
            highlight::expr_tokens(source, e),
            tokens_of_each(source, children(e)),
            own_tokens(source, e),
        ),
{
    broadcast use {pieces_are_counted, marks_are_counted};

    let size = source.len() as int;
    let start = e.span.start as int;
    let end = e.span.end as int;
    let parts = tokens_of_each(source, children(e));
    let closing = highlight::punctuation(size, end - 1);
    let last = closing.len() as int;
    match e.node {
        Expr::List(items) => {
            let opening = highlight::punctuation(size, start);
            let inner = highlight::list_tokens(source, items@);
            let commas = highlight::list_commas(source, items@);
            let m = opening.len() as int;
            let n = commas.len() as int;
            list_is_made_of(source, items@);
            parts::made_of_both(opening, seq![], m, inner, parts, 0);
            assert(seq![] + parts =~= parts);
            parts::made_of_more(opening + inner, parts, m, commas, n);
            parts::made_of_more(opening + inner + commas, parts, m + n, closing, last);
        },
        Expr::MapLiteral(entries) => {
            let opening = highlight::punctuation(size, start);
            let inner = highlight::entry_tokens(source, entries@);
            let commas = highlight::entry_commas(source, entries@);
            let m = opening.len() as int + found_in_each(source, key_gaps(entries@), ':');
            let n = commas.len() as int;
            entries_are_made_of(source, entries@);
            parts::made_of_both(opening, seq![], opening.len() as int, inner, parts, m - opening.len());
            assert(seq![] + parts =~= parts);
            parts::made_of_more(opening + inner, parts, m, commas, n);
            parts::made_of_more(opening + inner + commas, parts, m + n, closing, last);
        },
        Expr::Unary { op, expr } => {
            let sign = highlight::piece(size, start, start + 1, OPERATOR, 0);
            let inner = highlight::expr_tokens(source, *expr);
            parts::made_of_itself(inner);
            parts::made_of_both(sign, seq![], sign.len() as int, inner, seq![inner], 0);
            assert(parts =~= seq![] + seq![inner]);
        },
        Expr::Binary { op, left, right } => {
            let a = highlight::expr_tokens(source, *left);
            let sign = highlight::operator_in(
                source,
                left.span.end as int,
                right.span.start as int,
                op,
            );
            let b = highlight::expr_tokens(source, *right);
            parts::made_of_itself(a);
            parts::made_of_itself(b);
            op.text_is_not_empty();
            search_is_counted(
                source,
                op.text(),
                left.span.end as int,
                right.span.start as int,
            );
            let m = sign.len() as int;
            parts::made_of_more(a, seq![a], 0, sign, m);
            parts::made_of_both(a + sign, seq![a], m, b, seq![b], 0);
            assert(parts =~= seq![a] + seq![b]);
        },
        Expr::Ternary { cond, then_expr, else_expr } => {
            let a = highlight::expr_tokens(source, *cond);
            let mark = highlight::punctuation_in(
                source,
                cond.span.end as int,
                then_expr.span.start as int,
                '?',
            );
            let b = highlight::expr_tokens(source, *then_expr);
            let colon = highlight::punctuation_in(
                source,
                then_expr.span.end as int,
                else_expr.span.start as int,
                ':',
            );
            let c = highlight::expr_tokens(source, *else_expr);
            parts::made_of_itself(a);
            parts::made_of_itself(b);
            parts::made_of_itself(c);
            let m = mark.len() as int;
            let n = colon.len() as int;
            parts::made_of_more(a, seq![a], 0, mark, m);
            parts::made_of_both(a + mark, seq![a], m, b, seq![b], 0);
            parts::made_of_more(a + mark + b, seq![a] + seq![b], m, colon, n);
            parts::made_of_both(a + mark + b + colon, seq![a] + seq![b], m + n, c, seq![c], 0);
            assert(parts =~= seq![a] + seq![b] + seq![c]);
        },
        Expr::Member { expr, field, optional } => {
            let a = highlight::expr_tokens(source, *expr);
            let dot = highlight::dot_after(size, expr.span, e.span);
            let name = highlight::name_before(size, end, field@, VARIABLE, 0);
            let m = dot.len() as int;
            parts::made_of_itself(a);
            parts::made_of_more(a, seq![a], 0, dot, m);
            parts::made_of_more(a + dot, seq![a], m, name, name.len() as int);
            assert(parts =~= seq![a]);
        },
        Expr::Index { expr, index, optional } => {
            let a = highlight::expr_tokens(source, *expr);
            let opening = highlight::punctuation_in(
                source,
                expr.span.end as int,
                index.span.start as int,
                '[',
            );
            let b = highlight::expr_tokens(source, *index);
            parts::made_of_itself(a);
            parts::made_of_itself(b);
            let m = opening.len() as int;
            parts::made_of_more(a, seq![a], 0, opening, m);
            parts::made_of_both(a + opening, seq![a], m, b, seq![b], 0);
            parts::made_of_more(a + opening + b, seq![a] + seq![b], m, closing, last);
            assert(parts =~= seq![a] + seq![b]);
        },
        Expr::Call { expr, args } => {
            call_is_made_of(source, e, *expr, args@);
        },
        Expr::Struct { message_type, fields } => {
            let a = highlight::expr_tokens(source, *message_type);
            let opening = highlight::punctuation_in(source, message_type.span.end as int, end, '{');
            let inner = highlight::field_tokens(source, message_type.span.end as int, fields@);
            let commas = highlight::field_commas(source, fields@);
            let values = tokens_of_each(
                source,
                fields@.map_values(|field: StructField| field.value),
            );
            let k = opening.len() as int;
            let n = commas.len() as int;
            let m = 2 * found_in_each(
                source,
                label_gaps(message_type.span.end as int, fields@),
                ':',
            );
            fields_are_made_of(source, message_type.span.end as int, fields@);
            parts::made_of_itself(a);
            parts::made_of_more(a, seq![a], 0, opening, k);
            parts::made_of_both(a + opening, seq![a], k, inner, values, m);
            parts::made_of_more(a + opening + inner, seq![a] + values, k + m, commas, n);
            parts::made_of_more(
                a + opening + inner + commas,
                seq![a] + values,
                k + m + n,
                closing,
                last,
            );
            assert(parts =~= seq![a] + values);
        },
        Expr::Comprehension(comp) => {
            let a = highlight::expr_tokens(source, *comp.iter_range);
            let call = highlight::macro_tokens(
                source,
                comp.iter_range.span.end as int,
                end,
                comp.iter_var@,
                comp.iter_var2@,
            );
            let b = highlight::expr_tokens(source, *comp.loop_step);
            parts::made_of_itself(a);
            parts::made_of_itself(b);
            let m = call.len() as int;
            macro_tokens_are_limited(
                source,
                comp.iter_range.span.end as int,
                end,
                comp.iter_var@,
                comp.iter_var2@,
            );
            parts::made_of_more(a, seq![a], 0, call, m);
            parts::made_of_both(a + call, seq![a], m, b, seq![b], 0);
            parts::made_of_more(a + call + b, seq![a] + seq![b], m, closing, last);
            assert(highlight::comprehension_tokens(source, e.span, comp) == a + call + b + closing);
            assert(parts =~= seq![a] + seq![b]);
        },
        Expr::MemberTestOnly { expr, field } => {
            let name = highlight::piece(size, start, start + 3, FUNCTION, DEFAULT_LIBRARY);
            let opening = highlight::punctuation_in(source, start + 3, expr.span.start as int, '(');
            let a = highlight::expr_tokens(source, *expr);
            let dot = highlight::punctuation_in(source, expr.span.end as int, end, '.');
            let label = highlight::name_before(size, end - 1, field@, VARIABLE, 0);
            parts::made_of_itself(a);
            let k = (name + opening).len() as int;
            let m = dot.len() as int;
            let n = label.len() as int;
            parts::made_of_both(name + opening, seq![], k, a, seq![a], 0);
            assert(seq![] + seq![a] =~= seq![a]);
            parts::made_of_more(name + opening + a, seq![a], k, dot, m);
            parts::made_of_more(name + opening + a + dot, seq![a], k + m, label, n);
            parts::made_of_more(name + opening + a + dot + label, seq![a], k + m + n, closing, last);
            assert(highlight::presence_tokens(source, e.span, *expr, field@) == name + opening + a
                + dot + label + closing);
            assert(parts =~= seq![a]);
        },
        Expr::Bind { var_name, init, body } => {
            let a = highlight::expr_tokens(source, *init);
            let b = highlight::expr_tokens(source, *body);
            parts::made_of_itself(a);
            parts::made_of_itself(b);
            parts::made_of_both(a, seq![a], 0, b, seq![b], 0);
            assert(parts =~= seq![a] + seq![b]);
        },
        _ => {
            assert(parts =~= seq![]);
        },
    }
}

proof fn call_is_made_of(
    source: Seq<u8>,
    e: SpannedExpr,
    callee: SpannedExpr,
    args: Seq<SpannedExpr>,
)
    requires
        e.node matches Expr::Call { expr: c, args: a } && *c == callee && a@ == args,
        highlight::in_source(source.len() as int, e.span),
    ensures
        parts::made_of(
            highlight::expr_tokens(source, e),
            tokens_of_each(source, children(e)),
            own_tokens(source, e),
        ),
{
    broadcast use {pieces_are_counted, marks_are_counted};

    let size = source.len() as int;
    let end = e.span.end as int;
    let called = highlight::callee_tokens(source, callee);
    let opening = highlight::punctuation_in(source, callee.span.end as int, end, '(');
    let inner = highlight::arg_tokens(source, args);
    let commas = highlight::arg_commas(source, args);
    let closing = highlight::punctuation(size, end - 1);
    let values = tokens_of_each(source, args);
    let m = callee_tokens_limit(size, callee);
    let k = opening.len() as int;
    let n = commas.len() as int;
    callee_is_made_of(source, callee);
    args_are_made_of(source, args);
    let first = match callee.node {
        Expr::Ident(_) => Seq::<Seq<RawToken>>::empty(),
        Expr::Member { expr, field, optional } => seq![highlight::expr_tokens(source, *expr)],
        _ => seq![highlight::expr_tokens(source, callee)],
    };
    assert(parts::made_of(called, first, m));
    parts::made_of_more(called, first, m, opening, k);
    parts::made_of_both(called + opening, first, m + k, inner, values, 0);
    parts::made_of_more(called + opening + inner, first + values, m + k, commas, n);
    parts::made_of_more(
        called + opening + inner + commas,
        first + values,
        m + k + n,
        closing,
        closing.len() as int,
    );
    assert(tokens_of_each(source, children(e)) =~= first + values);
}

proof fn macro_tokens_are_limited(
    source: Seq<u8>,
    after: int,
    end: int,
    iter_var: Seq<char>,
    iter_var2: Seq<char>,
)
    requires
        0 <= after,
    ensures
        highlight::macro_tokens(source, after, end, iter_var, iter_var2).len()
            <= macro_tokens_limit(source, after, end),
{
    broadcast use {pieces_are_counted, marks_are_counted};

    search_is_counted(source, seq!['.'], after, end);
    encode_utf8_first_scalar(seq!['.']);
    text::find_in_is_first(source, encode_utf8(seq!['.']), after, end);
    if let Some(dot) = highlight::char_in(source, after, end, '.') {
        search_is_counted(source, seq!['('], dot + 1, end);
        encode_utf8_first_scalar(seq!['(']);
        text::find_in_is_first(source, encode_utf8(seq!['(']), dot + 1, end);
        if let Some(paren) = highlight::char_in(source, dot + 1, end, '(') {
            text::after_spaces_in_range(source, paren + 1, end);
            let first = highlight::variable_start(source, paren + 1, end, iter_var);
            let cursor = highlight::variable_end(source, first, end, iter_var);
            assert(paren + 1 <= first <= cursor);
            search_is_counted(source, seq![','], cursor, end);
            encode_utf8_first_scalar(seq![',']);
            text::find_in_is_first(source, encode_utf8(seq![',']), cursor, end);
            if let Some(comma) = highlight::char_in(source, cursor, end, ',') {
                text::after_spaces_in_range(source, comma + 1, end);
            }
        }
    }
}

/// A way down a tree: each expression is a part of the one before it, and all but the last are
/// highlighted.
pub open spec fn is_path(size: int, path: Seq<SpannedExpr>) -> bool {
    &&& path.len() > 0
    &&& forall|i: int|
        0 <= i < path.len() - 1 ==> highlight::in_source(size, (#[trigger] path[i]).span)
            && children(path[i]).contains(path[i + 1])
}

/// What an expression is highlighted with, all expressions that it is a part of are highlighted
/// with too.
pub proof fn tokens_reach_the_top(source: Seq<u8>, path: Seq<SpannedExpr>, token: RawToken)
    requires
        is_path(source.len() as int, path),
        highlight::expr_tokens(source, path.last()).contains(token),
    ensures
        highlight::expr_tokens(source, path[0]).contains(token),
    decreases path.len(),
{
    if path.len() > 1 {
        let rest = path.drop_first();
        assert forall|i: int| 0 <= i < rest.len() - 1 implies highlight::in_source(
            source.len() as int,
            (#[trigger] rest[i]).span,
        ) && children(rest[i]).contains(rest[i + 1]) by {
            assert(rest[i] == path[i + 1]);
        }
        tokens_reach_the_top(source, rest, token);
        let top = path[0];
        assert(highlight::in_source(source.len() as int, top.span));
        parts_are_highlighted(source, top);
        let k = choose|k: int| 0 <= k < children(top).len() && children(top)[k] == path[1];
        let part = highlight::expr_tokens(source, path[1]);
        let i = choose|i: int| 0 <= i < part.len() && part[i] == token;
        assert(tokens_of_each(source, children(top))[k] == part);
        parts::parts_are_contained(
            highlight::expr_tokens(source, top),
            tokens_of_each(source, children(top)),
            k,
            i,
        );
    }
}

/// The token for the bytes from `start` up to `end`.
pub open spec fn token(start: int, end: int, token_type: u32, token_modifiers: u32) -> RawToken {
    RawToken {
        start: start as usize,
        length: (end - start) as usize,
        token_type,
        token_modifiers,
    }
}

/// The type and the modifiers that a name or a literal is highlighted with.
pub open spec fn leaf_kind(node: Expr) -> Option<(u32, u32)> {
    match node {
        Expr::Null => Some((KEYWORD, 0u32)),
        Expr::Bool(_) => Some((KEYWORD, 0u32)),
        Expr::Int(_) => Some((NUMBER, 0u32)),
        Expr::UInt(_) => Some((NUMBER, 0u32)),
        Expr::Float => Some((NUMBER, 0u32)),
        Expr::String(_) => Some((STRING, 0u32)),
        Expr::Bytes(_) => Some((STRING, 0u32)),
        Expr::Ident(name) => Some((VARIABLE, library_bit(name@))),
        Expr::RootIdent(name) => Some((VARIABLE, library_bit(name@))),
        _ => None,
    }
}

/// The modifiers of a name: those of the default library, if CEL itself defines it.
pub open spec fn library_bit(name: Seq<char>) -> u32 {
    if builtins::builtin_names().contains(name) {
        DEFAULT_LIBRARY
    } else {
        0
    }
}

/// A name or a literal has one token, for exactly the bytes that it takes.
pub proof fn leaves_are_highlighted(source: Seq<u8>, e: SpannedExpr)
    requires
        e.span.start < e.span.end <= source.len() <= usize::MAX,
        leaf_kind(e.node) is Some,
    ensures
        ({
            let (token_type, token_modifiers) = leaf_kind(e.node)->0;
            highlight::expr_tokens(source, e) == seq![
                token(e.span.start as int, e.span.end as int, token_type, token_modifiers),
            ]
        }),
{
    reveal(highlight::piece);
}

/// Every name and every literal in a tree has a token for exactly the bytes that it takes, as long
/// as the expressions that it is a part of lie in the source.
pub proof fn names_and_literals_are_highlighted(source: Seq<u8>, path: Seq<SpannedExpr>)
    requires
        is_path(source.len() as int, path),
        path.last().span.start < path.last().span.end <= source.len() <= usize::MAX,
        leaf_kind(path.last().node) is Some,
    ensures
        ({
            let leaf = path.last();
            let (token_type, token_modifiers) = leaf_kind(leaf.node)->0;
            highlight::expr_tokens(source, path[0]).contains(
                token(
                    leaf.span.start as int,
                    leaf.span.end as int,
                    token_type,
                    token_modifiers,
                ),
            )
        }),
{
    let leaf = path.last();
    leaves_are_highlighted(source, leaf);
    let tokens = highlight::expr_tokens(source, leaf);
    assert(tokens.contains(tokens[0]));
    tokens_reach_the_top(source, path, tokens[0]);
}

/// What was not parsed, and what does not lie in the source, is not highlighted.
pub proof fn nothing_else_is_highlighted(source: Seq<u8>, e: SpannedExpr)
    requires
        e.node is Error || e.span.start > e.span.end || e.span.end > source.len(),
    ensures
        highlight::expr_tokens(source, e).len() == 0,
{
}

/// The comprehensions in each of several expressions.
pub open spec fn ranges_of_each(size: int, exprs: Seq<SpannedExpr>) -> Seq<Seq<(usize, usize)>> {
    exprs.map_values(|e: SpannedExpr| highlight::iter_ranges(size, e))
}

/// The comprehensions in an expression are those in its parts, all of them and in their order. A
/// comprehension comes before those in its parts, with its start and the length of its receiver.
pub proof fn comprehensions_are_recorded(size: int, e: SpannedExpr)
    requires
        highlight::in_source(size, e.span),
    ensures
        ({
            let found = highlight::iter_ranges(size, e);
            let parts = ranges_of_each(size, children(e));
            match e.node {
                Expr::Comprehension(comp) => {
                    let receiver = comp.iter_range.span;
                    &&& found.len() > 0
                    &&& found[0].0 == e.span.start
                    &&& receiver.start <= receiver.end ==> found[0].1 == receiver.end
                        - receiver.start
                    &&& receiver.start > receiver.end ==> found[0].1 == 0
                    &&& parts::made_of(found.drop_first(), parts, 0)
                },
                _ => parts::made_of(found, parts, 0),
            }
        }),
{
    let found = highlight::iter_ranges(size, e);
    let parts = ranges_of_each(size, children(e));
    match e.node {
        Expr::List(items) => {
            list_ranges_are_made_of(size, items@);
            assert(parts =~= ranges_of_each(
                size,
                items@.map_values(|item: ListElement| item.expr),
            ));
        },
        Expr::MapLiteral(entries) => {
            entry_ranges_are_made_of(size, entries@);
        },
        Expr::Unary { op, expr } => {
            made_of_one_range(size, *expr);
        },
        Expr::Binary { op, left, right } => {
            made_of_two_ranges(size, *left, *right);
        },
        Expr::Ternary { cond, then_expr, else_expr } => {
            made_of_two_ranges(size, *cond, *then_expr);
            made_of_one_range(size, *else_expr);
            let both = highlight::iter_ranges(size, *cond) + highlight::iter_ranges(
                size,
                *then_expr,
            );
            let last = highlight::iter_ranges(size, *else_expr);
            parts::made_of_both(
                both,
                ranges_of_each(size, seq![*cond, *then_expr]),
                0,
                last,
                ranges_of_each(size, seq![*else_expr]),
                0,
            );
            assert(parts =~= ranges_of_each(size, seq![*cond, *then_expr]) + ranges_of_each(
                size,
                seq![*else_expr],
            ));
        },
        Expr::Member { expr, field, optional } => {
            made_of_one_range(size, *expr);
        },
        Expr::Index { expr, index, optional } => {
            made_of_two_ranges(size, *expr, *index);
        },
        Expr::Call { expr, args } => {
            let called = highlight::callee_ranges(size, *expr);
            arg_ranges_are_made_of(size, args@);
            let first = match expr.node {
                Expr::Ident(_) => Seq::<SpannedExpr>::empty(),
                Expr::Member { expr: object, field, optional } => seq![*object],
                _ => seq![*expr],
            };
            match expr.node {
                Expr::Ident(_) => {
                    assert(ranges_of_each(size, first) =~= seq![]);
                },
                Expr::Member { expr: object, field, optional } => {
                    made_of_one_range(size, *object);
                },
                _ => {
                    made_of_one_range(size, *expr);
                },
            }
            parts::made_of_both(
                called,
                ranges_of_each(size, first),
                0,
                highlight::arg_ranges(size, args@),
                ranges_of_each(size, args@),
                0,
            );
            assert(parts =~= ranges_of_each(size, first) + ranges_of_each(size, args@));
        },
        Expr::Struct { message_type, fields } => {
            let values = fields@.map_values(|field: StructField| field.value);
            field_ranges_are_made_of(size, fields@);
            made_of_one_range(size, *message_type);
            parts::made_of_both(
                highlight::iter_ranges(size, *message_type),
                ranges_of_each(size, seq![*message_type]),
                0,
                highlight::field_ranges(size, fields@),
                ranges_of_each(size, values),
                0,
            );
            assert(parts =~= ranges_of_each(size, seq![*message_type]) + ranges_of_each(
                size,
                values,
            ));
        },
        Expr::Comprehension(comp) => {
            made_of_two_ranges(size, *comp.iter_range, *comp.loop_step);
            let both = highlight::iter_ranges(size, *comp.iter_range) + highlight::iter_ranges(
                size,
                *comp.loop_step,
            );
            let own = (e.span.start, highlight::span_length(comp.iter_range.span));
            assert(highlight::comprehension_ranges(size, e.span, comp) =~= seq![own] + both);
            assert(found.drop_first() =~= both);
        },
        Expr::MemberTestOnly { expr, field } => {
            made_of_one_range(size, *expr);
        },
        Expr::Bind { var_name, init, body } => {
            made_of_two_ranges(size, *init, *body);
        },
        _ => {
            assert(parts =~= seq![]);
        },
    }
}

proof fn made_of_one_range(size: int, e: SpannedExpr)
    ensures
        parts::made_of(highlight::iter_ranges(size, e), ranges_of_each(size, seq![e]), 0),
{
    parts::made_of_itself(highlight::iter_ranges(size, e));
    assert(ranges_of_each(size, seq![e]) =~= seq![highlight::iter_ranges(size, e)]);
}

proof fn made_of_two_ranges(size: int, a: SpannedExpr, b: SpannedExpr)
    ensures
        parts::made_of(
            highlight::iter_ranges(size, a) + highlight::iter_ranges(size, b),
            ranges_of_each(size, seq![a, b]),
            0,
        ),
{
    made_of_one_range(size, a);
    made_of_one_range(size, b);
    parts::made_of_both(
        highlight::iter_ranges(size, a),
        ranges_of_each(size, seq![a]),
        0,
        highlight::iter_ranges(size, b),
        ranges_of_each(size, seq![b]),
        0,
    );
    assert(ranges_of_each(size, seq![a, b]) =~= ranges_of_each(size, seq![a]) + ranges_of_each(
        size,
        seq![b],
    ));
}

proof fn list_ranges_are_made_of(size: int, items: Seq<ListElement>)
    ensures
        parts::made_of(
            highlight::list_ranges(size, items),
            ranges_of_each(size, items.map_values(|item: ListElement| item.expr)),
            0,
        ),
    decreases items.len(),
{
    let parts = ranges_of_each(size, items.map_values(|item: ListElement| item.expr));
    if items.len() == 0 {
        assert(parts =~= seq![]);
    } else {
        let before = items.drop_last();
        let others = ranges_of_each(size, before.map_values(|item: ListElement| item.expr));
        list_ranges_are_made_of(size, before);
        made_of_one_range(size, items.last().expr);
        parts::made_of_both(
            highlight::list_ranges(size, before),
            others,
            0,
            highlight::iter_ranges(size, items.last().expr),
            ranges_of_each(size, seq![items.last().expr]),
            0,
        );
        assert(parts =~= others + ranges_of_each(size, seq![items.last().expr]));
    }
}

proof fn arg_ranges_are_made_of(size: int, args: Seq<SpannedExpr>)
    ensures
        parts::made_of(highlight::arg_ranges(size, args), ranges_of_each(size, args), 0),
    decreases args.len(),
{
    let parts = ranges_of_each(size, args);
    if args.len() == 0 {
        assert(parts =~= seq![]);
    } else {
        let before = args.drop_last();
        arg_ranges_are_made_of(size, before);
        made_of_one_range(size, args.last());
        parts::made_of_both(
            highlight::arg_ranges(size, before),
            ranges_of_each(size, before),
            0,
            highlight::iter_ranges(size, args.last()),
            ranges_of_each(size, seq![args.last()]),
            0,
        );
        assert(parts =~= ranges_of_each(size, before) + ranges_of_each(size, seq![args.last()]));
    }
}

proof fn entry_ranges_are_made_of(size: int, entries: Seq<MapEntry>)
    ensures
        parts::made_of(
            highlight::entry_ranges(size, entries),
            ranges_of_each(size, entry_children(entries)),
            0,
        ),
    decreases entries.len(),
{
    let parts = ranges_of_each(size, entry_children(entries));
    if entries.len() == 0 {
        assert(parts =~= seq![]);
    } else {
        let before = entries.drop_last();
        let entry = entries.last();
        let others = ranges_of_each(size, entry_children(before));
        entry_ranges_are_made_of(size, before);
        made_of_two_ranges(size, entry.key, entry.value);
        let key = highlight::iter_ranges(size, entry.key);
        let value = highlight::iter_ranges(size, entry.value);
        parts::made_of_both(
            highlight::entry_ranges(size, before),
            others,
            0,
            key + value,
            ranges_of_each(size, seq![entry.key, entry.value]),
            0,
        );
        assert(highlight::entry_ranges(size, entries) =~= highlight::entry_ranges(size, before) + (
        key + value));
        assert(parts =~= others + ranges_of_each(size, seq![entry.key, entry.value]));
    }
}

proof fn field_ranges_are_made_of(size: int, fields: Seq<StructField>)
    ensures
        parts::made_of(
            highlight::field_ranges(size, fields),
            ranges_of_each(size, fields.map_values(|field: StructField| field.value)),
            0,
        ),
    decreases fields.len(),
{
    let parts = ranges_of_each(size, fields.map_values(|field: StructField| field.value));
    if fields.len() == 0 {
        assert(parts =~= seq![]);
    } else {
        let before = fields.drop_last();
        let others = ranges_of_each(size, before.map_values(|field: StructField| field.value));
        field_ranges_are_made_of(size, before);
        made_of_one_range(size, fields.last().value);
        parts::made_of_both(
            highlight::field_ranges(size, before),
            others,
            0,
            highlight::iter_ranges(size, fields.last().value),
            ranges_of_each(size, seq![fields.last().value]),
            0,
        );
        assert(parts =~= others + ranges_of_each(size, seq![fields.last().value]));
    }
}

} // verus!

//! What is written around the parts of an expression is highlighted.

use super::coverage;
use super::highlight;
use super::highlight::RawToken;
use super::token_modifiers::DEFAULT_LIBRARY;
use super::token_types::{FUNCTION, METHOD, OPERATOR, PUNCTUATION, VARIABLE};
use crate::syntax::{Expr, ListElement, MapEntry, SpannedExpr, StructField};
use crate::text;
use vstd::prelude::*;
use vstd::utf8::*;

verus! {

/// The first place of `written` in `source[from..to]` is `at`.
pub open spec fn is_first(source: Seq<u8>, written: Seq<char>, from: int, to: int, at: int) -> bool {
    let needle = encode_utf8(written);
    &&& from <= at
    &&& text::occurs_at(source, needle, at, to)
    &&& forall|k: int| from <= k < at ==> !#[trigger] text::occurs_at(source, needle, k, to)
}

/// The tokens of the expression hold one for exactly the bytes from `start` up to `end`.
pub open spec fn is_highlighted(
    source: Seq<u8>,
    e: SpannedExpr,
    start: int,
    end: int,
    token_type: u32,
    token_modifiers: u32,
) -> bool {
    highlight::expr_tokens(source, e).contains(
        coverage::token(start, end, token_type, token_modifiers),
    )
}

/// The expression lies in the source, and the source in memory.
pub open spec fn lies_in(source: Seq<u8>, e: SpannedExpr) -> bool {
    e.span.start <= e.span.end <= source.len() <= usize::MAX
}

broadcast proof fn piece_is_there(
    size: int,
    start: int,
    end: int,
    token_type: u32,
    token_modifiers: u32,
)
    requires
        0 <= start < end <= size <= usize::MAX,
    ensures
        (#[trigger] highlight::piece(size, start, end, token_type, token_modifiers)).contains(
            coverage::token(start, end, token_type, token_modifiers),
        ),
{
    reveal(highlight::piece);
    let tokens = highlight::piece(size, start, end, token_type, token_modifiers);
    assert(tokens[0] == coverage::token(start, end, token_type, token_modifiers));
}

proof fn search_finds_first(source: Seq<u8>, written: Seq<char>, from: int, to: int, at: int)
    requires
        written.len() > 0,
        0 <= from,
        is_first(source, written, from, to, at),
    ensures
        text::find_in(source, encode_utf8(written), from, to) == Some(at),
        at < to <= source.len(),
{
    encode_utf8_first_scalar(written);
    text::find_in_is_first(source, encode_utf8(written), from, to);
}

proof fn punctuation_is_found(source: Seq<u8>, c: char, from: int, to: int, at: int)
    requires
        0 <= from,
        source.len() <= usize::MAX,
        is_first(source, seq![c], from, to, at),
    ensures
        highlight::char_in(source, from, to, c) == Some(at),
        highlight::punctuation_in(source, from, to, c).contains(
            coverage::token(at, at + 1, PUNCTUATION, 0),
        ),
        at < to <= source.len(),
{
    broadcast use piece_is_there;

    search_finds_first(source, seq![c], from, to, at);
}

/// Between `from` and `to`, the expression is written with `c`.
pub open spec fn is_written_with(e: SpannedExpr, from: int, to: int, c: char) -> bool {
    match e.node {
        Expr::List(items) => c == ',' && exists|i: int|
            0 < i < items@.len() && from == items@[i - 1].expr.span.end && to == (
            #[trigger] items@[i]).expr.span.start,
        Expr::MapLiteral(entries) => {
            ||| c == ':' && exists|i: int|
                0 <= i < entries@.len() && from == (#[trigger] entries@[i]).key.span.end && to
                    == entries@[i].value.span.start
            ||| c == ',' && exists|i: int|
                0 < i < entries@.len() && from == entries@[i - 1].value.span.end && to == (
                #[trigger] entries@[i]).key.span.start
        },
        Expr::Ternary { cond, then_expr, else_expr } => {
            ||| c == '?' && from == cond.span.end && to == then_expr.span.start
            ||| c == ':' && from == then_expr.span.end && to == else_expr.span.start
        },
        Expr::Index { expr, index, optional } => c == '[' && from == expr.span.end && to
            == index.span.start,
        Expr::Call { expr, args } => {
            ||| c == '(' && from == expr.span.end && to == e.span.end
            ||| c == ',' && exists|i: int|
                0 < i < args@.len() && from == args@[i - 1].span.end && to == (
                #[trigger] args@[i]).span.start
        },
        Expr::Struct { message_type, fields } => {
            ||| c == '{' && from == message_type.span.end && to == e.span.end
            ||| c == ',' && exists|i: int|
                0 < i < fields@.len() && from == fields@[i - 1].value.span.end && to == (
                #[trigger] fields@[i]).value.span.start
        },
        Expr::Comprehension(comp) => c == '.' && from == comp.iter_range.span.end && to
            == e.span.end,
        Expr::MemberTestOnly { expr, field } => {
            ||| c == '(' && from == e.span.start + 3 && to == expr.span.start
            ||| c == '.' && from == expr.span.end && to == e.span.end
        },
        _ => false,
    }
}

/// Punctuation between the parts of an expression is highlighted where it is first found.
pub proof fn punctuation_is_highlighted(
    source: Seq<u8>,
    e: SpannedExpr,
    from: int,
    to: int,
    c: char,
    at: int,
)
    requires
        lies_in(source, e),
        is_written_with(e, from, to, c),
        is_first(source, seq![c], from, to, at),
    ensures
        is_highlighted(source, e, at, at + 1, PUNCTUATION, 0),
{
    broadcast use vstd::seq_lib::lemma_seq_concat_contains_all_elements;

    let mark = coverage::token(at, at + 1, PUNCTUATION, 0);
    punctuation_is_found(source, c, from, to, at);
    match e.node {
        Expr::List(items) => {
            let i = choose|i: int|
                0 < i < items@.len() && from == items@[i - 1].expr.span.end && to == (
                #[trigger] items@[i]).expr.span.start;
            list_comma_is_there(source, items@, i, mark);
        },
        Expr::MapLiteral(entries) => {
            if c == ':' {
                let i = choose|i: int|
                    0 <= i < entries@.len() && from == (#[trigger] entries@[i]).key.span.end && to
                        == entries@[i].value.span.start;
                entry_colon_is_there(source, entries@, i, mark);
            } else {
                let i = choose|i: int|
                    0 < i < entries@.len() && from == entries@[i - 1].value.span.end && to == (
                    #[trigger] entries@[i]).key.span.start;
                entry_comma_is_there(source, entries@, i, mark);
            }
        },
        Expr::Call { expr, args } => {
            if c == ',' {
                let i = choose|i: int|
                    0 < i < args@.len() && from == args@[i - 1].span.end && to == (
                    #[trigger] args@[i]).span.start;
                arg_comma_is_there(source, args@, i, mark);
            }
        },
        Expr::Struct { message_type, fields } => {
            if c == ',' {
                let i = choose|i: int|
                    0 < i < fields@.len() && from == fields@[i - 1].value.span.end && to == (
                    #[trigger] fields@[i]).value.span.start;
                field_comma_is_there(source, fields@, i, mark);
            }
        },
        Expr::Comprehension(comp) => {
            assert(highlight::comprehension_tokens(source, e.span, comp).contains(mark));
        },
        Expr::MemberTestOnly { expr, field } => {
            assert(highlight::presence_tokens(source, e.span, *expr, field@).contains(mark));
        },
        _ => {},
    }
}

proof fn list_comma_is_there(source: Seq<u8>, items: Seq<ListElement>, i: int, mark: RawToken)
    requires
        0 < i < items.len(),
        highlight::punctuation_in(
            source,
            items[i - 1].expr.span.end as int,
            items[i].expr.span.start as int,
            ',',
        ).contains(mark),
    ensures
        highlight::list_commas(source, items).contains(mark),
    decreases items.len(),
{
    broadcast use vstd::seq_lib::lemma_seq_concat_contains_all_elements;

    if i < items.len() - 1 {
        list_comma_is_there(source, items.drop_last(), i, mark);
    }
}

proof fn entry_colon_is_there(source: Seq<u8>, entries: Seq<MapEntry>, i: int, mark: RawToken)
    requires
        0 <= i < entries.len(),
        highlight::punctuation_in(
            source,
            entries[i].key.span.end as int,
            entries[i].value.span.start as int,
            ':',
        ).contains(mark),
    ensures
        highlight::entry_tokens(source, entries).contains(mark),
    decreases entries.len(),
{
    broadcast use vstd::seq_lib::lemma_seq_concat_contains_all_elements;

    if i < entries.len() - 1 {
        entry_colon_is_there(source, entries.drop_last(), i, mark);
    }
}

proof fn entry_comma_is_there(source: Seq<u8>, entries: Seq<MapEntry>, i: int, mark: RawToken)
    requires
        0 < i < entries.len(),
        highlight::punctuation_in(
            source,
            entries[i - 1].value.span.end as int,
            entries[i].key.span.start as int,
            ',',
        ).contains(mark),
    ensures
        highlight::entry_commas(source, entries).contains(mark),
    decreases entries.len(),
{
    broadcast use vstd::seq_lib::lemma_seq_concat_contains_all_elements;

    if i < entries.len() - 1 {
        entry_comma_is_there(source, entries.drop_last(), i, mark);
    }
}

proof fn arg_comma_is_there(source: Seq<u8>, args: Seq<SpannedExpr>, i: int, mark: RawToken)
    requires
        0 < i < args.len(),
        highlight::punctuation_in(
            source,
            args[i - 1].span.end as int,
            args[i].span.start as int,
            ',',
        ).contains(mark),
    ensures
        highlight::arg_commas(source, args).contains(mark),
    decreases args.len(),
{
    broadcast use vstd::seq_lib::lemma_seq_concat_contains_all_elements;

    if i < args.len() - 1 {
        arg_comma_is_there(source, args.drop_last(), i, mark);
    }
}

proof fn field_comma_is_there(source: Seq<u8>, fields: Seq<StructField>, i: int, mark: RawToken)
    requires
        0 < i < fields.len(),
        highlight::punctuation_in(
            source,
            fields[i - 1].value.span.end as int,
            fields[i].value.span.start as int,
            ',',
        ).contains(mark),
    ensures
        highlight::field_commas(source, fields).contains(mark),
    decreases fields.len(),
{
    broadcast use vstd::seq_lib::lemma_seq_concat_contains_all_elements;

    if i < fields.len() - 1 {
        field_comma_is_there(source, fields.drop_last(), i, mark);
    }
}

/// The expression starts with a bracket or a brace.
pub open spec fn is_opened(e: SpannedExpr) -> bool {
    e.node is List || e.node is MapLiteral
}

/// The expression ends with a bracket, a brace or a parenthesis.
pub open spec fn is_closed(e: SpannedExpr) -> bool {
    e.node is List || e.node is MapLiteral || e.node is Index || e.node is Call || e.node is Struct
        || e.node is Comprehension || e.node is MemberTestOnly
}

/// Brackets, braces and parentheses around an expression are highlighted.
pub proof fn delimiters_are_highlighted(source: Seq<u8>, e: SpannedExpr)
    requires
        lies_in(source, e),
        e.span.start < e.span.end,
    ensures
        is_opened(e) ==> is_highlighted(
            source,
            e,
            e.span.start as int,
            e.span.start + 1,
            PUNCTUATION,
            0,
        ),
        is_closed(e) ==> is_highlighted(
            source,
            e,
            e.span.end - 1,
            e.span.end as int,
            PUNCTUATION,
            0,
        ),
{
    broadcast use {piece_is_there, vstd::seq_lib::lemma_seq_concat_contains_all_elements};

    let size = source.len() as int;
    let end = e.span.end as int;
    assert(highlight::punctuation(size, end - 1).contains(
        coverage::token(end - 1, end, PUNCTUATION, 0),
    ));
    match e.node {
        Expr::Comprehension(comp) => {
            assert(highlight::comprehension_tokens(source, e.span, comp).contains(
                coverage::token(end - 1, end, PUNCTUATION, 0),
            ));
        },
        Expr::MemberTestOnly { expr, field } => {
            assert(highlight::presence_tokens(source, e.span, *expr, field@).contains(
                coverage::token(end - 1, end, PUNCTUATION, 0),
            ));
        },
        _ => {},
    }
}

/// The sign before an operand is highlighted, and so is the operator between two operands, where it
/// is first found.
pub proof fn operators_are_highlighted(source: Seq<u8>, e: SpannedExpr, at: int)
    requires
        lies_in(source, e),
    ensures
        e.node is Unary && e.span.start < source.len() ==> is_highlighted(
            source,
            e,
            e.span.start as int,
            e.span.start + 1,
            OPERATOR,
            0,
        ),
        e.node matches Expr::Binary { op, left, right } ==> is_first(
            source,
            op.text(),
            left.span.end as int,
            right.span.start as int,
            at,
        ) ==> is_highlighted(source, e, at, at + text::byte_count(op.text()), OPERATOR, 0),
{
    broadcast use {piece_is_there, vstd::seq_lib::lemma_seq_concat_contains_all_elements};

    if let Expr::Binary { op, left, right } = e.node {
        let from = left.span.end as int;
        let to = right.span.start as int;
        if is_first(source, op.text(), from, to, at) {
            op.text_is_not_empty();
            encode_utf8_first_scalar(op.text());
            search_finds_first(source, op.text(), from, to, at);
            assert(highlight::operator_in(source, from, to, op).contains(
                coverage::token(at, at + text::byte_count(op.text()), OPERATOR, 0),
            ));
        }
    }
}

/// The dot behind an object and the name of the member that ends the expression are highlighted.
pub proof fn members_are_highlighted(source: Seq<u8>, e: SpannedExpr)
    requires
        lies_in(source, e),
    ensures
        e.node matches Expr::Member { expr, field, optional } ==> {
            let width = text::byte_count(field@);
            &&& expr.span.end < e.span.end ==> is_highlighted(
                source,
                e,
                expr.span.end as int,
                expr.span.end + 1,
                PUNCTUATION,
                0,
            )
            &&& 0 < width <= e.span.end ==> is_highlighted(
                source,
                e,
                e.span.end - width,
                e.span.end as int,
                VARIABLE,
                0,
            )
        },
{
    broadcast use {piece_is_there, vstd::seq_lib::lemma_seq_concat_contains_all_elements};

}

/// The name of what is called is highlighted: a function by its name, a method by the name behind
/// its object and the dot between them.
pub proof fn callees_are_highlighted(source: Seq<u8>, e: SpannedExpr)
    requires
        lies_in(source, e),
    ensures
        e.node matches Expr::Call { expr: callee, args } ==> match callee.node {
            Expr::Ident(name) => callee.span.start < callee.span.end <= source.len()
                ==> is_highlighted(
                source,
                e,
                callee.span.start as int,
                callee.span.end as int,
                FUNCTION,
                coverage::library_bit(name@),
            ),
            Expr::Member { expr: object, field, optional } => {
                let width = text::byte_count(field@);
                let end = callee.span.end as int;
                &&& object.span.end < end <= source.len() ==> is_highlighted(
                    source,
                    e,
                    object.span.end as int,
                    object.span.end + 1,
                    PUNCTUATION,
                    0,
                )
                &&& 0 < width <= end <= source.len() ==> is_highlighted(
                    source,
                    e,
                    end - width,
                    end,
                    METHOD,
                    coverage::library_bit(field@),
                )
            },
            _ => true,
        },
{
    broadcast use {piece_is_there, vstd::seq_lib::lemma_seq_concat_contains_all_elements};

    if let Expr::Call { expr: callee, args } = e.node {
        let called = highlight::callee_tokens(source, *callee);
        assert forall|t: RawToken| called.contains(t) implies #[trigger] highlight::expr_tokens(
            source,
            e,
        ).contains(t) by {}
    }
}

/// The word `has` and the name of the field that it tests are highlighted.
pub proof fn presence_tests_are_highlighted(source: Seq<u8>, e: SpannedExpr)
    requires
        lies_in(source, e),
    ensures
        e.node matches Expr::MemberTestOnly { expr, field } ==> {
            let width = text::byte_count(field@);
            &&& e.span.start + 3 <= source.len() ==> is_highlighted(
                source,
                e,
                e.span.start as int,
                e.span.start + 3,
                FUNCTION,
                DEFAULT_LIBRARY,
            )
            &&& 0 < width < e.span.end ==> is_highlighted(
                source,
                e,
                e.span.end - 1 - width,
                e.span.end - 1,
                VARIABLE,
                0,
            )
        },
{
    broadcast use {piece_is_there, vstd::seq_lib::lemma_seq_concat_contains_all_elements};

    if let Expr::MemberTestOnly { expr, field } = e.node {
        assert(highlight::expr_tokens(source, e) == highlight::presence_tokens(
            source,
            e.span,
            *expr,
            field@,
        ));
    }
}

/// `end` is where the white space before `at` begins, but not before `from`.
pub open spec fn is_blank_from(source: Seq<u8>, from: int, end: int, at: int) -> bool {
    &&& from <= end <= at <= source.len()
    &&& forall|i: int| end <= i < at ==> text::is_ascii_space(#[trigger] source[i])
    &&& end == from || !text::is_ascii_space(source[end - 1])
}

/// Every field of a message has its own label highlighted: its colon, the first one behind what
/// comes before the field, and its name, right before the colon and the white space before it.
pub proof fn field_labels_are_highlighted(
    source: Seq<u8>,
    e: SpannedExpr,
    i: int,
    colon: int,
    end: int,
)
    requires
        lies_in(source, e),
        e.node matches Expr::Struct { message_type, fields } && 0 <= i < fields@.len() && {
            let from = if i == 0 {
                message_type.span.end as int
            } else {
                fields@[i - 1].value.span.end as int
            };
            &&& is_first(source, seq![':'], from, fields@[i].value.span.start as int, colon)
            &&& is_blank_from(source, from, end, colon)
        },
    ensures
        is_highlighted(source, e, colon, colon + 1, PUNCTUATION, 0),
        e.node matches Expr::Struct { message_type, fields } && {
            let width = text::byte_count(fields@[i].name@);
            &&& 0 < width <= end ==> is_highlighted(source, e, end - width, end, VARIABLE, 0)
            &&& 0 < end < width ==> is_highlighted(source, e, 0, end, VARIABLE, 0)
        },
{
    broadcast use {piece_is_there, vstd::seq_lib::lemma_seq_concat_contains_all_elements};

    if let Expr::Struct { message_type, fields } = e.node {
        let type_end = message_type.span.end as int;
        let from = highlight::field_from(type_end, fields@, i);
        let label = highlight::field_label(source, from, fields@[i]);
        let width = text::byte_count(fields@[i].name@);
        punctuation_is_found(source, ':', from, fields@[i].value.span.start as int, colon);
        text::before_spaces_is_last(source, from, colon);
        blank_starts_once(source, from, end, text::before_spaces(source, from, colon), colon);
        let mark = coverage::token(colon, colon + 1, PUNCTUATION, 0);
        assert(label.contains(mark));
        field_label_is_there(source, type_end, fields@, i, mark);
        if 0 < width <= end {
            let name = coverage::token(end - width, end, VARIABLE, 0);
            assert(label.contains(name));
            field_label_is_there(source, type_end, fields@, i, name);
        }
        if 0 < end < width {
            let name = coverage::token(0, end, VARIABLE, 0);
            assert(label.contains(name));
            field_label_is_there(source, type_end, fields@, i, name);
        }
    }
}

proof fn blank_starts_once(source: Seq<u8>, from: int, a: int, b: int, at: int)
    requires
        is_blank_from(source, from, a, at),
        is_blank_from(source, from, b, at),
    ensures
        a == b,
{
    if a < b {
        assert(text::is_ascii_space(source[b - 1]));
    } else if b < a {
        assert(text::is_ascii_space(source[a - 1]));
    }
}

proof fn field_label_is_there(
    source: Seq<u8>,
    type_end: int,
    fields: Seq<StructField>,
    i: int,
    mark: RawToken,
)
    requires
        0 <= i < fields.len(),
        highlight::field_label(
            source,
            highlight::field_from(type_end, fields, i),
            fields[i],
        ).contains(mark),
    ensures
        highlight::field_tokens(source, type_end, fields).contains(mark),
    decreases fields.len(),
{
    broadcast use vstd::seq_lib::lemma_seq_concat_contains_all_elements;

    if i < fields.len() - 1 {
        let before = fields.drop_last();
        assert(highlight::field_from(type_end, before, i) == highlight::field_from(
            type_end,
            fields,
            i,
        ));
        field_label_is_there(source, type_end, before, i, mark);
    }
}

/// `at` is where the white space from `from` on ends, but not behind `end`.
pub open spec fn is_blank_to(source: Seq<u8>, from: int, at: int, end: int) -> bool {
    &&& from <= at <= end <= source.len()
    &&& forall|i: int| from <= i < at ==> text::is_ascii_space(#[trigger] source[i])
    &&& at == end || !text::is_ascii_space(source[at])
}

proof fn blank_ends_once(source: Seq<u8>, from: int, a: int, b: int, end: int)
    requires
        is_blank_to(source, from, a, end),
        is_blank_to(source, from, b, end),
    ensures
        a == b,
{
    if a < b {
        assert(text::is_ascii_space(source[a]));
    } else if b < a {
        assert(text::is_ascii_space(source[b]));
    }
}

/// The call of a macro stands behind the receiver of the comprehension: the first dot there is at
/// `dot`, and the first parenthesis behind the dot at `paren`.
pub open spec fn is_macro_call(source: Seq<u8>, e: SpannedExpr, dot: int, paren: int) -> bool {
    e.node matches Expr::Comprehension(comp) && is_first(
        source,
        seq!['.'],
        comp.iter_range.span.end as int,
        e.span.end as int,
        dot,
    ) && is_first(source, seq!['('], dot + 1, e.span.end as int, paren)
}

/// The name of a macro, between the dot and the parenthesis, and the parenthesis are highlighted.
pub proof fn macro_calls_are_highlighted(source: Seq<u8>, e: SpannedExpr, dot: int, paren: int)
    requires
        lies_in(source, e),
        is_macro_call(source, e, dot, paren),
    ensures
        is_highlighted(source, e, paren, paren + 1, PUNCTUATION, 0),
        dot + 1 < paren ==> is_highlighted(
            source,
            e,
            dot + 1,
            paren,
            FUNCTION,
            DEFAULT_LIBRARY,
        ),
{
    broadcast use {piece_is_there, vstd::seq_lib::lemma_seq_concat_contains_all_elements};

    if let Expr::Comprehension(comp) = e.node {
        let end = e.span.end as int;
        punctuation_is_found(source, '.', comp.iter_range.span.end as int, end, dot);
        punctuation_is_found(source, '(', dot + 1, end, paren);
        let mark = coverage::token(paren, paren + 1, PUNCTUATION, 0);
        let name = coverage::token(dot + 1, paren, FUNCTION, DEFAULT_LIBRARY);
        let call = highlight::macro_tokens(
            source,
            comp.iter_range.span.end as int,
            end,
            comp.iter_var@,
            comp.iter_var2@,
        );
        assert(call.contains(mark));
        assert(dot + 1 < paren ==> call.contains(name));
        assert(highlight::comprehension_tokens(source, e.span, comp).contains(mark));
        assert(dot + 1 < paren ==> highlight::comprehension_tokens(source, e.span, comp).contains(
            name,
        ));
    }
}

/// `at` is where an iteration variable has to stand if it is looked for from `from` on: behind the
/// white space there, or right there if there is no variable.
pub open spec fn is_variable_place(
    source: Seq<u8>,
    name: Seq<char>,
    from: int,
    at: int,
    end: int,
) -> bool {
    if name.len() == 0 {
        at == from
    } else {
        is_blank_to(source, from, at, end)
    }
}

/// Where what was looked for at `at` ends: behind the name, if it is there.
pub open spec fn behind(source: Seq<u8>, name: Seq<char>, at: int, end: int) -> int {
    if text::occurs_at(source, encode_utf8(name), at, end) {
        at + text::byte_count(name)
    } else {
        at
    }
}

/// The first iteration variable of a macro is highlighted if it stands behind the parenthesis, and
/// so is the first comma behind it.
pub proof fn first_variables_are_highlighted(
    source: Seq<u8>,
    e: SpannedExpr,
    dot: int,
    paren: int,
    at: int,
    comma: int,
)
    requires
        lies_in(source, e),
        is_macro_call(source, e, dot, paren),
        e.node matches Expr::Comprehension(comp) && is_variable_place(
            source,
            comp.iter_var@,
            paren + 1,
            at,
            e.span.end as int,
        ),
    ensures
        e.node matches Expr::Comprehension(comp) && {
            let end = e.span.end as int;
            let name = comp.iter_var@;
            &&& name.len() > 0 && text::occurs_at(source, encode_utf8(name), at, end)
                ==> is_highlighted(source, e, at, at + text::byte_count(name), VARIABLE, 0)
            &&& is_first(source, seq![','], behind(source, name, at, end), end, comma)
                ==> is_highlighted(source, e, comma, comma + 1, PUNCTUATION, 0)
        },
{
    broadcast use {piece_is_there, vstd::seq_lib::lemma_seq_concat_contains_all_elements};

    if let Expr::Comprehension(comp) = e.node {
        let end = e.span.end as int;
        let name = comp.iter_var@;
        let second = comp.iter_var2@;
        punctuation_is_found(source, '.', comp.iter_range.span.end as int, end, dot);
        punctuation_is_found(source, '(', dot + 1, end, paren);
        text::after_spaces_in_range(source, paren + 1, end);
        if name.len() > 0 {
            blank_ends_once(
                source,
                paren + 1,
                at,
                text::after_spaces(source, paren + 1, end),
                end,
            );
            encode_utf8_first_scalar(name);
        }
        let variables = highlight::macro_variables(source, paren + 1, end, name, second);
        if name.len() > 0 && text::occurs_at(source, encode_utf8(name), at, end) {
            let found = coverage::token(at, at + text::byte_count(name), VARIABLE, 0);
            assert(variables.contains(found));
            macro_variables_are_there(source, e, dot, paren, found);
        }
        let cursor = behind(source, name, at, end);
        if is_first(source, seq![','], cursor, end, comma) {
            let mark = coverage::token(comma, comma + 1, PUNCTUATION, 0);
            punctuation_is_found(source, ',', cursor, end, comma);
            assert(highlight::punctuation(source.len() as int, comma).contains(mark));
            assert(variables.contains(mark));
            macro_variables_are_there(source, e, dot, paren, mark);
        }
    }
}

/// The second iteration variable of a macro is highlighted if it stands behind the first comma, and
/// so is the first comma behind it.
pub proof fn second_variables_are_highlighted(
    source: Seq<u8>,
    e: SpannedExpr,
    dot: int,
    paren: int,
    at: int,
    comma: int,
    second_at: int,
    second_comma: int,
)
    requires
        lies_in(source, e),
        is_macro_call(source, e, dot, paren),
        e.node matches Expr::Comprehension(comp) && {
            let end = e.span.end as int;
            &&& comp.iter_var2@.len() > 0
            &&& is_variable_place(source, comp.iter_var@, paren + 1, at, end)
            &&& is_first(source, seq![','], behind(source, comp.iter_var@, at, end), end, comma)
            &&& is_blank_to(source, comma + 1, second_at, end)
        },
    ensures
        e.node matches Expr::Comprehension(comp) && {
            let end = e.span.end as int;
            let name = comp.iter_var2@;
            &&& text::occurs_at(source, encode_utf8(name), second_at, end) ==> is_highlighted(
                source,
                e,
                second_at,
                second_at + text::byte_count(name),
                VARIABLE,
                0,
            )
            &&& is_first(
                source,
                seq![','],
                behind(source, name, second_at, end),
                end,
                second_comma,
            ) ==> is_highlighted(source, e, second_comma, second_comma + 1, PUNCTUATION, 0)
        },
{
    broadcast use {piece_is_there, vstd::seq_lib::lemma_seq_concat_contains_all_elements};

    if let Expr::Comprehension(comp) = e.node {
        let end = e.span.end as int;
        let first = comp.iter_var@;
        let name = comp.iter_var2@;
        punctuation_is_found(source, '.', comp.iter_range.span.end as int, end, dot);
        punctuation_is_found(source, '(', dot + 1, end, paren);
        text::after_spaces_in_range(source, paren + 1, end);
        if first.len() > 0 {
            blank_ends_once(
                source,
                paren + 1,
                at,
                text::after_spaces(source, paren + 1, end),
                end,
            );
        }
        let cursor = behind(source, first, at, end);
        punctuation_is_found(source, ',', cursor, end, comma);
        text::after_spaces_in_range(source, comma + 1, end);
        blank_ends_once(
            source,
            comma + 1,
            second_at,
            text::after_spaces(source, comma + 1, end),
            end,
        );
        encode_utf8_first_scalar(name);
        let variables = highlight::macro_variables(source, paren + 1, end, first, name);
        if text::occurs_at(source, encode_utf8(name), second_at, end) {
            let found = coverage::token(
                second_at,
                second_at + text::byte_count(name),
                VARIABLE,
                0,
            );
            assert(highlight::variable_token(source, second_at, end, name).contains(found));
            assert(variables.contains(found));
            macro_variables_are_there(source, e, dot, paren, found);
        }
        let rest = behind(source, name, second_at, end);
        if is_first(source, seq![','], rest, end, second_comma) {
            let mark = coverage::token(second_comma, second_comma + 1, PUNCTUATION, 0);
            punctuation_is_found(source, ',', rest, end, second_comma);
            assert(variables.contains(mark));
            macro_variables_are_there(source, e, dot, paren, mark);
        }
    }
}

proof fn macro_variables_are_there(
    source: Seq<u8>,
    e: SpannedExpr,
    dot: int,
    paren: int,
    mark: RawToken,
)
    requires
        lies_in(source, e),
        e.node matches Expr::Comprehension(comp) && {
            let end = e.span.end as int;
            &&& highlight::char_in(source, comp.iter_range.span.end as int, end, '.') == Some(dot)
            &&& highlight::char_in(source, dot + 1, end, '(') == Some(paren)
            &&& highlight::macro_variables(
                source,
                paren + 1,
                end,
                comp.iter_var@,
                comp.iter_var2@,
            ).contains(mark)
        },
    ensures
        highlight::expr_tokens(source, e).contains(mark),
{
    broadcast use vstd::seq_lib::lemma_seq_concat_contains_all_elements;

    if let Expr::Comprehension(comp) = e.node {
        assert(highlight::macro_tokens(
            source,
            comp.iter_range.span.end as int,
            e.span.end as int,
            comp.iter_var@,
            comp.iter_var2@,
        ).contains(mark));
        assert(highlight::comprehension_tokens(source, e.span, comp).contains(mark));
    }
}

/// The token covers something that is written in the call of a macro, between `from` and `end`: a
/// dot, a parenthesis or a comma, the name between the dot and the parenthesis, or one of the
/// iteration variables.
pub open spec fn is_in_macro_call(
    source: Seq<u8>,
    from: int,
    end: int,
    first: Seq<char>,
    second: Seq<char>,
    token: RawToken,
) -> bool {
    let at = token.start as int;
    let behind = at + token.length;
    &&& from <= at
    &&& behind <= end
    &&& if token.token_type == PUNCTUATION {
        &&& token.length == 1
        &&& token.token_modifiers == 0
        &&& text::occurs_at(source, encode_utf8(seq!['.']), at, end) || text::occurs_at(
            source,
            encode_utf8(seq!['(']),
            at,
            end,
        ) || text::occurs_at(source, encode_utf8(seq![',']), at, end)
    } else if token.token_type == FUNCTION {
        &&& token.token_modifiers == DEFAULT_LIBRARY
        &&& text::occurs_at(source, encode_utf8(seq!['.']), at - 1, end)
        &&& text::occurs_at(source, encode_utf8(seq!['(']), behind, end)
    } else {
        &&& token.token_type == VARIABLE
        &&& token.token_modifiers == 0
        &&& source.subrange(at, behind) == encode_utf8(first) || source.subrange(at, behind)
            == encode_utf8(second)
    }
}

/// A comprehension is highlighted with nothing but what its receiver and the repeated expression are
/// highlighted with, what is written in the call of its macro, and the parenthesis that closes it.
pub proof fn macro_calls_have_no_other_tokens(source: Seq<u8>, e: SpannedExpr, token: RawToken)
    requires
        lies_in(source, e),
        highlight::expr_tokens(source, e).contains(token),
    ensures
        e.node matches Expr::Comprehension(comp) ==> {
            ||| highlight::expr_tokens(source, *comp.iter_range).contains(token)
            ||| highlight::expr_tokens(source, *comp.loop_step).contains(token)
            ||| token == coverage::token(e.span.end - 1, e.span.end as int, PUNCTUATION, 0)
            ||| is_in_macro_call(
                source,
                comp.iter_range.span.end as int,
                e.span.end as int,
                comp.iter_var@,
                comp.iter_var2@,
                token,
            )
        },
{
    broadcast use vstd::seq_lib::lemma_seq_concat_contains_all_elements;

    if let Expr::Comprehension(comp) = e.node {
        let end = e.span.end as int;
        let from = comp.iter_range.span.end as int;
        assert(highlight::comprehension_tokens(source, e.span, comp).contains(token));
        if highlight::macro_tokens(
            source,
            from,
            end,
            comp.iter_var@,
            comp.iter_var2@,
        ).contains(token) {
            macro_tokens_are_written(source, from, end, comp.iter_var@, comp.iter_var2@, token);
        } else {
            pieces_hold_one(source.len() as int, end - 1, end, PUNCTUATION, 0);
        }
    }
}

broadcast proof fn pieces_hold_one(
    size: int,
    start: int,
    end: int,
    token_type: u32,
    token_modifiers: u32,
)
    ensures
        forall|token: RawToken|
            (#[trigger] highlight::piece(
                size,
                start,
                end,
                token_type,
                token_modifiers,
            )).contains(token) ==> token == coverage::token(
                start,
                end,
                token_type,
                token_modifiers,
            ) && 0 <= start < end <= size,
{
    reveal(highlight::piece);
}

proof fn found_char_is_there(source: Seq<u8>, c: char, from: int, to: int)
    requires
        0 <= from,
    ensures
        highlight::char_in(source, from, to, c) matches Some(at) ==> from <= at < to
            <= source.len() && text::occurs_at(source, encode_utf8(seq![c]), at, to),
{
    encode_utf8_first_scalar(seq![c]);
    text::find_in_is_first(source, encode_utf8(seq![c]), from, to);
}

proof fn macro_tokens_are_written(
    source: Seq<u8>,
    from: int,
    end: int,
    first: Seq<char>,
    second: Seq<char>,
    token: RawToken,
)
    requires
        0 <= from,
        end <= source.len() <= usize::MAX,
        highlight::macro_tokens(source, from, end, first, second).contains(token),
    ensures
        is_in_macro_call(source, from, end, first, second, token),
{
    broadcast use {pieces_hold_one, vstd::seq_lib::lemma_seq_concat_contains_all_elements};

    found_char_is_there(source, '.', from, end);
    if let Some(dot) = highlight::char_in(source, from, end, '.') {
        found_char_is_there(source, '(', dot + 1, end);
        if let Some(paren) = highlight::char_in(source, dot + 1, end, '(') {
            let at = highlight::variable_start(source, paren + 1, end, first);
            text::after_spaces_in_range(source, paren + 1, end);
            let cursor = highlight::variable_end(source, at, end, first);
            found_char_is_there(source, ',', cursor, end);
            if let Some(comma) = highlight::char_in(source, cursor, end, ',') {
                text::after_spaces_in_range(source, comma + 1, end);
                let place = text::after_spaces(source, comma + 1, end);
                found_char_is_there(
                    source,
                    ',',
                    highlight::variable_end(source, place, end, second),
                    end,
                );
            }
        }
    }
}

} // verus!

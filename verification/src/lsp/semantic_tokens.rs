//! Semantic tokens for CEL syntax highlighting.

use super::encoding;
use super::encoding::SemanticToken;
use super::highlight;
use super::highlight::RawToken;
use super::token_modifiers::DEFAULT_LIBRARY;
use super::token_types::{FUNCTION, KEYWORD, METHOD, NUMBER, OPERATOR, PUNCTUATION, STRING, VARIABLE};
use crate::builtins::is_builtin;
use crate::line_index::LineIndex;
use crate::syntax::{
    BinaryOp, ComprehensionData, Expr, ListElement, MapEntry, Span, SpannedExpr, StructField,
};
use crate::text;
use vstd::prelude::*;
use vstd::utf8::*;

verus! {

/// Collects the tokens of an expression.
pub struct TokenCollector<'a> {
    pub source: &'a str,
    pub tokens: Vec<RawToken>,
    /// For each comprehension met so far: where it starts, and the length of its receiver.
    pub comp_iter_ranges: Vec<(usize, usize)>,
}

impl<'a> TokenCollector<'a> {
    /// The bytes of the source.
    pub open spec fn bytes(&self) -> Seq<u8> {
        encode_utf8(self.source@)
    }

    /// `after` is `before` with `tokens` and `ranges` added at the end.
    pub open spec fn grown(
        before: Self,
        after: Self,
        tokens: Seq<RawToken>,
        ranges: Seq<(usize, usize)>,
    ) -> bool {
        &&& after.source@ == before.source@
        &&& after.tokens@ =~= before.tokens@ + tokens
        &&& after.comp_iter_ranges@ =~= before.comp_iter_ranges@ + ranges
    }

    /// A collector with nothing collected yet.
    pub fn new(source: &'a str) -> (collector: Self)
        ensures
            collector.source@ == source@,
            collector.tokens@ == Seq::<RawToken>::empty(),
            collector.comp_iter_ranges@ == Seq::<(usize, usize)>::empty(),
    {
        TokenCollector { source, tokens: Vec::new(), comp_iter_ranges: Vec::new() }
    }

    /// Adds the token for `source[start..end]`, unless that range is empty or reaches past the
    /// end of the source.
    pub fn push(&mut self, start: usize, end: usize, token_type: u32, token_modifiers: u32)
        ensures
            Self::grown(
                *old(self),
                *final(self),
                highlight::piece(
                    old(self).bytes().len() as int,
                    start as int,
                    end as int,
                    token_type,
                    token_modifiers,
                ),
                Seq::empty(),
            ),
    {
        proof {
            reveal(highlight::piece);
        }
        if start < end && end <= text::byte_len(self.source) {
            self.tokens.push(RawToken { start, length: end - start, token_type, token_modifiers });
        }
    }

    /// Adds a token for `len` bytes of punctuation at `start`.
    pub fn push_punctuation(&mut self, start: usize, len: usize)
        ensures
            Self::grown(
                *old(self),
                *final(self),
                highlight::piece(
                    old(self).bytes().len() as int,
                    start as int,
                    start + len,
                    PUNCTUATION,
                    0,
                ),
                Seq::empty(),
            ),
    {
        let size: usize = text::byte_len(self.source);
        if start < size && len <= size - start {
            self.push(start, start + len, PUNCTUATION, 0);
        } else {
            proof {
                highlight::no_piece(size as int, start as int, start + len, PUNCTUATION, 0);
            }
        }
    }

    /// Adds a token for the last byte before `end`.
    fn push_closing(&mut self, end: usize)
        ensures
            Self::grown(
                *old(self),
                *final(self),
                highlight::punctuation(old(self).bytes().len() as int, end - 1),
                Seq::empty(),
            ),
    {
        if end > 0 {
            self.push_punctuation(end - 1, 1);
        } else {
            proof {
                highlight::no_piece(self.bytes().len() as int, -1, 0, PUNCTUATION, 0);
            }
        }
    }

    /// Adds a token for a name that ends at `end`.
    fn push_name(&mut self, end: usize, name: &str, token_type: u32, token_modifiers: u32)
        ensures
            Self::grown(
                *old(self),
                *final(self),
                highlight::name_before(
                    old(self).bytes().len() as int,
                    end as int,
                    name@,
                    token_type,
                    token_modifiers,
                ),
                Seq::empty(),
            ),
    {
        let width: usize = text::byte_len(name);
        if width <= end {
            self.push(end - width, end, token_type, token_modifiers);
        } else {
            proof {
                highlight::no_piece(
                    self.bytes().len() as int,
                    end - width,
                    end as int,
                    token_type,
                    token_modifiers,
                );
            }
        }
    }

    /// Finds the first `c` in `source[start..end]`. A range that is empty or reaches past the end
    /// of the source, as spans of macro expansions may, holds none.
    pub fn find_char(&self, start: usize, end: usize, c: char) -> (found: Option<usize>)
        ensures
            match found {
                Some(at) => highlight::char_in(self.bytes(), start as int, end as int, c) == Some(
                    at as int,
                ),
                None => highlight::char_in(self.bytes(), start as int, end as int, c) is None,
            },
    {
        let needle = text::encode_char(c);
        proof {
            encode_utf8_first_scalar(seq![c]);
        }
        text::find_bytes(self.source.as_bytes(), needle.as_slice(), start, end)
    }

    /// Adds a token for the first `c` in `source[start..end]`.
    fn push_found(&mut self, start: usize, end: usize, c: char)
        ensures
            Self::grown(
                *old(self),
                *final(self),
                highlight::punctuation_in(old(self).bytes(), start as int, end as int, c),
                Seq::empty(),
            ),
    {
        if let Some(at) = self.find_char(start, end, c) {
            self.push_punctuation(at, 1);
        }
    }

    /// Advances past ASCII white space.
    pub fn skip_whitespace(&self, start: usize, end: usize) -> (cursor: usize)
        ensures
            cursor == text::after_spaces(self.bytes(), start as int, end as int),
    {
        let bytes = self.source.as_bytes();
        let mut cursor: usize = start;
        while cursor < end && cursor < bytes.len() && is_space(bytes[cursor])
            invariant
                bytes@ == self.bytes(),
                text::after_spaces(self.bytes(), start as int, end as int) == text::after_spaces(
                    self.bytes(),
                    cursor as int,
                    end as int,
                ),
            decreases end - cursor,
        {
            cursor += 1;
        }
        cursor
    }

    /// Goes back past ASCII white space before `end`.
    fn skip_whitespace_back(&self, start: usize, end: usize) -> (cursor: usize)
        ensures
            cursor == text::before_spaces(self.bytes(), start as int, end as int),
    {
        let bytes = self.source.as_bytes();
        let mut cursor: usize = end;
        while start < cursor && cursor <= bytes.len() && is_space(bytes[cursor - 1])
            invariant
                bytes@ == self.bytes(),
                text::before_spaces(self.bytes(), start as int, end as int) == text::before_spaces(
                    self.bytes(),
                    start as int,
                    cursor as int,
                ),
            decreases cursor,
        {
            cursor -= 1;
        }
        cursor
    }

    /// Finds the first occurrence of the operator in `source[start..end]`: the operator as it is
    /// written, and its distance from `start`.
    pub fn find_operator(&self, start: usize, end: usize, op: BinaryOp) -> (found: Option<
        (&'static str, usize),
    >)
        ensures
            match found {
                Some((op_str, offset)) => {
                    &&& op_str@ == op.text()
                    &&& text::find_in(
                        self.bytes(),
                        encode_utf8(op.text()),
                        start as int,
                        end as int,
                    ) == Some(start + offset)
                },
                None => text::find_in(
                    self.bytes(),
                    encode_utf8(op.text()),
                    start as int,
                    end as int,
                ) is None,
            },
    {
        let op_str = op.as_str();
        proof {
            op.text_is_not_empty();
            encode_utf8_first_scalar(op.text());
            text::find_in_is_first(
                self.bytes(),
                encode_utf8(op.text()),
                start as int,
                end as int,
            );
        }
        match text::find_bytes(self.source.as_bytes(), op_str.as_bytes(), start, end) {
            Some(at) => Some((op_str, at - start)),
            None => None,
        }
    }

    /// Adds the tokens of an expression.
    pub fn visit_expr(&mut self, expr: &SpannedExpr)
        ensures
            Self::grown(
                *old(self),
                *final(self),
                highlight::expr_tokens(old(self).bytes(), *expr),
                highlight::iter_ranges(old(self).bytes().len() as int, *expr),
            ),
            highlight::all_sound(old(self).bytes().len() as int, old(self).tokens@)
                ==> highlight::all_sound(old(self).bytes().len() as int, final(self).tokens@),
    {
        let size: usize = text::byte_len(self.source);
        self.visit_node(expr);
        proof {
            let before = old(self).tokens@;
            let added = highlight::expr_tokens(old(self).bytes(), *expr);
            highlight::tokens_are_sound(old(self).bytes(), *expr);
            if highlight::all_sound(size as int, before) {
                highlight::sound_concat(size as int, before, added);
                assert(self.tokens@ == before + added);
            }
        }
    }

    /// Adds the tokens of a node of the tree and of the nodes under it.
    #[verifier::rlimit(50)]
    fn visit_node(&mut self, expr: &SpannedExpr)
        ensures
            Self::grown(
                *old(self),
                *final(self),
                highlight::expr_tokens(old(self).bytes(), *expr),
                highlight::iter_ranges(old(self).bytes().len() as int, *expr),
            ),
        decreases expr, 0nat,
    {
        if expr.span.start > expr.span.end || expr.span.end > text::byte_len(self.source) {
            return;
        }
        match &expr.node {
            Expr::Null | Expr::Bool(_) => {
                self.push(expr.span.start, expr.span.end, KEYWORD, 0);
            },
            Expr::Int(_) | Expr::UInt(_) | Expr::Float => {
                self.push(expr.span.start, expr.span.end, NUMBER, 0);
            },
            Expr::String(_) | Expr::Bytes(_) => {
                self.push(expr.span.start, expr.span.end, STRING, 0);
            },
            Expr::Ident(name) => {
                let modifiers: u32 = name_modifiers(name.as_str());
                self.push(expr.span.start, expr.span.end, VARIABLE, modifiers);
            },
            Expr::RootIdent(name) => {
                let modifiers: u32 = name_modifiers(name.as_str());
                self.push(expr.span.start, expr.span.end, VARIABLE, modifiers);
            },
            Expr::List(items) => {
                self.push_punctuation(expr.span.start, 1);
                self.visit_list(items);
                self.push_list_commas(items);
                self.push_closing(expr.span.end);
            },
            Expr::MapLiteral(entries) => {
                self.push_punctuation(expr.span.start, 1);
                self.visit_entries(entries);
                self.push_entry_commas(entries);
                self.push_closing(expr.span.end);
            },
            Expr::Unary { op: _, expr: inner } => {
                if expr.span.start < text::byte_len(self.source) {
                    self.push(expr.span.start, expr.span.start + 1, OPERATOR, 0);
                } else {
                    proof {
                        highlight::no_piece(
                            self.bytes().len() as int,
                            expr.span.start as int,
                            expr.span.start + 1,
                            OPERATOR,
                            0,
                        );
                    }
                }
                self.visit_node(inner);
            },
            Expr::Binary { op, left, right } => {
                self.visit_node(left);
                self.push_operator(left.span.end, right.span.start, *op);
                self.visit_node(right);
            },
            Expr::Ternary { cond, then_expr, else_expr } => {
                self.visit_node(cond);
                self.push_found(cond.span.end, then_expr.span.start, '?');
                self.visit_node(then_expr);
                self.push_found(then_expr.span.end, else_expr.span.start, ':');
                self.visit_node(else_expr);
            },
            Expr::Member { expr: inner, field, optional: _ } => {
                self.visit_node(inner);
                self.push_dot(inner.span, expr.span);
                self.push_name(expr.span.end, field.as_str(), VARIABLE, 0);
            },
            Expr::Index { expr: inner, index, optional: _ } => {
                self.visit_node(inner);
                self.push_found(inner.span.end, index.span.start, '[');
                self.visit_node(index);
                self.push_closing(expr.span.end);
            },
            Expr::Call { expr: callee, args } => {
                self.visit_callee(callee);
                self.push_found(callee.span.end, expr.span.end, '(');
                self.visit_args(args);
                self.push_arg_commas(args);
                self.push_closing(expr.span.end);
            },
            Expr::Struct { message_type, fields } => {
                self.visit_node(message_type);
                self.push_found(message_type.span.end, expr.span.end, '{');
                self.visit_fields(message_type.span.end, fields);
                self.push_field_commas(fields);
                self.push_closing(expr.span.end);
            },
            Expr::Comprehension(comp) => {
                self.visit_comprehension(expr.span, comp);
            },
            Expr::MemberTestOnly { expr: inner, field } => {
                self.visit_presence_test(expr.span, inner, field.as_str());
            },
            Expr::Bind { var_name: _, init, body } => {
                self.visit_node(init);
                self.visit_node(body);
            },
            Expr::Error => {},
        }
    }

    /// Adds the tokens of what is called.
    fn visit_callee(&mut self, callee: &SpannedExpr)
        ensures
            Self::grown(
                *old(self),
                *final(self),
                highlight::callee_tokens(old(self).bytes(), *callee),
                highlight::callee_ranges(old(self).bytes().len() as int, *callee),
            ),
        decreases callee, 1nat,
    {
        match &callee.node {
            Expr::Ident(name) => {
                let modifiers: u32 = name_modifiers(name.as_str());
                self.push(callee.span.start, callee.span.end, FUNCTION, modifiers);
            },
            Expr::Member { expr: object, field, optional: _ } => {
                self.visit_node(object);
                self.push_dot(object.span, callee.span);
                let modifiers: u32 = name_modifiers(field.as_str());
                self.push_name(callee.span.end, field.as_str(), METHOD, modifiers);
            },
            _ => {
                self.visit_node(callee);
            },
        }
    }

    /// Adds the tokens of `has(inner.field)`, which takes `span` in the source.
    fn visit_presence_test(&mut self, span: Span, inner: &SpannedExpr, field: &str)
        requires
            highlight::in_source(old(self).bytes().len() as int, span),
        ensures
            Self::grown(
                *old(self),
                *final(self),
                highlight::presence_tokens(old(self).bytes(), span, *inner, field@),
                highlight::iter_ranges(old(self).bytes().len() as int, *inner),
            ),
        decreases inner, 1nat,
    {
        let ghost bytes = self.bytes();
        let ghost size = bytes.len() as int;
        let ghost ranges = highlight::iter_ranges(size, *inner);
        if 3 <= text::byte_len(self.source) - span.start {
            self.push(span.start, span.start + 3, FUNCTION, DEFAULT_LIBRARY);
            self.push_found(span.start + 3, inner.span.start, '(');
        } else {
            proof {
                highlight::no_piece(
                    size,
                    span.start as int,
                    span.start + 3,
                    FUNCTION,
                    DEFAULT_LIBRARY,
                );
            }
        }
        let ghost opening = highlight::piece(
            size,
            span.start as int,
            span.start + 3,
            FUNCTION,
            DEFAULT_LIBRARY,
        ) + highlight::punctuation_in(bytes, span.start + 3, inner.span.start as int, '(');
        assert(Self::grown(*old(self), *self, opening, Seq::empty()));
        self.visit_node(inner);
        self.push_found(inner.span.end, span.end, '.');
        let ghost operand = opening + highlight::expr_tokens(bytes, *inner)
            + highlight::punctuation_in(bytes, inner.span.end as int, span.end as int, '.');
        assert(Self::grown(*old(self), *self, operand, ranges));
        if span.end > 0 {
            self.push_name(span.end - 1, field, VARIABLE, 0);
        } else {
            proof {
                highlight::no_piece(size, -1 - text::byte_count(field@), -1, VARIABLE, 0);
            }
        }
        assert(Self::grown(
            *old(self),
            *self,
            operand + highlight::name_before(size, span.end - 1, field@, VARIABLE, 0),
            ranges,
        ));
        self.push_closing(span.end);
    }

    /// Adds the tokens of a comprehension that takes `span` in the source.
    fn visit_comprehension(&mut self, span: Span, comp: &ComprehensionData)
        requires
            highlight::in_source(old(self).bytes().len() as int, span),
        ensures
            Self::grown(
                *old(self),
                *final(self),
                highlight::comprehension_tokens(old(self).bytes(), span, *comp),
                highlight::comprehension_ranges(old(self).bytes().len() as int, span, *comp),
            ),
        decreases comp, 0nat,
    {
        let iter_span = comp.iter_range.span;
        let iter_len: usize = if iter_span.end < iter_span.start {
            0
        } else {
            iter_span.end - iter_span.start
        };
        self.comp_iter_ranges.push((span.start, iter_len));
        self.visit_node(&comp.iter_range);
        self.push_macro(
            iter_span.end,
            span.end,
            comp.iter_var.as_str(),
            comp.iter_var2.as_str(),
        );
        self.visit_node(&comp.loop_step);
        self.push_closing(span.end);
    }

    /// Adds the tokens of a macro call between its receiver and what it repeats.
    fn push_macro(&mut self, after: usize, end: usize, iter_var: &str, iter_var2: &str)
        requires
            end <= old(self).bytes().len(),
        ensures
            Self::grown(
                *old(self),
                *final(self),
                highlight::macro_tokens(
                    old(self).bytes(),
                    after as int,
                    end as int,
                    iter_var@,
                    iter_var2@,
                ),
                Seq::empty(),
            ),
    {
        if let Some(dot) = self.find_char(after, end, '.') {
            self.push_punctuation(dot, 1);
            proof {
                char_in_range(self.bytes(), after as int, end as int, '.');
            }
            if let Some(paren) = self.find_char(dot + 1, end, '(') {
                self.push(dot + 1, paren, FUNCTION, DEFAULT_LIBRARY);
                self.push_punctuation(paren, 1);
                proof {
                    char_in_range(self.bytes(), dot + 1, end as int, '(');
                }
                self.push_variables(paren + 1, end, iter_var, iter_var2);
            }
        }
    }

    /// Adds the tokens of the iteration variables of a macro call and of the commas after them.
    fn push_variables(&mut self, at: usize, end: usize, iter_var: &str, iter_var2: &str)
        requires
            at <= end <= old(self).bytes().len(),
        ensures
            Self::grown(
                *old(self),
                *final(self),
                highlight::macro_variables(
                    old(self).bytes(),
                    at as int,
                    end as int,
                    iter_var@,
                    iter_var2@,
                ),
                Seq::empty(),
            ),
    {
        let first: usize = if iter_var.is_empty() {
            at
        } else {
            self.skip_whitespace(at, end)
        };
        proof {
            text::after_spaces_in_range(self.bytes(), at as int, end as int);
        }
        let cursor: usize = self.push_variable(first, end, iter_var);
        if iter_var2.is_empty() {
            self.push_found(cursor, end, ',');
        } else if let Some(comma) = self.find_char(cursor, end, ',') {
            self.push_punctuation(comma, 1);
            proof {
                char_in_range(self.bytes(), cursor as int, end as int, ',');
                text::after_spaces_in_range(self.bytes(), comma + 1, end as int);
            }
            let second: usize = self.skip_whitespace(comma + 1, end);
            let rest: usize = self.push_variable(second, end, iter_var2);
            self.push_found(rest, end, ',');
        }
    }

    /// Adds a token for an iteration variable if it stands at `at`. Returns where it ends.
    fn push_variable(&mut self, at: usize, end: usize, name: &str) -> (cursor: usize)
        requires
            at <= end <= old(self).bytes().len(),
        ensures
            Self::grown(
                *old(self),
                *final(self),
                highlight::variable_token(old(self).bytes(), at as int, end as int, name@),
                Seq::empty(),
            ),
            cursor == highlight::variable_end(old(self).bytes(), at as int, end as int, name@),
            cursor <= end,
    {
        let width: usize = text::byte_len(name);
        if width <= end - at && text::matches_at(self.source.as_bytes(), name.as_bytes(), at) {
            self.push(at, at + width, VARIABLE, 0);
            at + width
        } else {
            at
        }
    }

    /// Adds a token for the first occurrence of the operator in `source[start..end]`.
    fn push_operator(&mut self, start: usize, end: usize, op: BinaryOp)
        ensures
            Self::grown(
                *old(self),
                *final(self),
                highlight::operator_in(old(self).bytes(), start as int, end as int, op),
                Seq::empty(),
            ),
    {
        if let Some((op_str, offset)) = self.find_operator(start, end, op) {
            let width: usize = text::byte_len(op_str);
            proof {
                op.text_is_not_empty();
                encode_utf8_first_scalar(op.text());
                text::find_in_is_first(
                    self.bytes(),
                    encode_utf8(op.text()),
                    start as int,
                    end as int,
                );
            }
            self.push(start + offset, start + offset + width, OPERATOR, 0);
        }
    }

    /// Adds a token for the dot after an operand, if the whole goes on after the operand.
    fn push_dot(&mut self, operand: Span, whole: Span)
        ensures
            Self::grown(
                *old(self),
                *final(self),
                highlight::dot_after(old(self).bytes().len() as int, operand, whole),
                Seq::empty(),
            ),
    {
        if operand.end < whole.end {
            self.push_punctuation(operand.end, 1);
        }
    }

    /// Adds the tokens of the elements of a list.
    fn visit_list(&mut self, items: &Vec<ListElement>)
        ensures
            Self::grown(
                *old(self),
                *final(self),
                highlight::list_tokens(old(self).bytes(), items@),
                highlight::list_ranges(old(self).bytes().len() as int, items@),
            ),
        decreases items, 0nat,
    {
        let mut i: usize = 0;
        while i < items.len()
            invariant
                i <= items.len(),
                Self::grown(
                    *old(self),
                    *self,
                    highlight::list_tokens(old(self).bytes(), items@.take(i as int)),
                    highlight::list_ranges(old(self).bytes().len() as int, items@.take(i as int)),
                ),
            decreases items.len() - i,
        {
            self.visit_node(&items[i].expr);
            proof {
                assert(items@.take(i + 1).drop_last() =~= items@.take(i as int));
            }
            i += 1;
        }
        proof {
            assert(items@.take(i as int) =~= items@);
        }
    }

    /// Adds the tokens for the commas between list elements.
    fn push_list_commas(&mut self, items: &Vec<ListElement>)
        ensures
            Self::grown(
                *old(self),
                *final(self),
                highlight::list_commas(old(self).bytes(), items@),
                Seq::empty(),
            ),
    {
        if items.len() == 0 {
            return;
        }
        let mut i: usize = 1;
        while i < items.len()
            invariant
                1 <= i <= items.len(),
                Self::grown(
                    *old(self),
                    *self,
                    highlight::list_commas(old(self).bytes(), items@.take(i as int)),
                    Seq::empty(),
                ),
            decreases items.len() - i,
        {
            self.push_found(items[i - 1].expr.span.end, items[i].expr.span.start, ',');
            proof {
                assert(items@.take(i + 1).drop_last() =~= items@.take(i as int));
            }
            i += 1;
        }
        proof {
            assert(items@.take(i as int) =~= items@);
        }
    }

    /// Adds the tokens of the entries of a map.
    fn visit_entries(&mut self, entries: &Vec<MapEntry>)
        ensures
            Self::grown(
                *old(self),
                *final(self),
                highlight::entry_tokens(old(self).bytes(), entries@),
                highlight::entry_ranges(old(self).bytes().len() as int, entries@),
            ),
        decreases entries, 0nat,
    {
        let mut i: usize = 0;
        while i < entries.len()
            invariant
                i <= entries.len(),
                Self::grown(
                    *old(self),
                    *self,
                    highlight::entry_tokens(old(self).bytes(), entries@.take(i as int)),
                    highlight::entry_ranges(old(self).bytes().len() as int, entries@.take(i as int)),
                ),
            decreases entries.len() - i,
        {
            self.visit_node(&entries[i].key);
            self.push_found(entries[i].key.span.end, entries[i].value.span.start, ':');
            self.visit_node(&entries[i].value);
            proof {
                assert(entries@.take(i + 1).drop_last() =~= entries@.take(i as int));
            }
            i += 1;
        }
        proof {
            assert(entries@.take(i as int) =~= entries@);
        }
    }

    /// Adds the tokens for the commas between map entries.
    fn push_entry_commas(&mut self, entries: &Vec<MapEntry>)
        ensures
            Self::grown(
                *old(self),
                *final(self),
                highlight::entry_commas(old(self).bytes(), entries@),
                Seq::empty(),
            ),
    {
        if entries.len() == 0 {
            return;
        }
        let mut i: usize = 1;
        while i < entries.len()
            invariant
                1 <= i <= entries.len(),
                Self::grown(
                    *old(self),
                    *self,
                    highlight::entry_commas(old(self).bytes(), entries@.take(i as int)),
                    Seq::empty(),
                ),
            decreases entries.len() - i,
        {
            self.push_found(entries[i - 1].value.span.end, entries[i].key.span.start, ',');
            proof {
                assert(entries@.take(i + 1).drop_last() =~= entries@.take(i as int));
            }
            i += 1;
        }
        proof {
            assert(entries@.take(i as int) =~= entries@);
        }
    }

    /// Adds the tokens of the arguments of a call.
    fn visit_args(&mut self, args: &Vec<SpannedExpr>)
        ensures
            Self::grown(
                *old(self),
                *final(self),
                highlight::arg_tokens(old(self).bytes(), args@),
                highlight::arg_ranges(old(self).bytes().len() as int, args@),
            ),
        decreases args, 0nat,
    {
        let mut i: usize = 0;
        while i < args.len()
            invariant
                i <= args.len(),
                Self::grown(
                    *old(self),
                    *self,
                    highlight::arg_tokens(old(self).bytes(), args@.take(i as int)),
                    highlight::arg_ranges(old(self).bytes().len() as int, args@.take(i as int)),
                ),
            decreases args.len() - i,
        {
            self.visit_node(&args[i]);
            proof {
                assert(args@.take(i + 1).drop_last() =~= args@.take(i as int));
            }
            i += 1;
        }
        proof {
            assert(args@.take(i as int) =~= args@);
        }
    }

    /// Adds the tokens for the commas between arguments.
    fn push_arg_commas(&mut self, args: &Vec<SpannedExpr>)
        ensures
            Self::grown(
                *old(self),
                *final(self),
                highlight::arg_commas(old(self).bytes(), args@),
                Seq::empty(),
            ),
    {
        if args.len() == 0 {
            return;
        }
        let mut i: usize = 1;
        while i < args.len()
            invariant
                1 <= i <= args.len(),
                Self::grown(
                    *old(self),
                    *self,
                    highlight::arg_commas(old(self).bytes(), args@.take(i as int)),
                    Seq::empty(),
                ),
            decreases args.len() - i,
        {
            self.push_found(args[i - 1].span.end, args[i].span.start, ',');
            proof {
                assert(args@.take(i + 1).drop_last() =~= args@.take(i as int));
            }
            i += 1;
        }
        proof {
            assert(args@.take(i as int) =~= args@);
        }
    }

    /// Adds the tokens of the fields of a message, whose type ends at `type_end`.
    fn visit_fields(&mut self, type_end: usize, fields: &Vec<StructField>)
        ensures
            Self::grown(
                *old(self),
                *final(self),
                highlight::field_tokens(old(self).bytes(), type_end as int, fields@),
                highlight::field_ranges(old(self).bytes().len() as int, fields@),
            ),
        decreases fields, 0nat,
    {
        let mut i: usize = 0;
        while i < fields.len()
            invariant
                i <= fields.len(),
                Self::grown(
                    *old(self),
                    *self,
                    highlight::field_tokens(
                        old(self).bytes(),
                        type_end as int,
                        fields@.take(i as int),
                    ),
                    highlight::field_ranges(old(self).bytes().len() as int, fields@.take(i as int)),
                ),
            decreases fields.len() - i,
        {
            let from: usize = if i == 0 {
                type_end
            } else {
                fields[i - 1].value.span.end
            };
            self.push_label(from, &fields[i]);
            self.visit_node(&fields[i].value);
            proof {
                assert(fields@.take(i + 1).drop_last() =~= fields@.take(i as int));
            }
            i += 1;
        }
        proof {
            assert(fields@.take(i as int) =~= fields@);
        }
    }

    /// Adds the tokens for the commas between fields.
    fn push_field_commas(&mut self, fields: &Vec<StructField>)
        ensures
            Self::grown(
                *old(self),
                *final(self),
                highlight::field_commas(old(self).bytes(), fields@),
                Seq::empty(),
            ),
    {
        if fields.len() == 0 {
            return;
        }
        let mut i: usize = 1;
        while i < fields.len()
            invariant
                1 <= i <= fields.len(),
                Self::grown(
                    *old(self),
                    *self,
                    highlight::field_commas(old(self).bytes(), fields@.take(i as int)),
                    Seq::empty(),
                ),
            decreases fields.len() - i,
        {
            self.push_found(fields[i - 1].value.span.end, fields[i].value.span.start, ',');
            proof {
                assert(fields@.take(i + 1).drop_last() =~= fields@.take(i as int));
            }
            i += 1;
        }
        proof {
            assert(fields@.take(i as int) =~= fields@);
        }
    }

    /// Adds the tokens for the name and the colon of a field.
    fn push_label(&mut self, from: usize, field: &StructField)
        ensures
            Self::grown(
                *old(self),
                *final(self),
                highlight::field_label(old(self).bytes(), from as int, *field),
                Seq::empty(),
            ),
    {
        if let Some(colon) = self.find_char(from, field.value.span.start, ':') {
            let end: usize = self.skip_whitespace_back(from, colon);
            let width: usize = text::byte_len(field.name.as_str());
            let start: usize = if end < width {
                0
            } else {
                end - width
            };
            self.push(start, end, VARIABLE, 0);
            self.push_punctuation(colon, 1);
        }
    }

    /// The collected tokens in their wire form: in the order in which they start, without those that
    /// are not genuine where a comprehension starts, and with relative positions.
    pub fn into_semantic_tokens(self, line_index: &LineIndex) -> (tokens: Vec<SemanticToken>)
        ensures
            tokens@ == encoding::encoded(
                line_index.bytes(),
                encoding::genuine(self.comp_iter_ranges@, encoding::by_start(self.tokens@)),
            ),
    {
        let sorted = encoding::sort_by_start(&self.tokens);
        let kept = encoding::drop_synthetic(&self.comp_iter_ranges, &sorted);
        encoding::encode_tokens(&kept, line_index)
    }
}

/// The semantic tokens of an expression.
pub fn tokens_for_ast(line_index: &LineIndex, ast: &SpannedExpr) -> (tokens: Vec<SemanticToken>)
    ensures
        tokens@ == ast_tokens(line_index.bytes(), *ast),
{
    let mut collector = TokenCollector::new(line_index.source());
    collector.visit_expr(ast);
    proof {
        let bytes = line_index.bytes();
        assert(collector.tokens@ =~= highlight::expr_tokens(bytes, *ast));
        assert(collector.comp_iter_ranges@ =~= highlight::iter_ranges(bytes.len() as int, *ast));
    }
    collector.into_semantic_tokens(line_index)
}

/// The semantic tokens of an expression over a source.
pub open spec fn ast_tokens(bytes: Seq<u8>, ast: SpannedExpr) -> Seq<SemanticToken> {
    encoding::encoded(bytes, kept_tokens(bytes, ast))
}

/// The tokens of an expression before they are given relative positions.
pub open spec fn kept_tokens(bytes: Seq<u8>, ast: SpannedExpr) -> Seq<RawToken> {
    encoding::genuine(
        highlight::iter_ranges(bytes.len() as int, ast),
        encoding::by_start(highlight::expr_tokens(bytes, ast)),
    )
}

/// The semantic tokens of an expression never go back in the text: each is at its true distance
/// from the one before it, as long as lines and columns fit their wire type.
pub proof fn tokens_are_in_order(bytes: Seq<u8>, ast: SpannedExpr, i: int)
    requires
        0 < i < ast_tokens(bytes, ast).len(),
        forall|k: int|
            0 <= k < kept_tokens(bytes, ast).len() ==> ({
                let cursor = encoding::token_cursor(bytes, #[trigger] kept_tokens(bytes, ast)[k]);
                cursor.0 <= u32::MAX && cursor.1 <= u32::MAX
            }),
    ensures
        ({
            let tokens = kept_tokens(bytes, ast);
            let from = encoding::token_cursor(bytes, tokens[i - 1]);
            let at = encoding::token_cursor(bytes, tokens[i]);
            let token = ast_tokens(bytes, ast)[i];
            &&& token.delta_line == at.0 - from.0
            &&& token.delta_start == if at.0 == from.0 {
                at.1 - from.1
            } else {
                at.1
            }
        }),
{
    let all = highlight::expr_tokens(bytes, ast);
    encoding::sorting_is_stable(all);
    encoding::dropping_keeps_order(
        highlight::iter_ranges(bytes.len() as int, ast),
        encoding::by_start(all),
    );
    encoding::relative_positions_are_distances(bytes, kept_tokens(bytes, ast), i);
}

/// The modifiers of a token that names `name`.
fn name_modifiers(name: &str) -> (modifiers: u32)
    ensures
        modifiers == highlight::name_modifiers(name@),
{
    if is_builtin(name) {
        DEFAULT_LIBRARY
    } else {
        0
    }
}

/// What is found in a range lies within it.
proof fn char_in_range(source: Seq<u8>, start: int, end: int, c: char)
    requires
        0 <= start,
    ensures
        highlight::char_in(source, start, end, c) matches Some(at) ==> start <= at < end
            <= source.len(),
{
    encode_utf8_first_scalar(seq![c]);
    text::find_in_is_first(source, encode_utf8(seq![c]), start, end);
}

/// Whether the byte is ASCII white space.
fn is_space(byte: u8) -> (space: bool)
    ensures
        space == text::is_ascii_space(byte),
{
    byte == 0x20 || byte == 0x09 || byte == 0x0A || byte == 0x0C || byte == 0x0D
}

} // verus!

use cel_core::types as cel;
use celsp::line_index::LineIndex;
use celsp::lsp::encoding::{drop_synthetic, sort_by_start, SemanticToken};
use celsp::lsp::highlight::RawToken;
use celsp::lsp::legend::legend;
use celsp::lsp::semantic_tokens::{tokens_for_ast, TokenCollector};
use celsp::lsp::{token_modifiers, token_types};
use celsp::syntax::{
    BinaryOp, ComprehensionData, Expr, ListElement, MapEntry, Span, SpannedExpr, StructField,
    UnaryOp,
};
use lsp_types::SemanticTokenType;

fn boxed(expr: &cel::SpannedExpr) -> Box<SpannedExpr> {
    Box::new(convert(expr))
}

fn unary(op: cel::UnaryOp) -> UnaryOp {
    match op {
        cel::UnaryOp::Neg => UnaryOp::Neg,
        cel::UnaryOp::Not => UnaryOp::Not,
    }
}

fn binary(op: cel::BinaryOp) -> BinaryOp {
    match op {
        cel::BinaryOp::Add => BinaryOp::Add,
        cel::BinaryOp::Sub => BinaryOp::Sub,
        cel::BinaryOp::Mul => BinaryOp::Mul,
        cel::BinaryOp::Div => BinaryOp::Div,
        cel::BinaryOp::Mod => BinaryOp::Mod,
        cel::BinaryOp::Eq => BinaryOp::Eq,
        cel::BinaryOp::Ne => BinaryOp::Ne,
        cel::BinaryOp::Lt => BinaryOp::Lt,
        cel::BinaryOp::Le => BinaryOp::Le,
        cel::BinaryOp::Gt => BinaryOp::Gt,
        cel::BinaryOp::Ge => BinaryOp::Ge,
        cel::BinaryOp::In => BinaryOp::In,
        cel::BinaryOp::And => BinaryOp::And,
        cel::BinaryOp::Or => BinaryOp::Or,
    }
}

fn node(expr: &cel::Expr) -> Expr {
    match expr {
        cel::Expr::Null => Expr::Null,
        cel::Expr::Bool(value) => Expr::Bool(*value),
        cel::Expr::Int(value) => Expr::Int(*value),
        cel::Expr::UInt(value) => Expr::UInt(*value),
        cel::Expr::Float(_) => Expr::Float,
        cel::Expr::String(value) => Expr::String(value.clone()),
        cel::Expr::Bytes(value) => Expr::Bytes(value.clone()),
        cel::Expr::Ident(name) => Expr::Ident(name.clone()),
        cel::Expr::RootIdent(name) => Expr::RootIdent(name.clone()),
        cel::Expr::List(items) => Expr::List(
            items
                .iter()
                .map(|item| ListElement { expr: convert(&item.expr), optional: item.optional })
                .collect(),
        ),
        cel::Expr::Map(entries) => Expr::MapLiteral(
            entries
                .iter()
                .map(|entry| MapEntry {
                    key: convert(&entry.key),
                    value: convert(&entry.value),
                    optional: entry.optional,
                })
                .collect(),
        ),
        cel::Expr::Unary { op, expr } => Expr::Unary { op: unary(*op), expr: boxed(expr) },
        cel::Expr::Binary { op, left, right } => {
            Expr::Binary { op: binary(*op), left: boxed(left), right: boxed(right) }
        }
        cel::Expr::Ternary { cond, then_expr, else_expr } => Expr::Ternary {
            cond: boxed(cond),
            then_expr: boxed(then_expr),
            else_expr: boxed(else_expr),
        },
        cel::Expr::Member { expr, field, optional } => {
            Expr::Member { expr: boxed(expr), field: field.clone(), optional: *optional }
        }
        cel::Expr::Index { expr, index, optional } => {
            Expr::Index { expr: boxed(expr), index: boxed(index), optional: *optional }
        }
        cel::Expr::Call { expr, args } => {
            Expr::Call { expr: boxed(expr), args: args.iter().map(convert).collect() }
        }
        cel::Expr::Struct { .. } => panic!("message literals are built by hand"),
        cel::Expr::Comprehension(data) => Expr::Comprehension(ComprehensionData {
            iter_var: data.iter_var.clone(),
            iter_var2: data.iter_var2.clone(),
            iter_range: boxed(&data.iter_range),
            loop_step: boxed(&data.loop_step),
        }),
        cel::Expr::MemberTestOnly { expr, field } => {
            Expr::MemberTestOnly { expr: boxed(expr), field: field.clone() }
        }
        cel::Expr::Bind { var_name, init, body } => {
            Expr::Bind { var_name: var_name.clone(), init: boxed(init), body: boxed(body) }
        }
        cel::Expr::Error => Expr::Error,
    }
}

fn convert(expr: &cel::SpannedExpr) -> SpannedExpr {
    SpannedExpr {
        id: expr.id,
        node: node(&expr.node),
        span: Span { start: expr.span.start, end: expr.span.end },
    }
}

fn parse(source: &str) -> SpannedExpr {
    convert(&cel_core::parse(source).ast.unwrap())
}

fn tokens(source: &str) -> Vec<SemanticToken> {
    tokens_for_ast(&LineIndex::new(source.to_string()), &parse(source))
}

/// The tokens as text with their types. The text is one line of ASCII.
fn described(source: &str) -> Vec<(&str, u32)> {
    let mut at = 0;
    let mut result = Vec::new();
    for token in tokens(source) {
        assert_eq!(token.delta_line, 0);
        at += token.delta_start as usize;
        result.push((&source[at..at + token.length as usize], token.token_type));
    }
    result
}

#[test]
fn legend_has_expected_types() {
    let leg = legend();
    assert!(leg.token_types.contains(&SemanticTokenType::KEYWORD));
    assert!(leg.token_types.contains(&SemanticTokenType::NUMBER));
    assert!(leg.token_types.contains(&SemanticTokenType::FUNCTION));
    assert_eq!(leg.token_types.len(), 8); // Now includes punctuation
}

#[test]
fn tokens_for_simple_expression() {
    let source = "1 + 2";
    let ast = parse(source);
    let line_index = LineIndex::new(source.to_string());

    let tokens = tokens_for_ast(&line_index, &ast);
    // Should have: number(1), operator(+), number(2)
    assert_eq!(tokens.len(), 3);
}

#[test]
fn tokens_for_function_call() {
    let source = "size(x)";
    let ast = parse(source);
    let line_index = LineIndex::new(source.to_string());

    let tokens = tokens_for_ast(&line_index, &ast);
    // Should have: function(size), (, variable(x), )
    assert_eq!(tokens.len(), 4);
    assert_eq!(tokens[0].token_type, token_types::FUNCTION);
    assert_eq!(tokens[0].token_modifiers_bitset, token_modifiers::DEFAULT_LIBRARY);
}

#[test]
fn tokens_for_list() {
    let source = "[1, 2]";
    let ast = parse(source);
    let line_index = LineIndex::new(source.to_string());

    let tokens = tokens_for_ast(&line_index, &ast);
    // Should have: [, number(1), comma, number(2), ]
    assert_eq!(tokens.len(), 5);
    assert_eq!(tokens[0].token_type, token_types::PUNCTUATION); // [
    assert_eq!(tokens[4].token_type, token_types::PUNCTUATION); // ]
}

#[test]
fn tokens_for_ternary() {
    let source = "a ? b : c";
    let ast = parse(source);
    let line_index = LineIndex::new(source.to_string());

    let tokens = tokens_for_ast(&line_index, &ast);
    // Should have: variable(a), ?, variable(b), :, variable(c)
    assert_eq!(tokens.len(), 5);
    assert_eq!(tokens[1].token_type, token_types::PUNCTUATION); // ?
    assert_eq!(tokens[3].token_type, token_types::PUNCTUATION); // :
}

#[test]
fn tokens_for_has_macro() {
    let source = "has(msg.field)";
    let ast = parse(source);
    let line_index = LineIndex::new(source.to_string());

    let tokens = tokens_for_ast(&line_index, &ast);
    // Should have: function(has), (, variable(msg), ., variable(field), )
    assert_eq!(tokens.len(), 6);
    assert_eq!(tokens[0].token_type, token_types::FUNCTION); // has
    assert_eq!(tokens[0].token_modifiers_bitset, token_modifiers::DEFAULT_LIBRARY);
    assert_eq!(tokens[1].token_type, token_types::PUNCTUATION); // (
    assert_eq!(tokens[2].token_type, token_types::VARIABLE); // msg
    assert_eq!(tokens[3].token_type, token_types::PUNCTUATION); // .
    assert_eq!(tokens[4].token_type, token_types::VARIABLE); // field
    assert_eq!(tokens[5].token_type, token_types::PUNCTUATION); // )
}

#[test]
fn tokens_for_exists_macro_no_overlap() {
    // Regression: the comprehension expansion creates a synthetic Ident("l")
    // whose span overlaps with the start of "labels". Without dedup, this
    // produces a 1-char token at the same offset as the 6-char "labels"
    // token, causing the first letter to render in a different color.
    let source = r#"labels.exists(l, l.startsWith("prod"))"#;
    let ast = parse(source);
    let line_index = LineIndex::new(source.to_string());

    let tokens = tokens_for_ast(&line_index, &ast);

    // labels  .  exists  (  l  ,  l  .  startsWith  (  "prod"  )  )
    let expected_types = vec![
        (token_types::VARIABLE, 6, "labels"),
        (token_types::PUNCTUATION, 1, "."),
        (token_types::FUNCTION, 6, "exists"),
        (token_types::PUNCTUATION, 1, "("),
        (token_types::VARIABLE, 1, "l"),
        (token_types::PUNCTUATION, 1, ","),
        (token_types::VARIABLE, 1, "l"),
        (token_types::PUNCTUATION, 1, "."),
        (token_types::METHOD, 10, "startsWith"),
        (token_types::PUNCTUATION, 1, "("),
        (token_types::STRING, 6, "\"prod\""),
        (token_types::PUNCTUATION, 1, ")"),
        (token_types::PUNCTUATION, 1, ")"),
    ];
    assert_eq!(
        tokens.len(),
        expected_types.len(),
        "expected {} tokens, got {}",
        expected_types.len(),
        tokens.len()
    );
    for (i, (tt, len, label)) in expected_types.iter().enumerate() {
        assert_eq!(
            tokens[i].token_type, *tt,
            "token {i} ({label}): expected type {tt}, got {}",
            tokens[i].token_type
        );
        assert_eq!(
            tokens[i].length, *len as u32,
            "token {i} ({label}): expected length {len}, got {}",
            tokens[i].length
        );
    }
}

#[test]
fn legend_names_every_token_type_at_its_index() {
    let names = [
        (token_types::KEYWORD, "keyword"),
        (token_types::NUMBER, "number"),
        (token_types::STRING, "string"),
        (token_types::OPERATOR, "operator"),
        (token_types::VARIABLE, "variable"),
        (token_types::FUNCTION, "function"),
        (token_types::METHOD, "method"),
        (token_types::PUNCTUATION, "punctuation"),
    ];
    let leg = legend();
    for (index, name) in names {
        assert_eq!(leg.token_types[index as usize].as_str(), name);
    }
    assert_eq!(leg.token_modifiers.len(), 1);
    assert_eq!(leg.token_modifiers[0].as_str(), "defaultLibrary");
    assert_eq!(token_modifiers::DEFAULT_LIBRARY, 1);
}

#[test]
fn tokens_of_literals() {
    assert_eq!(described("true"), vec![("true", token_types::KEYWORD)]);
    assert_eq!(described("null"), vec![("null", token_types::KEYWORD)]);
    assert_eq!(described("12u"), vec![("12u", token_types::NUMBER)]);
    assert_eq!(described("1.5"), vec![("1.5", token_types::NUMBER)]);
    assert_eq!(described("b'x'"), vec![("b'x'", token_types::STRING)]);
}

#[test]
fn tokens_of_operators() {
    assert_eq!(
        described("!a && -b <= c"),
        vec![
            ("!", token_types::OPERATOR),
            ("a", token_types::VARIABLE),
            ("&&", token_types::OPERATOR),
            ("-", token_types::OPERATOR),
            ("b", token_types::VARIABLE),
            ("<=", token_types::OPERATOR),
            ("c", token_types::VARIABLE),
        ]
    );
    assert_eq!(
        described("x in [1]"),
        vec![
            ("x", token_types::VARIABLE),
            ("in", token_types::OPERATOR),
            ("[", token_types::PUNCTUATION),
            ("1", token_types::NUMBER),
            ("]", token_types::PUNCTUATION),
        ]
    );
}

#[test]
fn tokens_of_members_and_indexes() {
    assert_eq!(
        described("a.b[0]"),
        vec![
            ("a", token_types::VARIABLE),
            (".", token_types::PUNCTUATION),
            ("b", token_types::VARIABLE),
            ("[", token_types::PUNCTUATION),
            ("0", token_types::NUMBER),
            ("]", token_types::PUNCTUATION),
        ]
    );
}

#[test]
fn tokens_of_map_literals() {
    assert_eq!(
        described("{'a': 1, 'b': 2}"),
        vec![
            ("{", token_types::PUNCTUATION),
            ("'a'", token_types::STRING),
            (":", token_types::PUNCTUATION),
            ("1", token_types::NUMBER),
            (",", token_types::PUNCTUATION),
            ("'b'", token_types::STRING),
            (":", token_types::PUNCTUATION),
            ("2", token_types::NUMBER),
            ("}", token_types::PUNCTUATION),
        ]
    );
}

/// A message literal of type `T` whose fields have one-digit values at the given offsets.
fn message(source: &str, fields: Vec<(&str, usize)>) -> SpannedExpr {
    let fields = fields
        .into_iter()
        .map(|(name, at)| StructField {
            name: name.to_string(),
            value: SpannedExpr {
                id: 3,
                node: Expr::Int(1),
                span: Span { start: at, end: at + 1 },
            },
            optional: false,
        })
        .collect();
    SpannedExpr {
        id: 1,
        node: Expr::Struct {
            message_type: Box::new(SpannedExpr {
                id: 2,
                node: Expr::Ident("T".to_string()),
                span: Span { start: 0, end: 1 },
            }),
            fields,
        },
        span: Span { start: 0, end: source.len() },
    }
}

/// The offsets, lengths and types of the tokens of a message literal.
fn message_tokens(source: &str, fields: Vec<(&str, usize)>) -> Vec<(usize, usize, u32)> {
    let mut collector = TokenCollector::new(source);
    collector.visit_expr(&message(source, fields));
    let mut tokens: Vec<(usize, usize, u32)> =
        collector.tokens.iter().map(|t| (t.start, t.length, t.token_type)).collect();
    tokens.sort();
    tokens
}

#[test]
fn tokens_of_message_literals() {
    assert_eq!(
        message_tokens("T{x: 1}", vec![("x", 5)]),
        vec![
            (0, 1, token_types::VARIABLE),
            (1, 1, token_types::PUNCTUATION),
            (2, 1, token_types::VARIABLE),
            (3, 1, token_types::PUNCTUATION),
            (5, 1, token_types::NUMBER),
            (6, 1, token_types::PUNCTUATION),
        ]
    );
}

#[test]
fn every_field_has_its_own_label() {
    assert_eq!(
        message_tokens("T{a: 1, b: 2}", vec![("a", 5), ("b", 11)]),
        vec![
            (0, 1, token_types::VARIABLE),
            (1, 1, token_types::PUNCTUATION),
            (2, 1, token_types::VARIABLE),
            (3, 1, token_types::PUNCTUATION),
            (5, 1, token_types::NUMBER),
            (6, 1, token_types::PUNCTUATION),
            (8, 1, token_types::VARIABLE),
            (9, 1, token_types::PUNCTUATION),
            (11, 1, token_types::NUMBER),
            (12, 1, token_types::PUNCTUATION),
        ]
    );
}

#[test]
fn blanks_before_a_colon_are_no_part_of_the_label() {
    assert_eq!(
        message_tokens("T{ab \t: 1}", vec![("ab", 8)]),
        vec![
            (0, 1, token_types::VARIABLE),
            (1, 1, token_types::PUNCTUATION),
            (2, 2, token_types::VARIABLE),
            (6, 1, token_types::PUNCTUATION),
            (8, 1, token_types::NUMBER),
            (9, 1, token_types::PUNCTUATION),
        ]
    );
}

#[test]
fn only_names_have_modifiers() {
    let source = "size(x) > 1 && has(a.b) || [1].exists(v, v.matches('m'))";
    let modified: Vec<u32> = tokens(source)
        .iter()
        .filter(|t| t.token_modifiers_bitset != 0)
        .map(|t| t.token_type)
        .collect();
    assert_eq!(
        modified,
        vec![
            token_types::FUNCTION,
            token_types::FUNCTION,
            token_types::FUNCTION,
            token_types::METHOD
        ]
    );
}

#[test]
fn tokens_on_several_lines_are_relative() {
    let tokens = tokens("a +\n  b");
    let places: Vec<(u32, u32)> = tokens.iter().map(|t| (t.delta_line, t.delta_start)).collect();
    assert_eq!(places, vec![(0, 0), (0, 2), (1, 2)]);
}

#[test]
fn columns_of_tokens_count_utf16_units() {
    // The string takes one character outside the basic plane: 4 bytes, 2 code units.
    let tokens = tokens("'\u{1F600}' + x");
    let places: Vec<(u32, u32)> = tokens.iter().map(|t| (t.delta_line, t.delta_start)).collect();
    assert_eq!(places, vec![(0, 0), (0, 5), (0, 2)]);
    assert_eq!(tokens[0].length, 6);
}

#[test]
fn sorting_keeps_tokens_that_start_together_in_order() {
    let token = |start: usize, token_type: u32| RawToken {
        start,
        length: 1,
        token_type,
        token_modifiers: 0,
    };
    let sorted = sort_by_start(&vec![token(4, 0), token(1, 1), token(4, 2), token(0, 3)]);
    let order: Vec<(usize, u32)> = sorted.iter().map(|t| (t.start, t.token_type)).collect();
    assert_eq!(order, vec![(0, 3), (1, 1), (4, 0), (4, 2)]);
}

#[test]
fn only_receivers_stay_where_comprehensions_start() {
    let token = |start: usize, length: usize| RawToken {
        start,
        length,
        token_type: 4,
        token_modifiers: 0,
    };
    let kept = drop_synthetic(&vec![(0, 6)], &vec![token(0, 1), token(0, 6), token(7, 1)]);
    let lengths: Vec<(usize, usize)> = kept.iter().map(|t| (t.start, t.length)).collect();
    assert_eq!(lengths, vec![(0, 6), (7, 1)]);
    let all = drop_synthetic(&vec![], &vec![token(0, 1), token(0, 6)]);
    assert_eq!(all.len(), 2);
}

#[test]
fn relative_positions_lead_back_to_the_tokens() {
    let source = "{\n  'a': size(x),\n  'b': y.all(z, z > 0)\n}";
    let index = LineIndex::new(source.to_string());
    let (mut line, mut character) = (0, 0);
    for token in tokens(source) {
        line += token.delta_line;
        character = if token.delta_line == 0 {
            character + token.delta_start
        } else {
            token.delta_start
        };
        let text = source.lines().nth(line as usize).unwrap();
        let end = (character + token.length) as usize;
        assert!(end <= text.len());
        let offset = source.lines().take(line as usize).map(|l| l.len() + 1).sum::<usize>();
        let position = index.offset_to_position(offset + character as usize);
        assert_eq!((position.line, position.character), (line, character));
    }
}

#[test]
fn tokens_of_spans_past_the_end_are_left_out() {
    let ast = SpannedExpr { id: 1, node: Expr::Int(1), span: Span { start: 0, end: 9 } };
    let tokens = tokens_for_ast(&LineIndex::new("1".to_string()), &ast);
    assert!(tokens.is_empty());
}

#[test]
fn searching_stays_in_the_range() {
    let collector = TokenCollector::new("a (b) (c)");
    assert_eq!(collector.find_char(0, 9, '('), Some(2));
    assert_eq!(collector.find_char(3, 9, '('), Some(6));
    assert_eq!(collector.find_char(3, 6, '('), None);
    assert_eq!(collector.find_char(5, 3, '('), None);
    assert_eq!(collector.find_char(0, 10, '('), None);
    assert_eq!(collector.skip_whitespace(1, 9), 2);
    assert_eq!(collector.skip_whitespace(0, 9), 0);
}

#[test]
fn collectors_take_no_empty_tokens() {
    let mut collector = TokenCollector::new("abc");
    collector.push(1, 1, 0, 0);
    collector.push(2, 1, 0, 0);
    collector.push(0, 4, 0, 0);
    collector.push_punctuation(3, 1);
    assert!(collector.tokens.is_empty());
    collector.push(0, 3, token_types::VARIABLE, token_modifiers::DEFAULT_LIBRARY);
    collector.push_punctuation(2, 1);
    assert_eq!(collector.tokens.len(), 2);
    assert_eq!((collector.tokens[0].start, collector.tokens[0].length), (0, 3));
    assert_eq!((collector.tokens[1].start, collector.tokens[1].length), (2, 1));
}

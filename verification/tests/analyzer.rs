use cel_core::CelType;
use celsp::analyzer::{CelAnalyzer, Step, METHOD_NOT_FOUND, PARSE_ERROR};
use celsp::document::{analyzed, CheckResult, DocumentState};
use celsp::protocol::json_rpc_response;
use celsp::syntax::{Expr, Span, SpannedExpr};
use serde_json::Value;
use std::sync::Arc;

fn json(text: &str) -> Value {
    serde_json::from_str(text).unwrap()
}

fn reply(analyzer: &CelAnalyzer, request: &str) -> Value {
    match analyzer.handle_request(request) {
        Step::Reply(text) => json(&text),
        _ => panic!("no reply"),
    }
}

fn number(source: &str) -> SpannedExpr {
    SpannedExpr { id: 1, node: Expr::Int(1), span: Span { start: 0, end: source.len() } }
}

/// A document whose text is a number, or one that could not be parsed.
fn document(analyzer: &CelAnalyzer, source: &str, parses: bool) -> DocumentState {
    let mut checked = cel_core::Env::new().check(&cel_core::parse("x").ast.unwrap());
    checked.type_map.insert(7, CelType::Bool);
    analyzed(
        source.to_string(),
        1,
        Arc::clone(analyzer.env()),
        if parses { Some(number(source)) } else { None },
        Vec::new(),
        Some(CheckResult {
            errors: checked.errors,
            type_map: checked.type_map,
            reference_map: checked.reference_map,
        }),
    )
}

fn opened(options: &str, source: &str, parses: bool) -> CelAnalyzer {
    let mut analyzer = CelAnalyzer::new(options);
    let state = document(&analyzer, source, parses);
    analyzer.open_document("file:///a".to_string(), state, json("[]"));
    analyzer
}

#[test]
fn options_declare_variables_and_functions() {
    let analyzer = CelAnalyzer::new(
        r#"{"variables": [{"name": "x", "type": "list(int)"}],
            "functions": [{"name": "f", "params": [{"type": "int"}], "returnType": "bool"}]}"#,
    );
    let env = analyzer.env();
    assert_eq!(env.variables()["x"], CelType::list(CelType::Int));
    assert_eq!(env.variables()["optional_type"], CelType::type_of(CelType::optional(CelType::Dyn)));
    assert_eq!(env.variables().len(), 13);
    assert_eq!(env.functions()["f"].overloads[0].id, "f_int");
    assert!(env.functions().contains_key("size"));
    assert!(env.functions().contains_key("math.greatest"));
}

#[test]
fn options_that_are_no_json_are_ignored() {
    let analyzer = CelAnalyzer::new("no json");
    assert_eq!(analyzer.env().variables().len(), 12);
}

#[test]
fn initialization_announces_the_capabilities() {
    let analyzer = CelAnalyzer::new("{}");
    let expected = json(
        r#"{"jsonrpc": "2.0", "id": 1, "result": {"capabilities": {
            "textDocumentSync": 1,
            "hoverProvider": true,
            "completionProvider": {"triggerCharacters": ["."], "resolveProvider": false},
            "semanticTokensProvider": {
                "legend": {
                    "tokenTypes": ["keyword", "number", "string", "operator", "variable",
                        "function", "method", "punctuation"],
                    "tokenModifiers": ["defaultLibrary"]
                },
                "full": true
            }
        }}}"#,
    );
    assert_eq!(reply(&analyzer, r#"{"id": 1, "method": "initialize"}"#), expected);
}

#[test]
fn messages_that_are_no_json_are_refused() {
    let analyzer = CelAnalyzer::new("{}");
    let message = serde_json::from_str::<Value>("{").unwrap_err().to_string();
    let answer = reply(&analyzer, "{");
    assert_eq!(PARSE_ERROR, -32700);
    assert_eq!(answer["error"]["code"], Value::from(-32700));
    assert_eq!(answer["error"]["message"], Value::from(format!("Parse error: {message}")));
    assert_eq!(answer["id"], Value::Null);
    assert_eq!(answer["jsonrpc"], Value::from("2.0"));
    assert_eq!(answer.as_object().unwrap().len(), 3);
}

#[test]
fn unknown_methods_are_refused() {
    let analyzer = CelAnalyzer::new("{}");
    assert_eq!(METHOD_NOT_FOUND, -32601);
    assert_eq!(
        reply(&analyzer, r#"{"id": "a", "method": "textDocument/rename"}"#),
        json(
            r#"{"jsonrpc": "2.0", "id": "a",
                "error": {"code": -32601, "message": "Method not found: textDocument/rename"}}"#
        )
    );
    assert_eq!(
        reply(&analyzer, r#"{"id": 1.5, "method": 2}"#),
        json(
            r#"{"jsonrpc": "2.0", "id": 1.5,
                "error": {"code": -32601, "message": "Method not found: "}}"#
        )
    );
    assert_eq!(
        reply(&analyzer, "[]"),
        json(
            r#"{"jsonrpc": "2.0", "id": null,
                "error": {"code": -32601, "message": "Method not found: "}}"#
        )
    );
}

#[test]
fn initialized_gets_no_answer() {
    let analyzer = CelAnalyzer::new("{}");
    match analyzer.handle_request(r#"{"method": "initialized"}"#) {
        Step::Reply(text) => assert_eq!(text, ""),
        _ => panic!("no reply"),
    }
}

#[test]
fn shutdown_and_exit_get_null() {
    let analyzer = CelAnalyzer::new("{}");
    for method in ["shutdown", "exit"] {
        assert_eq!(
            reply(&analyzer, &format!(r#"{{"id": 3, "method": "{method}"}}"#)),
            json(r#"{"jsonrpc": "2.0", "id": 3, "result": null}"#)
        );
    }
}

#[test]
fn opening_takes_the_text_of_the_document() {
    let analyzer = CelAnalyzer::new("{}");
    match analyzer.handle_request(
        r#"{"method": "textDocument/didOpen",
            "params": {"textDocument": {"uri": "file:///a", "text": "1 + 1", "version": 4}}}"#,
    ) {
        Step::Open { uri, text, version } => {
            assert_eq!((uri.as_str(), text.as_str(), version), ("file:///a", "1 + 1", 4));
        }
        _ => panic!("no opening"),
    }
}

#[test]
fn changing_takes_the_text_of_the_first_change() {
    let analyzer = CelAnalyzer::new("{}");
    match analyzer.handle_request(
        r#"{"method": "textDocument/didChange",
            "params": {"textDocument": {"uri": "file:///a", "version": -2},
                "contentChanges": [{"text": "first"}, {"text": "second"}]}}"#,
    ) {
        Step::Open { uri, text, version } => {
            assert_eq!((uri.as_str(), text.as_str(), version), ("file:///a", "first", -2));
        }
        _ => panic!("no opening"),
    }
}

#[test]
fn members_that_look_like_indexes_count_too() {
    let analyzer = CelAnalyzer::new("{}");
    match analyzer.handle_request(
        r#"{"method": "textDocument/didChange",
            "params": {"contentChanges": {"0": {"text": "member"}}}}"#,
    ) {
        Step::Open { text, .. } => assert_eq!(text, "member"),
        _ => panic!("no opening"),
    }
}

#[test]
fn missing_parameters_have_defaults() {
    let analyzer = CelAnalyzer::new("{}");
    for request in [
        r#"{"method": "textDocument/didOpen"}"#,
        r#"{"method": "textDocument/didOpen", "params": []}"#,
        r#"{"method": "textDocument/didOpen",
            "params": {"textDocument": {"uri": 1, "text": null, "version": 1.5}}}"#,
        r#"{"method": "textDocument/didChange", "params": {"contentChanges": []}}"#,
        r#"{"method": "textDocument/didChange",
            "params": {"textDocument": {"version": 18446744073709551615}}}"#,
    ] {
        match analyzer.handle_request(request) {
            Step::Open { uri, text, version } => {
                assert_eq!((uri.as_str(), text.as_str(), version), ("", "", 0), "{request}");
            }
            _ => panic!("no opening"),
        }
    }
}

#[test]
fn only_low_bits_of_numbers_count() {
    let analyzer = opened("{}", "1", true);
    match analyzer.handle_request(
        r#"{"method": "textDocument/didOpen",
            "params": {"textDocument": {"version": 4294967301}}}"#,
    ) {
        Step::Open { version, .. } => assert_eq!(version, 5),
        _ => panic!("no opening"),
    }
    match analyzer.handle_request(
        r#"{"method": "textDocument/completion", "params": {
            "textDocument": {"uri": "file:///a"},
            "position": {"line": 4294967297, "character": 4294967298}}}"#,
    ) {
        Step::Complete { position, .. } => {
            assert_eq!((position.line, position.character), (1, 2));
        }
        _ => panic!("no completion"),
    }
}

#[test]
fn opening_notifies_of_diagnostics() {
    let mut analyzer = CelAnalyzer::new("{}");
    let mut state = document(&analyzer, "1", true);
    state.version = -7;
    let notification =
        analyzer.open_document("file:///a".to_string(), state, json(r#"[{"message": "m"}]"#));
    assert_eq!(
        json(&notification),
        json(
            r#"{"jsonrpc": "2.0", "method": "textDocument/publishDiagnostics", "params":
                {"uri": "file:///a", "version": -7, "diagnostics": [{"message": "m"}]}}"#
        )
    );
}

#[test]
fn the_latest_state_of_a_document_counts() {
    let mut analyzer = opened("{}", "123", true);
    assert_eq!(analyzer.semantic_tokens("file:///a"), r#"{"data":[0,0,3,1,0]}"#);
    let state = document(&analyzer, "12345", true);
    analyzer.open_document("file:///a".to_string(), state, json("[]"));
    assert_eq!(analyzer.semantic_tokens("file:///a"), r#"{"data":[0,0,5,1,0]}"#);
    assert_eq!(analyzer.semantic_tokens("file:///b"), "null");
}

#[test]
fn documents_without_expression_have_no_tokens() {
    let analyzer = opened("{}", "1 +", false);
    assert_eq!(analyzer.semantic_tokens("file:///a"), "null");
    assert_eq!(
        reply(
            &analyzer,
            r#"{"id": 1, "method": "textDocument/semanticTokens/full",
                "params": {"textDocument": {"uri": "file:///a"}}}"#
        ),
        json(r#"{"jsonrpc": "2.0", "id": 1, "result": null}"#)
    );
}

#[test]
fn requests_for_tokens_are_answered() {
    let analyzer = opened("{}", "123", true);
    let request = |uri: &str| {
        format!(
            r#"{{"id": 1, "method": "textDocument/semanticTokens/full",
                "params": {{"textDocument": {{"uri": "{uri}"}}}}}}"#
        )
    };
    assert_eq!(
        reply(&analyzer, &request("file:///a")),
        json(r#"{"jsonrpc": "2.0", "id": 1, "result": {"data": [0, 0, 3, 1, 0]}}"#)
    );
    assert_eq!(
        reply(&analyzer, &request("file:///b")),
        json(r#"{"jsonrpc": "2.0", "id": 1, "result": null}"#)
    );
}

fn at(method: &str, uri: &str) -> String {
    format!(
        r#"{{"id": 9, "method": "textDocument/{method}", "params": {{
            "textDocument": {{"uri": "{uri}"}}, "position": {{"line": 1, "character": 2}}}}}}"#
    )
}

#[test]
fn completions_are_asked_for_in_open_documents() {
    let analyzer = opened("{}", "1 +", false);
    match analyzer.handle_request(&at("completion", "file:///a")) {
        Step::Complete { id, state, position } => {
            assert_eq!(id, Some(Value::from(9)));
            assert_eq!(state.line_index.source(), "1 +");
            assert_eq!((position.line, position.character), (1, 2));
        }
        _ => panic!("no completion"),
    }
    assert_eq!(
        reply(&analyzer, &at("completion", "file:///b")),
        json(r#"{"jsonrpc": "2.0", "id": 9, "result": null}"#)
    );
}

#[test]
fn hover_information_shows_errors_by_default() {
    for (options, errors) in [
        ("{}", 1),
        (r#"{"hoverShowErrors": true}"#, 1),
        (r#"{"hoverShowErrors": "no"}"#, 1),
        (r#"{"hoverShowErrors": false}"#, 0),
    ] {
        let analyzer = opened(options, "12", true);
        match analyzer.handle_request(&at("hover", "file:///a")) {
            Step::Hover { id, line_index, ast, check, position } => {
                assert_eq!(id, Some(Value::from(9)));
                assert_eq!(line_index.source(), "12");
                assert_eq!(ast.id, 1);
                assert_eq!((position.line, position.character), (1, 2));
                let check = check.unwrap();
                assert_eq!(check.errors.len(), errors, "{options}");
                assert_eq!(check.type_map.get(&7), Some(&CelType::Bool));
            }
            _ => panic!("no hover"),
        }
    }
}

#[test]
fn hover_information_needs_an_expression() {
    let analyzer = opened("{}", "1 +", false);
    let nothing = json(r#"{"jsonrpc": "2.0", "id": 9, "result": null}"#);
    assert_eq!(reply(&analyzer, &at("hover", "file:///a")), nothing);
    assert_eq!(reply(&analyzer, &at("hover", "file:///b")), nothing);
}

#[test]
fn responses_hold_the_result() {
    let written = json_rpc_response(Some(json("5")), json(r#"{"items": [true]}"#));
    assert_eq!(json(&written), json(r#"{"jsonrpc": "2.0", "id": 5, "result": {"items": [true]}}"#));
    let written = json_rpc_response(None, json("1"));
    assert_eq!(json(&written), json(r#"{"jsonrpc": "2.0", "id": null, "result": 1}"#));
}

#[test]
fn options_may_be_json_already() {
    let analyzer = CelAnalyzer::with_options(&json(
        r#"{"variables": [{"name": "int", "type": "bool"}], "hoverShowErrors": false}"#,
    ));
    assert_eq!(analyzer.env().variables()["int"], CelType::Bool);
    assert_eq!(analyzer.env().variables().len(), 12);
    assert_eq!(analyzer.semantic_tokens("file:///a"), "null");
}

#[test]
fn requests_may_be_json_already() {
    let analyzer = CelAnalyzer::new("");
    match analyzer.handle_message(&json(r#"{"id": [1], "method": "exit"}"#)) {
        Step::Reply(text) => {
            assert_eq!(text, r#"{"id":[1],"jsonrpc":"2.0","result":null}"#);
        }
        _ => panic!("no reply"),
    }
}

#[test]
fn analyzed_documents_hold_what_they_were_made_of() {
    let env = Arc::new(cel_core::Env::new());
    let errors = cel_core::parse("1 +").errors;
    let count = errors.len();
    assert!(count > 0);
    let state = analyzed("1 +".to_string(), 8, Arc::clone(&env), None, errors, None);
    assert_eq!(state.line_index.source(), "1 +");
    assert_eq!(state.version, 8);
    assert!(Arc::ptr_eq(&state.env, &env));
    assert!(state.ast.is_none());
    assert_eq!(state.errors.len(), count);
    assert!(state.check_result.is_none());
}

#[test]
fn changing_asks_for_what_opening_asks_for() {
    let analyzer = opened("{}", "1", true);
    let change = analyzer.handle_request(
        r#"{"method": "textDocument/didChange", "params": {
            "textDocument": {"uri": "file:///a", "version": 3},
            "contentChanges": [{"text": "2"}, {"text": "3"}]}}"#,
    );
    let opening = CelAnalyzer::new("{}");
    let opening = opening.handle_request(
        r#"{"method": "textDocument/didOpen", "params": {
            "textDocument": {"uri": "file:///a", "version": 3, "text": "2"}}}"#,
    );
    match (change, opening) {
        (
            Step::Open { uri, text, version },
            Step::Open { uri: opened_uri, text: opened_text, version: opened_version },
        ) => {
            assert_eq!((uri, text, version), (opened_uri, opened_text, opened_version));
        }
        _ => panic!("no opening"),
    }
}

#[test]
fn standard_functions_are_declared_once() {
    let standard = cel_core::Env::with_standard_library().with_all_extensions();
    let analyzer = CelAnalyzer::new("{}");
    assert_eq!(analyzer.env().functions().len(), standard.functions().len());
    for (name, decl) in standard.functions() {
        assert_eq!(analyzer.env().functions()[name].overloads.len(), decl.overloads.len());
    }
}

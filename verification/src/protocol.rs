//! The messages that are exchanged with a client: JSON-RPC with the parameters and results of the
//! language server protocol.

use crate::json;
use crate::json::{JsonModel, NumberModel};
use crate::line_index::Position;
use crate::lsp::encoding::SemanticToken;
use crate::type_parser;
use vstd::prelude::*;

verus! {

/// The text that a pointer points at, empty where it points at no text.
pub open spec fn text_at(params: JsonModel, pointer: Seq<char>) -> Seq<char> {
    match json::pointed_at(params, pointer) {
        Some(value) => match json::as_text(value) {
            Some(s) => s,
            None => ""@,
        },
        None => ""@,
    }
}

/// The integer that a pointer points at, 0 where it points at none or at one out of range.
pub open spec fn integer_at(params: JsonModel, pointer: Seq<char>, low: int, high: int) -> int {
    match json::pointed_at(params, pointer) {
        Some(value) => match json::as_integer(value) {
            Some(n) => if low <= n <= high {
                n
            } else {
                0
            },
            None => 0,
        },
        None => 0,
    }
}

/// The URI of the document that a message is about.
pub open spec fn uri_of(params: JsonModel) -> Seq<char> {
    text_at(params, "/textDocument/uri"@)
}

/// The version of the document that a message is about. Only its low 32 bits count.
pub open spec fn version_of(params: JsonModel) -> i32 {
    (integer_at(params, "/textDocument/version"@, i64::MIN as int, i64::MAX as int) as i64) as i32
}

/// The place in the document that a message is about. Only the low 32 bits of its line and column
/// count.
pub open spec fn position_of(params: JsonModel) -> Position {
    Position {
        line: (integer_at(params, "/position/line"@, 0, u64::MAX as int) as u64) as u32,
        character: (integer_at(params, "/position/character"@, 0, u64::MAX as int) as u64) as u32,
    }
}

/// The text of a document that is opened.
pub open spec fn opened_text(params: JsonModel) -> Seq<char> {
    text_at(params, "/textDocument/text"@)
}

/// The new text of a document that changed: that of the first change.
pub open spec fn changed_text(params: JsonModel) -> Seq<char> {
    text_at(params, "/contentChanges/0/text"@)
}

/// No pointer of the protocol holds an escape.
proof fn pointers_are_plain()
    ensures
        !"/textDocument/uri"@.contains('~'),
        !"/textDocument/version"@.contains('~'),
        !"/textDocument/text"@.contains('~'),
        !"/contentChanges/0/text"@.contains('~'),
        !"/position/line"@.contains('~'),
        !"/position/character"@.contains('~'),
{
    reveal_strlit("/textDocument/uri");
    reveal_strlit("/textDocument/version");
    reveal_strlit("/textDocument/text");
    reveal_strlit("/contentChanges/0/text");
    reveal_strlit("/position/line");
    reveal_strlit("/position/character");
    reveal_with_fuel(type_parser::first_from, 24);
    type_parser::first_from_is_first("/textDocument/uri"@, '~', 0);
    type_parser::first_from_is_first("/textDocument/version"@, '~', 0);
    type_parser::first_from_is_first("/textDocument/text"@, '~', 0);
    type_parser::first_from_is_first("/contentChanges/0/text"@, '~', 0);
    type_parser::first_from_is_first("/position/line"@, '~', 0);
    type_parser::first_from_is_first("/position/character"@, '~', 0);
}

fn find_text<'a>(params: &'a serde_json::Value, pointer: &str) -> (found: &'a str)
    requires
        !pointer@.contains('~'),
    ensures
        found@ == text_at(json::json_of(*params), pointer@),
{
    match params.pointer(pointer) {
        Some(value) => match value.as_str() {
            Some(s) => s,
            None => "",
        },
        None => "",
    }
}

fn find_natural(params: &serde_json::Value, pointer: &str) -> (found: u64)
    requires
        !pointer@.contains('~'),
    ensures
        found == integer_at(json::json_of(*params), pointer@, 0, u64::MAX as int),
{
    match params.pointer(pointer) {
        Some(value) => match value.as_u64() {
            Some(n) => n,
            None => 0,
        },
        None => 0,
    }
}

/// The URI of the document that a message is about.
pub fn read_uri(params: &serde_json::Value) -> (uri: &str)
    ensures
        uri@ == uri_of(json::json_of(*params)),
{
    proof {
        pointers_are_plain();
    }
    find_text(params, "/textDocument/uri")
}

/// The version of the document that a message is about.
pub fn read_version(params: &serde_json::Value) -> (version: i32)
    ensures
        version == version_of(json::json_of(*params)),
{
    proof {
        pointers_are_plain();
    }
    let number: i64 = match params.pointer("/textDocument/version") {
        Some(value) => match value.as_i64() {
            Some(n) => n,
            None => 0,
        },
        None => 0,
    };
    number as i32
}

/// The place in the document that a message is about.
pub fn read_position(params: &serde_json::Value) -> (position: Position)
    ensures
        position == position_of(json::json_of(*params)),
{
    proof {
        pointers_are_plain();
    }
    let line: u64 = find_natural(params, "/position/line");
    let character: u64 = find_natural(params, "/position/character");
    Position { line: line as u32, character: character as u32 }
}

/// The text of a document that is opened.
pub fn read_opened_text(params: &serde_json::Value) -> (opened: &str)
    ensures
        opened@ == opened_text(json::json_of(*params)),
{
    proof {
        pointers_are_plain();
    }
    find_text(params, "/textDocument/text")
}

/// The new text of a document that changed.
pub fn read_changed_text(params: &serde_json::Value) -> (changed: &str)
    ensures
        changed@ == changed_text(json::json_of(*params)),
{
    proof {
        pointers_are_plain();
    }
    find_text(params, "/contentChanges/0/text")
}

/// What an optional value holds, `null` where there is none.
pub open spec fn or_null(value: Option<JsonModel>) -> JsonModel {
    match value {
        Some(value) => value,
        None => JsonModel::Null,
    }
}

/// The answer to a request.
pub open spec fn response(id: Option<JsonModel>, result: JsonModel) -> JsonModel {
    JsonModel::Object(
        map![
            "jsonrpc"@ => JsonModel::Text("2.0"@),
            "id"@ => or_null(id),
            "result"@ => result
        ],
    )
}

/// The answer to a request that failed.
pub open spec fn error_response(id: Option<JsonModel>, code: int, message: Seq<char>) -> JsonModel {
    JsonModel::Object(
        map![
            "jsonrpc"@ => JsonModel::Text("2.0"@),
            "id"@ => or_null(id),
            "error"@ => JsonModel::Object(
                map![
                    "code"@ => JsonModel::Number(NumberModel::Integer(code)),
                    "message"@ => JsonModel::Text(message)
                ],
            )
        ],
    )
}

/// The notification of the diagnostics of a document.
pub open spec fn diagnostics_message(
    uri: Seq<char>,
    version: int,
    diagnostics: JsonModel,
) -> JsonModel {
    JsonModel::Object(
        map![
            "jsonrpc"@ => JsonModel::Text("2.0"@),
            "method"@ => JsonModel::Text("textDocument/publishDiagnostics"@),
            "params"@ => JsonModel::Object(
                map![
                    "uri"@ => JsonModel::Text(uri),
                    "version"@ => JsonModel::Number(NumberModel::Integer(version)),
                    "diagnostics"@ => diagnostics
                ],
            )
        ],
    )
}

/// The text that a message is sent as, an empty object where it cannot be written.
pub open spec fn sent(message: JsonModel) -> Seq<char> {
    match json::json_written(message) {
        Some(written) => written,
        None => "{}"@,
    }
}

fn send(message: &serde_json::Value) -> (written: String)
    ensures
        written@ == sent(json::json_of(*message)),
{
    match json::write_json(message) {
        Some(written) => written,
        None => "{}".to_string(),
    }
}

fn id_or_null(id: Option<serde_json::Value>) -> (value: serde_json::Value)
    ensures
        json::json_of(value) == or_null(held(id)),
{
    match id {
        Some(id) => id,
        None => json::null(),
    }
}

/// What an optional value holds.
pub open spec fn held(value: Option<serde_json::Value>) -> Option<JsonModel> {
    match value {
        Some(value) => Some(json::json_of(value)),
        None => None,
    }
}

/// Writes the answer to a request.
pub fn json_rpc_response(id: Option<serde_json::Value>, result: serde_json::Value) -> (written:
    String)
    ensures
        written@ == sent(response(held(id), json::json_of(result))),
{
    let mut pairs: Vec<(String, serde_json::Value)> = Vec::new();
    pairs.push(("jsonrpc".to_string(), json::string("2.0")));
    pairs.push(("id".to_string(), id_or_null(id)));
    pairs.push(("result".to_string(), result));
    proof {
        three_members(pairs@);
    }
    send(&json::object(pairs))
}

/// Writes the answer to a request that failed.
pub fn json_rpc_error(id: Option<serde_json::Value>, code: i32, message: &str) -> (written: String)
    ensures
        written@ == sent(error_response(held(id), code as int, message@)),
{
    let mut error: Vec<(String, serde_json::Value)> = Vec::new();
    error.push(("code".to_string(), json::integer(code as i64)));
    error.push(("message".to_string(), json::string(message)));
    proof {
        two_members(error@);
    }
    let mut pairs: Vec<(String, serde_json::Value)> = Vec::new();
    pairs.push(("jsonrpc".to_string(), json::string("2.0")));
    pairs.push(("id".to_string(), id_or_null(id)));
    pairs.push(("error".to_string(), json::object(error)));
    proof {
        three_members(pairs@);
    }
    send(&json::object(pairs))
}

/// Writes the notification of the diagnostics of a document.
pub fn diagnostics_notification(
    uri: &str,
    version: i32,
    diagnostics: serde_json::Value,
) -> (written: String)
    ensures
        written@ == sent(
            diagnostics_message(uri@, version as int, json::json_of(diagnostics)),
        ),
{
    let mut params: Vec<(String, serde_json::Value)> = Vec::new();
    params.push(("uri".to_string(), json::string(uri)));
    params.push(("version".to_string(), json::integer(version as i64)));
    params.push(("diagnostics".to_string(), diagnostics));
    proof {
        three_members(params@);
    }
    let mut pairs: Vec<(String, serde_json::Value)> = Vec::new();
    pairs.push(("jsonrpc".to_string(), json::string("2.0")));
    pairs.push(("method".to_string(), json::string("textDocument/publishDiagnostics")));
    pairs.push(("params".to_string(), json::object(params)));
    proof {
        three_members(pairs@);
    }
    send(&json::object(pairs))
}

proof fn two_members(pairs: Seq<(String, serde_json::Value)>)
    requires
        pairs.len() == 2,
    ensures
        json::members(pairs) == map![
            pairs[0].0@ => json::json_of(pairs[0].1),
            pairs[1].0@ => json::json_of(pairs[1].1)
        ],
{
    reveal_with_fuel(json::members, 3);
}

proof fn three_members(pairs: Seq<(String, serde_json::Value)>)
    requires
        pairs.len() == 3,
    ensures
        json::members(pairs) == map![
            pairs[0].0@ => json::json_of(pairs[0].1),
            pairs[1].0@ => json::json_of(pairs[1].1),
            pairs[2].0@ => json::json_of(pairs[2].1)
        ],
{
    reveal_with_fuel(json::members, 4);
}

/// A number in a list of tokens.
pub open spec fn number(n: u32) -> JsonModel {
    JsonModel::Number(NumberModel::Integer(n as int))
}

/// The numbers of the first `n` tokens, five for each.
pub open spec fn token_numbers(tokens: Seq<SemanticToken>, n: int) -> Seq<JsonModel>
    decreases n,
{
    if n <= 0 {
        seq![]
    } else {
        let token = tokens[n - 1];
        token_numbers(tokens, n - 1) + seq![
            number(token.delta_line),
            number(token.delta_start),
            number(token.length),
            number(token.token_type),
            number(token.token_modifiers_bitset),
        ]
    }
}

/// The result of a request for semantic tokens.
pub open spec fn tokens_result(tokens: Seq<SemanticToken>) -> JsonModel {
    JsonModel::Object(
        map!["data"@ => JsonModel::Array(token_numbers(tokens, tokens.len() as int))],
    )
}

/// `serde_json::to_value` for `lsp_types::SemanticTokensResult`. The contract claims that tokens are
/// written as an object whose only member is the list of their numbers, and that this cannot fail.
#[verifier::external_body]
pub(crate) fn write_tokens(tokens: &Vec<SemanticToken>) -> (value: Option<serde_json::Value>)
    ensures
        held(value) == Some(tokens_result(tokens@)),
{
    let data = tokens.iter().map(|token| lsp_types::SemanticToken {
        delta_line: token.delta_line,
        delta_start: token.delta_start,
        length: token.length,
        token_type: token.token_type,
        token_modifiers_bitset: token.token_modifiers_bitset,
    }).collect();
    let tokens = lsp_types::SemanticTokens { result_id: None, data };
    serde_json::to_value(lsp_types::SemanticTokensResult::Tokens(tokens)).ok()
}

/// What a token picks out of what another picks out.
pub open spec fn picked_within(value: Option<JsonModel>, token: Seq<char>) -> Option<JsonModel> {
    match value {
        Some(value) => json::picked(value, token),
        None => None,
    }
}

/// A pointer without a `/` in its first token picks by that token, and goes on with the rest.
proof fn first_token_is_picked(value: JsonModel, token: Seq<char>, rest: Seq<char>)
    requires
        type_parser::first_from(token, '/', 0) is None,
        rest.len() > 0 ==> rest[0] == '/',
    ensures
        json::pointed_at(value, seq!['/'] + token + rest) == match json::picked(value, token) {
            Some(next) => json::pointed_at(next, rest),
            None => None,
        },
{
    let pointer = seq!['/'] + token + rest;
    type_parser::first_from_is_first(token, '/', 0);
    type_parser::first_from_is_first(pointer, '/', 1);
    let end = token.len() as int + 1;
    assert forall|i: int| 1 <= i < end implies pointer[i] != '/' by {
        assert(pointer[i] == token[i - 1]);
    }
    if rest.len() > 0 {
        assert(pointer[end] == '/');
    }
    assert(pointer.subrange(1, end) =~= token);
    assert(pointer.skip(end) =~= rest);
}

/// A pointer with two tokens picks by one after the other.
proof fn two_tokens_are_picked(value: JsonModel, first: Seq<char>, second: Seq<char>)
    requires
        type_parser::first_from(first, '/', 0) is None,
        type_parser::first_from(second, '/', 0) is None,
    ensures
        json::pointed_at(value, seq!['/'] + first + (seq!['/'] + second)) == picked_within(
            json::picked(value, first),
            second,
        ),
{
    first_token_is_picked(value, first, seq!['/'] + second);
    if let Some(next) = json::picked(value, first) {
        first_token_is_picked(next, second, seq![]);
        assert(seq!['/'] + second + seq![] =~= seq!['/'] + second);
    }
}

/// Messages are read by the members of their parameters: of the document, of the position, and of
/// the first change.
pub proof fn parameters_are_members(params: JsonModel)
    ensures
        json::pointed_at(params, "/textDocument/uri"@) == picked_within(
            json::picked(params, "textDocument"@),
            "uri"@,
        ),
        json::pointed_at(params, "/textDocument/text"@) == picked_within(
            json::picked(params, "textDocument"@),
            "text"@,
        ),
        json::pointed_at(params, "/textDocument/version"@) == picked_within(
            json::picked(params, "textDocument"@),
            "version"@,
        ),
        json::pointed_at(params, "/position/line"@) == picked_within(
            json::picked(params, "position"@),
            "line"@,
        ),
        json::pointed_at(params, "/position/character"@) == picked_within(
            json::picked(params, "position"@),
            "character"@,
        ),
        json::pointed_at(params, "/contentChanges/0/text"@) == picked_within(
            picked_within(json::picked(params, "contentChanges"@), "0"@),
            "text"@,
        ),
{
    reveal_strlit("textDocument");
    reveal_strlit("uri");
    reveal_strlit("text");
    reveal_strlit("version");
    reveal_strlit("position");
    reveal_strlit("line");
    reveal_strlit("character");
    reveal_strlit("contentChanges");
    reveal_strlit("0");
    reveal_strlit("/textDocument/uri");
    reveal_strlit("/textDocument/text");
    reveal_strlit("/textDocument/version");
    reveal_strlit("/position/line");
    reveal_strlit("/position/character");
    reveal_strlit("/contentChanges/0/text");
    reveal_with_fuel(type_parser::first_from, 16);
    two_tokens_are_picked(params, "textDocument"@, "uri"@);
    assert("/textDocument/uri"@ =~= seq!['/'] + "textDocument"@ + (seq!['/'] + "uri"@));
    two_tokens_are_picked(params, "textDocument"@, "text"@);
    assert("/textDocument/text"@ =~= seq!['/'] + "textDocument"@ + (seq!['/'] + "text"@));
    two_tokens_are_picked(params, "textDocument"@, "version"@);
    assert("/textDocument/version"@ =~= seq!['/'] + "textDocument"@ + (seq!['/'] + "version"@));
    two_tokens_are_picked(params, "position"@, "line"@);
    assert("/position/line"@ =~= seq!['/'] + "position"@ + (seq!['/'] + "line"@));
    two_tokens_are_picked(params, "position"@, "character"@);
    assert("/position/character"@ =~= seq!['/'] + "position"@ + (seq!['/'] + "character"@));
    let rest = seq!['/'] + "0"@ + (seq!['/'] + "text"@);
    first_token_is_picked(params, "contentChanges"@, rest);
    if let Some(changes) = json::picked(params, "contentChanges"@) {
        two_tokens_are_picked(changes, "0"@, "text"@);
    }
    assert("/contentChanges/0/text"@ =~= seq!['/'] + "contentChanges"@ + rest);
}

/// A version that fits its type is taken as it is.
pub proof fn versions_in_range_are_kept(params: JsonModel, version: i32)
    requires
        json::pointed_at(params, "/textDocument/version"@) == Some(
            JsonModel::Number(NumberModel::Integer(version as int)),
        ),
    ensures
        version_of(params) == version,
{
}

/// The member under a name of the member under another name.
pub open spec fn inner_member(value: JsonModel, outer: Seq<char>, inner: Seq<char>) -> Option<
    JsonModel,
> {
    match json::member(value, outer) {
        Some(value) => json::member(value, inner),
        None => None,
    }
}

/// Names that are no numbers pick members only.
proof fn names_pick_members(value: JsonModel, name: Seq<char>)
    requires
        name.len() > 0,
        !('0' <= name[0] <= '9'),
    ensures
        json::picked(value, name) == json::member(value, name),
{
    assert(!json::is_index(name));
}

proof fn nested_names_pick_members(value: JsonModel, outer: Seq<char>, inner: Seq<char>)
    requires
        outer.len() > 0,
        !('0' <= outer[0] <= '9'),
        inner.len() > 0,
        !('0' <= inner[0] <= '9'),
    ensures
        picked_within(json::picked(value, outer), inner) == inner_member(value, outer, inner),
{
    names_pick_members(value, outer);
    if let Some(next) = json::member(value, outer) {
        names_pick_members(next, inner);
    }
}

/// The document of a message is its `textDocument`, with the `uri`, the `text` and the `version`
/// there. A text that is missing or is no text is empty. A version that is missing, or is no integer
/// of 64 bits, is 0.
pub proof fn documents_are_read_by_name(params: JsonModel)
    ensures
        match inner_member(params, "textDocument"@, "uri"@) {
            Some(JsonModel::Text(s)) => uri_of(params) == s,
            _ => uri_of(params).len() == 0,
        },
        match inner_member(params, "textDocument"@, "text"@) {
            Some(JsonModel::Text(s)) => opened_text(params) == s,
            _ => opened_text(params).len() == 0,
        },
        match inner_member(params, "textDocument"@, "version"@) {
            Some(JsonModel::Number(NumberModel::Integer(n))) => {
                &&& i32::MIN <= n <= i32::MAX ==> version_of(params) == n
                &&& i64::MIN <= n <= i64::MAX ==> version_of(params) == (n as i64) as i32
                &&& !(i64::MIN <= n <= i64::MAX) ==> version_of(params) == 0
            },
            _ => version_of(params) == 0,
        },
{
    parameters_are_members(params);
    reveal_strlit("");
    reveal_strlit("textDocument");
    reveal_strlit("uri");
    reveal_strlit("text");
    reveal_strlit("version");
    nested_names_pick_members(params, "textDocument"@, "uri"@);
    nested_names_pick_members(params, "textDocument"@, "text"@);
    nested_names_pick_members(params, "textDocument"@, "version"@);
}

/// The place of a message is its `position`, with the `line` and the `character` there. A number
/// that is missing, or is no natural number of 64 bits, is 0.
pub proof fn positions_are_read_by_name(params: JsonModel)
    ensures
        match inner_member(params, "position"@, "line"@) {
            Some(JsonModel::Number(NumberModel::Integer(n))) => {
                &&& 0 <= n <= u32::MAX ==> position_of(params).line == n
                &&& 0 <= n <= u64::MAX ==> position_of(params).line == (n as u64) as u32
                &&& !(0 <= n <= u64::MAX) ==> position_of(params).line == 0
            },
            _ => position_of(params).line == 0,
        },
        match inner_member(params, "position"@, "character"@) {
            Some(JsonModel::Number(NumberModel::Integer(n))) => {
                &&& 0 <= n <= u32::MAX ==> position_of(params).character == n
                &&& 0 <= n <= u64::MAX ==> position_of(params).character == (n as u64) as u32
                &&& !(0 <= n <= u64::MAX) ==> position_of(params).character == 0
            },
            _ => position_of(params).character == 0,
        },
{
    parameters_are_members(params);
    reveal_strlit("position");
    reveal_strlit("line");
    reveal_strlit("character");
    nested_names_pick_members(params, "position"@, "line"@);
    nested_names_pick_members(params, "position"@, "character"@);
}

/// The new text of a document is the `text` of the first of its `contentChanges`, however many there
/// are, and empty without one.
pub proof fn first_changes_count(params: JsonModel)
    ensures
        match json::member(params, "contentChanges"@) {
            Some(JsonModel::Array(changes)) => if changes.len() > 0 {
                match json::member(changes[0], "text"@) {
                    Some(JsonModel::Text(s)) => changed_text(params) == s,
                    _ => changed_text(params).len() == 0,
                }
            } else {
                changed_text(params).len() == 0
            },
            Some(JsonModel::Object(_)) => true,
            _ => changed_text(params).len() == 0,
        },
{
    parameters_are_members(params);
    reveal_strlit("");
    reveal_strlit("contentChanges");
    reveal_strlit("text");
    reveal_strlit("0");
    names_pick_members(params, "contentChanges"@);
    if let Some(JsonModel::Array(changes)) = json::member(params, "contentChanges"@) {
        reveal_with_fuel(json::decimal, 2);
        assert("0"@.len() == 1 && "0"@[0] == '0');
        assert(json::decimal("0"@) == 0);
        assert(json::is_index("0"@));
        if changes.len() > 0 {
            names_pick_members(changes[0], "text"@);
        }
    }
}

proof fn message_names_are_told_apart()
    ensures
        "jsonrpc"@ != "id"@,
        "jsonrpc"@ != "result"@,
        "jsonrpc"@ != "error"@,
        "jsonrpc"@ != "method"@,
        "jsonrpc"@ != "params"@,
        "id"@ != "result"@,
        "id"@ != "error"@,
        "method"@ != "params"@,
        "code"@ != "message"@,
        "uri"@ != "version"@,
        "uri"@ != "diagnostics"@,
        "version"@ != "diagnostics"@,
{
    reveal_strlit("jsonrpc");
    reveal_strlit("id");
    reveal_strlit("result");
    reveal_strlit("error");
    reveal_strlit("method");
    reveal_strlit("params");
    reveal_strlit("code");
    reveal_strlit("message");
    reveal_strlit("uri");
    reveal_strlit("version");
    reveal_strlit("diagnostics");
    assert("jsonrpc"@.len() == 7 && "id"@.len() == 2 && "result"@.len() == 6);
    assert("error"@.len() == 5 && "method"@.len() == 6 && "params"@.len() == 6);
    assert("method"@[0] == 'm' && "params"@[0] == 'p');
    assert("code"@.len() == 4 && "message"@.len() == 7);
    assert("uri"@.len() == 3 && "version"@.len() == 7 && "diagnostics"@.len() == 11);
}

/// An answer has the id of its request, or `null`, and the result, and is marked as JSON-RPC 2.0. It
/// has no other member.
pub proof fn answers_have_a_result(id: Option<JsonModel>, result: JsonModel, other: Seq<char>)
    ensures
        ({
            let answer = response(id, result);
            &&& json::member(answer, "jsonrpc"@) == Some(JsonModel::Text("2.0"@))
            &&& id is Some ==> json::member(answer, "id"@) == id
            &&& id is None ==> json::member(answer, "id"@) == Some(JsonModel::Null)
            &&& json::member(answer, "result"@) == Some(result)
            &&& other != "jsonrpc"@ && other != "id"@ && other != "result"@ ==> json::member(
                answer,
                other,
            ) is None
        }),
{
    message_names_are_told_apart();
}

/// The answer to a request that failed has the id of the request, or `null`, and an error with its
/// code and its message, and is marked as JSON-RPC 2.0. It has no other member, and no result.
pub proof fn failures_have_an_error(
    id: Option<JsonModel>,
    code: int,
    message: Seq<char>,
    other: Seq<char>,
)
    ensures
        ({
            let answer = error_response(id, code, message);
            &&& json::member(answer, "jsonrpc"@) == Some(JsonModel::Text("2.0"@))
            &&& id is Some ==> json::member(answer, "id"@) == id
            &&& id is None ==> json::member(answer, "id"@) == Some(JsonModel::Null)
            &&& inner_member(answer, "error"@, "code"@) == Some(
                JsonModel::Number(NumberModel::Integer(code)),
            )
            &&& inner_member(answer, "error"@, "message"@) == Some(JsonModel::Text(message))
            &&& other != "code"@ && other != "message"@ ==> inner_member(
                answer,
                "error"@,
                other,
            ) is None
            &&& other != "jsonrpc"@ && other != "id"@ && other != "error"@ ==> json::member(
                answer,
                other,
            ) is None
        }),
{
    message_names_are_told_apart();
}

/// The notification of diagnostics names the document and its version and carries the diagnostics.
/// It has no id, since it gets no answer.
pub proof fn notifications_name_the_document(
    uri: Seq<char>,
    version: int,
    diagnostics: JsonModel,
    other: Seq<char>,
)
    ensures
        ({
            let message = diagnostics_message(uri, version, diagnostics);
            &&& json::member(message, "jsonrpc"@) == Some(JsonModel::Text("2.0"@))
            &&& json::member(message, "method"@) == Some(
                JsonModel::Text("textDocument/publishDiagnostics"@),
            )
            &&& inner_member(message, "params"@, "uri"@) == Some(JsonModel::Text(uri))
            &&& inner_member(message, "params"@, "version"@) == Some(
                JsonModel::Number(NumberModel::Integer(version)),
            )
            &&& inner_member(message, "params"@, "diagnostics"@) == Some(diagnostics)
            &&& other != "uri"@ && other != "version"@ && other != "diagnostics"@
                ==> inner_member(message, "params"@, other) is None
            &&& other != "jsonrpc"@ && other != "method"@ && other != "params"@ ==> json::member(
                message,
                other,
            ) is None
        }),
{
    message_names_are_told_apart();
}

/// A message is sent as it is written. One that cannot be written is sent as an empty object.
pub proof fn messages_are_sent_as_written(message: JsonModel)
    ensures
        json::json_written(message) matches Some(written) ==> sent(message) == written,
        json::json_written(message) is None ==> sent(message) == seq!['{', '}'],
{
    reveal_strlit("{}");
    assert("{}"@ =~= seq!['{', '}']);
}

/// The result of a request for semantic tokens holds five numbers for each token, one token behind
/// the other: its distance in lines, that in columns, its length, its type and its modifiers.
pub proof fn tokens_are_five_numbers(tokens: Seq<SemanticToken>, k: int)
    ensures
        json::member(tokens_result(tokens), "data"@) matches Some(JsonModel::Array(data)) && {
            &&& data.len() == 5 * tokens.len()
            &&& 0 <= k < tokens.len() ==> {
                &&& json::as_integer(data[5 * k]) == Some(tokens[k].delta_line as int)
                &&& json::as_integer(data[5 * k + 1]) == Some(tokens[k].delta_start as int)
                &&& json::as_integer(data[5 * k + 2]) == Some(tokens[k].length as int)
                &&& json::as_integer(data[5 * k + 3]) == Some(tokens[k].token_type as int)
                &&& json::as_integer(data[5 * k + 4]) == Some(
                    tokens[k].token_modifiers_bitset as int,
                )
            }
        },
{
    if tokens.len() > 0 {
        numbers_of_token(tokens, tokens.len() as int, 0);
        if 0 <= k < tokens.len() {
            numbers_of_token(tokens, tokens.len() as int, k);
        }
    }
}

proof fn numbers_of_token(tokens: Seq<SemanticToken>, n: int, k: int)
    requires
        0 <= k < n <= tokens.len(),
    ensures
        ({
            let numbers = token_numbers(tokens, n);
            &&& numbers.len() == 5 * n
            &&& numbers[5 * k] == number(tokens[k].delta_line)
            &&& numbers[5 * k + 1] == number(tokens[k].delta_start)
            &&& numbers[5 * k + 2] == number(tokens[k].length)
            &&& numbers[5 * k + 3] == number(tokens[k].token_type)
            &&& numbers[5 * k + 4] == number(tokens[k].token_modifiers_bitset)
        }),
    decreases n,
{
    reveal_with_fuel(token_numbers, 2);
    if k < n - 1 {
        numbers_of_token(tokens, n - 1, k);
    } else if n > 1 {
        numbers_of_token(tokens, n - 1, n - 2);
    }
}

} // verus!

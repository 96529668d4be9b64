//! An analyzer of CEL expressions that is driven by JSON-RPC messages.
//!
//! The analyzer keeps the environment and the open documents, and decides what each message asks
//! for. What it cannot answer itself, it hands out as a [`Step`]: the caller analyzes a text, looks
//! up hover information or completions, and hands the outcome back.

use crate::cel_types::TypeModel;
use crate::declarations;
use crate::declarations::declare;
use crate::document;
use crate::document::{CheckResult, DocumentState};
use crate::documents::Documents;
use crate::environment;
use crate::json;
use crate::json::JsonModel;
use crate::line_index::{LineIndex, Position};
use crate::lsp::capabilities;
use crate::lsp::capabilities::capabilities;
use crate::lsp::semantic_tokens;
use crate::lsp::semantic_tokens::tokens_for_ast;
use crate::protocol;
use crate::syntax::SpannedExpr;
use crate::text::same_text;
use std::collections::HashMap;
use std::sync::Arc;
use vstd::prelude::*;

verus! {

/// The JSON-RPC code for a message that is no JSON.
pub const PARSE_ERROR: i32 = -32700;

/// The JSON-RPC code for a method that is not supported.
pub const METHOD_NOT_FOUND: i32 = -32601;

/// The part of a check result that hover information is taken from.
pub struct CheckView<'a> {
    pub errors: &'a [cel_core::CheckError],
    pub type_map: &'a HashMap<i64, cel_core::CelType>,
    pub reference_map: &'a HashMap<i64, cel_core::ReferenceInfo>,
}

/// What a message asks for.
pub enum Step<'a> {
    /// Nothing more than to send this answer. An empty answer is not sent.
    Reply(String),
    /// To analyze a text and keep it as a document.
    Open { uri: String, text: String, version: i32 },
    /// Completions at a position.
    Complete { id: Option<serde_json::Value>, state: &'a DocumentState, position: Position },
    /// Hover information at a position.
    Hover {
        id: Option<serde_json::Value>,
        line_index: &'a LineIndex,
        ast: &'a SpannedExpr,
        check: Option<CheckView<'a>>,
        position: Position,
    },
}

/// Holds the environment and the open documents.
pub struct CelAnalyzer {
    env: Arc<cel_core::Env>,
    documents: Documents<DocumentState>,
    hover_show_errors: bool,
}

/// The step is to send `answer`.
pub open spec fn is_reply(step: Step, answer: Seq<char>) -> bool {
    step matches Step::Reply(reply) && reply@ == answer
}

/// The step is to open a document.
pub open spec fn is_opening(step: Step, uri: Seq<char>, text: Seq<char>, version: i32) -> bool {
    step matches Step::Open { uri: u, text: t, version: v } && u@ == uri && t@ == text && v
        == version
}

/// Hover information is taken from a check result as it is, or without its errors.
pub open spec fn is_view(
    view: Option<CheckView>,
    result: Option<CheckResult>,
    shows_errors: bool,
) -> bool {
    match (view, result) {
        (Some(view), Some(result)) => {
            &&& view.errors@ == if shows_errors {
                result.errors@
            } else {
                seq![]
            }
            &&& *view.type_map == result.type_map
            &&& *view.reference_map == result.reference_map
        },
        (None, None) => true,
        _ => false,
    }
}

/// The expression of an open document, if it could be parsed.
pub open spec fn tree_of(documents: Map<Seq<char>, DocumentState>, uri: Seq<char>) -> Option<
    SpannedExpr,
> {
    if documents.contains_key(uri) {
        documents[uri].ast
    } else {
        None
    }
}

/// The semantic tokens of an open document, `null` if it has no expression.
pub open spec fn tokens_of(
    documents: Map<Seq<char>, DocumentState>,
    uri: Seq<char>,
) -> JsonModel {
    match tree_of(documents, uri) {
        Some(ast) => protocol::tokens_result(
            semantic_tokens::ast_tokens(documents[uri].line_index.bytes(), ast),
        ),
        None => JsonModel::Null,
    }
}

/// The method of a request, empty where it has none.
pub open spec fn method_of(request: JsonModel) -> Seq<char> {
    match declarations::text_member(request, "method"@) {
        Some(method) => method,
        None => ""@,
    }
}

/// The parameters of a request, `null` where it has none.
pub open spec fn params_of(request: JsonModel) -> JsonModel {
    protocol::or_null(json::member(request, "params"@))
}

/// What a request asks for.
pub open spec fn is_step(
    documents: Map<Seq<char>, DocumentState>,
    shows_errors: bool,
    request: JsonModel,
    step: Step,
) -> bool {
    let id = json::member(request, "id"@);
    let method = method_of(request);
    let params = params_of(request);
    let uri = protocol::uri_of(params);
    let nothing = protocol::sent(protocol::response(id, JsonModel::Null));
    if method == "initialize"@ {
        is_reply(step, protocol::sent(protocol::response(id, capabilities::announcement())))
    } else if method == "initialized"@ {
        is_reply(step, ""@)
    } else if method == "textDocument/didOpen"@ {
        is_opening(step, uri, protocol::opened_text(params), protocol::version_of(params))
    } else if method == "textDocument/didChange"@ {
        is_opening(step, uri, protocol::changed_text(params), protocol::version_of(params))
    } else if method == "textDocument/completion"@ {
        if documents.contains_key(uri) {
            step matches Step::Complete { id: i, state, position } && protocol::held(i) == id
                && *state == documents[uri] && position == protocol::position_of(params)
        } else {
            is_reply(step, nothing)
        }
    } else if method == "textDocument/hover"@ {
        match tree_of(documents, uri) {
            Some(tree) => step matches Step::Hover { id: i, line_index, ast, check, position }
                && protocol::held(i) == id && *line_index == documents[uri].line_index && *ast
                == tree && is_view(check, documents[uri].check_result, shows_errors) && position
                == protocol::position_of(params),
            None => is_reply(step, nothing),
        }
    } else if method == "textDocument/semanticTokens/full"@ {
        is_reply(step, protocol::sent(protocol::response(id, tokens_of(documents, uri))))
    } else if method == "shutdown"@ || method == "exit"@ {
        is_reply(step, nothing)
    } else {
        is_reply(
            step,
            protocol::sent(
                protocol::error_response(
                    id,
                    METHOD_NOT_FOUND as int,
                    "Method not found: "@ + method,
                ),
            ),
        )
    }
}

/// Takes what hover information is taken from out of a check result.
fn check_view(result: &Option<CheckResult>, show_errors: bool) -> (view: Option<CheckView<'_>>)
    ensures
        is_view(view, *result, show_errors),
{
    match result {
        Some(result) => {
            let all = result.errors.as_slice();
            let errors = if show_errors {
                all
            } else {
                vstd::slice::slice_subrange(all, 0, 0)
            };
            assert(show_errors || errors@ =~= seq![]);
            Some(
                CheckView {
                    errors,
                    type_map: &result.type_map,
                    reference_map: &result.reference_map,
                },
            )
        },
        None => None,
    }
}

/// The options that a text holds, none where it is no JSON.
pub open spec fn options_of(options_json: Seq<char>) -> JsonModel {
    match json::json_parsed(options_json) {
        Ok(options) => options,
        Err(_) => JsonModel::Object(Map::empty()),
    }
}

/// The variables that are declared before any options.
pub open spec fn standard_variables() -> Map<Seq<char>, TypeModel> {
    environment::type_constants().insert("optional_type"@, environment::optional_constant())
}

/// The environment is one that `cel_core::Env::with_standard_library` makes.
pub open spec fn is_standard(env: cel_core::Env) -> bool {
    call_ensures(cel_core::Env::with_standard_library, (), env)
}

/// What a function makes. The contract keeps that it was made by that function.
fn made<F: Fn() -> cel_core::Env>(make: F) -> (env: cel_core::Env)
    requires
        call_requires(make, ()),
    ensures
        call_ensures(make, (), env),
{
    make()
}

/// The setting of an option, `true` where it is not set.
pub open spec fn setting(options: JsonModel, name: Seq<char>) -> bool {
    match json::member(options, name) {
        Some(JsonModel::Bool(b)) => b,
        _ => true,
    }
}

impl CelAnalyzer {
    /// The environment.
    pub closed spec fn environment(&self) -> cel_core::Env {
        *self.env
    }

    /// The open documents.
    pub closed spec fn open_documents(&self) -> Map<Seq<char>, DocumentState> {
        self.documents@
    }

    /// Hover information shows errors.
    pub closed spec fn shows_errors(&self) -> bool {
        self.hover_show_errors
    }

    /// An analyzer without documents. `options_json` is a JSON object with
    ///
    /// - `variables`: the variables, each with a `name` and a `type`
    /// - `functions`: the functions
    /// - `hoverShowErrors`: whether hover information shows errors (it does by default)
    ///
    /// all of which may be left out.
    pub fn new(options_json: &str) -> (analyzer: Self)
        ensures
            analyzer.has_options(options_of(options_json@)),
            analyzer.open_documents() == Map::<Seq<char>, DocumentState>::empty(),
    {
        let options = match json::parse_json(options_json) {
            Ok(options) => options,
            Err(_) => json::object(Vec::new()),
        };
        Self::with_options(&options)
    }

    /// The environment has the standard library with all extensions and what the options declare,
    /// and hover information shows errors as the options say.
    pub open spec fn has_options(&self, options: JsonModel) -> bool {
        let values = declarations::listed(options, "variables"@);
        let decls = declarations::listed(options, "functions"@);
        &&& environment::variables(self.environment()) == declarations::declared_variables(
            standard_variables(),
            values,
            values.len() as int,
        )
        &&& exists|standard: cel_core::Env| #[trigger]
            is_standard(standard) && environment::functions(self.environment())
                == declarations::declared_functions(
                environment::extended_functions(environment::functions(standard)),
                decls,
                decls.len() as int,
            )
        &&& self.shows_errors() == setting(options, "hoverShowErrors"@)
    }

    /// An analyzer without documents, with options that are JSON already.
    pub fn with_options(options: &serde_json::Value) -> (analyzer: Self)
        ensures
            analyzer.has_options(json::json_of(*options)),
            analyzer.open_documents() == Map::<Seq<char>, DocumentState>::empty(),
    {
        let standard = made(cel_core::Env::with_standard_library);
        assert(is_standard(standard));
        let env = declare(standard.with_all_extensions(), options);
        let show = match json::get(options, "hoverShowErrors") {
            Some(value) => value.as_bool(),
            None => None,
        };
        let hover_show_errors = match show {
            Some(b) => b,
            None => true,
        };
        CelAnalyzer { env: Arc::new(env), documents: Documents::new(), hover_show_errors }
    }

    /// The environment that expressions are checked in.
    pub fn env(&self) -> (env: &Arc<cel_core::Env>)
        ensures
            **env == self.environment(),
    {
        &self.env
    }

    /// Decides what a message asks for.
    pub fn handle_request(&self, json: &str) -> (step: Step<'_>)
        ensures
            match json::json_parsed(json@) {
                Ok(request) => is_step(self.open_documents(), self.shows_errors(), request, step),
                Err(message) => is_reply(
                    step,
                    protocol::sent(
                        protocol::error_response(None, -32700, "Parse error: "@ + message),
                    ),
                ),
            },
    {
        match json::parse_json(json) {
            Ok(request) => self.handle_message(&request),
            Err(message) => {
                let mut description: String = "Parse error: ".to_string();
                description.append(message.as_str());
                Step::Reply(
                    protocol::json_rpc_error(None, PARSE_ERROR, description.as_str()),
                )
            },
        }
    }

    /// Decides what a request asks for.
    pub fn handle_message(&self, request: &serde_json::Value) -> (step: Step<'_>)
        ensures
            is_step(self.open_documents(), self.shows_errors(), json::json_of(*request), step),
    {
        let id = match json::get(request, "id") {
            Some(id) => Some(id.clone()),
            None => None,
        };
        let method = match json::get(request, "method") {
            Some(method) => match method.as_str() {
                Some(method) => method,
                None => "",
            },
            None => "",
        };
        let params = match json::get(request, "params") {
            Some(params) => params.clone(),
            None => json::null(),
        };
        if same_text(method, "initialize") {
            let result = match capabilities() {
                Some(result) => result,
                None => json::null(),
            };
            Step::Reply(protocol::json_rpc_response(id, result))
        } else if same_text(method, "initialized") {
            Step::Reply("".to_string())
        } else if same_text(method, "textDocument/didOpen") {
            Step::Open {
                uri: protocol::read_uri(&params).to_string(),
                text: protocol::read_opened_text(&params).to_string(),
                version: protocol::read_version(&params),
            }
        } else if same_text(method, "textDocument/didChange") {
            Step::Open {
                uri: protocol::read_uri(&params).to_string(),
                text: protocol::read_changed_text(&params).to_string(),
                version: protocol::read_version(&params),
            }
        } else if same_text(method, "textDocument/completion") {
            self.handle_completion(id, &params)
        } else if same_text(method, "textDocument/hover") {
            self.handle_hover(id, &params)
        } else if same_text(method, "textDocument/semanticTokens/full") {
            self.handle_semantic_tokens(id, &params)
        } else if same_text(method, "shutdown") || same_text(method, "exit") {
            Step::Reply(protocol::json_rpc_response(id, json::null()))
        } else {
            let mut description: String = "Method not found: ".to_string();
            description.append(method);
            Step::Reply(protocol::json_rpc_error(id, METHOD_NOT_FOUND, description.as_str()))
        }
    }

    /// Decides what a request for completions asks for.
    fn handle_completion(&self, id: Option<serde_json::Value>, params: &serde_json::Value) -> (step:
        Step<'_>)
        ensures
            ({
                let documents = self.open_documents();
                let uri = protocol::uri_of(json::json_of(*params));
                if documents.contains_key(uri) {
                    step matches Step::Complete { id: i, state, position } && i == id && *state
                        == documents[uri] && position == protocol::position_of(
                        json::json_of(*params),
                    )
                } else {
                    is_reply(
                        step,
                        protocol::sent(protocol::response(protocol::held(id), JsonModel::Null)),
                    )
                }
            }),
    {
        match self.documents.get(protocol::read_uri(params)) {
            Some(state) => Step::Complete { id, state, position: protocol::read_position(params) },
            None => Step::Reply(protocol::json_rpc_response(id, json::null())),
        }
    }

    /// Decides what a request for hover information asks for.
    fn handle_hover(&self, id: Option<serde_json::Value>, params: &serde_json::Value) -> (step:
        Step<'_>)
        ensures
            ({
                let documents = self.open_documents();
                let uri = protocol::uri_of(json::json_of(*params));
                match tree_of(documents, uri) {
                    Some(tree) => step matches Step::Hover {
                        id: i,
                        line_index,
                        ast,
                        check,
                        position,
                    } && i == id && *line_index == documents[uri].line_index && *ast == tree
                        && is_view(check, documents[uri].check_result, self.shows_errors())
                        && position == protocol::position_of(json::json_of(*params)),
                    None => is_reply(
                        step,
                        protocol::sent(protocol::response(protocol::held(id), JsonModel::Null)),
                    ),
                }
            }),
    {
        if let Some(state) = self.documents.get(protocol::read_uri(params)) {
            if let Some(ast) = &state.ast {
                return Step::Hover {
                    id,
                    line_index: &state.line_index,
                    ast,
                    check: check_view(&state.check_result, self.hover_show_errors),
                    position: protocol::read_position(params),
                };
            }
        }
        Step::Reply(protocol::json_rpc_response(id, json::null()))
    }

    /// Answers a request for semantic tokens.
    fn handle_semantic_tokens(
        &self,
        id: Option<serde_json::Value>,
        params: &serde_json::Value,
    ) -> (step: Step<'_>)
        ensures
            is_reply(
                step,
                protocol::sent(
                    protocol::response(
                        protocol::held(id),
                        tokens_of(
                            self.open_documents(),
                            protocol::uri_of(json::json_of(*params)),
                        ),
                    ),
                ),
            ),
    {
        let result = match self.tokens(protocol::read_uri(params)) {
            Some(result) => result,
            None => json::null(),
        };
        Step::Reply(protocol::json_rpc_response(id, result))
    }

    /// The semantic tokens of a document.
    fn tokens(&self, uri: &str) -> (result: Option<serde_json::Value>)
        ensures
            match result {
                Some(result) => {
                    &&& tree_of(self.open_documents(), uri@) is Some
                    &&& json::json_of(result) == tokens_of(self.open_documents(), uri@)
                },
                None => tree_of(self.open_documents(), uri@) is None,
            },
    {
        if let Some(state) = self.documents.get(uri) {
            if let Some(ast) = &state.ast {
                let tokens = tokens_for_ast(&state.line_index, ast);
                return protocol::write_tokens(&tokens);
            }
        }
        None
    }

    /// The semantic tokens of a document as JSON text.
    pub fn semantic_tokens(&self, uri: &str) -> (written: String)
        ensures
            written@ == match (
                tree_of(self.open_documents(), uri@),
                json::json_written(tokens_of(self.open_documents(), uri@)),
            ) {
                (Some(_), Some(w)) => w,
                _ => "null"@,
            },
    {
        let written = match self.tokens(uri) {
            Some(result) => json::write_json(&result),
            None => None,
        };
        match written {
            Some(written) => written,
            None => "null".to_string(),
        }
    }

    /// Keeps a document that was analyzed, in the place of the one that was open under its URI, and
    /// notifies the client of its diagnostics.
    pub fn open_document(
        &mut self,
        uri: String,
        state: DocumentState,
        diagnostics: serde_json::Value,
    ) -> (notification: String)
        ensures
            final(self).open_documents() == old(self).open_documents().insert(uri@, state),
            final(self).environment() == old(self).environment(),
            final(self).shows_errors() == old(self).shows_errors(),
            notification@ == protocol::sent(
                protocol::diagnostics_message(
                    uri@,
                    state.version as int,
                    json::json_of(diagnostics),
                ),
            ),
    {
        let notification = protocol::diagnostics_notification(
            uri.as_str(),
            state.version,
            diagnostics,
        );
        self.documents.open(uri, state);
        notification
    }
}

/// The method is that of a notification, which gets no answer with an id.
pub open spec fn is_notification(method: Seq<char>) -> bool {
    method == "initialized"@ || method == "textDocument/didOpen"@ || method
        == "textDocument/didChange"@
}

/// Every request is answered under its id: at once with a result or an error, or once the caller
/// has found completions or hover information.
pub proof fn answers_carry_the_id(
    documents: Map<Seq<char>, DocumentState>,
    shows_errors: bool,
    request: JsonModel,
    step: Step,
)
    requires
        is_step(documents, shows_errors, request, step),
        !is_notification(method_of(request)),
    ensures
        ({
            let id = json::member(request, "id"@);
            match step {
                Step::Reply(reply) => {
                    ||| exists|result: JsonModel|
                        reply@ == protocol::sent(#[trigger] protocol::response(id, result))
                    ||| exists|code: int, message: Seq<char>|
                        reply@ == protocol::sent(
                            #[trigger] protocol::error_response(id, code, message),
                        )
                },
                Step::Open { .. } => false,
                Step::Complete { id: i, .. } => protocol::held(i) == id,
                Step::Hover { id: i, .. } => protocol::held(i) == id,
            }
        }),
{
}

/// Once a document is kept, its tokens are those of the state that was kept last, and the tokens of
/// other documents are what they were.
pub proof fn latest_state_counts(
    documents: Map<Seq<char>, DocumentState>,
    uri: Seq<char>,
    state: DocumentState,
    other: Seq<char>,
)
    ensures
        tokens_of(documents.insert(uri, state), uri) == match state.ast {
            Some(ast) => protocol::tokens_result(
                semantic_tokens::ast_tokens(state.line_index.bytes(), ast),
            ),
            None => JsonModel::Null,
        },
        other != uri ==> tokens_of(documents.insert(uri, state), other) == tokens_of(
            documents,
            other,
        ),
{
}

/// The same documents, but without the errors that checking found.
pub open spec fn are_without_errors(
    documents: Map<Seq<char>, DocumentState>,
    emptied: Map<Seq<char>, DocumentState>,
) -> bool {
    &&& documents.dom() == emptied.dom()
    &&& forall|uri: Seq<char>| #[trigger]
        documents.contains_key(uri) ==> is_without_errors(documents[uri], emptied[uri])
}

/// The same document, but without the errors that checking found.
pub open spec fn is_without_errors(state: DocumentState, emptied: DocumentState) -> bool {
    &&& emptied.line_index == state.line_index
    &&& emptied.version == state.version
    &&& emptied.ast == state.ast
    &&& emptied.errors == state.errors
    &&& emptied.env == state.env
    &&& match (state.check_result, emptied.check_result) {
        (Some(result), Some(without)) => {
            &&& without.errors@ == Seq::<cel_core::CheckError>::empty()
            &&& without.type_map == result.type_map
            &&& without.reference_map == result.reference_map
        },
        (None, None) => true,
        _ => false,
    }
}

/// Hover information that hides errors is that of the same documents without errors.
pub proof fn hidden_errors_are_no_errors(
    documents: Map<Seq<char>, DocumentState>,
    emptied: Map<Seq<char>, DocumentState>,
    request: JsonModel,
    step: Step,
)
    requires
        method_of(request) == "textDocument/hover"@,
        are_without_errors(documents, emptied),
    ensures
        is_step(documents, false, request, step) == is_step(emptied, true, request, step),
{
    reveal_strlit("textDocument/hover");
    reveal_strlit("textDocument/completion");
    let uri = protocol::uri_of(params_of(request));
    assert(documents.contains_key(uri) == emptied.contains_key(uri));
    assert("textDocument/hover"@.len() == 18 && "textDocument/completion"@.len() == 23);
}

/// Changing a document asks for what opening it with the new text asks for, whatever its text was
/// and whichever documents are open.
pub proof fn changing_is_opening(
    documents: Map<Seq<char>, DocumentState>,
    others: Map<Seq<char>, DocumentState>,
    shows_errors: bool,
    change: JsonModel,
    opening: JsonModel,
    step: Step,
)
    requires
        method_of(change) == "textDocument/didChange"@,
        method_of(opening) == "textDocument/didOpen"@,
        protocol::uri_of(params_of(change)) == protocol::uri_of(params_of(opening)),
        protocol::version_of(params_of(change)) == protocol::version_of(params_of(opening)),
        protocol::changed_text(params_of(change)) == protocol::opened_text(params_of(opening)),
    ensures
        is_step(documents, shows_errors, change, step) == is_step(
            others,
            shows_errors,
            opening,
            step,
        ),
{
    opening_methods_are_told_apart();
}

/// A document that is kept for a message holds the text and the version of the message, and the
/// client is notified of the diagnostics under the URI and the version of the message.
pub proof fn kept_documents_hold_the_message(
    documents: Map<Seq<char>, DocumentState>,
    shows_errors: bool,
    request: JsonModel,
    step: Step,
    env: cel_core::Env,
    state: DocumentState,
    diagnostics: JsonModel,
)
    requires
        is_step(documents, shows_errors, request, step),
        step matches Step::Open { text, version, .. } && document::is_analyzed(
            state,
            text@,
            version,
            env,
        ),
    ensures
        ({
            let params = params_of(request);
            &&& step matches Step::Open { uri, .. } && protocol::diagnostics_message(
                uri@,
                state.version as int,
                diagnostics,
            ) == protocol::diagnostics_message(
                protocol::uri_of(params),
                protocol::version_of(params) as int,
                diagnostics,
            )
            &&& state.line_index.text() == if method_of(request) == "textDocument/didOpen"@ {
                protocol::opened_text(params)
            } else {
                protocol::changed_text(params)
            }
            &&& *state.env == env
        }),
{
    opening_methods_are_told_apart();
}

proof fn opening_methods_are_told_apart()
    ensures
        "textDocument/didOpen"@ != "textDocument/didChange"@,
        "textDocument/didOpen"@ != "initialize"@,
        "textDocument/didOpen"@ != "initialized"@,
        "textDocument/didChange"@ != "initialize"@,
        "textDocument/didChange"@ != "initialized"@,
{
    reveal_strlit("textDocument/didOpen");
    reveal_strlit("textDocument/didChange");
    reveal_strlit("initialize");
    reveal_strlit("initialized");
    assert("textDocument/didOpen"@.len() == 20 && "textDocument/didChange"@.len() == 22);
    assert("initialize"@.len() == 10 && "initialized"@.len() == 11);
}

proof fn methods_are_told_apart()
    ensures
        "initialize"@.len() == 10,
        "initialized"@.len() == 11,
        "textDocument/didOpen"@.len() == 20,
        "textDocument/didChange"@.len() == 22,
        "textDocument/completion"@.len() == 23,
        "textDocument/hover"@.len() == 18,
        "textDocument/semanticTokens/full"@.len() == 32,
        "shutdown"@.len() == 8,
        "exit"@.len() == 4,
{
    reveal_strlit("initialize");
    reveal_strlit("initialized");
    reveal_strlit("textDocument/didOpen");
    reveal_strlit("textDocument/didChange");
    reveal_strlit("textDocument/completion");
    reveal_strlit("textDocument/hover");
    reveal_strlit("textDocument/semanticTokens/full");
    reveal_strlit("shutdown");
    reveal_strlit("exit");
}

/// The request is one for this method.
pub open spec fn asks_for(request: JsonModel, method: Seq<char>) -> bool {
    json::member(request, "method"@) == Some(JsonModel::Text(method))
}

/// These are the parameters of the request, or `null` for one without parameters.
pub open spec fn has_params(request: JsonModel, params: JsonModel) -> bool {
    match json::member(request, "params"@) {
        Some(given) => params == given,
        None => params is Null,
    }
}

/// The step is to send the result under the id of the request.
pub open spec fn answers_with(step: Step, request: JsonModel, result: JsonModel) -> bool {
    step matches Step::Reply(reply) && reply@ == protocol::sent(
        protocol::response(json::member(request, "id"@), result),
    )
}

/// An initialization is answered with what the server announces, and the notification that it is
/// done is not answered. A server that is told to stop has nothing more to say.
pub proof fn sessions_are_opened_and_closed(
    documents: Map<Seq<char>, DocumentState>,
    shows_errors: bool,
    request: JsonModel,
    step: Step,
)
    requires
        is_step(documents, shows_errors, request, step),
    ensures
        asks_for(request, "initialize"@) ==> answers_with(
            step,
            request,
            capabilities::announcement(),
        ),
        asks_for(request, "initialized"@) ==> (step matches Step::Reply(reply) && reply@.len()
            == 0),
        asks_for(request, "shutdown"@) ==> answers_with(step, request, JsonModel::Null),
        asks_for(request, "exit"@) ==> answers_with(step, request, JsonModel::Null),
{
    methods_are_told_apart();
    reveal_strlit("");
}

/// A document that is opened or changed is to be analyzed: with the text of the document where it is
/// opened, and that of the first change where it changed.
pub proof fn texts_are_analyzed(
    documents: Map<Seq<char>, DocumentState>,
    shows_errors: bool,
    request: JsonModel,
    params: JsonModel,
    step: Step,
)
    requires
        is_step(documents, shows_errors, request, step),
        has_params(request, params),
        asks_for(request, "textDocument/didOpen"@) || asks_for(
            request,
            "textDocument/didChange"@,
        ),
    ensures
        step matches Step::Open { uri, text, version } && {
            &&& uri@ == protocol::uri_of(params)
            &&& version == protocol::version_of(params)
            &&& asks_for(request, "textDocument/didOpen"@) ==> text@ == protocol::opened_text(
                params,
            )
            &&& asks_for(request, "textDocument/didChange"@) ==> text@ == protocol::changed_text(
                params,
            )
        },
{
    methods_are_told_apart();
}

/// Completions are looked up in the document that the request names, at the position that it names.
/// Without such a document there are none.
pub proof fn completions_are_in_the_document(
    documents: Map<Seq<char>, DocumentState>,
    shows_errors: bool,
    request: JsonModel,
    params: JsonModel,
    step: Step,
)
    requires
        is_step(documents, shows_errors, request, step),
        has_params(request, params),
        asks_for(request, "textDocument/completion"@),
    ensures
        documents.contains_key(protocol::uri_of(params)) ==> (step matches Step::Complete {
            id,
            state,
            position,
        } && protocol::held(id) == json::member(request, "id"@) && *state
            == documents[protocol::uri_of(params)] && position == protocol::position_of(params)),
        !documents.contains_key(protocol::uri_of(params)) ==> answers_with(
            step,
            request,
            JsonModel::Null,
        ),
{
    methods_are_told_apart();
}

/// Hover information is looked up in the expression of the document that the request names, with
/// what checking found out, at the position that it names. The errors count only if they are to be
/// shown. Without such a document, or an expression in it, there is none.
pub proof fn hover_is_in_the_document(
    documents: Map<Seq<char>, DocumentState>,
    shows_errors: bool,
    request: JsonModel,
    params: JsonModel,
    step: Step,
)
    requires
        is_step(documents, shows_errors, request, step),
        has_params(request, params),
        asks_for(request, "textDocument/hover"@),
    ensures
        ({
            let uri = protocol::uri_of(params);
            let state = documents[uri];
            if documents.contains_key(uri) && state.ast is Some {
                &&& step matches Step::Hover { id, line_index, ast, check, position }
                &&& protocol::held(id) == json::member(request, "id"@)
                &&& *line_index == state.line_index
                &&& Some(*ast) == state.ast
                &&& position == protocol::position_of(params)
                &&& check is Some == state.check_result is Some
                &&& check matches Some(view) ==> {
                    let result = state.check_result->0;
                    &&& *view.type_map == result.type_map
                    &&& *view.reference_map == result.reference_map
                    &&& shows_errors ==> view.errors@ == result.errors@
                    &&& !shows_errors ==> view.errors@.len() == 0
                }
            } else {
                answers_with(step, request, JsonModel::Null)
            }
        }),
{
    methods_are_told_apart();
}

/// A request for semantic tokens is answered with the tokens of the expression of the document that
/// it names, and with `null` without such a document or an expression in it.
pub proof fn tokens_are_of_the_document(
    documents: Map<Seq<char>, DocumentState>,
    shows_errors: bool,
    request: JsonModel,
    params: JsonModel,
    step: Step,
)
    requires
        is_step(documents, shows_errors, request, step),
        has_params(request, params),
        asks_for(request, "textDocument/semanticTokens/full"@),
    ensures
        ({
            let uri = protocol::uri_of(params);
            let state = documents[uri];
            if documents.contains_key(uri) && state.ast is Some {
                answers_with(
                    step,
                    request,
                    protocol::tokens_result(
                        semantic_tokens::ast_tokens(state.line_index.bytes(), state.ast->0),
                    ),
                )
            } else {
                answers_with(step, request, JsonModel::Null)
            }
        }),
{
    methods_are_told_apart();
}

/// The method is one that the analyzer supports.
pub open spec fn is_supported(method: Seq<char>) -> bool {
    ||| method == "initialize"@
    ||| method == "initialized"@
    ||| method == "textDocument/didOpen"@
    ||| method == "textDocument/didChange"@
    ||| method == "textDocument/completion"@
    ||| method == "textDocument/hover"@
    ||| method == "textDocument/semanticTokens/full"@
    ||| method == "shutdown"@
    ||| method == "exit"@
}

/// A request for another method is answered with an error that names the method. A request without
/// a method is answered as if its method were empty.
pub proof fn other_methods_are_refused(
    documents: Map<Seq<char>, DocumentState>,
    shows_errors: bool,
    request: JsonModel,
    method: Seq<char>,
    step: Step,
)
    requires
        is_step(documents, shows_errors, request, step),
        match json::member(request, "method"@) {
            Some(JsonModel::Text(m)) => method == m && !is_supported(m),
            _ => method.len() == 0,
        },
    ensures
        step matches Step::Reply(reply) && reply@ == protocol::sent(
            protocol::error_response(
                json::member(request, "id"@),
                -32601,
                "Method not found: "@ + method,
            ),
        ),
{
    methods_are_told_apart();
    reveal_strlit("");
    assert(method_of(request) =~= method);
}

/// Options that are JSON are what they are, and others hold nothing.
pub proof fn unreadable_options_are_none(options_json: Seq<char>, name: Seq<char>)
    ensures
        json::json_parsed(options_json) matches Ok(options) ==> options_of(options_json)
            == options,
        json::json_parsed(options_json) is Err ==> json::member(
            options_of(options_json),
            name,
        ) is None,
{
}

/// Hover information shows errors, unless the option is set to `false`.
pub proof fn errors_are_shown_by_default(analyzer: CelAnalyzer, options: JsonModel)
    requires
        analyzer.has_options(options),
    ensures
        analyzer.shows_errors() == !(json::member(options, "hoverShowErrors"@) == Some(
            JsonModel::Bool(false),
        )),
{
}

/// The variables of the options are known, each with the type of its last declaration.
pub proof fn declared_variables_are_known(
    analyzer: CelAnalyzer,
    options: JsonModel,
    list: Seq<JsonModel>,
    i: int,
    name: Seq<char>,
    model: TypeModel,
)
    requires
        analyzer.has_options(options),
        json::member(options, "variables"@) == Some(JsonModel::Array(list)),
        0 <= i < list.len(),
        declarations::declares(list[i], name, model),
        forall|j: int, other: TypeModel|
            i < j < list.len() ==> !#[trigger] declarations::declares(list[j], name, other),
    ensures
        ({
            let known = environment::variables(analyzer.environment());
            known.contains_key(name) && known[name] == model
        }),
{
    declarations::last_declaration_counts(
        standard_variables(),
        list,
        i,
        list.len() as int,
        name,
        model,
    );
}

/// The constants of the language that the options do not declare anew stay what they are, and no
/// other variable is known that the options do not declare.
pub proof fn language_constants_stay(analyzer: CelAnalyzer, options: JsonModel, name: Seq<char>)
    requires
        analyzer.has_options(options),
        json::member(options, "variables"@) matches Some(JsonModel::Array(list)) ==> forall|
            j: int,
            other: TypeModel,
        |
            0 <= j < list.len() ==> !#[trigger] declarations::declares(list[j], name, other),
    ensures
        ({
            let known = environment::variables(analyzer.environment());
            let constants = environment::type_constants();
            if name == "optional_type"@ {
                known.contains_key(name) && known[name] == environment::optional_constant()
            } else {
                &&& known.contains_key(name) == constants.contains_key(name)
                &&& known.contains_key(name) ==> known[name] == constants[name]
            }
        }),
{
    let list = declarations::listed(options, "variables"@);
    declarations::other_variables_stay(standard_variables(), list, list.len() as int, name);
}

/// The functions of the options are known, with each of their signatures.
pub proof fn declared_functions_are_known(
    analyzer: CelAnalyzer,
    options: JsonModel,
    list: Seq<JsonModel>,
    i: int,
    name: Seq<char>,
    k: int,
    params: Seq<TypeModel>,
    result: TypeModel,
)
    requires
        analyzer.has_options(options),
        json::member(options, "functions"@) == Some(JsonModel::Array(list)),
        0 <= i < list.len(),
        json::member(list[i], "name"@) == Some(JsonModel::Text(name)),
        0 <= k < declarations::signature_values(list[i]).len(),
        declarations::is_signature(declarations::signature_values(list[i])[k], params, result),
    ensures
        ({
            let known = environment::functions(analyzer.environment());
            &&& known.contains_key(name)
            &&& exists|j: int|
                0 <= j < known[name].len() && (#[trigger] known[name][j]).params == params
                    && known[name][j].result == result
        }),
{
    let known = environment::functions(analyzer.environment());
    let standard = choose|standard: cel_core::Env| #[trigger]
        is_standard(standard) && known == declarations::declared_functions(
            environment::extended_functions(environment::functions(standard)),
            list,
            list.len() as int,
        );
    declarations::every_signature_counts(list[i], name, k, params, result);
    declarations::functions_have_their_signatures(list[i], name);
    let decl = declarations::declared_function(list[i])->0;
    let at = choose|at: int|
        0 <= at < decl.overloads.len() && (#[trigger] decl.overloads[at]).params == params
            && decl.overloads[at].result == result;
    declarations::declared_signatures_are_there(
        environment::extended_functions(environment::functions(standard)),
        list,
        i,
        list.len() as int,
        at,
    );
    let j = choose|j: int| 0 <= j < known[name].len() && known[name][j] == decl.overloads[at];
    assert(known[name][j].params == params);
}

/// Without functions in the options there are those of the standard library and its extensions, and
/// whatever the options hold, these keep their signatures.
pub proof fn standard_functions_stay(analyzer: CelAnalyzer, options: JsonModel, name: Seq<char>)
    requires
        analyzer.has_options(options),
    ensures
        exists|standard: cel_core::Env| #[trigger]
            is_standard(standard) && {
                let library = environment::extended_functions(environment::functions(standard));
                let known = environment::functions(analyzer.environment());
                &&& library.contains_key(name) ==> known.contains_key(name)
                    && library[name].is_prefix_of(known[name])
                &&& !(json::member(options, "functions"@) matches Some(JsonModel::Array(_)))
                    ==> known == library
            },
{
    let known = environment::functions(analyzer.environment());
    let list = declarations::listed(options, "functions"@);
    let standard = choose|standard: cel_core::Env| #[trigger]
        is_standard(standard) && known == declarations::declared_functions(
            environment::extended_functions(environment::functions(standard)),
            list,
            list.len() as int,
        );
    let library = environment::extended_functions(environment::functions(standard));
    if library.contains_key(name) {
        declarations::signatures_stay(library, list, list.len() as int, name);
    }
    assert(is_standard(standard));
}

} // verus!

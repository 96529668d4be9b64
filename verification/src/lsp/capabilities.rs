//! What the server announces to its clients.

use super::legend;
use crate::json;
use crate::json::{JsonModel, NumberModel};
use crate::protocol;
use vstd::prelude::*;

verus! {

/// How changes of a document reach the server.
#[derive(Debug, Clone, Copy, PartialEq, Eq)]
pub enum TextSync {
    /// Not at all.
    Off,
    /// By the whole text.
    Full,
    /// By the parts that changed.
    Incremental,
}

/// A list of texts.
pub open spec fn text_list(list: Seq<Seq<char>>) -> JsonModel {
    JsonModel::Array(list.map_values(|item: Seq<char>| JsonModel::Text(item)))
}

/// The result of an initialization, which announces
///
/// - how changes of a document reach the server,
/// - whether there is hover information,
/// - the characters at which clients are to ask for completions, and whether more can be learned of
///   a completion by another request,
/// - the legend of semantic tokens, and whether they can be had of a whole document.
pub open spec fn initialize_result(
    sync: TextSync,
    hover: bool,
    triggers: Seq<Seq<char>>,
    resolve: bool,
    token_types: Seq<Seq<char>>,
    token_modifiers: Seq<Seq<char>>,
    full: bool,
) -> JsonModel {
    let sync_kind = match sync {
        TextSync::Off => 0int,
        TextSync::Full => 1,
        TextSync::Incremental => 2,
    };
    let completion = map![
        "triggerCharacters"@ => text_list(triggers),
        "resolveProvider"@ => JsonModel::Bool(resolve)
    ];
    let names = map![
        "tokenTypes"@ => text_list(token_types),
        "tokenModifiers"@ => text_list(token_modifiers)
    ];
    let tokens = map!["legend"@ => JsonModel::Object(names), "full"@ => JsonModel::Bool(full)];
    let announced = map![
        "textDocumentSync"@ => JsonModel::Number(NumberModel::Integer(sync_kind)),
        "hoverProvider"@ => JsonModel::Bool(hover),
        "completionProvider"@ => JsonModel::Object(completion),
        "semanticTokensProvider"@ => JsonModel::Object(tokens)
    ];
    JsonModel::Object(map!["capabilities"@ => JsonModel::Object(announced)])
}

/// `serde_json::to_value` for `lsp_types::InitializeResult`. The contract claims that each
/// capability is written under its name in the protocol, that nothing else is, and that this cannot
/// fail.
#[verifier::external_body]
fn write_capabilities(
    sync: TextSync,
    hover: bool,
    triggers: Vec<String>,
    resolve: bool,
    legend: lsp_types::SemanticTokensLegend,
    full: bool,
) -> (value: Option<serde_json::Value>)
    ensures
        protocol::held(value) == Some(
            initialize_result(
                sync,
                hover,
                legend::texts(triggers@),
                resolve,
                legend::type_names(legend),
                legend::modifier_names(legend),
                full,
            ),
        ),
{
    let mut capabilities = lsp_types::ServerCapabilities::default();
    capabilities.text_document_sync = Some(match sync {
        TextSync::Off => lsp_types::TextDocumentSyncKind::NONE.into(),
        TextSync::Full => lsp_types::TextDocumentSyncKind::FULL.into(),
        TextSync::Incremental => lsp_types::TextDocumentSyncKind::INCREMENTAL.into(),
    });
    capabilities.hover_provider = Some(hover.into());
    let mut completion = lsp_types::CompletionOptions::default();
    completion.trigger_characters = Some(triggers);
    completion.resolve_provider = Some(resolve);
    capabilities.completion_provider = Some(completion);
    let full = Some(lsp_types::SemanticTokensFullOptions::Bool(full));
    let tokens = lsp_types::SemanticTokensOptions { legend, full, ..Default::default() };
    capabilities.semantic_tokens_provider = Some(tokens.into());
    serde_json::to_value(lsp_types::InitializeResult { capabilities, server_info: None }).ok()
}

/// What this server announces: it wants the whole text of documents, and has hover information,
/// completions that are asked for at a dot, and the semantic tokens of whole documents.
pub open spec fn announcement() -> JsonModel {
    initialize_result(
        TextSync::Full,
        true,
        seq!["."@],
        false,
        legend::token_type_names(),
        legend::token_modifier_names(),
        true,
    )
}

/// The result of an initialization.
pub fn capabilities() -> (value: Option<serde_json::Value>)
    ensures
        protocol::held(value) == Some(announcement()),
{
    let mut triggers: Vec<String> = Vec::new();
    triggers.push(".".to_string());
    assert(legend::texts(triggers@) =~= seq!["."@]);
    write_capabilities(TextSync::Full, true, triggers, false, legend(), true)
}

/// The value is the list of these texts, in their order.
pub open spec fn lists_texts(value: Option<JsonModel>, texts: Seq<Seq<char>>) -> bool {
    &&& value matches Some(JsonModel::Array(items))
    &&& items.len() == texts.len()
    &&& forall|i: int| 0 <= i < texts.len() ==> json::as_text(items[i]) == Some(#[trigger] texts[i])
}

/// Whatever is announced stands under its name in the protocol.
pub proof fn capabilities_stand_under_their_names(
    sync: TextSync,
    hover: bool,
    triggers: Seq<Seq<char>>,
    resolve: bool,
    token_types: Seq<Seq<char>>,
    token_modifiers: Seq<Seq<char>>,
    full: bool,
)
    ensures
        ({
            let result = initialize_result(
                sync,
                hover,
                triggers,
                resolve,
                token_types,
                token_modifiers,
                full,
            );
            &&& json::member(result, "capabilities"@) matches Some(announced)
            &&& json::member(announced, "textDocumentSync"@) matches Some(
                JsonModel::Number(NumberModel::Integer(kind)),
            ) && kind == match sync {
                TextSync::Off => 0int,
                TextSync::Full => 1,
                TextSync::Incremental => 2,
            }
            &&& json::member(announced, "hoverProvider"@) == Some(JsonModel::Bool(hover))
            &&& json::member(announced, "completionProvider"@) matches Some(completion)
            &&& lists_texts(json::member(completion, "triggerCharacters"@), triggers)
            &&& json::member(completion, "resolveProvider"@) == Some(JsonModel::Bool(resolve))
            &&& json::member(announced, "semanticTokensProvider"@) matches Some(tokens)
            &&& json::member(tokens, "full"@) == Some(JsonModel::Bool(full))
            &&& json::member(tokens, "legend"@) matches Some(names)
            &&& lists_texts(json::member(names, "tokenTypes"@), token_types)
            &&& lists_texts(json::member(names, "tokenModifiers"@), token_modifiers)
        }),
{
    capability_names_are_told_apart();
}

/// The server announces that it wants the whole text of documents, that it has hover information,
/// that it completes at a dot and has no more to tell of a completion, and that it has the semantic
/// tokens of whole documents, with the names of the types and modifiers that its tokens count by.
pub proof fn server_announces_its_features()
    ensures
        ({
            &&& json::member(announcement(), "capabilities"@) matches Some(announced)
            &&& json::member(announced, "textDocumentSync"@) == Some(
                JsonModel::Number(NumberModel::Integer(1)),
            )
            &&& json::member(announced, "hoverProvider"@) == Some(JsonModel::Bool(true))
            &&& json::member(announced, "completionProvider"@) matches Some(completion)
            &&& lists_texts(json::member(completion, "triggerCharacters"@), seq![seq!['.']])
            &&& json::member(completion, "resolveProvider"@) == Some(JsonModel::Bool(false))
            &&& json::member(announced, "semanticTokensProvider"@) matches Some(tokens)
            &&& json::member(tokens, "full"@) == Some(JsonModel::Bool(true))
            &&& json::member(tokens, "legend"@) matches Some(names)
            &&& lists_texts(json::member(names, "tokenTypes"@), legend::token_type_names())
            &&& lists_texts(json::member(names, "tokenModifiers"@), legend::token_modifier_names())
        }),
{
    capabilities_stand_under_their_names(
        TextSync::Full,
        true,
        seq!["."@],
        false,
        legend::token_type_names(),
        legend::token_modifier_names(),
        true,
    );
    reveal_strlit(".");
    assert("."@ =~= seq!['.']);
}

proof fn capability_names_are_told_apart()
    ensures
        "textDocumentSync"@ != "hoverProvider"@,
        "textDocumentSync"@ != "completionProvider"@,
        "textDocumentSync"@ != "semanticTokensProvider"@,
        "hoverProvider"@ != "completionProvider"@,
        "hoverProvider"@ != "semanticTokensProvider"@,
        "completionProvider"@ != "semanticTokensProvider"@,
        "triggerCharacters"@ != "resolveProvider"@,
        "tokenTypes"@ != "tokenModifiers"@,
        "legend"@ != "full"@,
{
    reveal_strlit("textDocumentSync");
    reveal_strlit("hoverProvider");
    reveal_strlit("completionProvider");
    reveal_strlit("semanticTokensProvider");
    reveal_strlit("triggerCharacters");
    reveal_strlit("resolveProvider");
    reveal_strlit("tokenTypes");
    reveal_strlit("tokenModifiers");
    reveal_strlit("legend");
    reveal_strlit("full");
    assert("textDocumentSync"@.len() == 16 && "hoverProvider"@.len() == 13);
    assert("completionProvider"@.len() == 18 && "semanticTokensProvider"@.len() == 22);
    assert("triggerCharacters"@.len() == 17 && "resolveProvider"@.len() == 15);
    assert("tokenTypes"@.len() == 10 && "tokenModifiers"@.len() == 14);
    assert("legend"@.len() == 6 && "full"@.len() == 4);
}

} // verus!

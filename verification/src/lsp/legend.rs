//! The names under which token types and modifiers are announced to clients.

use super::token_modifiers;
use super::token_types;
use vstd::prelude::*;

verus! {

#[verifier::external_type_specification]
#[verifier::external_body]
pub struct ExSemanticTokensLegend(lsp_types::SemanticTokensLegend);

/// The names of the token types in a `lsp_types::SemanticTokensLegend`. A token names its type by
/// the index in this list.
pub uninterp spec fn type_names(legend: lsp_types::SemanticTokensLegend) -> Seq<Seq<char>>;

/// The names of the token modifiers in a `lsp_types::SemanticTokensLegend`. A token has one bit for
/// each entry of this list.
pub uninterp spec fn modifier_names(legend: lsp_types::SemanticTokensLegend) -> Seq<Seq<char>>;

/// The texts of a list of strings.
pub open spec fn texts(strings: Seq<String>) -> Seq<Seq<char>> {
    strings.map_values(|string: String| string@)
}

/// Makes a `lsp_types::SemanticTokensLegend` of its two lists, each name converted to the type that
/// the list is of. The contract claims that the names stay as they are.
#[verifier::external_body]
fn new_legend(types: Vec<String>, modifiers: Vec<String>) -> (legend:
    lsp_types::SemanticTokensLegend)
    ensures
        type_names(legend) == texts(types@),
        modifier_names(legend) == texts(modifiers@),
{
    lsp_types::SemanticTokensLegend {
        token_types: types.into_iter().map(lsp_types::SemanticTokenType::from).collect(),
        token_modifiers: modifiers.into_iter().map(lsp_types::SemanticTokenModifier::from).collect(),
    }
}

/// The token types of the language server protocol that CEL tokens have.
#[derive(Debug, Clone, Copy)]
pub enum StandardType {
    Keyword,
    Number,
    String,
    Operator,
    Variable,
    Function,
    Method,
}

impl StandardType {
    /// The name of the type in the protocol.
    pub open spec fn text(self) -> Seq<char> {
        match self {
            StandardType::Keyword => "keyword"@,
            StandardType::Number => "number"@,
            StandardType::String => "string"@,
            StandardType::Operator => "operator"@,
            StandardType::Variable => "variable"@,
            StandardType::Function => "function"@,
            StandardType::Method => "method"@,
        }
    }
}

/// The constants of `lsp_types::SemanticTokenType`, read with its `as_str`. The contract claims
/// that each holds the name that the protocol gives to the type.
#[verifier::external_body]
fn standard_type(standard: StandardType) -> (name: String)
    ensures
        name@ == standard.text(),
{
    match standard {
        StandardType::Keyword => lsp_types::SemanticTokenType::KEYWORD,
        StandardType::Number => lsp_types::SemanticTokenType::NUMBER,
        StandardType::String => lsp_types::SemanticTokenType::STRING,
        StandardType::Operator => lsp_types::SemanticTokenType::OPERATOR,
        StandardType::Variable => lsp_types::SemanticTokenType::VARIABLE,
        StandardType::Function => lsp_types::SemanticTokenType::FUNCTION,
        StandardType::Method => lsp_types::SemanticTokenType::METHOD,
    }.as_str().to_string()
}

/// The constant `lsp_types::SemanticTokenModifier::DEFAULT_LIBRARY`, read with its `as_str`. The
/// contract claims that it holds the name of the modifier in the protocol.
#[verifier::external_body]
fn default_library() -> (name: String)
    ensures
        name@ == "defaultLibrary"@,
{
    lsp_types::SemanticTokenModifier::DEFAULT_LIBRARY.as_str().to_string()
}

/// The names of the token types, each at its index.
pub open spec fn token_type_names() -> Seq<Seq<char>> {
    seq![
        "keyword"@,
        "number"@,
        "string"@,
        "operator"@,
        "variable"@,
        "function"@,
        "method"@,
        "punctuation"@,
    ]
}

/// The names of the token modifiers, each at its bit.
pub open spec fn token_modifier_names() -> Seq<Seq<char>> {
    seq!["defaultLibrary"@]
}

/// Every token type stands in the legend at its index, and every modifier at its bit.
pub proof fn legend_is_in_order()
    ensures
        token_type_names()[token_types::KEYWORD as int] == "keyword"@,
        token_type_names()[token_types::NUMBER as int] == "number"@,
        token_type_names()[token_types::STRING as int] == "string"@,
        token_type_names()[token_types::OPERATOR as int] == "operator"@,
        token_type_names()[token_types::VARIABLE as int] == "variable"@,
        token_type_names()[token_types::FUNCTION as int] == "function"@,
        token_type_names()[token_types::METHOD as int] == "method"@,
        token_type_names()[token_types::PUNCTUATION as int] == "punctuation"@,
        token_type_names().len() == token_types::PUNCTUATION + 1,
        token_modifier_names()[0] == "defaultLibrary"@,
        token_modifiers::DEFAULT_LIBRARY == 1u32 << 0u32,
{
    assert(1u32 == 1u32 << 0u32) by (bit_vector);
}

/// The legend for the tokens of this library.
pub fn legend() -> (legend: lsp_types::SemanticTokensLegend)
    ensures
        type_names(legend) == token_type_names(),
        modifier_names(legend) == token_modifier_names(),
{
    let mut names: Vec<String> = Vec::new();
    names.push(standard_type(StandardType::Keyword));
    names.push(standard_type(StandardType::Number));
    names.push(standard_type(StandardType::String));
    names.push(standard_type(StandardType::Operator));
    names.push(standard_type(StandardType::Variable));
    names.push(standard_type(StandardType::Function));
    names.push(standard_type(StandardType::Method));
    names.push("punctuation".to_string());
    let mut modifiers: Vec<String> = Vec::new();
    modifiers.push(default_library());
    assert(texts(names@) =~= token_type_names());
    assert(texts(modifiers@) =~= token_modifier_names());
    new_legend(names, modifiers)
}

} // verus!

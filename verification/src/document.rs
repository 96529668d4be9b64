//! What is known of a document.

use crate::line_index::LineIndex;
use crate::syntax::SpannedExpr;
use crate::text;
use std::collections::HashMap;
use std::sync::Arc;
use vstd::prelude::*;
use vstd::utf8::*;

verus! {

#[verifier::external_type_specification]
#[verifier::external_body]
pub struct ExParseError(cel_core::ParseError);

#[verifier::external_type_specification]
#[verifier::external_body]
pub struct ExCheckError(cel_core::CheckError);

#[verifier::external_type_specification]
#[verifier::external_body]
pub struct ExReferenceInfo(cel_core::ReferenceInfo);

/// What type checking an expression found: errors, and for each node the type and, where it refers
/// to a variable or function, what it refers to.
pub struct CheckResult {
    pub errors: Vec<cel_core::CheckError>,
    pub type_map: HashMap<i64, cel_core::CelType>,
    pub reference_map: HashMap<i64, cel_core::ReferenceInfo>,
}

/// A document that holds one CEL expression.
pub struct DocumentState {
    pub line_index: LineIndex,
    pub version: i32,
    /// The expression, if it could be parsed.
    pub ast: Option<SpannedExpr>,
    pub errors: Vec<cel_core::ParseError>,
    pub check_result: Option<CheckResult>,
    /// The environment that the expression was checked in.
    pub env: Arc<cel_core::Env>,
}

/// The document is `text` in a version, analyzed in an environment.
pub open spec fn is_analyzed(
    state: DocumentState,
    text: Seq<char>,
    version: i32,
    env: cel_core::Env,
) -> bool {
    &&& state.line_index.text() == text
    &&& state.version == version
    &&& *state.env == env
}

/// The document for `text`, with what parsing and checking it in `env` found.
pub fn analyzed(
    text: String,
    version: i32,
    env: Arc<cel_core::Env>,
    ast: Option<SpannedExpr>,
    errors: Vec<cel_core::ParseError>,
    check_result: Option<CheckResult>,
) -> (state: DocumentState)
    ensures
        is_analyzed(state, text@, version, *env),
        state.env == env,
        state.ast == ast,
        state.errors == errors,
        state.check_result == check_result,
{
    DocumentState { line_index: LineIndex::new(text), version, ast, errors, check_result, env }
}

/// A CEL expression in a document of another language.
pub struct RegionState {
    source: String,
    ast: Option<SpannedExpr>,
    to_host: Vec<usize>,
}

impl RegionState {
    /// The text of the expression.
    pub closed spec fn text(&self) -> Seq<char> {
        self.source@
    }

    /// The bytes of the expression.
    pub open spec fn bytes(&self) -> Seq<u8> {
        encode_utf8(self.text())
    }

    /// The expression, if it could be parsed.
    pub closed spec fn tree(&self) -> Option<SpannedExpr> {
        self.ast
    }

    /// For each offset into the expression, the offset into the document.
    pub closed spec fn host_offsets(&self) -> Seq<usize> {
        self.to_host@
    }

    /// Every byte of the expression has a place in the document.
    #[verifier::type_invariant]
    spec fn is_mapped(self) -> bool {
        encode_utf8(self.source@).len() <= self.to_host@.len()
    }

    /// A region with the text `source`, whose byte `i` stands in the document at `to_host[i]`.
    /// There is none if some byte has no place in the document.
    pub fn new(source: String, ast: Option<SpannedExpr>, to_host: Vec<usize>) -> (region: Option<
        Self,
    >)
        ensures
            match region {
                Some(region) => {
                    &&& text::byte_count(source@) <= to_host@.len()
                    &&& region.text() == source@
                    &&& region.tree() == ast
                    &&& region.host_offsets() == to_host@
                },
                None => to_host@.len() < text::byte_count(source@),
            },
    {
        if text::byte_len(source.as_str()) <= to_host.len() {
            Some(RegionState { source, ast, to_host })
        } else {
            None
        }
    }

    /// The text of the expression.
    pub fn source(&self) -> (source: &str)
        ensures
            source@ == self.text(),
    {
        self.source.as_str()
    }

    /// The expression, if it could be parsed.
    pub fn ast(&self) -> (ast: Option<&SpannedExpr>)
        ensures
            match ast {
                Some(ast) => self.tree() == Some(*ast),
                None => self.tree() is None,
            },
    {
        match &self.ast {
            Some(ast) => Some(ast),
            None => None,
        }
    }

    /// The offset into the document of a byte of the expression.
    pub fn to_host(&self, offset: usize) -> (host_offset: usize)
        requires
            offset < self.bytes().len(),
        ensures
            host_offset == self.host_offsets()[offset as int],
    {
        proof {
            use_type_invariant(self);
        }
        self.to_host[offset]
    }
}

/// A protocol buffer definition with CEL expressions in it.
pub struct ProtoDocumentState {
    pub line_index: LineIndex,
    pub version: i32,
    pub regions: Vec<RegionState>,
}

/// A document of either kind.
pub enum DocumentKind {
    Cel(DocumentState),
    Proto(ProtoDocumentState),
}

} // verus!

//! The state of a language server.
//!
//! `P` stands for the paths of the file system, and `R` for the registries of protocol buffer types
//! that a workspace provides.

use crate::document::{CheckResult, DocumentKind, ProtoDocumentState};
use crate::documents::Documents;
use crate::line_index::LineIndex;
use crate::lsp::encoding::SemanticToken;
use crate::lsp::proto_tokens;
use crate::lsp::proto_tokens::tokens_for_proto;
use crate::lsp::semantic_tokens;
use crate::lsp::semantic_tokens::tokens_for_ast;
use crate::syntax::SpannedExpr;
use std::sync::Arc;
use vstd::prelude::*;

verus! {

/// What a workspace provides.
pub struct Workspace<P, R> {
    pub root: P,
    pub proto_registry: Option<R>,
    pub env: Arc<cel_core::Env>,
}

/// What a request for hover information is about.
pub enum HoverTarget<'a> {
    /// An expression.
    Cel {
        line_index: &'a LineIndex,
        ast: &'a SpannedExpr,
        check_result: &'a Option<CheckResult>,
    },
    /// A protocol buffer definition.
    Proto(&'a ProtoDocumentState),
}

/// What a request for completions is about.
pub enum CompletionTarget<'a> {
    /// An expression, whose text the line index holds.
    Cel { line_index: &'a LineIndex, env: &'a Arc<cel_core::Env> },
    /// A protocol buffer definition.
    Proto(&'a ProtoDocumentState),
}

/// Holds the open documents, and what the workspace provides.
pub struct Backend<P, R> {
    pub documents: Documents<DocumentKind>,
    /// The root of the workspace, once it is known.
    pub workspace_root: Option<P>,
    /// The registry of the workspace, once it is known whether there is one.
    pub proto_registry: Option<Option<R>>,
    /// The environment of the workspace, once it is known.
    pub env: Option<Arc<cel_core::Env>>,
}

/// A value that is set at most once, after an attempt to set it to `value`.
pub open spec fn set_once<T>(slot: Option<T>, value: T) -> Option<T> {
    match slot {
        Some(_) => slot,
        None => Some(value),
    }
}

/// The root of a workspace: its first folder, or else the root that the client named. Folders and
/// roots that are no place in the file system do not count.
pub open spec fn chosen_root<P>(folders: Seq<Option<P>>, root: Option<P>) -> Option<P> {
    if folders.len() > 0 && folders[0] is Some {
        folders[0]
    } else {
        root
    }
}

/// Chooses the root of a workspace.
pub fn choose_root<P>(folders: Vec<Option<P>>, root: Option<P>) -> (chosen: Option<P>)
    ensures
        chosen == chosen_root(folders@, root),
{
    let mut folders = folders;
    if folders.len() > 0 {
        let first = folders.swap_remove(0);
        if first.is_some() {
            return first;
        }
    }
    root
}

/// The text of the first of several changes.
pub fn first_change(changes: Vec<String>) -> (change: Option<String>)
    ensures
        match change {
            Some(change) => changes@.len() > 0 && change@ == changes@[0]@,
            None => changes@.len() == 0,
        },
{
    let mut changes = changes;
    if changes.len() > 0 {
        Some(changes.swap_remove(0))
    } else {
        None
    }
}

/// The version of a document.
pub open spec fn version_of(document: DocumentKind) -> i32 {
    match document {
        DocumentKind::Cel(state) => state.version,
        DocumentKind::Proto(state) => state.version,
    }
}

/// The version of a document.
pub fn document_version(document: &DocumentKind) -> (version: i32)
    ensures
        version == version_of(*document),
{
    match document {
        DocumentKind::Cel(state) => state.version,
        DocumentKind::Proto(state) => state.version,
    }
}

/// The semantic tokens of a document, none for an expression that could not be parsed.
pub open spec fn document_tokens(document: DocumentKind) -> Option<Seq<SemanticToken>> {
    match document {
        DocumentKind::Cel(state) => match state.ast {
            Some(ast) => Some(semantic_tokens::ast_tokens(state.line_index.bytes(), ast)),
            None => None,
        },
        DocumentKind::Proto(state) => Some(proto_tokens::proto_tokens(state)),
    }
}

/// What a request for hover information about a document is about: the document, unless it is an
/// expression that could not be parsed.
pub open spec fn is_hover_target(target: Option<HoverTarget>, document: DocumentKind) -> bool {
    match document {
        DocumentKind::Cel(state) => match state.ast {
            Some(tree) => target matches Some(HoverTarget::Cel { line_index, ast, check_result })
                && *line_index == state.line_index && *ast == tree && *check_result
                == state.check_result,
            None => target is None,
        },
        DocumentKind::Proto(state) => target matches Some(HoverTarget::Proto(s)) && *s == state,
    }
}

/// What a request for completions in a document is about: the document, whether it could be parsed
/// or not.
pub open spec fn is_completion_target(
    target: Option<CompletionTarget>,
    document: DocumentKind,
) -> bool {
    match document {
        DocumentKind::Cel(state) => target matches Some(CompletionTarget::Cel { line_index, env })
            && *line_index == state.line_index && *env == state.env,
        DocumentKind::Proto(state) => target matches Some(CompletionTarget::Proto(s)) && *s
            == state,
    }
}

impl<P, R> Backend<P, R> {
    /// A server without documents, before its initialization.
    pub fn new() -> (backend: Self)
        ensures
            backend.documents@ == Map::<Seq<char>, DocumentKind>::empty(),
            backend.workspace_root is None,
            backend.proto_registry is None,
            backend.env is None,
    {
        Backend {
            documents: Documents::new(),
            workspace_root: None,
            proto_registry: None,
            env: None,
        }
    }

    /// Takes what the workspace provides, unless it is already known.
    pub fn initialize(&mut self, workspace: Option<Workspace<P, R>>)
        ensures
            final(self).documents@ == old(self).documents@,
            match workspace {
                Some(workspace) => {
                    &&& final(self).workspace_root == set_once(
                        old(self).workspace_root,
                        workspace.root,
                    )
                    &&& final(self).proto_registry == set_once(
                        old(self).proto_registry,
                        workspace.proto_registry,
                    )
                    &&& final(self).env == set_once(old(self).env, workspace.env)
                },
                None => {
                    &&& final(self).workspace_root == old(self).workspace_root
                    &&& final(self).proto_registry == set_once(old(self).proto_registry, None)
                    &&& final(self).env == old(self).env
                },
            },
    {
        match workspace {
            Some(workspace) => {
                if self.workspace_root.is_none() {
                    self.workspace_root = Some(workspace.root);
                }
                if self.proto_registry.is_none() {
                    self.proto_registry = Some(workspace.proto_registry);
                }
                if self.env.is_none() {
                    self.env = Some(workspace.env);
                }
            },
            None => {
                if self.proto_registry.is_none() {
                    self.proto_registry = Some(None);
                }
            },
        }
    }

    /// The registry that documents are analyzed with.
    pub fn registry(&self) -> (registry: Option<&R>)
        ensures
            match registry {
                Some(registry) => self.proto_registry == Some(Some(*registry)),
                None => self.proto_registry is None || self.proto_registry == Some(None::<R>),
            },
    {
        match &self.proto_registry {
            Some(Some(registry)) => Some(registry),
            _ => None,
        }
    }

    /// What a request for hover information is about, nothing if the document is not open.
    pub fn hover_target(&self, uri: &str) -> (target: Option<HoverTarget<'_>>)
        ensures
            if self.documents@.contains_key(uri@) {
                is_hover_target(target, self.documents@[uri@])
            } else {
                target is None
            },
    {
        match self.documents.get(uri) {
            Some(DocumentKind::Cel(state)) => match &state.ast {
                Some(ast) => Some(
                    HoverTarget::Cel {
                        line_index: &state.line_index,
                        ast,
                        check_result: &state.check_result,
                    },
                ),
                None => None,
            },
            Some(DocumentKind::Proto(state)) => Some(HoverTarget::Proto(state)),
            None => None,
        }
    }

    /// What a request for completions is about, nothing if the document is not open.
    pub fn completion_target(&self, uri: &str) -> (target: Option<CompletionTarget<'_>>)
        ensures
            if self.documents@.contains_key(uri@) {
                is_completion_target(target, self.documents@[uri@])
            } else {
                target is None
            },
    {
        match self.documents.get(uri) {
            Some(DocumentKind::Cel(state)) => Some(
                CompletionTarget::Cel { line_index: &state.line_index, env: &state.env },
            ),
            Some(DocumentKind::Proto(state)) => Some(CompletionTarget::Proto(state)),
            None => None,
        }
    }

    /// The semantic tokens of a document, none if it is not open.
    pub fn semantic_tokens_full(&self, uri: &str) -> (tokens: Option<Vec<SemanticToken>>)
        ensures
            match tokens {
                Some(tokens) => self.documents@.contains_key(uri@) && document_tokens(
                    self.documents@[uri@],
                ) == Some(tokens@),
                None => self.documents@.contains_key(uri@) ==> document_tokens(
                    self.documents@[uri@],
                ) is None,
            },
    {
        match self.documents.get(uri) {
            Some(DocumentKind::Cel(state)) => match &state.ast {
                Some(ast) => Some(tokens_for_ast(&state.line_index, ast)),
                None => None,
            },
            Some(DocumentKind::Proto(state)) => Some(tokens_for_proto(state)),
            None => None,
        }
    }
}

/// A value that is set at most once keeps its first setting, so that only the first of several
/// initializations counts.
pub proof fn first_setting_counts<T>(slot: Option<T>, first: T, second: T)
    ensures
        set_once(set_once(slot, first), second) == set_once(slot, first),
{
}

/// A value that is not set yet takes the first setting, and one that is set keeps its value.
pub proof fn unset_values_are_set<T>(kept: T, value: T)
    ensures
        set_once(None, value) == Some(value),
        set_once(Some(kept), value) == Some(kept),
{
}

/// The first folder is the root if it is a place, whatever else there is. If it is none, or there is
/// no folder, the root is the one that the client named, if it named one: further folders do not
/// count.
pub proof fn first_folder_is_the_root<P>(folder: P, others: Seq<Option<P>>, root: Option<P>)
    ensures
        chosen_root(seq![Some(folder)] + others, root) == Some(folder),
        chosen_root(seq![None] + others, root) == root,
        chosen_root(seq![], root) == root,
{
    assert((seq![Some(folder)] + others)[0] == Some(folder));
    assert((seq![None] + others)[0] == None::<P>);
}

/// The document is an expression that could be parsed.
pub open spec fn is_parsed(document: DocumentKind) -> bool {
    match document {
        DocumentKind::Cel(state) => state.ast is Some,
        DocumentKind::Proto(_) => false,
    }
}

/// Hover information and semantic tokens can be had of the same documents: of protocol buffer
/// definitions, and of expressions that could be parsed. Completions can be had of all.
pub proof fn features_depend_on_parsing(
    document: DocumentKind,
    hover: Option<HoverTarget>,
    completion: Option<CompletionTarget>,
)
    requires
        is_hover_target(hover, document),
        is_completion_target(completion, document),
    ensures
        hover is Some == (document is Proto || is_parsed(document)),
        document_tokens(document) is Some == (document is Proto || is_parsed(document)),
        completion is Some,
{
}

/// What a request is about is the state of the document itself: for an expression its text, its
/// tree, what checking found out and the environment, and for a protocol buffer definition all of
/// it.
pub proof fn targets_are_the_document(
    document: DocumentKind,
    hover: Option<HoverTarget>,
    completion: Option<CompletionTarget>,
)
    requires
        is_hover_target(hover, document),
        is_completion_target(completion, document),
    ensures
        document matches DocumentKind::Cel(state) ==> {
            &&& hover matches Some(target) ==> {
                &&& target matches HoverTarget::Cel { line_index, ast, check_result }
                &&& *line_index == state.line_index
                &&& Some(*ast) == state.ast
                &&& *check_result == state.check_result
            }
            &&& completion matches Some(CompletionTarget::Cel { line_index, env })
            &&& *line_index == state.line_index
            &&& *env == state.env
            &&& version_of(document) == state.version
            &&& state.ast matches Some(ast) ==> document_tokens(document) == Some(
                semantic_tokens::ast_tokens(state.line_index.bytes(), ast),
            )
        },
        document matches DocumentKind::Proto(state) ==> {
            &&& hover matches Some(HoverTarget::Proto(s)) && *s == state
            &&& completion matches Some(CompletionTarget::Proto(s)) && *s == state
            &&& version_of(document) == state.version
            &&& document_tokens(document) == Some(proto_tokens::proto_tokens(state))
        },
{
}

} // verus!

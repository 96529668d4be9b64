use celsp::backend::{
    choose_root, document_version, first_change, Backend, CompletionTarget, HoverTarget, Workspace,
};
use celsp::document::{DocumentKind, DocumentState, ProtoDocumentState, RegionState};
use celsp::documents::Documents;
use celsp::line_index::LineIndex;
use celsp::lsp::proto_tokens::tokens_for_proto;
use celsp::lsp::token_types;
use celsp::syntax::{Expr, Span, SpannedExpr};
use std::sync::Arc;

fn ident(name: &str, start: usize) -> SpannedExpr {
    SpannedExpr {
        id: 1,
        node: Expr::Ident(name.to_string()),
        span: Span { start, end: start + name.len() },
    }
}

fn cel(source: &str, parses: bool, version: i32) -> DocumentKind {
    DocumentKind::Cel(DocumentState {
        line_index: LineIndex::new(source.to_string()),
        version,
        ast: if parses { Some(ident(source, 0)) } else { None },
        errors: Vec::new(),
        check_result: None,
        env: Arc::new(cel_core::Env::new()),
    })
}

fn proto(host: &str, regions: Vec<RegionState>, version: i32) -> ProtoDocumentState {
    ProtoDocumentState { line_index: LineIndex::new(host.to_string()), version, regions }
}

fn region(source: &str, at: usize) -> RegionState {
    let to_host = (at..at + source.len()).collect();
    RegionState::new(source.to_string(), Some(ident(source, 0)), to_host).unwrap()
}

#[test]
fn the_first_folder_is_the_root() {
    let path = |s: &str| Some(s.to_string());
    assert_eq!(choose_root(vec![path("a"), path("b")], path("c")), path("a"));
    assert_eq!(choose_root(vec![None, path("b")], path("c")), path("c"));
    assert_eq!(choose_root(vec![], path("c")), path("c"));
    assert_eq!(choose_root(vec![None], None::<String>), None);
}

#[test]
fn the_first_change_counts() {
    let changes = vec!["a".to_string(), "b".to_string()];
    assert_eq!(first_change(changes), Some("a".to_string()));
    assert_eq!(first_change(vec![]), None);
}

#[test]
fn only_the_first_initialization_counts() {
    let mut backend: Backend<&str, u32> = Backend::new();
    assert!(backend.registry().is_none());
    assert!(backend.env.is_none());
    let workspace = |root, registry, name: &str| Workspace {
        root,
        proto_registry: registry,
        env: Arc::new(cel_core::Env::new().with_variable(name, cel_core::CelType::Int)),
    };
    backend.initialize(Some(workspace("a", Some(1), "x")));
    backend.initialize(Some(workspace("b", Some(2), "y")));
    backend.initialize(None);
    assert_eq!(backend.workspace_root, Some("a"));
    assert_eq!(backend.registry(), Some(&1));
    assert!(backend.env.as_ref().unwrap().variables().contains_key("x"));
}

#[test]
fn a_workspace_may_be_missing() {
    let mut backend: Backend<&str, u32> = Backend::new();
    backend.initialize(None);
    assert_eq!(backend.workspace_root, None);
    assert_eq!(backend.proto_registry, Some(None));
    backend.initialize(Some(Workspace {
        root: "a",
        proto_registry: Some(1),
        env: Arc::new(cel_core::Env::new()),
    }));
    assert_eq!(backend.workspace_root, Some("a"));
    assert_eq!(backend.registry(), None);
    assert!(backend.env.is_some());
}

#[test]
fn documents_are_opened_replaced_and_closed() {
    let mut documents: Documents<u32> = Documents::new();
    assert_eq!(documents.get("a"), None);
    documents.open("a".to_string(), 1);
    documents.open("b".to_string(), 2);
    documents.open("a".to_string(), 3);
    assert_eq!(documents.get("a"), Some(&3));
    assert_eq!(documents.get("b"), Some(&2));
    documents.close("a");
    assert_eq!(documents.get("a"), None);
    assert_eq!(documents.get("b"), Some(&2));
    documents.close("c");
    assert_eq!(documents.get("b"), Some(&2));
}

#[test]
fn tokens_of_open_documents() {
    let mut backend: Backend<&str, u32> = Backend::new();
    backend.documents.open("cel".to_string(), cel("abc", true, 1));
    backend.documents.open("broken".to_string(), cel("abc", false, 1));
    let state = proto("  x", vec![region("x", 2)], 1);
    backend.documents.open("proto".to_string(), DocumentKind::Proto(state));
    let tokens = backend.semantic_tokens_full("cel").unwrap();
    assert_eq!((tokens.len(), tokens[0].length), (1, 3));
    assert!(backend.semantic_tokens_full("broken").is_none());
    let tokens = backend.semantic_tokens_full("proto").unwrap();
    assert_eq!((tokens.len(), tokens[0].delta_start), (1, 2));
    assert!(backend.semantic_tokens_full("other").is_none());
    backend.documents.close("cel");
    assert!(backend.semantic_tokens_full("cel").is_none());
}

#[test]
fn hover_targets_need_an_expression() {
    let mut backend: Backend<&str, u32> = Backend::new();
    backend.documents.open("cel".to_string(), cel("abc", true, 1));
    backend.documents.open("broken".to_string(), cel("abc", false, 1));
    backend.documents.open("proto".to_string(), DocumentKind::Proto(proto("", vec![], 1)));
    match backend.hover_target("cel") {
        Some(HoverTarget::Cel { line_index, ast, check_result }) => {
            assert_eq!(line_index.source(), "abc");
            assert_eq!(ast.span.end, 3);
            assert!(check_result.is_none());
        }
        _ => panic!("no target"),
    }
    assert!(backend.hover_target("broken").is_none());
    assert!(matches!(backend.hover_target("proto"), Some(HoverTarget::Proto(_))));
    assert!(backend.hover_target("other").is_none());
}

#[test]
fn completion_targets_need_no_expression() {
    let mut backend: Backend<&str, u32> = Backend::new();
    backend.documents.open("broken".to_string(), cel("abc", false, 1));
    backend.documents.open("proto".to_string(), DocumentKind::Proto(proto("", vec![], 1)));
    match backend.completion_target("broken") {
        Some(CompletionTarget::Cel { line_index, .. }) => assert_eq!(line_index.source(), "abc"),
        _ => panic!("no target"),
    }
    assert!(matches!(backend.completion_target("proto"), Some(CompletionTarget::Proto(_))));
    assert!(backend.completion_target("other").is_none());
}

#[test]
fn documents_of_both_kinds_have_versions() {
    assert_eq!(document_version(&cel("a", true, 3)), 3);
    assert_eq!(document_version(&DocumentKind::Proto(proto("", vec![], 4))), 4);
}

#[test]
fn regions_must_be_mapped() {
    assert!(RegionState::new("ab".to_string(), None, vec![1]).is_none());
    let region = RegionState::new("ab".to_string(), None, vec![4, 7]).unwrap();
    assert_eq!(region.source(), "ab");
    assert!(region.ast().is_none());
    assert_eq!(region.to_host(0), 4);
    assert_eq!(region.to_host(1), 7);
}

#[test]
fn tokens_of_regions_stand_in_the_document() {
    // The regions come in another order than they stand in the document.
    let host = "line\n  abc\n de";
    let broken = RegionState::new("+".to_string(), None, vec![0]).unwrap();
    let state = proto(host, vec![region("de", 12), broken, region("abc", 7)], 1);
    let tokens = tokens_for_proto(&state);
    let described: Vec<(u32, u32, u32, u32)> =
        tokens.iter().map(|t| (t.delta_line, t.delta_start, t.length, t.token_type)).collect();
    assert_eq!(
        described,
        vec![(1, 2, 3, token_types::VARIABLE), (1, 1, 2, token_types::VARIABLE)]
    );
}

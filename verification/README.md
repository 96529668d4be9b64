# celsp

Language features for expressions in the Common Expression Language (CEL), verified with
[Verus](https://github.com/verus-lang/verus).

The library in `src/` holds what a CEL language server decides and computes:

- `lsp/highlight.rs` says which semantic tokens an expression has, `lsp/semantic_tokens.rs` collects
  them, `lsp/encoding.rs` sorts them and gives them relative positions, and `lsp/proto_tokens.rs` does
  so for expressions inside protocol buffer definitions. `lsp/legend.rs` and `lsp/capabilities.rs` say
  what is announced to clients.
- `type_parser.rs` reads types such as `map(string, list(int))`; `declarations.rs` reads types,
  variables and functions from JSON and declares them in an environment.
- `analyzer.rs` decides what a JSON-RPC message asks for and answers it, with the messages of
  `protocol.rs`.
- `backend.rs` keeps the state of a server: the documents of `documents.rs` and `document.rs`, and
  what the workspace provides.
- `line_index.rs`, `text.rs`, `syntax.rs` and `builtins.rs` are what the rest stands on.

Types and environments are those of `cel-core`, and JSON values those of `serde_json`. What is taken
from these crates without proof stands in `cel_types.rs`, `environment.rs`, `json.rs`, `protocol.rs`,
`lsp/legend.rs`, `lsp/capabilities.rs` and `text.rs`, each item with a comment that says what is
claimed of it.

`app/` connects the library to editors through tower-lsp and to JavaScript through wasm-bindgen. A
host installs its `Features`, which supply diagnostics, hover information, completions and the
settings of a workspace.

//! What the language server computes for its clients.

pub mod capabilities;
pub mod coverage;
pub mod encoding;
pub mod highlight;
pub mod legend;
pub mod proto_tokens;
pub mod semantic_tokens;
pub mod shown;
pub mod token_modifiers;
pub mod token_types;
pub mod written;

pub use legend::legend;
pub use proto_tokens::tokens_for_proto;
pub use semantic_tokens::tokens_for_ast;

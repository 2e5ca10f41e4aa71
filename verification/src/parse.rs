//! The parser: the cursor over a source text, its syntax errors and the
//! helpers that read whitespace, comments and identifiers.
pub use crate::lexer::{ident, is_whitespace, skip_space_and_comments};
pub use crate::source::Parser;
pub use crate::syntax_error::SyntaxError;

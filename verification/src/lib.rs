//! A mostly KDL compatible configuration parser.
//!
//! A configuration is a document of nodes. A node has a name, arguments,
//! properties and children:
//!
//! ```kdl
//! my_node properties_are_supported=#true {
//!     quoted-string "i am quoted"
//!     ident-string i_am_ident
//!     number 1
//! }
//! ```
//!
//! [`Document::from_str`] parses such a text, and the [`ParseConfigNode`] and
//! [`ParseConfigValue`] traits read nodes and values into types.
mod allowed;
mod case;
mod document;
mod error;
mod impls;
pub mod laws;
mod lexer;
mod node;
mod number;
mod parse_node;
mod parse_value;
mod source;
mod span;
mod syntax_error;
mod text;
mod traits;
mod value;

pub mod attributes;
pub mod derive;
pub mod parse;

pub use allowed::{AllowedNodeNames, NamesView};
pub use case::{pascal_to_kebab, push_kebab_piece};
pub use document::{from_str, Document};
pub use error::{ConfigError, ConfigErrorView};
pub use node::{value_eq, ConfigNode, NodeView};
pub use number::{
    float_literal_check, int_from_str_radix, FloatErrorKind, FloatParseError, IntErrorKind,
    IntParseError,
};
pub use source::Parser;
pub use span::{Span, Spanned};
pub use syntax_error::SyntaxError;
pub use traits::{ParseConfigNode, ParseConfigValue};
pub use value::{ConfigValue, ConfigValueType, ValueView};

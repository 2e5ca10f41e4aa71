//! The traits through which nodes and values are read into types.
use vstd::prelude::*;

use crate::allowed::{AllowedNodeNames, NamesView};
use crate::error::ConfigError;
use crate::node::ConfigNode;
use crate::span::Spanned;
use crate::value::ConfigValue;

verus! {

/// A type that can be read from a single value.
pub trait ParseConfigValue<'c>: Sized {
    fn consume_value(value: Spanned<ConfigValue<'c>>) -> Result<Self, ConfigError>;
}

/// A type that can be read from a node.
pub trait ParseConfigNode<'c>: Sized {
    /// Node names which this type can be parsed from.
    fn allowed_node_names() -> AllowedNodeNames;

    /// Consumes the node into this type.
    ///
    /// The parameter `terminate` indicates if the node should be terminated by the function.
    /// After a node is terminated it can't be consumed further anymore and an error is thrown if it
    /// was not fully consumed.
    fn consume_node(node: &mut ConfigNode<'c>, terminate: bool) -> Result<Self, ConfigError>;
}

/// `names` are node names that `T::allowed_node_names` returns.
pub open spec fn names_of<'c, T: ParseConfigNode<'c>>(names: NamesView) -> bool {
    exists|a: AllowedNodeNames| #[trigger] call_ensures(T::allowed_node_names, (), a) && a@ == names
}

} // verus!

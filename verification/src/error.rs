//! Errors raised while reading a configuration into types.
use vstd::prelude::*;

use crate::allowed::{spec_is_empty, spec_names_text, AllowedNodeNames};
use crate::node::ConfigNode;
use crate::span::{Span, Spanned};
use crate::syntax_error::SyntaxError;
use crate::text::{append_decimal, decimal};
use crate::value::{ConfigValue, ConfigValueType};

verus! {

/// An error while parsing a configuration or reading it into types.
#[allow(inconsistent_fields)]
#[derive(Debug, Clone, PartialEq, Eq)]
pub enum ConfigError {
    Syntax { inner: SyntaxError },
    Type { span: Span, expected: ConfigValueType, found: ConfigValueType },
    ExpectedChildren { parent: Span, node_names: String },
    ExpectedProperty { node: Span, prop_name: String },
    ExpectedArgument { node: Span, expected: usize, found: usize },
    TooManyArguments { arg: Span, expected: usize, found: usize },
    UnexpectedNodeExpect { span: Span, node_names: String },
    UnexpectedNode { span: Span },
    UnexpectedProperty { span: Span, prop_name: String },
    Message { span: Span, message: String },
}

/// The mathematical content of a [`ConfigError`].
#[allow(inconsistent_fields)]
pub enum ConfigErrorView {
    Syntax { inner: SyntaxError },
    Type { span: Span, expected: ConfigValueType, found: ConfigValueType },
    ExpectedChildren { parent: Span, node_names: Seq<char> },
    ExpectedProperty { node: Span, prop_name: Seq<char> },
    ExpectedArgument { node: Span, expected: usize, found: usize },
    TooManyArguments { arg: Span, expected: usize, found: usize },
    UnexpectedNodeExpect { span: Span, node_names: Seq<char> },
    UnexpectedNode { span: Span },
    UnexpectedProperty { span: Span, prop_name: Seq<char> },
    Message { span: Span, message: Seq<char> },
}

impl View for ConfigError {
    type V = ConfigErrorView;

    open spec fn view(&self) -> ConfigErrorView {
        match self {
            ConfigError::Syntax { inner } => ConfigErrorView::Syntax { inner: *inner },
            ConfigError::Type { span, expected, found } => ConfigErrorView::Type {
                span: *span,
                expected: *expected,
                found: *found,
            },
            ConfigError::ExpectedChildren { parent, node_names } => ConfigErrorView::ExpectedChildren {
                parent: *parent,
                node_names: node_names@,
            },
            ConfigError::ExpectedProperty { node, prop_name } => ConfigErrorView::ExpectedProperty {
                node: *node,
                prop_name: prop_name@,
            },
            ConfigError::ExpectedArgument { node, expected, found } => ConfigErrorView::ExpectedArgument {
                node: *node,
                expected: *expected,
                found: *found,
            },
            ConfigError::TooManyArguments { arg, expected, found } => ConfigErrorView::TooManyArguments {
                arg: *arg,
                expected: *expected,
                found: *found,
            },
            ConfigError::UnexpectedNodeExpect { span, node_names } => ConfigErrorView::UnexpectedNodeExpect {
                span: *span,
                node_names: node_names@,
            },
            ConfigError::UnexpectedNode { span } => ConfigErrorView::UnexpectedNode { span: *span },
            ConfigError::UnexpectedProperty { span, prop_name } => ConfigErrorView::UnexpectedProperty {
                span: *span,
                prop_name: prop_name@,
            },
            ConfigError::Message { span, message } => ConfigErrorView::Message {
                span: *span,
                message: message@,
            },
        }
    }
}

impl ConfigErrorView {
    /// The error message.
    pub open spec fn message(self) -> Seq<char> {
        match self {
            ConfigErrorView::Syntax { .. } => "Syntax error"@,
            ConfigErrorView::Type { expected, found, .. } => "Expected type "@ + expected.spec_name()
                + " but found "@ + found.spec_name(),
            ConfigErrorView::ExpectedChildren { node_names, .. } => "Expected one of the following node types are: "@
                + node_names,
            ConfigErrorView::ExpectedProperty { prop_name, .. } => "Missing property: "@ + prop_name
                + "."@,
            ConfigErrorView::ExpectedArgument { expected, found, .. } => "Expected at least "@
                + decimal(expected as nat) + " argument(s), found "@ + decimal(found as nat) + "."@,
            ConfigErrorView::TooManyArguments { expected, found, .. } => "Expected "@ + decimal(
                expected as nat,
            ) + " argument(s), found "@ + decimal(found as nat) + "."@,
            ConfigErrorView::UnexpectedNodeExpect { node_names, .. } => "Unexpected node type. Available node types are: "@
                + node_names,
            ConfigErrorView::UnexpectedNode { .. } => "Unexpected node."@,
            ConfigErrorView::UnexpectedProperty { prop_name, .. } => "Unexpected property: "@
                + prop_name + "."@,
            ConfigErrorView::Message { message, .. } => message,
        }
    }

    /// An error reporting that a required item (child, property or argument) is missing.
    pub open spec fn is_expect_item(self) -> bool {
        match self {
            ConfigErrorView::ExpectedChildren { .. } => true,
            ConfigErrorView::ExpectedProperty { .. } => true,
            ConfigErrorView::ExpectedArgument { .. } => true,
            _ => false,
        }
    }
}

/// The error for a node of a kind that is not expected here.
pub open spec fn spec_unexpected_node(node_name_span: Span, expected: crate::allowed::NamesView) -> ConfigErrorView {
    if spec_is_empty(expected) {
        ConfigErrorView::UnexpectedNode { span: node_name_span }
    } else {
        ConfigErrorView::UnexpectedNodeExpect {
            span: node_name_span,
            node_names: spec_names_text(expected),
        }
    }
}

impl ConfigError {
    /// A value of the wrong type.
    pub fn type_error<'c>(value: &Spanned<ConfigValue<'c>>, expected: ConfigValueType) -> (res: Self)
        ensures
            res@ == (ConfigErrorView::Type { span: value.span, expected, found: value@.inner.ty() }),
    {
        ConfigError::Type { span: value.span, expected, found: value.inner.ty() }
    }

    /// None of the children that `parent` needs is there.
    pub fn expected_children<'c>(parent: &ConfigNode<'c>, children: AllowedNodeNames) -> (res: Self)
        ensures
            res@ == (ConfigErrorView::ExpectedChildren {
                parent: parent@.name.span,
                node_names: spec_names_text(children@),
            }),
    {
        ConfigError::ExpectedChildren { parent: parent.name_span(), node_names: children.to_string() }
    }

    /// The property `property` of `node` is missing.
    pub fn expected_property<'c>(node: &ConfigNode<'c>, property: &str) -> (res: Self)
        ensures
            res@ == (ConfigErrorView::ExpectedProperty {
                node: node@.name.span,
                prop_name: property@,
            }),
    {
        ConfigError::ExpectedProperty { node: node.name_span(), prop_name: String::from_str(property) }
    }

    /// `node` has no argument left.
    pub fn expected_argument<'c>(node: &ConfigNode<'c>) -> (res: Self)
        requires
            node@.argument_count < usize::MAX,
        ensures
            res@ == (ConfigErrorView::ExpectedArgument {
                node: node@.name.span,
                expected: (node@.argument_count + 1) as usize,
                found: node@.argument_count as usize,
            }),
    {
        let count = node.argument_total();
        ConfigError::ExpectedArgument { node: node.name_span(), expected: count + 1, found: count }
    }

    /// `node` is of a kind that is not expected here; `expected` are the kinds that are.
    pub fn unexpected_node<'c>(node: &ConfigNode<'c>, expected: AllowedNodeNames) -> (res: Self)
        ensures
            res@ == spec_unexpected_node(node@.name.span, expected@),
    {
        if expected.is_empty() {
            ConfigError::UnexpectedNode { span: node.name_span() }
        } else {
            ConfigError::UnexpectedNodeExpect {
                span: node.name_span(),
                node_names: expected.to_string(),
            }
        }
    }

    /// An error with a message of its own.
    pub fn message(span: Span, message: String) -> (res: Self)
        ensures
            res@ == (ConfigErrorView::Message { span, message: message@ }),
    {
        ConfigError::Message { span, message }
    }

    /// Whether the error reports a missing child, property or argument.
    pub fn is_expect_item_error(&self) -> (res: bool)
        ensures
            res == self@.is_expect_item(),
    {
        match self {
            ConfigError::ExpectedChildren { .. } => true,
            ConfigError::ExpectedProperty { .. } => true,
            ConfigError::ExpectedArgument { .. } => true,
            _ => false,
        }
    }

    /// Returns the error message.
    pub fn to_string(&self) -> (res: String)
        ensures
            res@ == self@.message(),
    {
        match self {
            ConfigError::Syntax { .. } => String::from_str("Syntax error"),
            ConfigError::Type { expected, found, .. } => {
                let mut s = String::from_str("Expected type ");
                s.append(expected.name());
                s.append(" but found ");
                s.append(found.name());
                s
            },
            ConfigError::ExpectedChildren { node_names, .. } => {
                let mut s = String::from_str("Expected one of the following node types are: ");
                s.append(node_names.as_str());
                s
            },
            ConfigError::ExpectedProperty { prop_name, .. } => {
                let mut s = String::from_str("Missing property: ");
                s.append(prop_name.as_str());
                s.append(".");
                s
            },
            ConfigError::ExpectedArgument { expected, found, .. } => {
                let mut s = String::from_str("Expected at least ");
                append_decimal(&mut s, *expected);
                s.append(" argument(s), found ");
                append_decimal(&mut s, *found);
                s.append(".");
                s
            },
            ConfigError::TooManyArguments { expected, found, .. } => {
                let mut s = String::from_str("Expected ");
                append_decimal(&mut s, *expected);
                s.append(" argument(s), found ");
                append_decimal(&mut s, *found);
                s.append(".");
                s
            },
            ConfigError::UnexpectedNodeExpect { node_names, .. } => {
                let mut s = String::from_str("Unexpected node type. Available node types are: ");
                s.append(node_names.as_str());
                s
            },
            ConfigError::UnexpectedNode { .. } => String::from_str("Unexpected node."),
            ConfigError::UnexpectedProperty { prop_name, .. } => {
                let mut s = String::from_str("Unexpected property: ");
                s.append(prop_name.as_str());
                s.append(".");
                s
            },
            ConfigError::Message { message, .. } => {
                let mut s = String::new();
                s.append(message.as_str());
                s
            },
        }
    }
}

} // verus!

//! Reading values and nodes into common types.
use std::path::PathBuf;
use std::rc::Rc;
use std::sync::Arc;
use vstd::prelude::*;

use crate::allowed::{AllowedNodeNames, NamesView};
use crate::error::{ConfigError, ConfigErrorView};
use crate::node::ConfigNode;
use crate::span::{Span, Spanned};
use crate::text::box_str_from;
use crate::traits::{ParseConfigNode, ParseConfigValue};
use crate::value::{ConfigValue, ConfigValueType, ValueView};

verus! {

/// The message for an integer that does not fit the type named `ty`.
pub open spec fn conversion_message(ty: Seq<char>) -> Seq<char> {
    "Failed to convert number to "@ + ty + ": out of range integral type conversion attempted"@
}

/// The error for an integer value that does not fit the type named `ty`.
fn conversion_error<'c>(value: &Spanned<ConfigValue<'c>>, ty: &str) -> (res: ConfigError)
    ensures
        res@ == (ConfigErrorView::Message { span: value.span, message: conversion_message(ty@) }),
{
    let mut m = String::from_str("Failed to convert number to ");
    m.append(ty);
    m.append(": out of range integral type conversion attempted");
    ConfigError::message(value.span, m)
}

/// The outcome of reading the value `v` into an integer type named `ty` whose
/// values range from `min` to `max`.
pub open spec fn int_outcome(v: Spanned<ValueView>, ty: Seq<char>, min: int, max: int) -> Result<
    int,
    ConfigErrorView,
> {
    match v.inner {
        ValueView::Int(i) => if min <= i <= max {
            Ok(i as int)
        } else {
            Err(ConfigErrorView::Message { span: v.span, message: conversion_message(ty) })
        },
        _ => Err(
            ConfigErrorView::Type {
                span: v.span,
                expected: ConfigValueType::Int,
                found: v.inner.ty(),
            },
        ),
    }
}

/// Reads the integer of `value`, checked against `min..=max`.
fn int_in_range<'c>(value: Spanned<ConfigValue<'c>>, ty: &str, min: i64, max: i64) -> (res: Result<
    i64,
    ConfigError,
>)
    ensures
        match int_outcome(value@, ty@, min as int, max as int) {
            Ok(i) => res == Ok::<i64, ConfigError>(i as i64),
            Err(e) => res matches Err(re) && re@ == e,
        },
{
    match value.inner {
        ConfigValue::Int(v) => if min <= v && v <= max {
            Ok(v)
        } else {
            Err(conversion_error(&value, ty))
        },
        _ => Err(ConfigError::type_error(&value, ConfigValueType::Int)),
    }
}

impl<'c> ParseConfigValue<'c> for i64 {
    fn consume_value(value: Spanned<ConfigValue<'c>>) -> (res: Result<i64, ConfigError>)
        ensures
            match int_outcome(value@, "i64"@, i64::MIN as int, i64::MAX as int) {
                Ok(i) => res == Ok::<i64, ConfigError>(i as i64),
                Err(e) => res matches Err(re) && re@ == e,
            },
    {
        int_in_range(value, "i64", i64::MIN, i64::MAX)
    }
}

impl<'c> ParseConfigValue<'c> for i32 {
    fn consume_value(value: Spanned<ConfigValue<'c>>) -> (res: Result<i32, ConfigError>)
        ensures
            match int_outcome(value@, "i32"@, i32::MIN as int, i32::MAX as int) {
                Ok(i) => res == Ok::<i32, ConfigError>(i as i32),
                Err(e) => res matches Err(re) && re@ == e,
            },
    {
        match int_in_range(value, "i32", i32::MIN as i64, i32::MAX as i64) {
            Ok(v) => Ok(v as i32),
            Err(e) => Err(e),
        }
    }
}

impl<'c> ParseConfigValue<'c> for i16 {
    fn consume_value(value: Spanned<ConfigValue<'c>>) -> (res: Result<i16, ConfigError>)
        ensures
            match int_outcome(value@, "i16"@, i16::MIN as int, i16::MAX as int) {
                Ok(i) => res == Ok::<i16, ConfigError>(i as i16),
                Err(e) => res matches Err(re) && re@ == e,
            },
    {
        match int_in_range(value, "i16", i16::MIN as i64, i16::MAX as i64) {
            Ok(v) => Ok(v as i16),
            Err(e) => Err(e),
        }
    }
}

impl<'c> ParseConfigValue<'c> for i8 {
    fn consume_value(value: Spanned<ConfigValue<'c>>) -> (res: Result<i8, ConfigError>)
        ensures
            match int_outcome(value@, "i8"@, i8::MIN as int, i8::MAX as int) {
                Ok(i) => res == Ok::<i8, ConfigError>(i as i8),
                Err(e) => res matches Err(re) && re@ == e,
            },
    {
        match int_in_range(value, "i8", i8::MIN as i64, i8::MAX as i64) {
            Ok(v) => Ok(v as i8),
            Err(e) => Err(e),
        }
    }
}

impl<'c> ParseConfigValue<'c> for isize {
    fn consume_value(value: Spanned<ConfigValue<'c>>) -> (res: Result<isize, ConfigError>)
        ensures
            match int_outcome(value@, "isize"@, isize::MIN as int, isize::MAX as int) {
                Ok(i) => res == Ok::<isize, ConfigError>(i as isize),
                Err(e) => res matches Err(re) && re@ == e,
            },
    {
        match int_in_range(value, "isize", isize::MIN as i64, isize::MAX as i64) {
            Ok(v) => Ok(v as isize),
            Err(e) => Err(e),
        }
    }
}

impl<'c> ParseConfigValue<'c> for u64 {
    fn consume_value(value: Spanned<ConfigValue<'c>>) -> (res: Result<u64, ConfigError>)
        ensures
            match int_outcome(value@, "u64"@, 0, u64::MAX as int) {
                Ok(i) => res == Ok::<u64, ConfigError>(i as u64),
                Err(e) => res matches Err(re) && re@ == e,
            },
    {
        match int_in_range(value, "u64", 0, i64::MAX) {
            Ok(v) => Ok(v as u64),
            Err(e) => Err(e),
        }
    }
}

impl<'c> ParseConfigValue<'c> for u32 {
    fn consume_value(value: Spanned<ConfigValue<'c>>) -> (res: Result<u32, ConfigError>)
        ensures
            match int_outcome(value@, "u32"@, 0, u32::MAX as int) {
                Ok(i) => res == Ok::<u32, ConfigError>(i as u32),
                Err(e) => res matches Err(re) && re@ == e,
            },
    {
        match int_in_range(value, "u32", 0, u32::MAX as i64) {
            Ok(v) => Ok(v as u32),
            Err(e) => Err(e),
        }
    }
}

impl<'c> ParseConfigValue<'c> for u16 {
    fn consume_value(value: Spanned<ConfigValue<'c>>) -> (res: Result<u16, ConfigError>)
        ensures
            match int_outcome(value@, "u16"@, 0, u16::MAX as int) {
                Ok(i) => res == Ok::<u16, ConfigError>(i as u16),
                Err(e) => res matches Err(re) && re@ == e,
            },
    {
        match int_in_range(value, "u16", 0, u16::MAX as i64) {
            Ok(v) => Ok(v as u16),
            Err(e) => Err(e),
        }
    }
}

impl<'c> ParseConfigValue<'c> for u8 {
    fn consume_value(value: Spanned<ConfigValue<'c>>) -> (res: Result<u8, ConfigError>)
        ensures
            match int_outcome(value@, "u8"@, 0, u8::MAX as int) {
                Ok(i) => res == Ok::<u8, ConfigError>(i as u8),
                Err(e) => res matches Err(re) && re@ == e,
            },
    {
        match int_in_range(value, "u8", 0, u8::MAX as i64) {
            Ok(v) => Ok(v as u8),
            Err(e) => Err(e),
        }
    }
}

impl<'c> ParseConfigValue<'c> for usize {
    fn consume_value(value: Spanned<ConfigValue<'c>>) -> (res: Result<usize, ConfigError>)
        ensures
            match int_outcome(value@, "usize"@, 0, usize::MAX as int) {
                Ok(i) => res == Ok::<usize, ConfigError>(i as usize),
                Err(e) => res matches Err(re) && re@ == e,
            },
    {
        let max: i64 = if usize::MAX as u64 >= i64::MAX as u64 {
            i64::MAX
        } else {
            usize::MAX as i64
        };
        match int_in_range(value, "usize", 0, max) {
            Ok(v) => Ok(v as usize),
            Err(e) => Err(e),
        }
    }
}

impl<'c> ParseConfigValue<'c> for bool {
    fn consume_value(value: Spanned<ConfigValue<'c>>) -> (res: Result<bool, ConfigError>)
        ensures
            match value@.inner {
                ValueView::Bool(b) => res == Ok::<bool, ConfigError>(b),
                _ => res matches Err(e) && e@ == (ConfigErrorView::Type {
                    span: value.span,
                    expected: ConfigValueType::Bool,
                    found: value@.inner.ty(),
                }),
            },
    {
        match value.inner {
            ConfigValue::Bool(b) => Ok(b),
            _ => Err(ConfigError::type_error(&value, ConfigValueType::Bool)),
        }
    }
}

/// The outcome of reading the value `v` as a string.
pub open spec fn string_outcome(v: Spanned<ValueView>) -> Result<Seq<char>, ConfigErrorView> {
    match v.inner {
        ValueView::String(s) => Ok(s),
        _ => Err(
            ConfigErrorView::Type {
                span: v.span,
                expected: ConfigValueType::String,
                found: v.inner.ty(),
            },
        ),
    }
}

impl<'c> ParseConfigValue<'c> for String {
    fn consume_value(value: Spanned<ConfigValue<'c>>) -> (res: Result<String, ConfigError>)
        ensures
            match string_outcome(value@) {
                Ok(s) => res matches Ok(r) && r@ == s,
                Err(e) => res matches Err(re) && re@ == e,
            },
    {
        match value.inner {
            ConfigValue::String(s) => Ok(String::from_str(s)),
            _ => Err(ConfigError::type_error(&value, ConfigValueType::String)),
        }
    }
}

impl<'c> ParseConfigValue<'c> for Box<str> {
    fn consume_value(value: Spanned<ConfigValue<'c>>) -> (res: Result<Box<str>, ConfigError>)
        ensures
            match string_outcome(value@) {
                Ok(s) => res matches Ok(r) && r@ == s,
                Err(e) => res matches Err(re) && re@ == e,
            },
    {
        match value.inner {
            ConfigValue::String(s) => Ok(box_str_from(s)),
            _ => Err(ConfigError::type_error(&value, ConfigValueType::String)),
        }
    }
}

/// A path, held opaquely.
#[verifier::external_type_specification]
#[verifier::external_body]
pub struct ExPathBuf(PathBuf);

/// The path that `PathBuf::from` makes of a text. std documents the
/// conversion as a copy of the text into a new path; a path is held
/// opaquely, so the result is named rather than described.
pub uninterp spec fn path_of_text(s: Seq<char>) -> PathBuf;

/// `Rc::<str>::from`: a reference-counted copy of `s`, holding the same text.
#[verifier::external_body]
fn rc_str_from(s: &str) -> (res: Rc<str>)
    ensures
        res@ == s@,
{
    Rc::from(s)
}

/// `Arc::<str>::from`: an atomically reference-counted copy of `s`, holding
/// the same text.
#[verifier::external_body]
fn arc_str_from(s: &str) -> (res: Arc<str>)
    ensures
        res@ == s@,
{
    Arc::from(s)
}

/// `PathBuf::from`: the path made of the text `s`, which depends on that text
/// alone.
#[verifier::external_body]
fn path_from(s: &str) -> (res: PathBuf)
    ensures
        res == path_of_text(s@),
{
    PathBuf::from(s)
}

impl<'c> ParseConfigValue<'c> for Rc<str> {
    fn consume_value(value: Spanned<ConfigValue<'c>>) -> (res: Result<Rc<str>, ConfigError>)
        ensures
            match string_outcome(value@) {
                Ok(s) => res matches Ok(r) && r@ == s,
                Err(e) => res matches Err(re) && re@ == e,
            },
    {
        match value.inner {
            ConfigValue::String(s) => Ok(rc_str_from(s)),
            _ => Err(ConfigError::type_error(&value, ConfigValueType::String)),
        }
    }
}

impl<'c> ParseConfigValue<'c> for Arc<str> {
    fn consume_value(value: Spanned<ConfigValue<'c>>) -> (res: Result<Arc<str>, ConfigError>)
        ensures
            match string_outcome(value@) {
                Ok(s) => res matches Ok(r) && r@ == s,
                Err(e) => res matches Err(re) && re@ == e,
            },
    {
        match value.inner {
            ConfigValue::String(s) => Ok(arc_str_from(s)),
            _ => Err(ConfigError::type_error(&value, ConfigValueType::String)),
        }
    }
}

impl<'c> ParseConfigValue<'c> for PathBuf {
    fn consume_value(value: Spanned<ConfigValue<'c>>) -> (res: Result<PathBuf, ConfigError>)
        ensures
            match string_outcome(value@) {
                Ok(s) => res matches Ok(p) && p == path_of_text(s),
                Err(e) => res matches Err(re) && re@ == e,
            },
    {
        match value.inner {
            ConfigValue::String(s) => Ok(path_from(s)),
            _ => Err(ConfigError::type_error(&value, ConfigValueType::String)),
        }
    }
}

impl<'c> ParseConfigValue<'c> for ConfigValue<'c> {
    fn consume_value(value: Spanned<ConfigValue<'c>>) -> (res: Result<ConfigValue<'c>, ConfigError>)
        ensures
            res == Ok::<ConfigValue<'c>, ConfigError>(value.inner),
    {
        Ok(value.inner)
    }
}

/// What a read of a value into `T` becomes once its success is given `span`.
pub open spec fn with_span<T>(r: Result<T, ConfigError>, span: Span) -> Result<Spanned<T>, ConfigError> {
    match r {
        Ok(t) => Ok(Spanned { span, inner: t }),
        Err(e) => Err(e),
    }
}

/// What a read into `T` becomes once its success is wrapped in `Some`.
pub open spec fn with_some<T>(r: Result<T, ConfigError>) -> Result<Option<T>, ConfigError> {
    match r {
        Ok(t) => Ok(Some(t)),
        Err(e) => Err(e),
    }
}

impl<'c, T: ParseConfigValue<'c>> ParseConfigValue<'c> for Spanned<T> {
    /// Reads the value into `T` and keeps the span of the value.
    fn consume_value(value: Spanned<ConfigValue<'c>>) -> (res: Result<Spanned<T>, ConfigError>)
        ensures
            exists|r: Result<T, ConfigError>|
                #[trigger] call_ensures(T::consume_value, (value,), r) && res == with_span(
                    r,
                    value.span,
                ),
    {
        let span = value.span;
        let r = T::consume_value(value);
        assert(call_ensures(T::consume_value, (value,), r));
        match r {
            Ok(t) => Ok(Spanned::new(t, span)),
            Err(e) => Err(e),
        }
    }
}

impl<'c, T: ParseConfigValue<'c>> ParseConfigValue<'c> for Option<T> {
    /// Reads the value into `T`; a value that is there gives `Some`.
    fn consume_value(value: Spanned<ConfigValue<'c>>) -> (res: Result<Option<T>, ConfigError>)
        ensures
            exists|r: Result<T, ConfigError>|
                #[trigger] call_ensures(T::consume_value, (value,), r) && res == with_some(r),
    {
        let r = T::consume_value(value);
        assert(call_ensures(T::consume_value, (value,), r));
        match r {
            Ok(t) => Ok(Some(t)),
            Err(e) => Err(e),
        }
    }
}

impl<'c, T: ParseConfigNode<'c>> ParseConfigNode<'c> for Spanned<T> {
    fn allowed_node_names() -> (res: AllowedNodeNames)
        ensures
            call_ensures(T::allowed_node_names, (), res),
    {
        T::allowed_node_names()
    }

    fn consume_node(node: &mut ConfigNode<'c>, terminate: bool) -> (res: Result<Spanned<T>, ConfigError>)
        ensures
            res matches Ok(v) ==> v.span == old(node)@.name.span,
            exists|m: &mut ConfigNode<'c>, r: Result<T, ConfigError>|
                *m == *old(node) && *final(m) == *final(node) && #[trigger] call_ensures(
                    T::consume_node,
                    (m, terminate),
                    r,
                ) && res == with_span(r, old(node)@.name.span),
    {
        let span = node.name_span();
        match T::consume_node(node, terminate) {
            Ok(t) => Ok(Spanned::new(t, span)),
            Err(e) => Err(e),
        }
    }
}

impl<'c, T: ParseConfigNode<'c>> ParseConfigNode<'c> for Option<T> {
    fn allowed_node_names() -> (res: AllowedNodeNames)
        ensures
            call_ensures(T::allowed_node_names, (), res),
    {
        T::allowed_node_names()
    }

    fn consume_node(node: &mut ConfigNode<'c>, terminate: bool) -> (res: Result<Option<T>, ConfigError>)
        ensures
            !(res matches Ok(None)),
            exists|m: &mut ConfigNode<'c>, r: Result<T, ConfigError>|
                *m == *old(node) && *final(m) == *final(node) && #[trigger] call_ensures(
                    T::consume_node,
                    (m, terminate),
                    r,
                ) && res == with_some(r),
    {
        match T::consume_node(node, terminate) {
            Ok(t) => Ok(Some(t)),
            Err(e) => Err(e),
        }
    }
}

impl<'c> ParseConfigNode<'c> for ConfigNode<'c> {
    fn allowed_node_names() -> (res: AllowedNodeNames)
        ensures
            res@ == NamesView::Any,
    {
        AllowedNodeNames::any()
    }

    fn consume_node(node: &mut ConfigNode<'c>, terminate: bool) -> (res: Result<ConfigNode<'c>, ConfigError>)
        ensures
            final(node)@ == old(node)@,
            res matches Ok(c) && c@ == old(node)@,
    {
        Ok(node.deep_clone())
    }
}

} // verus!

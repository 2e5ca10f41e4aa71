use vstd::prelude::*;

verus! {

/// The kind of a [`ConfigValue`].
#[derive(Debug, Clone, Copy, PartialEq, Eq, Structural)]
pub enum ConfigValueType {
    String,
    Bool,
    Float,
    Int,
}

impl ConfigValueType {
    /// The lower case name of the type as it appears in messages.
    pub open spec fn spec_name(self) -> Seq<char> {
        match self {
            ConfigValueType::String => "string"@,
            ConfigValueType::Bool => "bool"@,
            ConfigValueType::Float => "float"@,
            ConfigValueType::Int => "int"@,
        }
    }

    /// Returns the name of the type: "string", "bool", "float" or "int".
    pub fn name(&self) -> (res: &'static str)
        ensures
            res@ == self.spec_name(),
    {
        proof {
            reveal_strlit("string");
            reveal_strlit("bool");
            reveal_strlit("float");
            reveal_strlit("int");
        }
        match self {
            ConfigValueType::String => "string",
            ConfigValueType::Bool => "bool",
            ConfigValueType::Float => "float",
            ConfigValueType::Int => "int",
        }
    }
}

/// A single value in a configuration: an argument or the value of a property.
///
/// Floating point values are kept as the text of their literal; the literal is
/// guaranteed to be accepted by the standard library's `f64` parser.
#[derive(Debug, Clone, Copy, PartialEq, Eq)]
pub enum ConfigValue<'c> {
    String(&'c str),
    Bool(bool),
    Float(&'c str),
    Int(i64),
}

/// The mathematical content of a [`ConfigValue`].
pub enum ValueView {
    String(Seq<char>),
    Bool(bool),
    Float(Seq<char>),
    Int(i64),
}

impl<'c> View for ConfigValue<'c> {
    type V = ValueView;

    open spec fn view(&self) -> ValueView {
        match self {
            ConfigValue::String(s) => ValueView::String(s@),
            ConfigValue::Bool(b) => ValueView::Bool(*b),
            ConfigValue::Float(f) => ValueView::Float(f@),
            ConfigValue::Int(i) => ValueView::Int(*i),
        }
    }
}

impl ValueView {
    pub open spec fn ty(self) -> ConfigValueType {
        match self {
            ValueView::String(_) => ConfigValueType::String,
            ValueView::Bool(_) => ConfigValueType::Bool,
            ValueView::Float(_) => ConfigValueType::Float,
            ValueView::Int(_) => ConfigValueType::Int,
        }
    }
}

impl<'c> ConfigValue<'c> {
    /// Returns the text of the value if it is a string.
    pub fn as_str(&self) -> (res: Option<&'c str>)
        ensures
            match self@ {
                ValueView::String(s) => res is Some && res->0@ == s,
                _ => res is None,
            },
    {
        match self {
            ConfigValue::String(s) => Some(*s),
            _ => None,
        }
    }

    pub fn as_bool(&self) -> (res: Option<bool>)
        ensures
            match self@ {
                ValueView::Bool(b) => res == Some(b),
                _ => res is None,
            },
    {
        match self {
            ConfigValue::Bool(b) => Some(*b),
            _ => None,
        }
    }

    pub fn as_i64(&self) -> (res: Option<i64>)
        ensures
            match self@ {
                ValueView::Int(i) => res == Some(i),
                _ => res is None,
            },
    {
        match self {
            ConfigValue::Int(i) => Some(*i),
            _ => None,
        }
    }

    /// Returns the literal text of the value if it is a float.
    pub fn as_float_literal(&self) -> (res: Option<&'c str>)
        ensures
            match self@ {
                ValueView::Float(f) => res is Some && res->0@ == f,
                _ => res is None,
            },
    {
        match self {
            ConfigValue::Float(f) => Some(*f),
            _ => None,
        }
    }

    pub fn ty(&self) -> (res: ConfigValueType)
        ensures
            res == self@.ty(),
    {
        match self {
            ConfigValue::String(_) => ConfigValueType::String,
            ConfigValue::Bool(_) => ConfigValueType::Bool,
            ConfigValue::Float(_) => ConfigValueType::Float,
            ConfigValue::Int(_) => ConfigValueType::Int,
        }
    }
}

} // verus!

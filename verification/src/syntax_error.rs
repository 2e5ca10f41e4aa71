//! Errors in the syntax of a configuration text.
use vstd::prelude::*;

use crate::lexer::{first_from, Stop};
use crate::number::{FloatErrorKind, FloatParseError, IntErrorKind, IntParseError};
use crate::source::{bspan, Parser};
use crate::span::Span;

verus! {

/// A configuration text that does not follow the grammar.
#[allow(inconsistent_fields)]
#[derive(Debug, Clone, Copy, PartialEq, Eq)]
pub enum SyntaxError {
    Expected { span: Span, expected: &'static str },
    ExpectedButGot {
        span: Span,
        expected: &'static str,
        got: &'static str,
        help: Option<&'static str>,
    },
    InvalidFloat { span: Span, parse_error: FloatParseError },
    InvalidInt { span: Span, parse_error: IntParseError },
    IdentStringFailed { invalid_char: Span, char: char },
    CurliesWrong { opening: Span },
}

/// The error reporting that `expected` was expected at `p`; it covers the
/// characters from `p` up to the next whitespace.
pub open spec fn spec_expected_at(s: Seq<char>, p: int, expected: &'static str) -> SyntaxError {
    SyntaxError::Expected { span: bspan(s, p, first_from(s, p, Stop::Whitespace)), expected }
}

pub open spec fn int_error_message(k: IntErrorKind) -> Seq<char> {
    match k {
        IntErrorKind::Empty => "cannot parse integer from empty string"@,
        IntErrorKind::InvalidDigit => "invalid digit found in string"@,
        IntErrorKind::PosOverflow => "number too large to fit in target type"@,
        IntErrorKind::NegOverflow => "number too small to fit in target type"@,
    }
}

pub open spec fn float_error_message(k: FloatErrorKind) -> Seq<char> {
    match k {
        FloatErrorKind::Empty => "cannot parse float from empty string"@,
        FloatErrorKind::Invalid => "invalid float literal"@,
    }
}

impl IntParseError {
    pub fn to_string(&self) -> (res: String)
        ensures
            res@ == int_error_message(self.kind),
    {
        match self.kind {
            IntErrorKind::Empty => String::from_str("cannot parse integer from empty string"),
            IntErrorKind::InvalidDigit => String::from_str("invalid digit found in string"),
            IntErrorKind::PosOverflow => String::from_str("number too large to fit in target type"),
            IntErrorKind::NegOverflow => String::from_str("number too small to fit in target type"),
        }
    }
}

impl FloatParseError {
    pub fn to_string(&self) -> (res: String)
        ensures
            res@ == float_error_message(self.kind),
    {
        match self.kind {
            FloatErrorKind::Empty => String::from_str("cannot parse float from empty string"),
            FloatErrorKind::Invalid => String::from_str("invalid float literal"),
        }
    }
}

impl SyntaxError {
    /// The error message.
    pub open spec fn spec_message(self) -> Seq<char> {
        match self {
            SyntaxError::Expected { expected, .. } => "Expected "@ + expected@,
            SyntaxError::ExpectedButGot { expected, got, .. } => "Expected "@ + expected@
                + " but got "@ + got@,
            SyntaxError::InvalidFloat { parse_error, .. } => "Invalid float value: "@
                + float_error_message(parse_error.kind),
            SyntaxError::InvalidInt { parse_error, .. } => "Invalid integer value: "@
                + int_error_message(parse_error.kind),
            SyntaxError::IdentStringFailed { .. } => "Ident strings can only contain the characters: a-z_-."@,
            SyntaxError::CurliesWrong { .. } => "No closing bracket found"@,
        }
    }

    /// Returns the error message.
    pub fn to_string(&self) -> (res: String)
        ensures
            res@ == self.spec_message(),
    {
        match self {
            SyntaxError::Expected { expected, .. } => {
                let mut s = String::from_str("Expected ");
                s.append(expected);
                s
            },
            SyntaxError::ExpectedButGot { expected, got, .. } => {
                let mut s = String::from_str("Expected ");
                s.append(expected);
                s.append(" but got ");
                s.append(got);
                s
            },
            SyntaxError::InvalidFloat { parse_error, .. } => {
                let mut s = String::from_str("Invalid float value: ");
                let m = parse_error.to_string();
                s.append(m.as_str());
                s
            },
            SyntaxError::InvalidInt { parse_error, .. } => {
                let mut s = String::from_str("Invalid integer value: ");
                let m = parse_error.to_string();
                s.append(m.as_str());
                s
            },
            SyntaxError::IdentStringFailed { .. } => String::from_str(
                "Ident strings can only contain the characters: a-z_-.",
            ),
            SyntaxError::CurliesWrong { .. } => String::from_str("No closing bracket found"),
        }
    }

    /// The error reporting that `expected` was expected at the cursor of
    /// `parser`. The cursor moves to the next whitespace; the error covers the
    /// characters passed over.
    pub fn expected<'c>(parser: &mut Parser<'c>, expected: &'static str) -> (res: Self)
        requires
            old(parser).wf(),
        ensures
            final(parser).wf(),
            final(parser).source() == old(parser).source(),
            final(parser).position() == first_from(
                old(parser).source(),
                old(parser).position(),
                Stop::Whitespace,
            ),
            res == spec_expected_at(old(parser).source(), old(parser).position(), expected),
    {
        let p = parser.cursor();
        let e = parser.scan(p, Stop::Whitespace);
        proof {
            crate::lexer::lemma_first_from(parser.source(), p as int, Stop::Whitespace);
        }
        let span = parser.span_of(p, e);
        parser.set_cursor(e);
        SyntaxError::Expected { span, expected }
    }

    /// Like [`SyntaxError::expected`], reporting that `got` was found instead.
    pub fn expected_but_got<'c>(
        parser: &mut Parser<'c>,
        expected: &'static str,
        got: &'static str,
        help: Option<&'static str>,
    ) -> (res: Self)
        requires
            old(parser).wf(),
        ensures
            final(parser).wf(),
            final(parser).source() == old(parser).source(),
            final(parser).position() == first_from(
                old(parser).source(),
                old(parser).position(),
                Stop::Whitespace,
            ),
            res == (SyntaxError::ExpectedButGot {
                span: bspan(
                    old(parser).source(),
                    old(parser).position(),
                    first_from(old(parser).source(), old(parser).position(), Stop::Whitespace),
                ),
                expected,
                got,
                help,
            }),
    {
        let p = parser.cursor();
        let e = parser.scan(p, Stop::Whitespace);
        proof {
            crate::lexer::lemma_first_from(parser.source(), p as int, Stop::Whitespace);
        }
        let span = parser.span_of(p, e);
        parser.set_cursor(e);
        SyntaxError::ExpectedButGot { span, expected, got, help }
    }
}

} // verus!

//! Parsing of single values: numbers, booleans, quoted and unquoted strings.
use vstd::prelude::*;

use crate::lexer::{first_from, is_ident_char, lemma_first_from, skip_space, Stop};
use crate::number::{
    float_literal_check, float_literal_ok, int_from_str_radix, is_decimal_digit,
    spec_int_from_str_radix, FloatErrorKind, FloatParseError, IntParseError,
};
use crate::source::{bspan, Parser};
use crate::span::Spanned;
use crate::syntax_error::SyntaxError;
use crate::value::{ConfigValue, ValueView};

verus! {

/// Outcome of parsing a value at some position: `Ok((None, p))` when the
/// text there is not a value, with `p` the position afterwards.
pub type ValueParse = Result<(Option<Spanned<ValueView>>, int), SyntaxError>;

pub open spec fn opt_value_view<'c>(o: Option<Spanned<ConfigValue<'c>>>) -> Option<
    Spanned<ValueView>,
> {
    match o {
        Some(v) => Some(v@),
        None => None,
    }
}

/// The executable outcome `res` is the outcome `spec`.
pub open spec fn value_parse_is<'c>(
    res: Result<(Option<Spanned<ConfigValue<'c>>>, usize), SyntaxError>,
    spec: ValueParse,
) -> bool {
    match spec {
        Ok((o, p)) => match res {
            Ok((ro, rp)) => rp == p && opt_value_view(ro) == o,
            Err(_) => false,
        },
        Err(e) => res == Err::<(Option<Spanned<ConfigValue<'c>>>, usize), SyntaxError>(e),
    }
}

/// A number: the characters up to the next whitespace, starting with a digit
/// or `.`. With a `.` it is a float literal; otherwise an integer, in base 16
/// after `0x`, base 2 after `0b`, base 10 else.
pub open spec fn spec_parse_number(s: Seq<char>, i: int) -> ValueParse {
    let j = first_from(s, i, Stop::Whitespace);
    let tok = s.subrange(i, j);
    if j <= i || !(s[i] == '.' || is_decimal_digit(s[i])) {
        Ok((None, i))
    } else if tok.contains('.') {
        if float_literal_ok(tok) {
            Ok((Some(Spanned { span: bspan(s, i, j), inner: ValueView::Float(tok) }), j))
        } else {
            Err(
                SyntaxError::InvalidFloat {
                    span: bspan(s, i, j),
                    parse_error: FloatParseError { kind: FloatErrorKind::Invalid },
                },
            )
        }
    } else {
        let radix: int = if tok.len() >= 2 && tok[0] == '0' && tok[1] == 'x' {
            16
        } else if tok.len() >= 2 && tok[0] == '0' && tok[1] == 'b' {
            2
        } else {
            10
        };
        let digits = if radix == 10 {
            tok
        } else {
            tok.subrange(2, tok.len() as int)
        };
        match spec_int_from_str_radix(digits, radix) {
            Ok(v) => Ok((Some(Spanned { span: bspan(s, i, j), inner: ValueView::Int(v) }), j)),
            Err(k) => Err(
                SyntaxError::InvalidInt { span: bspan(s, i, j), parse_error: IntParseError { kind: k } },
            ),
        }
    }
}

/// A boolean: `true`, `#true`, `false` or `#false`, up to the next whitespace.
pub open spec fn spec_parse_bool(s: Seq<char>, i: int) -> ValueParse {
    let j = first_from(s, i, Stop::Whitespace);
    let tok = s.subrange(i, j);
    if tok == "true"@ || tok == "#true"@ {
        Ok((Some(Spanned { span: bspan(s, i, j), inner: ValueView::Bool(true) }), j))
    } else if tok == "false"@ || tok == "#false"@ {
        Ok((Some(Spanned { span: bspan(s, i, j), inner: ValueView::Bool(false) }), j))
    } else {
        Ok((None, i))
    }
}

/// A quoted string: everything between a `"` and the next `"`, without escapes.
pub open spec fn spec_parse_string(s: Seq<char>, i: int) -> ValueParse {
    if !(0 <= i < s.len() && s[i] == '"') {
        Ok((None, i))
    } else {
        let k = first_from(s, i + 1, Stop::Quote);
        if k >= s.len() {
            Err(
                SyntaxError::Expected {
                    span: bspan(s, i + 1, s.len() as int),
                    expected: "string ending quote (\")",
                },
            )
        } else {
            Ok(
                (
                    Some(
                        Spanned {
                            span: bspan(s, i + 1, k),
                            inner: ValueView::String(s.subrange(i + 1, k)),
                        },
                    ),
                    k + 1,
                ),
            )
        }
    }
}

/// An unquoted string: the characters up to the next whitespace, which must
/// all be lower case ASCII letters, `_` or `-`.
pub open spec fn spec_parse_ident_string(s: Seq<char>, i: int) -> ValueParse {
    let j = first_from(s, i, Stop::Whitespace);
    let k = first_from(s, i, Stop::NonIdentChar);
    if j <= i {
        Ok((None, i))
    } else if k < j {
        Err(SyntaxError::IdentStringFailed { invalid_char: bspan(s, k, k + 1), char: s[k] })
    } else {
        Ok((Some(Spanned { span: bspan(s, i, j), inner: ValueView::String(s.subrange(i, j)) }), j))
    }
}

/// A value after optional spaces and comments (not line feeds): the first of
/// number, boolean, quoted string and unquoted string that applies.
pub open spec fn spec_parse_value(s: Seq<char>, i: int) -> ValueParse {
    let p = skip_space(s, i, false);
    match spec_parse_number(s, p) {
        Ok((None, _)) => match spec_parse_bool(s, p) {
            Ok((None, _)) => match spec_parse_string(s, p) {
                Ok((None, _)) => spec_parse_ident_string(s, p),
                r => r,
            },
            r => r,
        },
        r => r,
    }
}

/// Whether `v` holds `c`.
fn vec_contains(v: &Vec<char>, c: char) -> (res: bool)
    ensures
        res == v@.contains(c),
{
    let mut i: usize = 0;
    while i < v.len()
        invariant
            i <= v@.len(),
            forall|k: int| 0 <= k < i ==> v@[k] != c,
        decreases v@.len() - i,
    {
        if v[i] == c {
            return true;
        }
        i = i + 1;
    }
    false
}

/// Whether `v` holds exactly the characters of `w`.
fn vec_eq_str(v: &Vec<char>, w: &str) -> (res: bool)
    ensures
        res == (v@ == w@),
{
    let n = w.unicode_len();
    if v.len() != n {
        return false;
    }
    let mut i: usize = 0;
    while i < n
        invariant
            n == w@.len(),
            n == v@.len(),
            i <= n,
            forall|k: int| 0 <= k < i ==> v@[k] == w@[k],
        decreases n - i,
    {
        if v[i] != w.get_char(i) {
            return false;
        }
        i = i + 1;
    }
    assert(v@ =~= w@);
    true
}

impl<'c> Parser<'c> {
    pub fn parse_number_at(&self, i: usize) -> (res: Result<
        (Option<Spanned<ConfigValue<'c>>>, usize),
        SyntaxError,
    >)
        requires
            self.wf(),
            i <= self.source().len(),
        ensures
            value_parse_is(res, spec_parse_number(self.source(), i as int)),
            res matches Ok((Some(_), p)) ==> i < p <= self.source().len(),
    {
        let j = self.scan(i, Stop::Whitespace);
        proof {
            lemma_first_from(self.source(), i as int, Stop::Whitespace);
        }
        if j <= i {
            return Ok((None, i));
        }
        let c0 = self.char_at(i);
        if !(c0 == '.' || ('0' <= c0 && c0 <= '9')) {
            return Ok((None, i));
        }
        let tok = self.chars_of(i, j);
        let span = self.span_of(i, j);
        if vec_contains(&tok, '.') {
            match float_literal_check(&tok) {
                Ok(()) => Ok((Some(Spanned::new(ConfigValue::Float(self.slice(i, j)), span)), j)),
                Err(e) => Err(SyntaxError::InvalidFloat { span, parse_error: e }),
            }
        } else {
            let radix: u32 = if tok.len() >= 2 && tok[0] == '0' && tok[1] == 'x' {
                16
            } else if tok.len() >= 2 && tok[0] == '0' && tok[1] == 'b' {
                2
            } else {
                10
            };
            let digits = if radix == 10 {
                tok
            } else {
                let d = self.chars_of(i + 2, j);
                assert(d@ =~= tok@.subrange(2, tok@.len() as int));
                d
            };
            match int_from_str_radix(&digits, radix) {
                Ok(v) => Ok((Some(Spanned::new(ConfigValue::Int(v), span)), j)),
                Err(e) => Err(SyntaxError::InvalidInt { span, parse_error: e }),
            }
        }
    }

    pub fn parse_bool_at(&self, i: usize) -> (res: Result<
        (Option<Spanned<ConfigValue<'c>>>, usize),
        SyntaxError,
    >)
        requires
            self.wf(),
            i <= self.source().len(),
        ensures
            value_parse_is(res, spec_parse_bool(self.source(), i as int)),
            res matches Ok((Some(_), p)) ==> i < p <= self.source().len(),
            res is Ok,
    {
        let j = self.scan(i, Stop::Whitespace);
        proof {
            lemma_first_from(self.source(), i as int, Stop::Whitespace);
        }
        let tok = self.chars_of(i, j);
        let span = self.span_of(i, j);
        if vec_eq_str(&tok, "true") || vec_eq_str(&tok, "#true") {
            proof {
                reveal_strlit("true");
                reveal_strlit("#true");
                assert("true"@.len() == 4);
                assert("#true"@.len() == 5);
                assert(tok@.len() > 0);
            }
            Ok((Some(Spanned::new(ConfigValue::Bool(true), span)), j))
        } else if vec_eq_str(&tok, "false") || vec_eq_str(&tok, "#false") {
            proof {
                reveal_strlit("false");
                reveal_strlit("#false");
                assert("false"@.len() == 5);
                assert("#false"@.len() == 6);
                assert(tok@.len() > 0);
            }
            Ok((Some(Spanned::new(ConfigValue::Bool(false), span)), j))
        } else {
            Ok((None, i))
        }
    }

    pub fn parse_string_at(&self, i: usize) -> (res: Result<
        (Option<Spanned<ConfigValue<'c>>>, usize),
        SyntaxError,
    >)
        requires
            self.wf(),
            i <= self.source().len(),
        ensures
            value_parse_is(res, spec_parse_string(self.source(), i as int)),
            res matches Ok((Some(_), p)) ==> i < p <= self.source().len(),
    {
        let n = self.len();
        if !(i < n && self.char_at(i) == '"') {
            return Ok((None, i));
        }
        let k = self.scan(i + 1, Stop::Quote);
        proof {
            lemma_first_from(self.source(), i + 1, Stop::Quote);
        }
        if k >= n {
            return Err(
                SyntaxError::Expected {
                    span: self.span_of(i + 1, n),
                    expected: "string ending quote (\")",
                },
            );
        }
        Ok((Some(Spanned::new(ConfigValue::String(self.slice(i + 1, k)), self.span_of(i + 1, k))), k + 1))
    }

    pub fn parse_ident_string_at(&self, i: usize) -> (res: Result<
        (Option<Spanned<ConfigValue<'c>>>, usize),
        SyntaxError,
    >)
        requires
            self.wf(),
            i <= self.source().len(),
        ensures
            value_parse_is(res, spec_parse_ident_string(self.source(), i as int)),
            res matches Ok((Some(_), p)) ==> i < p <= self.source().len(),
    {
        let j = self.scan(i, Stop::Whitespace);
        let k = self.scan(i, Stop::NonIdentChar);
        proof {
            lemma_first_from(self.source(), i as int, Stop::Whitespace);
            lemma_first_from(self.source(), i as int, Stop::NonIdentChar);
        }
        if j <= i {
            return Ok((None, i));
        }
        if k < j {
            return Err(
                SyntaxError::IdentStringFailed {
                    invalid_char: self.span_of(k, k + 1),
                    char: self.char_at(k),
                },
            );
        }
        Ok((Some(Spanned::new(ConfigValue::String(self.slice(i, j)), self.span_of(i, j))), j))
    }

    /// Parses a value after optional spaces and comments; see [`spec_parse_value`].
    pub fn parse_value_at(&self, i: usize) -> (res: Result<
        (Option<Spanned<ConfigValue<'c>>>, usize),
        SyntaxError,
    >)
        requires
            self.wf(),
            i <= self.source().len(),
        ensures
            value_parse_is(res, spec_parse_value(self.source(), i as int)),
            res matches Ok((Some(_), p)) ==> skip_space(self.source(), i as int, false) < p
                <= self.source().len(),
            res matches Ok((None, p)) ==> p == skip_space(self.source(), i as int, false),
            res matches Ok((_, p)) ==> p <= self.source().len(),
    {
        let p = self.skip_space_from(i, false);
        let r = self.parse_number_at(p);
        match r {
            Ok((None, _)) => {},
            _ => {
                return r;
            },
        }
        let r = self.parse_bool_at(p);
        match r {
            Ok((None, _)) => {},
            _ => {
                return r;
            },
        }
        let r = self.parse_string_at(p);
        match r {
            Ok((None, _)) => {},
            _ => {
                return r;
            },
        }
        let r = self.parse_ident_string_at(p);
        match r {
            Ok((None, _)) => Ok((None, p)),
            _ => r,
        }
    }
}

} // verus!

verus! {

/// `after` and `res` are what parsing with `spec` from the cursor of `before`
/// gives: on success the cursor moves to the position `spec` gives, on an
/// error it stays.
pub open spec fn value_step_is<'c>(
    before: Parser<'c>,
    after: Parser<'c>,
    res: Result<Option<Spanned<ConfigValue<'c>>>, SyntaxError>,
    spec: ValueParse,
) -> bool {
    &&& after.wf()
    &&& after.source() == before.source()
    &&& match spec {
        Ok((o, p)) => match res {
            Ok(ro) => opt_value_view(ro) == o && after.position() == p,
            Err(_) => false,
        },
        Err(e) => res == Err::<Option<Spanned<ConfigValue<'c>>>, SyntaxError>(e)
            && after.position() == before.position(),
    }
}

impl<'c> Parser<'c> {
    fn step_value(
        &mut self,
        r: Result<(Option<Spanned<ConfigValue<'c>>>, usize), SyntaxError>,
    ) -> (res: Result<Option<Spanned<ConfigValue<'c>>>, SyntaxError>)
        requires
            old(self).wf(),
            r matches Ok((_, p)) ==> p <= old(self).source().len(),
        ensures
            final(self).wf(),
            final(self).source() == old(self).source(),
            match r {
                Ok((o, p)) => res == Ok::<_, SyntaxError>(o) && final(self).position() == p,
                Err(e) => res == Err::<Option<Spanned<ConfigValue<'c>>>, SyntaxError>(e)
                    && final(self).position() == old(self).position(),
            },
    {
        match r {
            Ok((o, p)) => {
                self.set_cursor(p);
                Ok(o)
            },
            Err(e) => Err(e),
        }
    }
}

impl<'c> ConfigValue<'c> {
    /// Parses a value at the cursor of `parser` after optional spaces and
    /// comments; see [`spec_parse_value`].
    pub fn parse(parser: &mut Parser<'c>) -> (res: Result<Option<Spanned<ConfigValue<'c>>>, SyntaxError>)
        requires
            old(parser).wf(),
        ensures
            value_step_is(
                *old(parser),
                *final(parser),
                res,
                spec_parse_value(old(parser).source(), old(parser).position()),
            ),
    {
        let p = parser.cursor();
        let r = parser.parse_value_at(p);
        parser.step_value(r)
    }

    /// Parses a number at the cursor of `parser`; see [`spec_parse_number`].
    pub fn parse_number(parser: &mut Parser<'c>) -> (res: Result<Option<Spanned<ConfigValue<'c>>>, SyntaxError>)
        requires
            old(parser).wf(),
        ensures
            value_step_is(
                *old(parser),
                *final(parser),
                res,
                spec_parse_number(old(parser).source(), old(parser).position()),
            ),
    {
        let p = parser.cursor();
        let r = parser.parse_number_at(p);
        parser.step_value(r)
    }

    /// Parses a boolean at the cursor of `parser`; see [`spec_parse_bool`].
    pub fn parse_bool(parser: &mut Parser<'c>) -> (res: Result<Option<Spanned<ConfigValue<'c>>>, SyntaxError>)
        requires
            old(parser).wf(),
        ensures
            value_step_is(
                *old(parser),
                *final(parser),
                res,
                spec_parse_bool(old(parser).source(), old(parser).position()),
            ),
    {
        let p = parser.cursor();
        let r = parser.parse_bool_at(p);
        parser.step_value(r)
    }

    /// Parses a quoted string at the cursor of `parser`; see [`spec_parse_string`].
    pub fn parse_string(parser: &mut Parser<'c>) -> (res: Result<Option<Spanned<ConfigValue<'c>>>, SyntaxError>)
        requires
            old(parser).wf(),
        ensures
            value_step_is(
                *old(parser),
                *final(parser),
                res,
                spec_parse_string(old(parser).source(), old(parser).position()),
            ),
    {
        let p = parser.cursor();
        let r = parser.parse_string_at(p);
        parser.step_value(r)
    }

    /// Parses an unquoted string at the cursor of `parser`; see
    /// [`spec_parse_ident_string`].
    pub fn parse_ident_string(parser: &mut Parser<'c>) -> (res: Result<
        Option<Spanned<ConfigValue<'c>>>,
        SyntaxError,
    >)
        requires
            old(parser).wf(),
        ensures
            value_step_is(
                *old(parser),
                *final(parser),
                res,
                spec_parse_ident_string(old(parser).source(), old(parser).position()),
            ),
    {
        let p = parser.cursor();
        let r = parser.parse_ident_string_at(p);
        parser.step_value(r)
    }
}

} // verus!

//! Scanning primitives: whitespace, comments and identifiers.
use vstd::prelude::*;

use crate::source::Parser;

verus! {

/// ASCII whitespace: space, tab, line feed, form feed and carriage return.
pub open spec fn spec_is_whitespace(c: char) -> bool {
    c == ' ' || c == '\t' || c == '\n' || c == '\x0C' || c == '\r'
}

/// Characters that end an identifier besides whitespace.
pub open spec fn is_punct(c: char) -> bool {
    c == '=' || c == ',' || c == '{' || c == '}' || c == '[' || c == ']' || c == '"'
}

/// Returns true for ASCII whitespace (space, tab, line feed, form feed, carriage return).
pub fn is_whitespace(c: char) -> (res: bool)
    ensures
        res == spec_is_whitespace(c),
{
    c == ' ' || c == '\t' || c == '\n' || c == '\x0C' || c == '\r'
}

/// What a scan stops at.
#[derive(Clone, Copy, PartialEq, Eq, Structural)]
pub enum Stop {
    /// The first character that is not whitespace.
    NonWhitespace,
    /// The first character that is not whitespace, or a line feed.
    NonWhitespaceOrNewline,
    /// The first whitespace character.
    Whitespace,
    /// The first whitespace or punctuation character.
    WhitespaceOrPunct,
    /// The first line feed.
    Newline,
    /// The first double quote.
    Quote,
    /// The first character that may not stand in an identifier string.
    NonIdentChar,
}

pub open spec fn stops_at(stop: Stop, c: char) -> bool {
    match stop {
        Stop::NonWhitespace => !spec_is_whitespace(c),
        Stop::NonWhitespaceOrNewline => !spec_is_whitespace(c) || c == '\n',
        Stop::Whitespace => spec_is_whitespace(c),
        Stop::WhitespaceOrPunct => spec_is_whitespace(c) || is_punct(c),
        Stop::Newline => c == '\n',
        Stop::Quote => c == '"',
        Stop::NonIdentChar => !is_ident_char(c),
    }
}

/// Characters allowed in an unquoted string: the lower case ASCII letters,
/// `_` and `-`.
pub open spec fn is_ident_char(c: char) -> bool {
    ('a' <= c && c <= 'z') || c == '_' || c == '-'
}

/// Index of the first character at or after `i` that `stop` stops at, or the
/// length of `s` if there is none.
pub open spec fn first_from(s: Seq<char>, i: int, stop: Stop) -> int
    decreases s.len() - i,
{
    if i >= s.len() {
        s.len() as int
    } else if stops_at(stop, s[i]) {
        i
    } else {
        first_from(s, i + 1, stop)
    }
}

pub proof fn lemma_first_from(s: Seq<char>, i: int, stop: Stop)
    requires
        0 <= i <= s.len(),
    ensures
        i <= first_from(s, i, stop) <= s.len(),
        forall|k: int| i <= k < first_from(s, i, stop) ==> !stops_at(stop, #[trigger] s[k]),
        first_from(s, i, stop) < s.len() ==> stops_at(stop, s[first_from(s, i, stop)]),
    decreases s.len() - i,
{
    if i < s.len() && !stops_at(stop, s[i]) {
        lemma_first_from(s, i + 1, stop);
    }
}

/// `s` holds the characters `a` and `b` at `j` and `j + 1`.
pub open spec fn starts2(s: Seq<char>, j: int, a: char, b: char) -> bool {
    0 <= j && j + 1 < s.len() && s[j] == a && s[j + 1] == b
}

/// Index of the first occurrence of `a` followed by `b` at or after `i`.
pub open spec fn find2(s: Seq<char>, i: int, a: char, b: char) -> Option<int>
    decreases s.len() - i,
{
    if i + 1 >= s.len() {
        None
    } else if s[i] == a && s[i + 1] == b {
        Some(i)
    } else {
        find2(s, i + 1, a, b)
    }
}

pub proof fn lemma_find2(s: Seq<char>, i: int, a: char, b: char)
    requires
        0 <= i,
    ensures
        find2(s, i, a, b) matches Some(m) ==> i <= m && m + 1 < s.len(),
    decreases s.len() - i,
{
    if i + 1 < s.len() && !(s[i] == a && s[i + 1] == b) {
        lemma_find2(s, i + 1, a, b);
    }
}

/// Position after skipping whitespace (line feeds too when `newlines`) and
/// comments. A line comment ends before its line feed; when `newlines` is
/// false the position stays there. A block comment without its closing
/// `*/` only has its opening `/*` skipped.
pub open spec fn skip_space(s: Seq<char>, i: int, newlines: bool) -> int
    decreases s.len() - i,
{
    if i < 0 || i > s.len() {
        i
    } else {
        let j = first_from(
            s,
            i,
            if newlines {
                Stop::NonWhitespace
            } else {
                Stop::NonWhitespaceOrNewline
            },
        );
        proof {
            lemma_first_from(
                s,
                i,
                if newlines {
                    Stop::NonWhitespace
                } else {
                    Stop::NonWhitespaceOrNewline
                },
            );
        }
        if starts2(s, j, '/', '*') {
            match find2(s, j + 2, '*', '/') {
                Some(m) => {
                    proof {
                        lemma_find2(s, j + 2, '*', '/');
                    }
                    skip_space(s, m + 2, newlines)
                },
                None => skip_space(s, j + 2, newlines),
            }
        } else if starts2(s, j, '/', '/') {
            let k = first_from(s, j + 2, Stop::Newline);
            proof {
                lemma_first_from(s, j + 2, Stop::Newline);
            }
            if !newlines {
                k
            } else {
                skip_space(s, k, newlines)
            }
        } else {
            j
        }
    }
}

pub proof fn lemma_skip_space(s: Seq<char>, i: int, newlines: bool)
    requires
        0 <= i <= s.len(),
    ensures
        i <= skip_space(s, i, newlines) <= s.len(),
    decreases s.len() - i,
{
    let stop = if newlines {
        Stop::NonWhitespace
    } else {
        Stop::NonWhitespaceOrNewline
    };
    let j = first_from(s, i, stop);
    lemma_first_from(s, i, stop);
    if starts2(s, j, '/', '*') {
        lemma_find2(s, j + 2, '*', '/');
        match find2(s, j + 2, '*', '/') {
            Some(m) => lemma_skip_space(s, m + 2, newlines),
            None => lemma_skip_space(s, j + 2, newlines),
        }
    } else if starts2(s, j, '/', '/') {
        lemma_first_from(s, j + 2, Stop::Newline);
        let k = first_from(s, j + 2, Stop::Newline);
        if newlines {
            lemma_skip_space(s, k, newlines);
        }
    }
}

/// End of the identifier starting at `i`; equal to `i` when there is none.
pub open spec fn ident_end(s: Seq<char>, i: int) -> int {
    first_from(s, i, Stop::WhitespaceOrPunct)
}

impl<'c> Parser<'c> {
    pub fn len(&self) -> (res: usize)
        requires
            self.wf(),
        ensures
            res == self.source().len(),
    {
        self.chars_len()
    }

    /// Character at index `i`.
    pub fn char_at(&self, i: usize) -> (res: char)
        requires
            self.wf(),
            i < self.source().len(),
        ensures
            res == self.source()[i as int],
    {
        self.char_at_index(i)
    }

    pub fn stops(stop: Stop, c: char) -> (res: bool)
        ensures
            res == stops_at(stop, c),
    {
        match stop {
            Stop::NonWhitespace => !is_whitespace(c),
            Stop::NonWhitespaceOrNewline => !is_whitespace(c) || c == '\n',
            Stop::Whitespace => is_whitespace(c),
            Stop::WhitespaceOrPunct => is_whitespace(c) || c == '=' || c == ',' || c == '{' || c
                == '}' || c == '[' || c == ']' || c == '"',
            Stop::Newline => c == '\n',
            Stop::Quote => c == '"',
            Stop::NonIdentChar => !(('a' <= c && c <= 'z') || c == '_' || c == '-'),
        }
    }

    /// Index of the first character at or after `from` that `stop` stops at.
    pub fn scan(&self, from: usize, stop: Stop) -> (res: usize)
        requires
            self.wf(),
            from <= self.source().len(),
        ensures
            res == first_from(self.source(), from as int, stop),
    {
        let n = self.len();
        let mut j = from;
        while j < n
            invariant
                self.wf(),
                n == self.source().len(),
                from <= j <= n,
                first_from(self.source(), from as int, stop) == first_from(
                    self.source(),
                    j as int,
                    stop,
                ),
            decreases n - j,
        {
            if Self::stops(stop, self.char_at(j)) {
                return j;
            }
            j = j + 1;
        }
        j
    }

    /// Whether the characters `a`, `b` stand at `j`.
    pub fn at2(&self, j: usize, a: char, b: char) -> (res: bool)
        requires
            self.wf(),
            j <= self.source().len(),
        ensures
            res == starts2(self.source(), j as int, a, b),
    {
        let n = self.len();
        j < n && n - j > 1 && self.char_at(j) == a && self.char_at(j + 1) == b
    }

    /// Index of the first `a` followed by `b` at or after `from`.
    pub fn find_pair(&self, from: usize, a: char, b: char) -> (res: Option<usize>)
        requires
            self.wf(),
            from <= self.source().len(),
        ensures
            res matches Some(m) ==> find2(self.source(), from as int, a, b) == Some(m as int),
            res is None ==> find2(self.source(), from as int, a, b) is None,
    {
        let n = self.len();
        let mut j = from;
        while j < n
            invariant
                self.wf(),
                n == self.source().len(),
                from <= j <= n,
                find2(self.source(), from as int, a, b) == find2(self.source(), j as int, a, b),
            decreases n - j,
        {
            if n - j > 1 && self.char_at(j) == a && self.char_at(j + 1) == b {
                return Some(j);
            }
            if n - j <= 1 {
                return None;
            }
            j = j + 1;
        }
        None
    }

    /// Skips whitespace and comments starting at `from`; see [`skip_space`].
    pub fn skip_space_from(&self, from: usize, newlines: bool) -> (res: usize)
        requires
            self.wf(),
            from <= self.source().len(),
        ensures
            res == skip_space(self.source(), from as int, newlines),
            from <= res <= self.source().len(),
    {
        let mut i = from;
        proof {
            lemma_skip_space(self.source(), from as int, newlines);
            self.lemma_len_bound();
        }
        loop
            invariant
                self.wf(),
                self.source().len() <= usize::MAX,
                from <= i <= self.source().len(),
                skip_space(self.source(), from as int, newlines) == skip_space(
                    self.source(),
                    i as int,
                    newlines,
                ),
            decreases self.source().len() - i,
        {
            let stop = if newlines {
                Stop::NonWhitespace
            } else {
                Stop::NonWhitespaceOrNewline
            };
            let j = self.scan(i, stop);
            proof {
                lemma_first_from(self.source(), i as int, stop);
            }
            if self.at2(j, '/', '*') {
                match self.find_pair(j + 2, '*', '/') {
                    Some(m) => {
                        proof {
                            lemma_find2(self.source(), j + 2, '*', '/');
                        }
                        i = m + 2;
                    },
                    None => {
                        i = j + 2;
                    },
                }
            } else if self.at2(j, '/', '/') {
                let k = self.scan(j + 2, Stop::Newline);
                if !newlines {
                    proof {
                        lemma_skip_space(self.source(), i as int, newlines);
                    }
                    return k;
                }
                proof {
                    lemma_first_from(self.source(), j + 2, Stop::Newline);
                }
                i = k;
            } else {
                proof {
                    lemma_skip_space(self.source(), i as int, newlines);
                }
                return j;
            }
        }
    }
}

} // verus!

verus! {

/// Skips whitespace and comments at the cursor of `parser`; line feeds too when
/// `skip_newlines`. See [`skip_space`]. Never fails.
pub fn skip_space_and_comments<'c>(parser: &mut Parser<'c>, skip_newlines: bool) -> (res: Result<
    (),
    crate::syntax_error::SyntaxError,
>)
    requires
        old(parser).wf(),
    ensures
        res is Ok,
        final(parser).wf(),
        final(parser).source() == old(parser).source(),
        final(parser).position() == skip_space(
            old(parser).source(),
            old(parser).position(),
            skip_newlines,
        ),
{
    let p = parser.cursor();
    let q = parser.skip_space_from(p, skip_newlines);
    parser.set_cursor(q);
    Ok(())
}

/// Takes the identifier at the cursor of `parser`: the characters up to the
/// next whitespace or punctuation (`= , { } [ ] "`). `None`, and the cursor
/// unmoved, when there is none. Never fails.
pub fn ident<'c>(parser: &mut Parser<'c>) -> (res: Result<
    Option<crate::span::Spanned<&'c str>>,
    crate::syntax_error::SyntaxError,
>)
    requires
        old(parser).wf(),
    ensures
        final(parser).wf(),
        final(parser).source() == old(parser).source(),
        final(parser).position() == ident_end(old(parser).source(), old(parser).position()),
        match res {
            Ok(Some(id)) => ident_end(old(parser).source(), old(parser).position())
                > old(parser).position() && id@ == (crate::span::Spanned {
                span: crate::source::bspan(
                    old(parser).source(),
                    old(parser).position(),
                    ident_end(old(parser).source(), old(parser).position()),
                ),
                inner: old(parser).source().subrange(
                    old(parser).position(),
                    ident_end(old(parser).source(), old(parser).position()),
                ),
            }),
            Ok(None) => ident_end(old(parser).source(), old(parser).position())
                == old(parser).position(),
            Err(_) => false,
        },
{
    let p = parser.cursor();
    let j = parser.scan(p, Stop::WhitespaceOrPunct);
    proof {
        lemma_first_from(parser.source(), p as int, Stop::WhitespaceOrPunct);
    }
    if j == p {
        return Ok(None);
    }
    let id = crate::span::Spanned::new(parser.slice(p, j), parser.span_of(p, j));
    parser.set_cursor(j);
    Ok(Some(id))
}

} // verus!

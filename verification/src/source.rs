//! The parser state: the source text as characters together with the byte
//! offset of every character, and a cursor into it.
use vstd::prelude::*;

use crate::span::Span;

verus! {

/// Number of bytes the UTF-8 encoding of `c` takes.
pub open spec fn char_width(c: char) -> nat {
    if (c as u32) < 0x80 {
        1
    } else if (c as u32) < 0x800 {
        2
    } else if (c as u32) < 0x10000 {
        3
    } else {
        4
    }
}

/// Number of bytes the UTF-8 encoding of `s` takes.
pub open spec fn utf8_len(s: Seq<char>) -> nat
    decreases s.len(),
{
    if s.len() == 0 {
        0
    } else {
        utf8_len(s.drop_last()) + char_width(s.last())
    }
}

/// Byte offset of the character at index `i` of `s`.
pub open spec fn byte_pos(s: Seq<char>, i: int) -> nat {
    utf8_len(s.take(i))
}

/// The byte span of the characters `a..b` of `s`.
pub open spec fn bspan(s: Seq<char>, a: int, b: int) -> Span {
    Span { start: byte_pos(s, a) as usize, end: byte_pos(s, b) as usize }
}

pub proof fn lemma_utf8_len_prefix(s: Seq<char>, i: int)
    requires
        0 <= i <= s.len(),
    ensures
        utf8_len(s.take(i)) <= utf8_len(s),
    decreases s.len(),
{
    if i < s.len() {
        lemma_utf8_len_prefix(s.drop_last(), i);
        assert(s.drop_last().take(i) =~= s.take(i));
    } else {
        assert(s.take(i) =~= s);
    }
}

/// Proof that the width of a character is the length of its UTF-8 encoding.
pub proof fn lemma_char_width_encode(c: char)
    ensures
        vstd::utf8::encode_scalar(c as u32).len() == char_width(c),
{
}

/// Proof that the first character of `s` takes its width at the front.
pub proof fn lemma_utf8_len_first(s: Seq<char>)
    requires
        s.len() > 0,
    ensures
        utf8_len(s) == char_width(s[0]) + utf8_len(s.drop_first()),
    decreases s.len(),
{
    if s.len() > 1 {
        lemma_utf8_len_first(s.drop_last());
        assert(s.drop_last().drop_first() =~= s.drop_first().drop_last());
        assert(s.drop_last()[0] == s[0]);
    } else {
        assert(s.drop_first() =~= Seq::<char>::empty());
        assert(s.drop_last() =~= Seq::<char>::empty());
    }
}

/// Proof that [`utf8_len`] is the length of the UTF-8 encoding.
pub proof fn lemma_utf8_len_encode(s: Seq<char>)
    ensures
        utf8_len(s) == vstd::utf8::encode_utf8(s).len(),
    decreases s.len(),
{
    if s.len() > 0 {
        lemma_utf8_len_first(s);
        lemma_char_width_encode(s[0]);
        lemma_utf8_len_encode(s.drop_first());
    }
}

pub proof fn lemma_byte_pos_step(s: Seq<char>, i: int)
    requires
        0 <= i < s.len(),
    ensures
        byte_pos(s, i + 1) == byte_pos(s, i) + char_width(s[i]),
{
    assert(s.take(i + 1).drop_last() =~= s.take(i));
}

pub fn char_width_exec(c: char) -> (res: usize)
    ensures
        res == char_width(c),
{
    let u = c as u32;
    if u < 0x80 {
        1
    } else if u < 0x800 {
        2
    } else if u < 0x10000 {
        3
    } else {
        4
    }
}

/// A cursor over a source text.
///
/// All positions are character indices; spans reported to users are byte
/// offsets, read from the offset table.
pub struct Parser<'c> {
    text: &'c str,
    chars: Vec<char>,
    offsets: Vec<usize>,
    pos: usize,
}

impl<'c> Parser<'c> {
    /// The characters of the whole source text.
    pub closed spec fn source(&self) -> Seq<char> {
        self.text@
    }

    /// The character index of the cursor.
    pub closed spec fn position(&self) -> int {
        self.pos as int
    }

    pub closed spec fn wf(&self) -> bool {
        &&& self.chars@ == self.text@
        &&& self.offsets@.len() == self.chars@.len() + 1
        &&& forall|i: int|
            0 <= i <= self.chars@.len() ==> #[trigger] self.offsets@[i] == byte_pos(self.text@, i)
        &&& self.pos <= self.chars@.len()
    }

    /// Creates a parser positioned at the start of `text`.
    pub fn new(text: &'c str) -> (res: Self)
        ensures
            res.wf(),
            res.source() == text@,
            res.position() == 0,
    {
        let bytes = text.as_bytes();
        let byte_len = bytes.len();
        proof {
            lemma_utf8_len_encode(text@);
            assert(utf8_len(text@) == byte_len);
        }
        let mut chars: Vec<char> = Vec::new();
        let mut offsets: Vec<usize> = Vec::new();
        let mut off: usize = 0;
        offsets.push(0);
        proof {
            assert(text@.take(0) =~= Seq::<char>::empty());
        }
        let n = text.unicode_len();
        let mut i: usize = 0;
        while i < n
            invariant
                n == text@.len(),
                i <= n,
                utf8_len(text@) <= usize::MAX,
                chars@ == text@.take(i as int),
                offsets@.len() == i + 1,
                off == byte_pos(text@, i as int),
                forall|k: int| 0 <= k <= i ==> #[trigger] offsets@[k] == byte_pos(text@, k),
            decreases n - i,
        {
            let c = text.get_char(i);
            let w = char_width_exec(c);
            proof {
                lemma_byte_pos_step(text@, i as int);
                lemma_utf8_len_prefix(text@, i + 1);
            }
            off = off + w;
            chars.push(c);
            offsets.push(off);
            i = i + 1;
            proof {
                assert(chars@ =~= text@.take(i as int));
            }
        }
        proof {
            assert(text@.take(n as int) =~= text@);
        }
        Parser { text, chars, offsets, pos: 0 }
    }
}

} // verus!

verus! {

impl<'c> Parser<'c> {
    pub fn chars_len(&self) -> (res: usize)
        requires
            self.wf(),
        ensures
            res == self.source().len(),
    {
        self.chars.len()
    }

    pub fn char_at_index(&self, i: usize) -> (res: char)
        requires
            self.wf(),
            i < self.source().len(),
        ensures
            res == self.source()[i as int],
    {
        self.chars[i]
    }
}

} // verus!

verus! {

impl<'c> Parser<'c> {
    pub proof fn lemma_len_bound(&self)
        requires
            self.wf(),
        ensures
            self.source().len() <= usize::MAX,
            0 <= self.position() <= self.source().len(),
    {
        assert(self.chars@.len() == self.chars.len());
    }
}

} // verus!

verus! {

impl<'c> Parser<'c> {
    /// The text of the characters `a..b`.
    pub fn slice(&self, a: usize, b: usize) -> (res: &'c str)
        requires
            self.wf(),
            a <= b <= self.source().len(),
        ensures
            res@ == self.source().subrange(a as int, b as int),
    {
        self.text.substring_char(a, b)
    }

    /// Byte offset of the character at index `i`.
    pub fn offset(&self, i: usize) -> (res: usize)
        requires
            self.wf(),
            i <= self.source().len(),
        ensures
            res == byte_pos(self.source(), i as int),
    {
        self.offsets[i]
    }

    /// Byte span of the characters `a..b`.
    pub fn span_of(&self, a: usize, b: usize) -> (res: Span)
        requires
            self.wf(),
            a <= b <= self.source().len(),
        ensures
            res == bspan(self.source(), a as int, b as int),
    {
        Span { start: self.offsets[a], end: self.offsets[b] }
    }

    /// The characters `a..b` as a vector.
    pub fn chars_of(&self, a: usize, b: usize) -> (res: Vec<char>)
        requires
            self.wf(),
            a <= b <= self.source().len(),
        ensures
            res@ == self.source().subrange(a as int, b as int),
    {
        let mut v: Vec<char> = Vec::new();
        let mut i = a;
        while i < b
            invariant
                self.wf(),
                a <= i <= b <= self.source().len(),
                v@ == self.source().subrange(a as int, i as int),
            decreases b - i,
        {
            v.push(self.chars[i]);
            i = i + 1;
            proof {
                assert(v@ =~= self.source().subrange(a as int, i as int));
            }
        }
        v
    }
}

} // verus!

verus! {

impl<'c> Parser<'c> {
    /// The character index of the cursor.
    pub fn cursor(&self) -> (res: usize)
        requires
            self.wf(),
        ensures
            res == self.position(),
            res <= self.source().len(),
    {
        self.pos
    }

    /// Moves the cursor to character index `p`.
    pub fn set_cursor(&mut self, p: usize)
        requires
            old(self).wf(),
            p <= old(self).source().len(),
        ensures
            final(self).wf(),
            final(self).source() == old(self).source(),
            final(self).position() == p,
    {
        self.pos = p;
    }
}

} // verus!

verus! {

impl<'c> Parser<'c> {
    /// The text from the cursor to the end.
    pub fn str(&self) -> (res: &'c str)
        requires
            self.wf(),
        ensures
            res@ == self.source().subrange(self.position(), self.source().len() as int),
    {
        self.text.substring_char(self.pos, self.chars.len())
    }

    /// Whether the cursor is at the end of the text.
    pub fn end(&self) -> (res: bool)
        requires
            self.wf(),
        ensures
            res == (self.position() == self.source().len()),
    {
        self.pos == self.chars.len()
    }
}

} // verus!

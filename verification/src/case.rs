//! Conversion of type names from PascalCase to kebab-case node names.
use vstd::prelude::*;

use crate::text::string_push;

verus! {

/// Whether `c` has the Unicode `Uppercase` property (`char::is_uppercase`).
pub uninterp spec fn char_is_uppercase(c: char) -> bool;

/// The lower case mapping of `c` (`char::to_lowercase`).
pub uninterp spec fn char_lowercase(c: char) -> Seq<char>;

/// `char::is_uppercase`: whether `c` has the Unicode `Uppercase` property.
#[verifier::external_body]
fn is_uppercase(c: char) -> (res: bool)
    ensures
        res == char_is_uppercase(c),
{
    c.is_uppercase()
}

/// `char::to_lowercase`: the characters of the lower case mapping of `c`.
#[verifier::external_body]
fn to_lowercase(c: char) -> (res: Vec<char>)
    ensures
        res@ == char_lowercase(c),
{
    c.to_lowercase().collect()
}

/// What a character of a PascalCase name becomes: an upper case character
/// becomes its lower case mapping, preceded by `-` unless it is the first
/// character; any other character stays.
pub open spec fn kebab_piece(c: char, first: bool, upper: bool, lower: Seq<char>) -> Seq<char> {
    if upper {
        if first {
            lower
        } else {
            seq!['-'] + lower
        }
    } else {
        seq![c]
    }
}

/// The kebab-case form of `s`.
pub open spec fn spec_pascal_to_kebab(s: Seq<char>) -> Seq<char>
    decreases s.len(),
{
    if s.len() == 0 {
        Seq::empty()
    } else {
        spec_pascal_to_kebab(s.drop_last()) + kebab_piece(
            s.last(),
            s.len() == 1,
            char_is_uppercase(s.last()),
            char_lowercase(s.last()),
        )
    }
}

/// Appends to `out` what the character `c` of a PascalCase name becomes,
/// given whether it is the first character, whether it is upper case and its
/// lower case mapping.
pub fn push_kebab_piece(out: &mut String, c: char, first: bool, upper: bool, lower: &Vec<char>)
    ensures
        final(out)@ == old(out)@ + kebab_piece(c, first, upper, lower@),
{
    if upper {
        if !first {
            string_push(out, '-');
        }
        let ghost start = out@;
        let mut i: usize = 0;
        while i < lower.len()
            invariant
                i <= lower@.len(),
                out@ == start + lower@.take(i as int),
            decreases lower@.len() - i,
        {
            string_push(out, lower[i]);
            i = i + 1;
            proof {
                assert(out@ =~= start + lower@.take(i as int));
            }
        }
        proof {
            assert(lower@.take(lower@.len() as int) =~= lower@);
            assert(final(out)@ =~= old(out)@ + kebab_piece(c, first, upper, lower@));
        }
    } else {
        string_push(out, c);
        assert(final(out)@ =~= old(out)@ + kebab_piece(c, first, upper, lower@));
    }
}

/// Converts a PascalCase name to kebab-case: `MyNode` becomes `my-node`.
pub fn pascal_to_kebab(name: String) -> (res: String)
    ensures
        res@ == spec_pascal_to_kebab(name@),
{
    let mut output = String::new();
    let n = name.as_str().unicode_len();
    let mut i: usize = 0;
    proof {
        assert(name@.take(0) =~= Seq::<char>::empty());
    }
    while i < n
        invariant
            n == name@.len(),
            i <= n,
            output@ == spec_pascal_to_kebab(name@.take(i as int)),
        decreases n - i,
    {
        let c = name.as_str().get_char(i);
        let upper = is_uppercase(c);
        let lower = to_lowercase(c);
        push_kebab_piece(&mut output, c, i == 0, upper, &lower);
        proof {
            let t = name@.take(i + 1);
            assert(t.drop_last() =~= name@.take(i as int));
            assert(t.last() == c);
        }
        i = i + 1;
    }
    proof {
        assert(name@.take(n as int) =~= name@);
    }
    output
}

} // verus!

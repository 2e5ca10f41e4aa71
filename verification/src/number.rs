//! Number literals: integers in base 2, 10 or 16 and float literals.
use vstd::prelude::*;

verus! {

/// Why an integer literal was rejected.
#[derive(Debug, Clone, Copy, PartialEq, Eq, Structural)]
pub enum IntErrorKind {
    Empty,
    InvalidDigit,
    PosOverflow,
    NegOverflow,
}

/// Why a float literal was rejected.
#[derive(Debug, Clone, Copy, PartialEq, Eq, Structural)]
pub enum FloatErrorKind {
    Empty,
    Invalid,
}

/// An integer literal that could not be read.
#[derive(Debug, Clone, Copy, PartialEq, Eq, Structural)]
pub struct IntParseError {
    pub kind: IntErrorKind,
}

/// A float literal that could not be read.
#[derive(Debug, Clone, Copy, PartialEq, Eq, Structural)]
pub struct FloatParseError {
    pub kind: FloatErrorKind,
}

pub open spec fn is_decimal_digit(c: char) -> bool {
    '0' <= c && c <= '9'
}

/// Value of `c` as a digit in base `radix` (at most 36), if it is one.
pub open spec fn digit_value(c: char, radix: int) -> Option<int> {
    let d: int = if '0' <= c && c <= '9' {
        (c as int) - ('0' as int)
    } else if 'a' <= c && c <= 'z' {
        (c as int) - ('a' as int) + 10
    } else if 'A' <= c && c <= 'Z' {
        (c as int) - ('A' as int) + 10
    } else {
        99
    };
    if d < radix {
        Some(d)
    } else {
        None
    }
}

/// Reads the digits `d[i..]` onto the accumulated value `acc`, left to right.
/// The first character that is not a digit, or the first digit after which
/// the value leaves the range of `i64`, decides the error.
pub open spec fn fold_digits(d: Seq<char>, radix: int, negative: bool, i: int, acc: int) -> Result<
    i64,
    IntErrorKind,
>
    decreases d.len() - i,
{
    if i < 0 || i >= d.len() {
        Ok(acc as i64)
    } else {
        match digit_value(d[i], radix) {
            None => Err(IntErrorKind::InvalidDigit),
            Some(x) => {
                let next = if negative {
                    acc * radix - x
                } else {
                    acc * radix + x
                };
                if negative && next < i64::MIN {
                    Err(IntErrorKind::NegOverflow)
                } else if !negative && next > i64::MAX {
                    Err(IntErrorKind::PosOverflow)
                } else {
                    fold_digits(d, radix, negative, i + 1, next)
                }
            },
        }
    }
}

/// Integer value of `d` in base `radix`: an optional `+` or `-` sign followed
/// by at least one digit, the value in the range of `i64`.
pub open spec fn spec_int_from_str_radix(d: Seq<char>, radix: int) -> Result<i64, IntErrorKind> {
    if d.len() == 0 {
        Err(IntErrorKind::Empty)
    } else if (d[0] == '+' || d[0] == '-') && d.len() == 1 {
        Err(IntErrorKind::InvalidDigit)
    } else if d[0] == '+' {
        fold_digits(d, radix, false, 1, 0)
    } else if d[0] == '-' {
        fold_digits(d, radix, true, 1, 0)
    } else {
        fold_digits(d, radix, false, 0, 0)
    }
}

fn digit_value_exec(c: char, radix: i64) -> (res: Option<i64>)
    requires
        2 <= radix <= 36,
    ensures
        match digit_value(c, radix as int) {
            Some(x) => res == Some(x as i64),
            None => res is None,
        },
{
    let u = c as u32;
    let d: i64 = if '0' <= c && c <= '9' {
        (u - ('0' as u32)) as i64
    } else if 'a' <= c && c <= 'z' {
        (u - ('a' as u32)) as i64 + 10
    } else if 'A' <= c && c <= 'Z' {
        (u - ('A' as u32)) as i64 + 10
    } else {
        99
    };
    if d < radix {
        Some(d)
    } else {
        None
    }
}

/// Reads `d` as an integer in base `radix` (2 to 36): an optional sign
/// followed by digits.
pub fn int_from_str_radix(d: &Vec<char>, radix: u32) -> (res: Result<i64, IntParseError>)
    requires
        2 <= radix <= 36,
    ensures
        match spec_int_from_str_radix(d@, radix as int) {
            Ok(v) => res == Ok::<i64, IntParseError>(v),
            Err(k) => res == Err::<i64, IntParseError>(IntParseError { kind: k }),
        },
{
    let n = d.len();
    if n == 0 {
        return Err(IntParseError { kind: IntErrorKind::Empty });
    }
    if (d[0] == '+' || d[0] == '-') && n == 1 {
        return Err(IntParseError { kind: IntErrorKind::InvalidDigit });
    }
    let negative = d[0] == '-';
    let mut i: usize = if d[0] == '+' || d[0] == '-' {
        1
    } else {
        0
    };
    let r: i64 = radix as i64;
    let mut acc: i64 = 0;
    assert(spec_int_from_str_radix(d@, radix as int) == fold_digits(
        d@,
        radix as int,
        negative,
        i as int,
        0,
    ));
    while i < n
        invariant
            n == d@.len(),
            i <= n,
            r == radix as int,
            2 <= r <= 36,
            negative ==> acc <= 0,
            !negative ==> acc >= 0,
            spec_int_from_str_radix(d@, radix as int) == fold_digits(
                d@,
                radix as int,
                negative,
                i as int,
                acc as int,
            ),
        decreases n - i,
    {
        let mul = acc.checked_mul(r);
        proof {
            if negative {
                assert(acc * r <= 0) by (nonlinear_arith)
                    requires
                        acc <= 0,
                        r >= 2,
                ;
            } else {
                assert(acc * r >= 0) by (nonlinear_arith)
                    requires
                        acc >= 0,
                        r >= 2,
                ;
            }
        }
        let x = match digit_value_exec(d[i], r) {
            Some(x) => x,
            None => {
                return Err(IntParseError { kind: IntErrorKind::InvalidDigit });
            },
        };
        assert(0 <= x < r);
        let m = match mul {
            Some(m) => m,
            None => {
                if negative {
                    return Err(IntParseError { kind: IntErrorKind::NegOverflow });
                } else {
                    return Err(IntParseError { kind: IntErrorKind::PosOverflow });
                }
            },
        };
        if negative {
            match m.checked_sub(x) {
                Some(v) => {
                    acc = v;
                },
                None => {
                    return Err(IntParseError { kind: IntErrorKind::NegOverflow });
                },
            }
        } else {
            match m.checked_add(x) {
                Some(v) => {
                    acc = v;
                },
                None => {
                    return Err(IntParseError { kind: IntErrorKind::PosOverflow });
                },
            }
        }
        i = i + 1;
    }
    Ok(acc)
}

/// End of the run of decimal digits starting at `k`.
pub open spec fn digits_end(t: Seq<char>, k: int) -> int
    decreases t.len() - k,
{
    if k < 0 || k >= t.len() {
        t.len() as int
    } else if is_decimal_digit(t[k]) {
        digits_end(t, k + 1)
    } else {
        k
    }
}

/// `t[k..]` is empty or an exponent: `e` or `E`, an optional sign and at
/// least one decimal digit.
pub open spec fn exponent_ok(t: Seq<char>, k: int) -> bool {
    k == t.len() || (0 <= k < t.len() && (t[k] == 'e' || t[k] == 'E') && {
        let c = if k + 1 < t.len() && (t[k + 1] == '+' || t[k + 1] == '-') {
            k + 2
        } else {
            k + 1
        };
        let e = digits_end(t, c);
        e > c && e == t.len()
    })
}

/// `t` is a decimal float literal: digits with at most one `.`, at least one
/// digit, then an optional exponent (`Digit+ | Digit+ . Digit* | Digit* . Digit+`
/// followed by `Exp?`).
pub open spec fn float_literal_ok(t: Seq<char>) -> bool {
    let a = digits_end(t, 0);
    if a < t.len() && t[a] == '.' {
        let b = digits_end(t, a + 1);
        (a > 0 || b > a + 1) && exponent_ok(t, b)
    } else {
        a > 0 && exponent_ok(t, a)
    }
}

proof fn lemma_digits_end(t: Seq<char>, k: int)
    requires
        0 <= k <= t.len(),
    ensures
        k <= digits_end(t, k) <= t.len(),
    decreases t.len() - k,
{
    if k < t.len() && is_decimal_digit(t[k]) {
        lemma_digits_end(t, k + 1);
    }
}

fn digits_end_exec(t: &Vec<char>, k: usize) -> (res: usize)
    requires
        k <= t@.len(),
    ensures
        res == digits_end(t@, k as int),
        k <= res <= t@.len(),
{
    let mut i = k;
    while i < t.len() && '0' <= t[i] && t[i] <= '9'
        invariant
            k <= i <= t@.len(),
            digits_end(t@, k as int) == digits_end(t@, i as int),
        decreases t@.len() - i,
    {
        i = i + 1;
    }
    i
}

fn exponent_ok_exec(t: &Vec<char>, k: usize) -> (res: bool)
    requires
        k <= t@.len(),
    ensures
        res == exponent_ok(t@, k as int),
{
    let n = t.len();
    if k == n {
        return true;
    }
    if !(t[k] == 'e' || t[k] == 'E') {
        return false;
    }
    let c = if k + 1 < n && (t[k + 1] == '+' || t[k + 1] == '-') {
        k + 2
    } else {
        k + 1
    };
    let e = digits_end_exec(t, c);
    e > c && e == n
}

/// Whether `t` is a float literal the standard library's `f64` parser accepts,
/// for text starting with a digit or a `.`; see [`float_literal_ok`].
pub fn float_literal_check(t: &Vec<char>) -> (res: Result<(), FloatParseError>)
    ensures
        res is Ok <==> float_literal_ok(t@),
        res matches Err(e) ==> e.kind == (if t@.len() == 0 {
            FloatErrorKind::Empty
        } else {
            FloatErrorKind::Invalid
        }),
{
    let n = t.len();
    if n == 0 {
        return Err(FloatParseError { kind: FloatErrorKind::Empty });
    }
    let a = digits_end_exec(t, 0);
    let ok = if a < n && t[a] == '.' {
        let b = digits_end_exec(t, a + 1);
        (a > 0 || b > a + 1) && exponent_ok_exec(t, b)
    } else {
        a > 0 && exponent_ok_exec(t, a)
    };
    if ok {
        Ok(())
    } else {
        Err(FloatParseError { kind: FloatErrorKind::Invalid })
    }
}

} // verus!

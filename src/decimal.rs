//! Decimal notation of integers: rendering and parsing.
use vstd::prelude::*;

verus! {

/// The ASCII digit for `d`, which is below ten.
pub open spec fn digit_char(d: nat) -> char {
    ((d + 48) as u8) as char
}

/// The value of an ASCII digit character.
pub open spec fn char_digit(c: char) -> nat {
    (c as u32 - 48) as nat
}

pub open spec fn is_digit(c: char) -> bool {
    '0' <= c && c <= '9'
}

/// `n` written in base ten, without sign or leading zeros.
pub open spec fn decimal(n: nat) -> Seq<char>
    decreases n,
{
    if n < 10 {
        seq![digit_char(n)]
    } else {
        decimal(n / 10).push(digit_char(n % 10))
    }
}

/// The value of a string of decimal digits.
pub open spec fn digits_value(s: Seq<char>) -> nat
    decreases s.len(),
{
    if s.len() == 0 {
        0
    } else {
        digits_value(s.drop_last()) * 10 + char_digit(s.last())
    }
}

pub open spec fn all_digits(s: Seq<char>) -> bool {
    forall|i: int| 0 <= i < s.len() ==> is_digit(#[trigger] s[i])
}

/// The integer that `s` writes: an optional `+` or `-`, then at least one
/// decimal digit, and nothing else.
pub open spec fn parse_int(s: Seq<char>) -> Option<int> {
    if s.len() > 0 && (s[0] == '-' || s[0] == '+') {
        let rest = s.drop_first();
        if rest.len() > 0 && all_digits(rest) {
            if s[0] == '-' {
                Some(-digits_value(rest))
            } else {
                Some(digits_value(rest) as int)
            }
        } else {
            None
        }
    } else if s.len() > 0 && all_digits(s) {
        Some(digits_value(s) as int)
    } else {
        None
    }
}

/// What `str::parse::<i32>` accepts: the integers of `parse_int` that fit.
pub open spec fn parse_i32(s: Seq<char>) -> Option<i32> {
    match parse_int(s) {
        Some(v) => if i32::MIN <= v <= i32::MAX {
            Some(v as i32)
        } else {
            None
        },
        None => None,
    }
}

/// One more than the largest magnitude an `i32` can take.
pub open spec fn clamp_magnitude(v: nat) -> int {
    if v > 0x8000_0000 {
        0x8000_0001
    } else {
        v as int
    }
}

/// Reads `s` as a decimal `i32`, with an optional sign.
pub fn parse_i32_exec(s: &str) -> (r: Option<i32>)
    ensures
        r == parse_i32(s@),
{
    let n = s.unicode_len();
    if n == 0 {
        return None;
    }
    let first = s.get_char(0);
    let negative = first == '-';
    let start: usize = if first == '-' || first == '+' { 1 } else { 0 };
    if start == n {
        return None;
    }
    let ghost digits = s@.subrange(start as int, n as int);
    let mut acc: i64 = 0;
    let mut i: usize = start;
    while i < n
        invariant
            start <= i <= n,
            start <= 1,
            first == s@[0],
            negative == (first == '-'),
            start == 1 <==> (first == '-' || first == '+'),
            n == s@.len(),
            digits == s@.subrange(start as int, n as int),
            all_digits(s@.subrange(start as int, i as int)),
            acc == clamp_magnitude(digits_value(s@.subrange(start as int, i as int))),
        decreases n - i,
    {
        let c = s.get_char(i);
        if !(c >= '0' && c <= '9') {
            proof {
                assert(!is_digit(digits[i - start]));
                assert(!all_digits(digits));
                if start == 1 {
                    assert(s@.drop_first() =~= digits);
                } else {
                    assert(s@ =~= digits);
                }
            }
            return None;
        }
        let d = (c as u32 - 48) as i64;
        let ghost prev = s@.subrange(start as int, i as int);
        let ghost next = s@.subrange(start as int, i + 1);
        proof {
            assert(next.drop_last() =~= prev);
            assert(next.last() == c);
            let v = digits_value(prev);
            if acc > 0x8000_0000 {
                assert(v * 10 + d > 0x8000_0000) by (nonlinear_arith)
                    requires v > 0x8000_0000, d >= 0;
            }
        }
        if acc > 0x8000_0000 {
            acc = 0x8000_0001;
        } else {
            acc = acc * 10 + d;
            if acc > 0x8000_0000 {
                acc = 0x8000_0001;
            }
        }
        i = i + 1;
        proof {
            assert forall|j: int| 0 <= j < next.len() implies is_digit(#[trigger] next[j]) by {
                if j < prev.len() {
                    assert(next[j] == prev[j]);
                }
            }
        }
    }
    proof {
        assert(s@.subrange(start as int, n as int) =~= digits);
        if start == 1 {
            assert(s@.drop_first() =~= digits);
        } else {
            assert(s@ =~= digits);
        }
    }
    if negative {
        if acc > 0x8000_0000 {
            None
        } else {
            Some((-acc) as i32)
        }
    } else {
        if acc > 0x7fff_ffff {
            None
        } else {
            Some(acc as i32)
        }
    }
}

/// Whether every character of `s[from..to]` is a decimal digit.
pub fn digits_between(s: &str, from: usize, to: usize) -> (r: bool)
    requires
        from <= to <= s@.len(),
    ensures
        r == all_digits(s@.subrange(from as int, to as int)),
{
    let mut i: usize = from;
    while i < to
        invariant
            from <= i <= to <= s@.len(),
            all_digits(s@.subrange(from as int, i as int)),
        decreases to - i,
    {
        let c = s.get_char(i);
        if !(c >= '0' && c <= '9') {
            assert(s@.subrange(from as int, to as int)[i - from] == c);
            return false;
        }
        i = i + 1;
        assert forall|j: int| 0 <= j < i - from implies is_digit(
            #[trigger] s@.subrange(from as int, i as int)[j],
        ) by {
            if j < i - 1 - from {
                assert(s@.subrange(from as int, i as int)[j] == s@.subrange(
                    from as int,
                    i - 1,
                )[j]);
            }
        }
    }
    true
}

/// `c` in lower case, for ASCII letters.
pub open spec fn lower(c: char) -> char {
    if 'A' <= c <= 'Z' {
        ((c as u32) + 32) as char
    } else {
        c
    }
}

pub open spec fn is_sign(c: char) -> bool {
    c == '+' || c == '-'
}

pub open spec fn is_exponent_mark(c: char) -> bool {
    c == 'e' || c == 'E'
}

/// `s` spells the lower-case word `w`, ignoring the case of ASCII letters.
pub open spec fn spells(s: Seq<char>, w: Seq<char>) -> bool {
    s.len() == w.len() && forall|i: int| 0 <= i < s.len() ==> lower(#[trigger] s[i]) == w[i]
}

/// The first position at or after `i` of an exponent mark (`exponent`) or
/// of a decimal point (otherwise); the length of `s` where there is none.
pub open spec fn first_mark(s: Seq<char>, i: int, exponent: bool) -> int
    decreases s.len() - i,
{
    if i >= s.len() {
        s.len() as int
    } else if (if exponent {
        is_exponent_mark(s[i])
    } else {
        s[i] == '.'
    }) {
        i
    } else {
        first_mark(s, i + 1, exponent)
    }
}

/// Digits with at most one decimal point, and at least one digit.
pub open spec fn is_mantissa(m: Seq<char>) -> bool {
    let d = first_mark(m, 0, false);
    &&& all_digits(m.subrange(0, d))
    &&& (d == m.len() || all_digits(m.subrange(d + 1, m.len() as int)))
    &&& m.len() > (if d < m.len() {
        1int
    } else {
        0int
    })
}

/// An optional sign, then at least one digit.
pub open spec fn is_exponent(x: Seq<char>) -> bool {
    let y = if x.len() > 0 && is_sign(x[0]) {
        x.drop_first()
    } else {
        x
    };
    y.len() > 0 && all_digits(y)
}

/// A mantissa, then optionally an exponent mark and an exponent.
pub open spec fn is_number(s: Seq<char>) -> bool {
    let p = first_mark(s, 0, true);
    is_mantissa(s.subrange(0, p)) && (p == s.len() || is_exponent(s.subrange(p + 1, s.len() as int)))
}

/// The texts that `str::parse::<f64>` accepts, as its documentation gives
/// the grammar: an optional sign, then `inf`, `infinity`, `nan` (in any case)
/// or a decimal number with an optional exponent.
pub open spec fn is_float_text(s: Seq<char>) -> bool {
    let u = if s.len() > 0 && is_sign(s[0]) {
        s.drop_first()
    } else {
        s
    };
    ||| spells(u, seq!['i', 'n', 'f'])
    ||| spells(u, seq!['i', 'n', 'f', 'i', 'n', 'i', 't', 'y'])
    ||| spells(u, seq!['n', 'a', 'n'])
    ||| is_number(u)
}

fn first_mark_exec(s: &str, from: usize, to: usize, exponent: bool) -> (r: usize)
    requires
        from <= to <= s@.len(),
    ensures
        r as int == first_mark(s@.subrange(0, to as int), from as int, exponent),
        from <= r <= to,
{
    let ghost t = s@.subrange(0, to as int);
    let mut i: usize = from;
    while i < to
        invariant
            from <= i <= to <= s@.len(),
            t == s@.subrange(0, to as int),
            first_mark(t, from as int, exponent) == first_mark(t, i as int, exponent),
        decreases to - i,
    {
        let c = s.get_char(i);
        assert(t[i as int] == c);
        let hit = if exponent {
            c == 'e' || c == 'E'
        } else {
            c == '.'
        };
        if hit {
            return i;
        }
        i = i + 1;
    }
    to
}

fn spells_exec(s: &str, from: usize, w: &[char]) -> (r: bool)
    requires
        from <= s@.len(),
        forall|i: int| 0 <= i < w@.len() ==> 'a' <= #[trigger] w@[i] <= 'z',
    ensures
        r == spells(s@.subrange(from as int, s@.len() as int), w@),
{
    let n = s.unicode_len();
    let ghost u = s@.subrange(from as int, s@.len() as int);
    if n - from != w.len() {
        return false;
    }
    let mut i: usize = 0;
    while i < w.len()
        invariant
            from + w@.len() == n == s@.len(),
            u == s@.subrange(from as int, s@.len() as int),
            i <= w@.len(),
            forall|j: int| 0 <= j < i ==> lower(#[trigger] u[j]) == w@[j],
        decreases w.len() - i,
    {
        let c = s.get_char(from + i);
        assert(u[i as int] == c);
        let l = if c >= 'A' && c <= 'Z' {
            ((c as u32) + 32) as u8 as char
        } else {
            c
        };
        if l != w[i] {
            return false;
        }
        i = i + 1;
    }
    true
}

/// Whether `str::parse::<f64>` would accept `s`.
pub fn is_float_text_exec(s: &str) -> (r: bool)
    ensures
        r == is_float_text(s@),
        s@.len() == 0 ==> !r,
{
    let n = s.unicode_len();
    let start: usize = if n > 0 && (s.get_char(0) == '+' || s.get_char(0) == '-') {
        1
    } else {
        0
    };
    let ghost u = s@.subrange(start as int, n as int);
    proof {
        if start == 1 {
            assert(u =~= s@.drop_first());
        } else {
            assert(u =~= s@);
        }
    }
    if spells_exec(s, start, &['i', 'n', 'f']) || spells_exec(
        s,
        start,
        &['i', 'n', 'f', 'i', 'n', 'i', 't', 'y'],
    ) || spells_exec(s, start, &['n', 'a', 'n']) {
        return true;
    }
    // the number proper: a mantissa up to the first exponent mark
    let p = first_mark_exec(s, start, n, true);
    let d = first_mark_exec(s, start, p, false);
    proof {
        lemma_first_mark_shift(s@, start as int, n as int, true);
        lemma_first_mark_shift(s@, start as int, p as int, false);
        assert(s@.subrange(0, n as int) =~= s@);
        assert(u.subrange(0, p - start) =~= s@.subrange(start as int, p as int));
        let m = u.subrange(0, p - start);
        assert(m.subrange(0, d - start) =~= s@.subrange(start as int, d as int));
        if d < p {
            assert(m.subrange(d - start + 1, m.len() as int) =~= s@.subrange(d + 1, p as int));
        }
    }
    let mantissa_ok = digits_between(s, start, d) && (d == p || digits_between(s, d + 1, p)) && p
        - start > (if d < p {
        1
    } else {
        0
    });
    if !mantissa_ok {
        return false;
    }
    if p == n {
        return true;
    }
    let e = if p + 1 < n && (s.get_char(p + 1) == '+' || s.get_char(p + 1) == '-') {
        p + 2
    } else {
        p + 1
    };
    proof {
        let x = u.subrange(p + 1 - start, u.len() as int);
        assert(x =~= s@.subrange(p + 1, n as int));
        if e == p + 2 {
            assert(x.drop_first() =~= s@.subrange(e as int, n as int));
        } else {
            assert(x =~= s@.subrange(e as int, n as int));
        }
    }
    e < n && digits_between(s, e, n)
}

/// Scanning a suffix of `s` for a mark is scanning `s` from that point.
proof fn lemma_first_mark_shift(s: Seq<char>, start: int, to: int, exponent: bool)
    requires
        0 <= start <= to <= s.len(),
    ensures
        first_mark(s.subrange(start, to), 0, exponent) + start == first_mark(
            s.subrange(0, to),
            start,
            exponent,
        ),
{
    lemma_first_mark_shift_from(s, start, to, exponent, start);
}

proof fn lemma_first_mark_shift_from(s: Seq<char>, start: int, to: int, exponent: bool, i: int)
    requires
        0 <= start <= i <= to <= s.len(),
    ensures
        first_mark(s.subrange(start, to), i - start, exponent) + start == first_mark(
            s.subrange(0, to),
            i,
            exponent,
        ),
    decreases to - i,
{
    let a = s.subrange(start, to);
    let b = s.subrange(0, to);
    if i < to {
        assert(a[i - start] == b[i]);
        lemma_first_mark_shift_from(s, start, to, exponent, i + 1);
    }
}

} // verus!

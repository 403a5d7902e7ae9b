//! Decimal text of integers, as chrono's `%Y`, `%m`, `%d`, `%H`, `%M` and
//! `%S` write them, and the facts that make such text unambiguous.

use vstd::prelude::*;

verus! {

/// The character of decimal digit `d`.
pub open spec fn digit(d: int) -> char {
    ((48 + d) as u8) as char
}

pub open spec fn is_digit(c: char) -> bool {
    48 <= c as u32 <= 57
}

pub open spec fn digit_value(c: char) -> int {
    c as u32 - 48
}

/// The decimal digits of `n`, without leading zeros.
pub open spec fn decimal(n: nat) -> Seq<char>
    decreases n,
{
    if n < 10 {
        seq![digit(n as int)]
    } else {
        decimal(n / 10).push(digit((n % 10) as int))
    }
}

pub open spec fn zeros(k: nat) -> Seq<char> {
    Seq::new(k, |_i: int| '0')
}

/// The decimal digits of `n`, with leading zeros up to `width` characters.
pub open spec fn padded(n: nat, width: nat) -> Seq<char> {
    if decimal(n).len() >= width {
        decimal(n)
    } else {
        zeros((width - decimal(n).len()) as nat) + decimal(n)
    }
}

/// A year as chrono's `%Y` writes it: four digits within 0..=9999, else a
/// sign and at least four digits.
pub open spec fn year_text(y: int) -> Seq<char> {
    if 0 <= y <= 9999 {
        padded(y as nat, 4)
    } else if y > 9999 {
        seq!['+'] + decimal(y as nat)
    } else {
        seq!['-'] + padded((-y) as nat, 4)
    }
}

/// The number that a text of digits denotes.
pub open spec fn digits_value(s: Seq<char>) -> int
    decreases s.len(),
{
    if s.len() == 0 {
        0
    } else {
        digits_value(s.drop_last()) * 10 + digit_value(s.last())
    }
}

pub open spec fn all_digits(s: Seq<char>) -> bool {
    forall|i: int| 0 <= i < s.len() ==> is_digit(#[trigger] s[i])
}

proof fn lemma_digit(d: int)
    requires
        0 <= d < 10,
    ensures
        is_digit(digit(d)),
        digit_value(digit(d)) == d,
{
}

proof fn lemma_decimal(n: nat)
    ensures
        all_digits(decimal(n)),
        decimal(n).len() >= 1,
        digits_value(decimal(n)) == n,
    decreases n,
{
    if n < 10 {
        lemma_digit(n as int);
        assert(decimal(n).drop_last() =~= Seq::<char>::empty());
        assert(digits_value(decimal(n)) == digits_value(Seq::<char>::empty()) * 10 + n);
    } else {
        lemma_decimal(n / 10);
        lemma_digit((n % 10) as int);
        let s = decimal(n);
        assert(s.drop_last() =~= decimal(n / 10));
        assert(s.last() == digit((n % 10) as int));
        assert((n / 10) * 10 + n % 10 == n) by (nonlinear_arith);
    }
}

proof fn lemma_zeros_prefix(k: nat, s: Seq<char>)
    ensures
        digits_value(zeros(k) + s) == digits_value(s),
    decreases s.len() + k,
{
    if s.len() == 0 {
        if k > 0 {
            let z = zeros(k);
            assert(z + s =~= z);
            assert(z.drop_last() + s =~= zeros((k - 1) as nat));
            lemma_zeros_prefix((k - 1) as nat, s);
            assert(zeros((k - 1) as nat) + s =~= zeros((k - 1) as nat));
        } else {
            assert(zeros(k) + s =~= s);
        }
    } else {
        assert((zeros(k) + s).drop_last() =~= zeros(k) + s.drop_last());
        lemma_zeros_prefix(k, s.drop_last());
    }
}

pub proof fn lemma_padded(n: nat, width: nat)
    ensures
        all_digits(padded(n, width)),
        padded(n, width).len() >= width,
        padded(n, width).len() >= 1,
        digits_value(padded(n, width)) == n,
{
    lemma_decimal(n);
    if decimal(n).len() < width {
        lemma_zeros_prefix((width - decimal(n).len()) as nat, decimal(n));
        let p = padded(n, width);
        assert forall|i: int| 0 <= i < p.len() implies is_digit(#[trigger] p[i]) by {
            if i >= width - decimal(n).len() {
                assert(p[i] == decimal(n)[i - (width - decimal(n).len())]);
            }
        }
    }
}

/// Different numbers never share a zero-padded text.
pub proof fn lemma_padded_injective(n: nat, m: nat, width: nat)
    ensures
        padded(n, width) == padded(m, width) <==> n == m,
{
    lemma_padded(n, width);
    lemma_padded(m, width);
}

/// Different years never share a `%Y` text.
pub proof fn lemma_year_text_injective(y: int, z: int)
    ensures
        year_text(y) == year_text(z) <==> y == z,
{
    if year_text(y) == year_text(z) {
        let t = year_text(y);
        if 0 <= y <= 9999 {
            lemma_padded(y as nat, 4);
        } else if y > 9999 {
            lemma_decimal(y as nat);
        } else {
            lemma_padded((-y) as nat, 4);
        }
        if 0 <= z <= 9999 {
            lemma_padded(z as nat, 4);
        } else if z > 9999 {
            lemma_decimal(z as nat);
        } else {
            lemma_padded((-z) as nat, 4);
        }
        assert(t[0] == year_text(z)[0]);
        if y > 9999 || y < 0 {
            assert(t.drop_first() =~= year_text(y).subrange(1, t.len() as int));
        }
        if y > 9999 && z > 9999 {
            assert(decimal(y as nat) =~= t.drop_first());
            assert(decimal(z as nat) =~= t.drop_first());
        } else if y < 0 && z < 0 {
            assert(padded((-y) as nat, 4) =~= t.drop_first());
            assert(padded((-z) as nat, 4) =~= t.drop_first());
        }
    }
}

/// Relies on std's `String::push`: appends one character to the string.
#[verifier::external_body]
pub(crate) fn push_char(s: &mut String, c: char)
    ensures
        final(s)@ == old(s)@.push(c),
{
    s.push(c)
}

fn digit_char(d: u64) -> (c: char)
    requires
        d < 10,
    ensures
        c == digit(d as int),
{
    ((48 + d) as u8) as char
}

/// Appends the decimal digits of `n`.
pub fn push_decimal(out: &mut String, n: u64)
    ensures
        final(out)@ == old(out)@ + decimal(n as nat),
    decreases n,
{
    if n >= 10 {
        push_decimal(out, n / 10);
    }
    push_char(out, digit_char(n % 10));
    assert(out@ =~= old(out)@ + decimal(n as nat));
}

/// Appends the decimal digits of `n`, with leading zeros up to `width`.
pub fn push_padded(out: &mut String, n: u64, width: usize)
    ensures
        final(out)@ == old(out)@ + padded(n as nat, width as nat),
{
    let mut digits = String::new();
    push_decimal(&mut digits, n);
    let len: usize = digits.as_str().unicode_len();
    if len < width {
        let mut i: usize = len;
        while i < width
            invariant
                len <= i <= width,
                out@ == old(out)@ + zeros((i - len) as nat),
            decreases width - i,
        {
            push_char(out, '0');
            i = i + 1;
            assert(out@ =~= old(out)@ + zeros((i - len) as nat));
        }
    }
    out.append(digits.as_str());
    assert(out@ =~= old(out)@ + padded(n as nat, width as nat));
}

/// Appends a year as chrono's `%Y` writes it.
pub fn push_year(out: &mut String, y: i32)
    ensures
        final(out)@ == old(out)@ + year_text(y as int),
{
    if 0 <= y && y <= 9999 {
        push_padded(out, y as u64, 4);
    } else if y > 9999 {
        push_char(out, '+');
        push_decimal(out, y as u64);
        assert(out@ =~= old(out)@ + year_text(y as int));
    } else {
        push_char(out, '-');
        let magnitude: u64 = (-(y as i64)) as u64;
        push_padded(out, magnitude, 4);
        assert(out@ =~= old(out)@ + year_text(y as int));
    }
}

} // verus!

//! Decimal digit strings: their values, and the rounding of a scaled decimal fraction.
use vstd::prelude::*;

verus! {

/// `b` is an ASCII decimal digit.
pub open spec fn is_digit(b: u8) -> bool {
    48 <= b && b <= 57
}

/// `b` may stand in the digits of a number: a decimal digit or the `_` separator.
pub open spec fn is_digit_or_separator(b: u8) -> bool {
    is_digit(b) || b == 95
}

/// Every byte of `s` is a digit or a separator.
pub open spec fn all_digits_or_separators(s: Seq<u8>) -> bool {
    forall|i: int| 0 <= i < s.len() ==> is_digit_or_separator(#[trigger] s[i])
}

/// `10` raised to the power `n`.
pub open spec fn pow10(n: nat) -> nat
    decreases n,
{
    if n == 0 {
        1
    } else {
        10 * pow10((n - 1) as nat)
    }
}

/// The number written by the decimal digits of `s`, read from left to right; every other
/// byte (the `_` separator) is skipped.
pub open spec fn digits_value(s: Seq<u8>) -> nat
    decreases s.len(),
{
    if s.len() == 0 {
        0
    } else if is_digit(s.last()) {
        10 * digits_value(s.drop_last()) + (s.last() - 48) as nat
    } else {
        digits_value(s.drop_last())
    }
}

/// How many decimal digits `s` holds.
pub open spec fn digit_count(s: Seq<u8>) -> nat
    decreases s.len(),
{
    if s.len() == 0 {
        0
    } else if is_digit(s.last()) {
        digit_count(s.drop_last()) + 1
    } else {
        digit_count(s.drop_last())
    }
}

/// `multiplier` times the decimal fraction `0.f` (the digits of `f` after the point), rounded to
/// the nearest integer, where a value exactly halfway between two integers is rounded up.
pub open spec fn scaled_fraction(multiplier: nat, f: Seq<u8>) -> nat {
    (2 * multiplier * digits_value(f) + pow10(digit_count(f))) / (2 * pow10(digit_count(f)))
}

pub proof fn lemma_pow10_positive(n: nat)
    ensures
        pow10(n) >= 1,
    decreases n,
{
    if n > 0 {
        lemma_pow10_positive((n - 1) as nat);
    }
}

pub proof fn lemma_pow10_add(a: nat, b: nat)
    ensures
        pow10(a + b) == pow10(a) * pow10(b),
    decreases b,
{
    if b > 0 {
        let b1 = (b - 1) as nat;
        lemma_pow10_add(a, b1);
        assert((a + b - 1) as nat == a + b1);
        assert(pow10(a + b) == 10 * pow10(a + b1));
        assert(pow10(b) == 10 * pow10(b1));
        let x = pow10(a);
        let y = pow10(b1);
        assert(x * (10 * y) == 10 * (x * y)) by (nonlinear_arith);
    } else {
        assert(pow10(0) == 1);
        assert(a + b == a);
        let x = pow10(a);
        assert(x * 1 == x);
    }
}

pub proof fn lemma_pow10_strictly_increasing(a: nat, b: nat)
    requires
        a < b,
    ensures
        pow10(a) < pow10(b),
    decreases b,
{
    lemma_pow10_positive(a);
    if a + 1 < b {
        lemma_pow10_strictly_increasing(a, (b - 1) as nat);
    }
}

/// Appending one byte to `s` extends its value the way reading one more digit does.
pub proof fn lemma_digits_push(s: Seq<u8>, b: u8)
    ensures
        digits_value(s.push(b)) == if is_digit(b) {
            10 * digits_value(s) + (b - 48) as nat
        } else {
            digits_value(s)
        },
        digit_count(s.push(b)) == if is_digit(b) {
            digit_count(s) + 1
        } else {
            digit_count(s)
        },
{
    assert(s.push(b).drop_last() =~= s);
}

/// Reading the byte at `i` after the prefix `s.take(i)` extends the prefix's value and digit
/// count as [`lemma_digits_push`] says, and keeps it made of digits and separators when that
/// byte is one.
pub proof fn lemma_digits_take_next(s: Seq<u8>, i: int)
    requires
        0 <= i < s.len(),
    ensures
        s.take(i + 1) == s.take(i).push(s[i]),
        digits_value(s.take(i + 1)) == if is_digit(s[i]) {
            10 * digits_value(s.take(i)) + (s[i] - 48) as nat
        } else {
            digits_value(s.take(i))
        },
        digit_count(s.take(i + 1)) == if is_digit(s[i]) {
            digit_count(s.take(i)) + 1
        } else {
            digit_count(s.take(i))
        },
        all_digits_or_separators(s.take(i)) && is_digit_or_separator(s[i])
            ==> all_digits_or_separators(s.take(i + 1)),
{
    assert(s.take(i + 1) =~= s.take(i).push(s[i]));
    lemma_digits_push(s.take(i), s[i]);
    if all_digits_or_separators(s.take(i)) && is_digit_or_separator(s[i]) {
        assert forall|j: int| 0 <= j < i + 1 implies is_digit_or_separator(
            #[trigger] s.take(i + 1)[j],
        ) by {
            if j < i {
                assert(s.take(i + 1)[j] == s.take(i)[j]);
            }
        }
    }
}

/// The value of `s` is below `10` to the number of its digits.
pub proof fn lemma_digits_value_bound(s: Seq<u8>)
    ensures
        digits_value(s) < pow10(digit_count(s)),
    decreases s.len(),
{
    if s.len() > 0 {
        lemma_digits_value_bound(s.drop_last());
    }
}

/// Digits read from two pieces: the value of `a + b` shifts the value of `a` past the digits of `b`.
pub proof fn lemma_digits_concat(a: Seq<u8>, b: Seq<u8>)
    ensures
        digits_value(a + b) == digits_value(a) * pow10(digit_count(b)) + digits_value(b),
        digit_count(a + b) == digit_count(a) + digit_count(b),
    decreases b.len(),
{
    if b.len() == 0 {
        assert(a + b =~= a);
        assert(pow10(0) == 1);
        let x = digits_value(a);
        assert(x * 1 == x);
    } else {
        let c = b.drop_last();
        lemma_digits_concat(a, c);
        assert((a + b).drop_last() =~= a + c);
        assert((a + b).last() == b.last());
        assert((a + b).len() > 0);
        let va = digits_value(a);
        let vc = digits_value(c);
        let p = pow10(digit_count(c));
        if is_digit(b.last()) {
            let d = (b.last() - 48) as nat;
            assert(digits_value(a + b) == 10 * digits_value(a + c) + d);
            assert(digits_value(b) == 10 * vc + d);
            assert(digit_count(b) == digit_count(c) + 1);
            assert(pow10(digit_count(b)) == 10 * p);
            assert(10 * (va * p + vc) + d == va * (10 * p) + (10 * vc + d)) by (nonlinear_arith);
        } else {
            assert(digits_value(a + b) == digits_value(a + c));
            assert(digits_value(b) == vc);
            assert(digit_count(b) == digit_count(c));
        }
    }
}

/// Putting one byte in front of `s`.
pub proof fn lemma_digits_prepend(b: u8, s: Seq<u8>)
    ensures
        digits_value(seq![b] + s) == if is_digit(b) {
            (b - 48) as nat * pow10(digit_count(s)) + digits_value(s)
        } else {
            digits_value(s)
        },
        digit_count(seq![b] + s) == if is_digit(b) {
            digit_count(s) + 1
        } else {
            digit_count(s)
        },
{
    lemma_digits_concat(seq![b], s);
    let e = Seq::<u8>::empty();
    assert(seq![b].drop_last() =~= e);
    assert(digits_value(e) == 0);
    assert(digit_count(e) == 0);
    assert(seq![b].last() == b);
    assert(seq![b].len() == 1);
    let p = pow10(digit_count(s));
    if is_digit(b) {
        assert(digits_value(seq![b]) == 10 * digits_value(e) + (b - 48) as nat);
        assert(digit_count(seq![b]) == 1);
    } else {
        assert(digits_value(seq![b]) == digits_value(e));
        assert(digit_count(seq![b]) == 0);
        assert(0 * p == 0);
    }
}

/// Reading further into a string of digits never lowers the value read so far.
pub proof fn lemma_digits_value_prefix_monotone(s: Seq<u8>, i: int, j: int)
    requires
        0 <= i <= j <= s.len(),
    ensures
        digits_value(s.take(i)) <= digits_value(s.take(j)),
    decreases j - i,
{
    if i < j {
        lemma_digits_value_prefix_monotone(s, i, j - 1);
        assert(s.take(j) =~= s.take(j - 1).push(s[j - 1]));
        lemma_digits_push(s.take(j - 1), s[j - 1]);
    }
}

/// One step of multiplying a decimal fraction by `m` from its last digit to its first: the carry
/// that comes out of digit `d`, placed in front of digits worth `v` at scale `p`, is the
/// scaled value of the longer fraction.
pub proof fn lemma_fraction_carry_step(m: nat, d: nat, v: nat, p: nat)
    requires
        p > 0,
    ensures
        d * m + (m * v) / p == (m * (d * p + v)) / p,
        (d * m + (m * v) / p) / 10 == (m * (d * p + v)) / (10 * p),
{
    let x = m * v;
    assert(m * (d * p + v) == x + (d * m) * p) by (nonlinear_arith) requires x == m * v;
    vstd::arithmetic::div_mod::lemma_hoist_over_denominator(x as int, (d * m) as int, p);
    let y = m * (d * p + v);
    vstd::arithmetic::div_mod::lemma_div_denominator(y as int, p as int, 10);
    assert(p * 10 == 10 * p);
}

/// The carry and the last remainder digit of the digit-by-digit multiplication give the
/// rounded value: adding one when the first digit below the point is at least five is rounding
/// to the nearest integer with halves rounded up.
pub proof fn lemma_round_half_up_by_digit(x: nat, p: nat)
    requires
        p > 0,
    ensures
        x / (10 * p) + (if (x / p) % 10 >= 5 { 1nat } else { 0nat }) == (2 * x + 10 * p) / (20 * p),
{
    let q = x / (10 * p);
    let r = x % (10 * p);
    assert(10 * p > 0) by (nonlinear_arith) requires p > 0;
    vstd::arithmetic::div_mod::lemma_fundamental_div_mod(x as int, (10 * p) as int);
    assert(0 <= r < 10 * p);
    // x / p == 10 * q + r / p, with r / p below ten.
    assert(x == (10 * q) * p + r) by (nonlinear_arith) requires x == (10 * p) * q + r;
    vstd::arithmetic::div_mod::lemma_hoist_over_denominator(r as int, (10 * q) as int, p);
    let t = r / p;
    assert(t < 10) by {
        vstd::arithmetic::div_mod::lemma_div_is_ordered(r as int, (10 * p - 1) as int, p as int);
        vstd::arithmetic::div_mod::lemma_fundamental_div_mod((10 * p - 1) as int, p as int);
        assert(((10 * p - 1) as int) / (p as int) < 10) by (nonlinear_arith)
            requires p > 0, ((10 * p - 1) as int) == (p as int) * (((10 * p - 1) as int) / (p as int)) + ((10 * p - 1) as int) % (p as int), ((10 * p - 1) as int) % (p as int) >= 0;
    }
    assert(x / p == 10 * q + t);
    assert((10 * q + t) % 10 == t) by {
        vstd::arithmetic::div_mod::lemma_mod_multiples_vanish(q as int, t as int, 10);
        vstd::arithmetic::div_mod::lemma_small_mod(t, 10);
    }
    // (2x + 10p) / (20p) == q + (r + 5p) / (10p), where the last term is 0 or 1.
    assert(2 * x + 10 * p == (20 * p) * q + (2 * r + 10 * p)) by (nonlinear_arith)
        requires x == (10 * p) * q + r;
    let w = 2 * r + 10 * p;
    if t >= 5 {
        assert(r >= 5 * p) by (nonlinear_arith) requires t >= 5, t == r / p, p > 0, r >= 0;
        assert(20 * p <= w < 40 * p);
        assert(w == (20 * p) * 1 + (w - 20 * p));
        assert(2 * x + 10 * p == (20 * p) * (q + 1) + (w - 20 * p)) by (nonlinear_arith)
            requires 2 * x + 10 * p == (20 * p) * q + w;
        vstd::arithmetic::div_mod::lemma_div_multiples_vanish_fancy((q + 1) as int, (w - 20 * p) as int, (20 * p) as int);
    } else {
        assert(r < 5 * p) by (nonlinear_arith) requires t < 5, t == r / p, p > 0, r >= 0;
        assert(w < 20 * p);
        vstd::arithmetic::div_mod::lemma_div_multiples_vanish_fancy(q as int, w as int, (20 * p) as int);
    }
}

/// Digits past the first `r` fraction digits cannot change the rounded value once `2 * m`
/// divides `10^r`: every halfway point between two scaled integers is written with at most `r`
/// fraction digits.
pub proof fn lemma_scaled_fraction_truncate(m: nat, head: Seq<u8>, tail: Seq<u8>)
    requires
        m > 0,
        pow10(digit_count(head)) % (2 * m) == 0,
    ensures
        scaled_fraction(m, head + tail) == scaled_fraction(m, head),
{
    lemma_digits_concat(head, tail);
    let n1 = digits_value(head);
    let r = digits_value(tail);
    let d = pow10(digit_count(head));
    let e = pow10(digit_count(tail));
    lemma_pow10_positive(digit_count(head));
    lemma_pow10_positive(digit_count(tail));
    lemma_pow10_add(digit_count(head), digit_count(tail));
    lemma_digits_value_bound(tail);
    assert(r < e);
    let h = d / (2 * m);
    vstd::arithmetic::div_mod::lemma_fundamental_div_mod(d as int, (2 * m) as int);
    assert(d == (2 * m) * h);
    let a = n1 + h;
    // Left side: (2m(n1 e + r) + d e) / (2 d e) == (e a + r) / (2 h e).
    let lnum = 2 * m * (n1 * e + r) + d * e;
    let lden = 2 * (d * e);
    assert(lnum == (2 * m) * (e * a + r)) by (nonlinear_arith)
        requires lnum == 2 * m * (n1 * e + r) + d * e, d == (2 * m) * h, a == n1 + h;
    assert(lden == (2 * m) * (2 * h * e)) by (nonlinear_arith)
        requires lden == 2 * (d * e), d == (2 * m) * h;
    assert(h > 0) by (nonlinear_arith) requires d == (2 * m) * h, d >= 1, m > 0;
    assert(2 * h * e > 0) by (nonlinear_arith) requires h > 0, e > 0;
    vstd::arithmetic::div_mod::lemma_div_multiples_vanish_quotient((2 * m) as int, (e * a + r) as int, (2 * h * e) as int);
    // (e a + r) / (2 h e) == ((e a + r) / e) / (2 h) == a / (2 h).
    vstd::arithmetic::div_mod::lemma_div_denominator((e * a + r) as int, e as int, (2 * h) as int);
    assert(e * (2 * h) == 2 * h * e) by (nonlinear_arith);
    vstd::arithmetic::div_mod::lemma_div_multiples_vanish_fancy(a as int, r as int, e as int);
    // Right side: (2 m n1 + d) / (2 d) == a / (2 h).
    let rnum = 2 * m * n1 + d;
    assert(rnum == (2 * m) * a) by (nonlinear_arith)
        requires rnum == 2 * m * n1 + d, d == (2 * m) * h, a == n1 + h;
    assert(2 * d == (2 * m) * (2 * h)) by (nonlinear_arith) requires d == (2 * m) * h;
    vstd::arithmetic::div_mod::lemma_div_multiples_vanish_quotient((2 * m) as int, a as int, (2 * h) as int);
    assert(scaled_fraction(m, head) == rnum / (2 * d));
    assert(scaled_fraction(m, head + tail) == lnum / lden);
}

/// A fraction without digits scales to nothing.
pub proof fn lemma_scaled_fraction_no_digits(m: nat, f: Seq<u8>)
    requires
        digit_count(f) == 0,
    ensures
        digits_value(f) == 0,
        scaled_fraction(m, f) == 0,
{
    lemma_digits_value_bound(f);
    assert(pow10(0) == 1);
    let v = digits_value(f);
    assert(2 * m * v + 1 == 1) by (nonlinear_arith) requires v == 0;
    assert(pow10(digit_count(f)) == 1);
    assert(2 * m * digits_value(f) + pow10(digit_count(f)) == 1);
    assert(2 * pow10(digit_count(f)) == 2);
    assert(1nat / 2nat == 0);
}

/// A trailing zero digit does not change a scaled fraction.
pub proof fn lemma_fraction_trailing_zero(m: nat, f: Seq<u8>)
    ensures
        scaled_fraction(m, f.push(0x30)) == scaled_fraction(m, f),
{
    lemma_digits_push(f, 0x30);
    let v = digits_value(f);
    let p = pow10(digit_count(f));
    lemma_pow10_positive(digit_count(f));
    assert(pow10(digit_count(f) + 1) == 10 * p);
    assert(2 * m * (10 * v + 0) + 10 * p == 10 * (2 * m * v + p)) by (nonlinear_arith);
    assert(2 * (10 * p) == 10 * (2 * p));
    vstd::arithmetic::div_mod::lemma_div_multiples_vanish_quotient(10, (2 * m * v + p) as int, (2 * p) as int);
}

} // verus!

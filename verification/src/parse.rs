//! Parsing byte sizes from text such as `"1.5 KiB"` or `"521 TB"`.
use vstd::prelude::*;

use core::str::FromStr;

use vstd::string::StringSliceAdditionalSpecFns;

use crate::digits;
use crate::digits::{
    all_digits_or_separators, digit_count, digits_value, is_digit_or_separator, pow10,
    scaled_fraction,
};
use crate::ByteSize;

verus! {

/// The error returned when parsing a byte size fails.
#[derive(Debug, Clone, Copy, PartialEq, Eq)]
#[non_exhaustive]
pub enum ParseError {
    /// The input contains no number.
    Empty,
    /// The input contains malformed bytes.
    Malformed,
    /// The parsed byte count is too large for the target integer type.
    Overflow,
}

/// The ASCII space.
pub const SPACE: u8 = 0x20;
/// The ASCII full stop, the decimal point.
pub const DOT: u8 = 0x2E;
/// The ASCII low line, the digit separator.
pub const UNDERSCORE: u8 = 0x5F;
/// The ASCII digit zero.
pub const DIGIT_ZERO: u8 = 0x30;
/// The ASCII digit nine.
pub const DIGIT_NINE: u8 = 0x39;
/// The ASCII capital letter B.
pub const LETTER_B: u8 = 0x42;
/// The ASCII capital letter E.
pub const LETTER_E: u8 = 0x45;
/// The ASCII capital letter G.
pub const LETTER_G: u8 = 0x47;
/// The ASCII capital letter I.
pub const LETTER_I: u8 = 0x49;
/// The ASCII capital letter K.
pub const LETTER_K: u8 = 0x4B;
/// The ASCII capital letter M.
pub const LETTER_M: u8 = 0x4D;
/// The ASCII capital letter P.
pub const LETTER_P: u8 = 0x50;
/// The ASCII capital letter T.
pub const LETTER_T: u8 = 0x54;

/// The upper-case form of an ASCII letter; other bytes are left as they are.
fn to_ascii_uppercase(b: u8) -> (r: u8)
    ensures
        r == if 0x61 <= b <= 0x7A { (b - 0x20) as u8 } else { b },
{
    if 0x61 <= b && b <= 0x7A {
        b - 0x20
    } else {
        b
    }
}

impl ParseError {
    /// The message that describes this error.
    pub fn to_string(&self) -> (r: String)
        ensures
            r@ == match self {
                ParseError::Empty => "cannot parse integer from empty string"@,
                ParseError::Malformed => "malformed bytes found in string"@,
                ParseError::Overflow => "number too large to fit in target type"@,
            },
    {
        match self {
            ParseError::Empty => "cannot parse integer from empty string".to_owned(),
            ParseError::Malformed => "malformed bytes found in string".to_owned(),
            ParseError::Overflow => "number too large to fit in target type".to_owned(),
        }
    }
}

/// The largest unit multiplier: one exbibyte.
pub const MAX_MULTIPLIER: u64 = 1_152_921_504_606_846_976;

/// The bytes in one decimal unit whose prefix letter is `b` (`k`, `M`, `G`, `T`, `P`, `E`, in
/// either case).
pub open spec fn decimal_unit(b: u8) -> Option<u64> {
    if is_letter(b, LETTER_K) {
        Some(1_000)
    } else if is_letter(b, LETTER_M) {
        Some(1_000_000)
    } else if is_letter(b, LETTER_G) {
        Some(1_000_000_000)
    } else if is_letter(b, LETTER_T) {
        Some(1_000_000_000_000)
    } else if is_letter(b, LETTER_P) {
        Some(1_000_000_000_000_000)
    } else if is_letter(b, LETTER_E) {
        Some(1_000_000_000_000_000_000)
    } else {
        None
    }
}

/// The bytes in one binary unit whose prefix letter is `b` (`Ki`, `Mi`, `Gi`, `Ti`, `Pi`, `Ei`,
/// in either case).
pub open spec fn binary_unit(b: u8) -> Option<u64> {
    if is_letter(b, LETTER_K) {
        Some(1_024)
    } else if is_letter(b, LETTER_M) {
        Some(1_048_576)
    } else if is_letter(b, LETTER_G) {
        Some(1_073_741_824)
    } else if is_letter(b, LETTER_T) {
        Some(1_099_511_627_776)
    } else if is_letter(b, LETTER_P) {
        Some(1_125_899_906_842_624)
    } else if is_letter(b, LETTER_E) {
        Some(1_152_921_504_606_846_976)
    } else {
        None
    }
}

/// `b` is the ASCII letter `upper` (an upper-case letter) in either case.
pub open spec fn is_letter(b: u8, upper: u8) -> bool {
    b == upper || b == upper + 0x20
}

/// `m` is the byte count of one unit that a size may be written in: one byte, or a decimal or
/// binary unit.
pub open spec fn is_unit_multiplier(m: u64) -> bool {
    ||| m == 1
    ||| exists|b: u8| decimal_unit(b) == Some(m)
    ||| exists|b: u8| binary_unit(b) == Some(m)
}

/// `s` without its leading spaces.
pub open spec fn trim_leading_spaces(s: Seq<u8>) -> Seq<u8>
    decreases s.len(),
{
    if s.len() > 0 && s[0] == SPACE {
        trim_leading_spaces(s.drop_first())
    } else {
        s
    }
}

/// `s` without its trailing spaces.
pub open spec fn trim_trailing_spaces(s: Seq<u8>) -> Seq<u8>
    decreases s.len(),
{
    if s.len() > 0 && s.last() == SPACE {
        trim_trailing_spaces(s.drop_last())
    } else {
        s
    }
}

/// The text with its surrounding spaces and a final `b` or `B` removed.
pub open spec fn strip_byte_suffix(s: Seq<u8>) -> Seq<u8> {
    let t = trim_trailing_spaces(trim_leading_spaces(s));
    if t.len() > 0 && is_letter(t.last(), LETTER_B) {
        t.drop_last()
    } else {
        t
    }
}

/// Splits the unit off a size: the number before it (without the spaces that separate the two)
/// and the bytes in one unit. A final `i` must follow a binary unit prefix.
pub open spec fn split_unit(s: Seq<u8>) -> Result<(Seq<u8>, u64), ParseError> {
    let t = strip_byte_suffix(s);
    if t.len() > 0 && is_letter(t.last(), LETTER_I) {
        let u = t.drop_last();
        if u.len() > 0 && binary_unit(u.last()) is Some {
            Ok((trim_trailing_spaces(u.drop_last()), binary_unit(u.last()).unwrap()))
        } else {
            Err(ParseError::Malformed)
        }
    } else if t.len() > 0 && decimal_unit(t.last()) is Some {
        Ok((trim_trailing_spaces(t.drop_last()), decimal_unit(t.last()).unwrap()))
    } else {
        Ok((trim_trailing_spaces(t), 1))
    }
}

/// The length of the integer part at the start of `s`: its digits and separators.
pub open spec fn integer_part_len(s: Seq<u8>) -> nat
    decreases s.len(),
{
    if s.len() > 0 && is_digit_or_separator(s[0]) {
        1 + integer_part_len(s.drop_first())
    } else {
        0
    }
}

/// The fraction digits of a number: what follows the point that ends its integer part, or
/// nothing when there is no point.
pub open spec fn fraction_part(s: Seq<u8>) -> Seq<u8> {
    let k = integer_part_len(s);
    if k < s.len() {
        s.skip(k + 1 as int)
    } else {
        Seq::empty()
    }
}

/// The number of bytes that the number `s` written in units of `multiplier` bytes stands for,
/// rounded to the nearest byte with halves rounded up, or why there is none.
///
/// The integer part is read first: more than `u64::MAX` there is an overflow. What follows it
/// must be a point, after at least one digit; then the fraction must hold digits and separators
/// only. The exact value must fit in a `u64`.
pub open spec fn parse_number(s: Seq<u8>, multiplier: u64) -> Result<u64, ParseError> {
    let k = integer_part_len(s);
    let integer = s.take(k as int);
    let fraction = fraction_part(s);
    if digits_value(integer) > u64::MAX {
        Err(ParseError::Overflow)
    } else if k < s.len() && !(s[k as int] == DOT && digit_count(integer) > 0) {
        Err(ParseError::Malformed)
    } else if digit_count(integer) == 0 {
        Err(ParseError::Empty)
    } else if !all_digits_or_separators(fraction) {
        Err(ParseError::Malformed)
    } else if digits_value(integer) * multiplier + scaled_fraction(multiplier as nat, fraction)
        > u64::MAX {
        Err(ParseError::Overflow)
    } else {
        Ok((digits_value(integer) * multiplier + scaled_fraction(multiplier as nat, fraction)) as u64)
    }
}

/// The byte count written in the text `s`, or why there is none.
pub open spec fn spec_parse_size(s: Seq<u8>) -> Result<u64, ParseError> {
    match split_unit(s) {
        Ok((number, multiplier)) => parse_number(number, multiplier),
        Err(e) => Err(e),
    }
}

/// `src` without its trailing spaces.
fn trim_end_spaces(src: &[u8]) -> (r: &[u8])
    ensures
        r@ == trim_trailing_spaces(src@),
{
    let ghost input = src@;
    let mut src = src;
    while src.len() > 0 && src[src.len() - 1] == SPACE
        invariant
            trim_trailing_spaces(src@) == trim_trailing_spaces(input),
        decreases src.len(),
    {
        assert(src@.drop_last() =~= src@.subrange(0, src@.len() - 1));
        src = &src[0..src.len() - 1];
    }
    src
}

/// Splits the unit off a size, as [`split_unit`] says.
fn strip_unit(src: &[u8]) -> (r: Result<(&[u8], u64), ParseError>)
    ensures
        match r {
            Ok((number, multiplier)) => split_unit(src@) == Ok::<(Seq<u8>, u64), ParseError>((number@, multiplier)),
            Err(e) => split_unit(src@) == Err::<(Seq<u8>, u64), ParseError>(e),
        },
{
    let ghost input = src@;
    let mut src = src;
    // trim starting and trailing spaces
    while src.len() > 0 && src[0] == SPACE
        invariant
            trim_leading_spaces(src@) == trim_leading_spaces(input),
        decreases src.len(),
    {
        assert(src@.drop_first() =~= src@.subrange(1, src@.len() as int));
        src = &src[1..src.len()];
    }
    src = trim_end_spaces(src);
    // trim trailing 'b' or 'B'
    if src.len() > 0 && to_ascii_uppercase(src[src.len() - 1]) == LETTER_B {
        assert(src@.drop_last() =~= src@.subrange(0, src@.len() - 1));
        src = &src[0..src.len() - 1];
    }
    assert(src@ == strip_byte_suffix(input));
    if src.len() > 0 && to_ascii_uppercase(src[src.len() - 1]) == LETTER_I {
        assert(src@.drop_last() =~= src@.subrange(0, src@.len() - 1));
        src = &src[0..src.len() - 1];
        if src.len() == 0 {
            // [iI][bB] is malformed suffix.
            return Err(ParseError::Malformed);
        }
        let prefix = to_ascii_uppercase(src[src.len() - 1]);
        let multiplier: u64 = if prefix == LETTER_K {
            1_024
        } else if prefix == LETTER_M {
            1_048_576
        } else if prefix == LETTER_G {
            1_073_741_824
        } else if prefix == LETTER_T {
            1_099_511_627_776
        } else if prefix == LETTER_P {
            1_125_899_906_842_624
        } else if prefix == LETTER_E {
            1_152_921_504_606_846_976
        } else {
            return Err(ParseError::Malformed);
        };
        assert(src@.drop_last() =~= src@.subrange(0, src@.len() - 1));
        src = &src[0..src.len() - 1];
        // trim spaces between numeric part and unit part
        return Ok((trim_end_spaces(src), multiplier));
    }
    let mut multiplier: u64 = 1;
    if src.len() > 0 {
        let prefix = to_ascii_uppercase(src[src.len() - 1]);
        let mut matched = true;
        if prefix == LETTER_K {
            multiplier = 1_000;
        } else if prefix == LETTER_M {
            multiplier = 1_000_000;
        } else if prefix == LETTER_G {
            multiplier = 1_000_000_000;
        } else if prefix == LETTER_T {
            multiplier = 1_000_000_000_000;
        } else if prefix == LETTER_P {
            multiplier = 1_000_000_000_000_000;
        } else if prefix == LETTER_E {
            multiplier = 1_000_000_000_000_000_000;
        } else {
            matched = false;
        }
        if matched {
            assert(src@.drop_last() =~= src@.subrange(0, src@.len() - 1));
            src = &src[0..src.len() - 1];
        }
    }
    // trim spaces between numeric part and unit part
    Ok((trim_end_spaces(src), multiplier))
}

/// The number of decimal digits of `n`.
pub open spec fn decimal_len(n: nat) -> nat
    decreases n,
{
    if n < 10 {
        1
    } else {
        1 + decimal_len(n / 10)
    }
}

/// The number of binary digits of `n`.
pub open spec fn binary_len(n: nat) -> nat
    decreases n,
{
    if n < 2 {
        1
    } else {
        1 + binary_len(n / 2)
    }
}

/// `n` with all its factors of two divided out.
pub open spec fn odd_part(n: nat) -> nat
    decreases n,
{
    if n > 0 && n % 2 == 0 {
        odd_part(n / 2)
    } else {
        n
    }
}

pub open spec fn pow2(n: nat) -> nat
    decreases n,
{
    if n == 0 {
        1
    } else {
        2 * pow2((n - 1) as nat)
    }
}

/// `5` raised to the power `n`.
pub open spec fn pow5(n: nat) -> nat
    decreases n,
{
    if n == 0 {
        1
    } else {
        5 * pow5((n - 1) as nat)
    }
}

proof fn lemma_pow10_factors(n: nat)
    ensures
        pow10(n) == pow2(n) * pow5(n),
    decreases n,
{
    if n > 0 {
        lemma_pow10_factors((n - 1) as nat);
        let a = pow2((n - 1) as nat);
        let b = pow5((n - 1) as nat);
        assert(10 * (a * b) == (2 * a) * (5 * b)) by (nonlinear_arith);
    } else {
        assert(pow2(0) == 1);
        assert(pow5(0) == 1);
    }
}

proof fn lemma_pow5_odd(n: nat)
    ensures
        pow5(n) % 2 == 1,
        n >= 1 ==> pow5(n) >= 5,
    decreases n,
{
    if n > 0 {
        lemma_pow5_odd((n - 1) as nat);
    }
}

proof fn lemma_odd_part_of_pow2_times(j: nat, y: nat)
    requires
        y > 0,
    ensures
        pow2(j) * y > 0,
        odd_part(pow2(j) * y) == odd_part(y),
    decreases j,
{
    if j > 0 {
        lemma_odd_part_of_pow2_times((j - 1) as nat, y);
        let x = pow2((j - 1) as nat) * y;
        assert(pow2(j) * y == 2 * x) by (nonlinear_arith)
            requires pow2(j) == 2 * pow2((j - 1) as nat), x == pow2((j - 1) as nat) * y;
        assert((2 * x) / 2 == x);
    } else {
        assert(pow2(0) == 1);
    }
}

proof fn lemma_decimal_len_pow10(j: nat)
    ensures
        decimal_len(pow10(j)) == j + 1,
    decreases j,
{
    if j > 0 {
        lemma_decimal_len_pow10((j - 1) as nat);
        digits::lemma_pow10_positive((j - 1) as nat);
    }
}

proof fn lemma_binary_len_pow2(j: nat)
    ensures
        pow2(j) >= 1,
        binary_len(pow2(j)) == j + 1,
    decreases j,
{
    if j > 0 {
        lemma_binary_len_pow2((j - 1) as nat);
    }
}

/// A unit multiplier as a power of ten (`(true, j)` for `10^j`, with `j` a multiple of three) or
/// of two (`(false, j)` for `2^j`, with `j` a positive multiple of ten).
proof fn unit_multiplier_exponent(m: u64) -> (r: (bool, nat))
    requires
        is_unit_multiplier(m),
    ensures
        r.0 ==> r.1 <= 18 && r.1 % 3 == 0 && pow10(r.1) == m,
        !r.0 ==> 10 <= r.1 <= 60 && pow2(r.1) == m,
{
    reveal_with_fuel(pow10, 19);
    reveal_with_fuel(pow2, 61);
    if m == 1 {
        (true, 0)
    } else if exists|b: u8| decimal_unit(b) == Some(m) {
        let b = choose|b: u8| decimal_unit(b) == Some(m);
        assert(decimal_unit(b) == Some(m));
        if is_letter(b, LETTER_K) {
            (true, 3)
        } else if is_letter(b, LETTER_M) {
            (true, 6)
        } else if is_letter(b, LETTER_G) {
            (true, 9)
        } else if is_letter(b, LETTER_T) {
            (true, 12)
        } else if is_letter(b, LETTER_P) {
            (true, 15)
        } else {
            (true, 18)
        }
    } else {
        let b = choose|b: u8| binary_unit(b) == Some(m);
        assert(binary_unit(b) == Some(m));
        if is_letter(b, LETTER_K) {
            (false, 10)
        } else if is_letter(b, LETTER_M) {
            (false, 20)
        } else if is_letter(b, LETTER_G) {
            (false, 30)
        } else if is_letter(b, LETTER_T) {
            (false, 40)
        } else if is_letter(b, LETTER_P) {
            (false, 50)
        } else {
            (false, 60)
        }
    }
}

/// Every unit multiplier lies between one byte and one exbibyte.
pub proof fn lemma_unit_multiplier_range(m: u64)
    requires
        is_unit_multiplier(m),
    ensures
        1 <= m <= MAX_MULTIPLIER,
{
    let (dec, j) = unit_multiplier_exponent(m);
    if dec {
        digits::lemma_pow10_positive(j);
        if j < 18 {
            digits::lemma_pow10_strictly_increasing(j, 18);
        }
        reveal_with_fuel(pow10, 19);
    } else {
        lemma_binary_len_pow2(j);
        if j < 60 {
            lemma_pow2_increasing(j, 60);
        }
        reveal_with_fuel(pow2, 61);
    }
}

proof fn lemma_pow2_increasing(a: nat, b: nat)
    requires
        a <= b,
    ensures
        pow2(a) <= pow2(b),
    decreases b,
{
    lemma_binary_len_pow2(a);
    if a < b {
        lemma_pow2_increasing(a, (b - 1) as nat);
    }
}

/// How many leading fraction digits a size written in units of `m` bytes keeps: the number of
/// decimal digits of `m` for one byte and the decimal units, the number of binary digits of `m`
/// for the binary units.
pub open spec fn relevant_fraction_digit_count(m: u64) -> nat {
    if m == 1 || odd_part(m as nat) != 1 {
        decimal_len(m as nat)
    } else {
        binary_len(m as nat)
    }
}

/// For every unit, the number of fraction digits that the parser keeps is enough to write every
/// halfway point between two whole byte counts: `2 * m` divides `10` to that power.
pub proof fn lemma_relevant_fraction_digits(m: u64)
    requires
        is_unit_multiplier(m),
    ensures
        1 <= relevant_fraction_digit_count(m) <= 61,
        pow10(relevant_fraction_digit_count(m)) % (2 * m as nat) == 0,
{
    let (dec, j) = unit_multiplier_exponent(m);
    let mm = 2 * m as nat;
    if dec {
        lemma_decimal_len_pow10(j);
        if j > 0 {
            lemma_pow10_factors(j);
            lemma_pow5_odd(j);
            lemma_odd_part_of_pow2_times(j, pow5(j));
            assert(pow5(j) / 2 * 2 + 1 == pow5(j));
            assert(odd_part(pow5(j)) == pow5(j));
        }
        assert(pow10(j + 1) == 5 * mm);
        vstd::arithmetic::div_mod::lemma_mod_multiples_basic(5, mm as int);
    } else {
        lemma_binary_len_pow2(j);
        assert(odd_part(pow2(j)) == 1) by {
            lemma_odd_part_of_pow2_times(j, 1);
            assert(pow2(j) * 1 == pow2(j));
        }
        lemma_pow10_factors(j + 1);
        assert(pow10(j + 1) == pow5(j + 1) * mm) by (nonlinear_arith)
            requires pow10(j + 1) == pow2(j + 1) * pow5(j + 1), pow2(j + 1) == 2 * pow2(j), pow2(j) == m, mm == 2 * m;
        vstd::arithmetic::div_mod::lemma_mod_multiples_basic(pow5(j + 1) as int, mm as int);
    }
}

proof fn lemma_decimal_len_bound(n: nat, k: nat)
    requires
        k >= 1,
        n < pow10(k),
    ensures
        decimal_len(n) <= k,
    decreases k,
{
    if n >= 10 {
        if k == 1 {
            assert(pow10(1) == 10 * pow10(0));
        }
        assert(n / 10 < pow10((k - 1) as nat));
        lemma_decimal_len_bound(n / 10, (k - 1) as nat);
    }
}

proof fn lemma_binary_len_bound(n: nat, k: nat)
    requires
        k >= 1,
        n < pow2(k),
    ensures
        binary_len(n) <= k,
    decreases k,
{
    if n >= 2 {
        if k == 1 {
            assert(pow2(1) == 2 * pow2(0));
        }
        assert(n / 2 < pow2((k - 1) as nat));
        lemma_binary_len_bound(n / 2, (k - 1) as nat);
    }
}

/// The base-10 logarithm of `n`, rounded down.
fn ilog10(n: u64) -> (r: usize)
    requires
        n > 0,
    ensures
        r + 1 == decimal_len(n as nat),
{
    proof {
        reveal_with_fuel(pow10, 21);
        lemma_decimal_len_bound(n as nat, 20);
    }
    let mut x = n;
    let mut r: usize = 0;
    while x >= 10
        invariant
            x > 0,
            r + decimal_len(x as nat) == decimal_len(n as nat),
            decimal_len(n as nat) <= 20,
        decreases x,
    {
        x = x / 10;
        r = r + 1;
    }
    r
}

/// The base-2 logarithm of `n`, rounded down.
fn ilog2(n: u64) -> (r: usize)
    requires
        n > 0,
    ensures
        r + 1 == binary_len(n as nat),
{
    proof {
        reveal_with_fuel(pow2, 65);
        lemma_binary_len_bound(n as nat, 64);
    }
    let mut x = n;
    let mut r: usize = 0;
    while x >= 2
        invariant
            x > 0,
            r + binary_len(x as nat) == binary_len(n as nat),
            binary_len(n as nat) <= 64,
        decreases x,
    {
        x = x / 2;
        r = r + 1;
    }
    r
}

/// `n` is a power of two.
fn is_power_of_two(n: u64) -> (r: bool)
    ensures
        r == (odd_part(n as nat) == 1),
{
    let mut x = n;
    while x > 0 && x % 2 == 0
        invariant
            odd_part(x as nat) == odd_part(n as nat),
        decreases x,
    {
        x = x / 2;
    }
    x == 1
}

/// How many leading fraction digits can decide the rounding of a size written in units of
/// `multiplier` bytes.
fn relevant_fraction_digits(multiplier: u64) -> (r: usize)
    requires
        is_unit_multiplier(multiplier),
    ensures
        r == relevant_fraction_digit_count(multiplier),
        1 <= r <= 61,
        pow10(r as nat) % (2 * multiplier as nat) == 0,
{
    proof {
        lemma_relevant_fraction_digits(multiplier);
    }
    if multiplier == 1 || !is_power_of_two(multiplier) {
        ilog10(multiplier) + 1
    } else {
        ilog2(multiplier) + 1
    }
}

/// The integer part of `s` is its first `k` bytes when those are digits or separators and the
/// byte after them is not.
pub proof fn lemma_integer_part_len(s: Seq<u8>, k: int)
    requires
        0 <= k <= s.len(),
        all_digits_or_separators(s.take(k)),
        k == s.len() || !is_digit_or_separator(s[k]),
    ensures
        integer_part_len(s) == k,
    decreases k,
{
    if k > 0 {
        assert(s.take(k)[0] == s[0]);
        let t = s.drop_first();
        assert forall|i: int| 0 <= i < k - 1 implies is_digit_or_separator(#[trigger] t.take(k - 1)[i]) by {
            assert(t.take(k - 1)[i] == s.take(k)[i + 1]);
        }
        if k < s.len() {
            assert(t[k - 1] == s[k]);
        }
        lemma_integer_part_len(t, k - 1);
    } else if s.len() > 0 {
        assert(!is_digit_or_separator(s[0]));
    }
}

/// What the integer part of `s` is: digits and separators only, followed by the end of `s` or
/// by a byte that is neither.
pub proof fn lemma_integer_part_len_spec(s: Seq<u8>)
    ensures
        integer_part_len(s) <= s.len(),
        all_digits_or_separators(s.take(integer_part_len(s) as int)),
        integer_part_len(s) < s.len() ==> !is_digit_or_separator(s[integer_part_len(s) as int]),
    decreases s.len(),
{
    if s.len() > 0 && is_digit_or_separator(s[0]) {
        let t = s.drop_first();
        lemma_integer_part_len_spec(t);
        let k = integer_part_len(s) as int;
        assert forall|i: int| 0 <= i < k implies is_digit_or_separator(#[trigger] s.take(k)[i]) by {
            if i > 0 {
                assert(s.take(k)[i] == t.take(k - 1)[i - 1]);
            }
        }
        if k < s.len() {
            assert(s[k] == t[k - 1]);
        }
    } else {
        assert(s.take(0).len() == 0);
    }
}

proof fn lemma_integer_part_len_bound(s: Seq<u8>)
    ensures
        integer_part_len(s) <= s.len(),
    decreases s.len(),
{
    if s.len() > 0 {
        lemma_integer_part_len_bound(s.drop_first());
    }
}

/// The integer part of `s` reaches at least as far as its first `k` bytes when those are digits
/// or separators.
proof fn lemma_integer_part_len_at_least(s: Seq<u8>, k: int)
    requires
        0 <= k <= s.len(),
        all_digits_or_separators(s.take(k)),
    ensures
        k <= integer_part_len(s) <= s.len(),
    decreases s.len(),
{
    lemma_integer_part_len_bound(s);
    if k > 0 {
        assert(s.take(k)[0] == s[0]);
        let t = s.drop_first();
        assert forall|i: int| 0 <= i < k - 1 implies is_digit_or_separator(#[trigger] t.take(k - 1)[i]) by {
            assert(t.take(k - 1)[i] == s.take(k)[i + 1]);
        }
        lemma_integer_part_len_at_least(t, k - 1);
    }
}

/// Multiplies the decimal fraction written by the digits of `fraction` (separators skipped) by
/// `multiplier` and rounds the product to the nearest integer, halves up.
fn scale_fraction(fraction: &[u8], multiplier: u64) -> (r: Result<u64, ParseError>)
    requires
        1 <= multiplier <= MAX_MULTIPLIER,
    ensures
        all_digits_or_separators(fraction@) ==> r == Ok::<u64, ParseError>(
            scaled_fraction(multiplier as nat, fraction@) as u64,
        ) && scaled_fraction(multiplier as nat, fraction@) <= multiplier,
        !all_digits_or_separators(fraction@) ==> r == Err::<u64, ParseError>(ParseError::Malformed),
{
    let ghost m = multiplier as nat;
    // Multiply the fraction by the unit multiplier from right to left in base 10. Once all digits
    // are consumed, carry is the integral byte count and the last remainder digit determines
    // rounding to the nearest byte.
    let mut carry: u64 = 0;
    let mut rounding_digit: u64 = 0;
    let mut index = fraction.len();
    assert(fraction@.skip(index as int) =~= Seq::<u8>::empty());
    assert(digits_value(Seq::<u8>::empty()) == 0);
    assert(digit_count(Seq::<u8>::empty()) == 0);
    assert(pow10(0) == 1);
    assert(m * 0 == 0);
    while index > 0
        invariant
            index <= fraction.len(),
            1 <= m <= MAX_MULTIPLIER,
            m == multiplier,
            all_digits_or_separators(fraction@.skip(index as int)),
            carry == (m * digits_value(fraction@.skip(index as int))) / pow10(
                digit_count(fraction@.skip(index as int)),
            ),
            carry < m,
            digit_count(fraction@.skip(index as int)) == 0 ==> rounding_digit == 0,
            digit_count(fraction@.skip(index as int)) > 0 ==> rounding_digit == ((m
                * digits_value(fraction@.skip(index as int))) / pow10(
                (digit_count(fraction@.skip(index as int)) - 1) as nat,
            )) % 10,
        decreases index,
    {
        let ghost suffix = fraction@.skip(index as int);
        let ghost v = digits_value(suffix);
        let ghost c = digit_count(suffix);
        index = index - 1;
        let b = fraction[index];
        assert(fraction@.skip(index as int) =~= seq![b] + suffix);
        proof {
            digits::lemma_digits_prepend(b, suffix);
            digits::lemma_pow10_positive(c);
        }
        if DIGIT_ZERO <= b && b <= DIGIT_NINE {
            let digit = (b - DIGIT_ZERO) as u64;
            assert(digit * multiplier + carry < 10 * multiplier) by (nonlinear_arith)
                requires digit <= 9, carry < multiplier;
            let product = digit * multiplier + carry;
            rounding_digit = product % 10;
            carry = product / 10;
            proof {
                digits::lemma_fraction_carry_step(m, digit as nat, v, pow10(c));
                digits::lemma_digits_value_bound(fraction@.skip(index as int));
                let v2 = digits_value(fraction@.skip(index as int));
                let p2 = pow10(c + 1);
                assert(p2 == 10 * pow10(c));
                assert(m * v2 < p2 * m) by (nonlinear_arith) requires v2 < p2, m >= 1;
                vstd::arithmetic::div_mod::lemma_multiply_divide_lt((m * v2) as int, m as int, p2 as int);
            }
        } else if b == UNDERSCORE {
        } else {
            assert(!is_digit_or_separator(fraction@[index as int]));
            return Err(ParseError::Malformed);
        }
    }
    assert(fraction@.skip(0) =~= fraction@);
    proof {
        let v = digits_value(fraction@);
        let c = digit_count(fraction@);
        digits::lemma_digits_value_bound(fraction@);
        if c == 0 {
            assert(v == 0);
            assert(pow10(0) == 1);
            assert(m * v == 0);
            assert(2 * m * v == 0);
            assert(carry == 0);
            assert(rounding_digit == 0);
            assert(scaled_fraction(m, fraction@) == (2 * m * v + 1) / 2);
        } else {
            let p = pow10((c - 1) as nat);
            digits::lemma_pow10_positive((c - 1) as nat);
            assert(pow10(c) == 10 * p);
            digits::lemma_round_half_up_by_digit(m * v, p);
            assert(2 * m * v == 2 * (m * v)) by (nonlinear_arith);
            assert(2 * (10 * p) == 20 * p);
            assert(carry == (m * v) / (10 * p));
            assert(rounding_digit == ((m * v) / p) % 10);
            assert(scaled_fraction(m, fraction@) == (2 * (m * v) + 10 * p) / (20 * p));
        }
        assert(scaled_fraction(m, fraction@) == carry + (if rounding_digit >= 5 { 1nat } else { 0nat }));
    }
    if rounding_digit >= 5 {
        Ok(carry + 1)
    } else {
        Ok(carry)
    }
}

/// The byte count of `integer_bytes` (the integer part of a size already multiplied by its unit,
/// or `None` when that overflowed) plus the fraction digits `fraction` scaled by `multiplier`
/// and rounded, or why there is none.
pub open spec fn add_scaled_fraction(
    integer_bytes: Option<u64>,
    fraction: Seq<u8>,
    multiplier: u64,
) -> Result<u64, ParseError> {
    if !all_digits_or_separators(fraction) {
        Err(ParseError::Malformed)
    } else {
        match integer_bytes {
            None => Err(ParseError::Overflow),
            Some(b) => if b + scaled_fraction(multiplier as nat, fraction) > u64::MAX {
                Err(ParseError::Overflow)
            } else {
                Ok((b + scaled_fraction(multiplier as nat, fraction)) as u64)
            },
        }
    }
}

/// Adds a long fraction to the integer byte count. Only the leading digits that can decide the
/// rounding are multiplied out; the rest are checked to be digits, and the result is the one
/// that the full fraction gives.
fn parse_long_fraction(src: &[u8], multiplier: u64, integer_bytes: Option<u64>) -> (r: Result<
    u64,
    ParseError,
>)
    requires
        is_unit_multiplier(multiplier),
    ensures
        r == add_scaled_fraction(integer_bytes, src@, multiplier),
{
    proof {
        lemma_unit_multiplier_range(multiplier);
    }
    // A half-byte boundary has a terminating decimal representation for every supported unit.
    // Digits after that representation cannot change half-up rounding, so validate them without
    // including them in the multiplication loop.
    let relevant_digits = relevant_fraction_digits(multiplier);
    let mut digits: usize = 0;
    let mut end = src.len();
    let mut index: usize = 0;
    while index < src.len()
        invariant
            index <= src.len(),
            end <= src.len(),
            1 <= relevant_digits <= 61,
            all_digits_or_separators(src@.take(index as int)),
            digits == digit_count(src@.take(index as int)),
            digits <= index,
            digits < relevant_digits ==> end == src.len(),
            digits >= relevant_digits ==> end <= index && digit_count(src@.take(end as int))
                == relevant_digits,
        decreases src.len() - index,
    {
        let b = src[index];
        proof {
            digits::lemma_digits_take_next(src@, index as int);
        }
        if DIGIT_ZERO <= b && b <= DIGIT_NINE {
            digits = digits + 1;
            if digits == relevant_digits {
                end = index + 1;
            }
        } else if b == UNDERSCORE {
        } else {
            assert(!is_digit_or_separator(src@[index as int]));
            return Err(ParseError::Malformed);
        }
        index = index + 1;
    }
    assert(src@.take(src.len() as int) =~= src@);
    let head = &src[0..end];
    assert(head@ =~= src@.take(end as int));
    assert forall|i: int| 0 <= i < head@.len() implies is_digit_or_separator(#[trigger] head@[i]) by {
        assert(head@[i] == src@[i]);
    }
    let fraction = match scale_fraction(head, multiplier) {
        Ok(fraction) => fraction,
        Err(e) => return Err(e),
    };
    proof {
        if digits >= relevant_digits {
            assert(src@ =~= head@ + src@.skip(end as int));
            digits::lemma_scaled_fraction_truncate(multiplier as nat, head@, src@.skip(end as int));
        }
    }
    let bytes = match integer_bytes {
        Some(bytes) => bytes,
        None => return Err(ParseError::Overflow),
    };
    match bytes.checked_add(fraction) {
        Some(bytes) => Ok(bytes),
        None => Err(ParseError::Overflow),
    }
}

/// Every multiplier that [`split_unit`] gives is a unit multiplier.
proof fn lemma_split_unit_multiplier(s: Seq<u8>)
    ensures
        split_unit(s) matches Ok((_, m)) ==> is_unit_multiplier(m),
{
    let t = strip_byte_suffix(s);
    if t.len() > 0 && is_letter(t.last(), LETTER_I) {
        let u = t.drop_last();
        if u.len() > 0 && binary_unit(u.last()) is Some {
            assert(binary_unit(u.last()) == Some(binary_unit(u.last()).unwrap()));
        }
    } else if t.len() > 0 && decimal_unit(t.last()) is Some {
        assert(decimal_unit(t.last()) == Some(decimal_unit(t.last()).unwrap()));
    }
}

/// Inputs no longer than this are parsed without the long-fraction shortcut. Half-up transitions
/// occur at (2n + 1) / (2 * multiplier); supported multipliers factor only into 2s and 5s, so
/// every transition terminates in decimal, and 2^60 is the worst case at 61 digits.
const MAX_RELEVANT_FRACTION_DIGITS: usize = 61;

/// Parses a byte count from `src`, scaling and rounding it as [`spec_parse_size`] says. With
/// `LIMIT_LONG_FRACTION`, a fraction longer than any halfway point is multiplied out only as far
/// as it can decide the rounding; the result is the same.
fn parse_size<const LIMIT_LONG_FRACTION: bool>(src: &[u8]) -> (r: Result<u64, ParseError>)
    ensures
        r == spec_parse_size(src@),
{
    let (number, multiplier) = match strip_unit(src) {
        Ok(split) => split,
        Err(e) => return Err(e),
    };
    proof {
        lemma_split_unit_multiplier(src@);
        lemma_unit_multiplier_range(multiplier);
    }
    let mut integer: u64 = 0;
    let mut saw_digit = false;
    let mut fraction_start: usize = 0;
    let mut has_fraction = false;
    let mut index: usize = 0;
    assert(number@.take(0) =~= Seq::<u8>::empty());
    while index < number.len() && !has_fraction
        invariant
            split_unit(src@) == Ok::<(Seq<u8>, u64), ParseError>((number@, multiplier)),
            index <= number.len(),
            all_digits_or_separators(number@.take(index as int)),
            integer == digits_value(number@.take(index as int)),
            saw_digit == (digit_count(number@.take(index as int)) > 0),
            has_fraction ==> saw_digit && index < number.len() && number@[index as int] == DOT
                && integer_part_len(number@) == index && fraction_start == index + 1,
        decreases number.len() - index + (if has_fraction { 0int } else { 1int }),
    {
        let b = number[index];
        let ghost before = number@.take(index as int);
        proof {
            digits::lemma_digits_take_next(number@, index as int);
        }
        if DIGIT_ZERO <= b && b <= DIGIT_NINE {
            saw_digit = true;
            let digit = (b - DIGIT_ZERO) as u64;
            let next = match integer.checked_mul(10) {
                Some(shifted) => shifted.checked_add(digit),
                None => None,
            };
            match next {
                Some(next) => integer = next,
                None => {
                    proof {
                        lemma_integer_part_len_at_least(number@, index + 1);
                        digits::lemma_digits_value_prefix_monotone(
                            number@,
                            index + 1,
                            integer_part_len(number@) as int,
                        );
                    }
                    return Err(ParseError::Overflow);
                },
            }
            index = index + 1;
        } else if b == UNDERSCORE {
            index = index + 1;
        } else if b == DOT && saw_digit {
            proof {
                lemma_integer_part_len(number@, index as int);
            }
            fraction_start = index + 1;
            has_fraction = true;
        } else {
            proof {
                lemma_integer_part_len(number@, index as int);
                let k = integer_part_len(number@);
                assert(k == index);
                assert(number@.take(k as int) == before);
                assert(digits_value(number@.take(k as int)) <= u64::MAX);
                assert(!(number@[k as int] == DOT && digit_count(number@.take(k as int)) > 0));
                assert(parse_number(number@, multiplier) == Err::<u64, ParseError>(ParseError::Malformed));
            }
            return Err(ParseError::Malformed);
        }
    }
    if !has_fraction {
        assert(number@.take(index as int) =~= number@);
        proof {
            lemma_integer_part_len(number@, index as int);
        }
    }
    if !saw_digit {
        return Err(ParseError::Empty);
    }
    let integer_bytes = integer.checked_mul(multiplier);
    if has_fraction {
        let fraction = &number[fraction_start..number.len()];
        assert(fraction@ =~= fraction_part(number@));
        if LIMIT_LONG_FRACTION && fraction.len() > MAX_RELEVANT_FRACTION_DIGITS {
            return parse_long_fraction(fraction, multiplier, integer_bytes);
        }
        let fraction = match scale_fraction(fraction, multiplier) {
            Ok(fraction) => fraction,
            Err(e) => return Err(e),
        };
        let bytes = match integer_bytes {
            Some(bytes) => bytes,
            None => return Err(ParseError::Overflow),
        };
        match bytes.checked_add(fraction) {
            Some(bytes) => Ok(bytes),
            None => Err(ParseError::Overflow),
        }
    } else {
        assert(fraction_part(number@) =~= Seq::<u8>::empty());
        assert(digits_value(Seq::<u8>::empty()) == 0);
        assert(digit_count(Seq::<u8>::empty()) == 0);
        proof {
            digits::lemma_scaled_fraction_no_digits(multiplier as nat, Seq::<u8>::empty());
        }
        match integer_bytes {
            Some(bytes) => Ok(bytes),
            None => Err(ParseError::Overflow),
        }
    }
}

} // verus!


verus! {

/// The byte count written in the text `s`, when it fits below `max`, or why there is none; a
/// count above `max` is an overflow.
pub open spec fn spec_parse_size_within(s: Seq<u8>, max: u64) -> Result<u64, ParseError> {
    match spec_parse_size(s) {
        Ok(n) => if n <= max {
            Ok(n)
        } else {
            Err(ParseError::Overflow)
        },
        Err(e) => Err(e),
    }
}

// Keep the uncommon long-input code apart from the path that normal size strings take.
fn parse_long_size(src: &[u8]) -> (r: Result<u64, ParseError>)
    ensures
        r == spec_parse_size(src@),
{
    parse_size::<true>(src)
}

/// Parses the byte count written in `s`: long inputs take the path that multiplies out only the
/// fraction digits that can decide the rounding.
fn parse_str(s: &str) -> (r: Result<u64, ParseError>)
    ensures
        r == spec_parse_size(s.spec_bytes()),
{
    let src = s.as_bytes();
    if src.len() <= MAX_RELEVANT_FRACTION_DIGITS {
        parse_size::<false>(src)
    } else {
        parse_long_size(src)
    }
}

impl FromStr for ByteSize<u8> {
    type Err = ParseError;

    /// Parses a byte size such as `"1.5 KiB"`, as [`spec_parse_size`] says, and checks that
    /// the rounded count fits in `u8`.
    fn from_str(s: &str) -> (r: Result<Self, Self::Err>)
        ensures
            match r {
                Ok(v) => spec_parse_size_within(s.spec_bytes(), u8::MAX as u64) == Ok::<
                    u64,
                    ParseError,
                >(v@ as u64),
                Err(e) => spec_parse_size_within(s.spec_bytes(), u8::MAX as u64) == Err::<
                    u64,
                    ParseError,
                >(e),
            },
    {
        match parse_str(s) {
            Ok(size) => ByteSize::<u8>::bsize_from_u64(size),
            Err(e) => Err(e),
        }
    }
}

impl FromStr for ByteSize<u16> {
    type Err = ParseError;

    /// Parses a byte size such as `"1.5 KiB"`, as [`spec_parse_size`] says, and checks that
    /// the rounded count fits in `u16`.
    fn from_str(s: &str) -> (r: Result<Self, Self::Err>)
        ensures
            match r {
                Ok(v) => spec_parse_size_within(s.spec_bytes(), u16::MAX as u64) == Ok::<
                    u64,
                    ParseError,
                >(v@ as u64),
                Err(e) => spec_parse_size_within(s.spec_bytes(), u16::MAX as u64) == Err::<
                    u64,
                    ParseError,
                >(e),
            },
    {
        match parse_str(s) {
            Ok(size) => ByteSize::<u16>::bsize_from_u64(size),
            Err(e) => Err(e),
        }
    }
}

impl FromStr for ByteSize<u32> {
    type Err = ParseError;

    /// Parses a byte size such as `"1.5 KiB"`, as [`spec_parse_size`] says, and checks that
    /// the rounded count fits in `u32`.
    fn from_str(s: &str) -> (r: Result<Self, Self::Err>)
        ensures
            match r {
                Ok(v) => spec_parse_size_within(s.spec_bytes(), u32::MAX as u64) == Ok::<
                    u64,
                    ParseError,
                >(v@ as u64),
                Err(e) => spec_parse_size_within(s.spec_bytes(), u32::MAX as u64) == Err::<
                    u64,
                    ParseError,
                >(e),
            },
    {
        match parse_str(s) {
            Ok(size) => ByteSize::<u32>::bsize_from_u64(size),
            Err(e) => Err(e),
        }
    }
}

impl FromStr for ByteSize<u64> {
    type Err = ParseError;

    /// Parses a byte size such as `"1.5 KiB"`, as [`spec_parse_size`] says, and checks that
    /// the rounded count fits in `u64`.
    fn from_str(s: &str) -> (r: Result<Self, Self::Err>)
        ensures
            match r {
                Ok(v) => spec_parse_size_within(s.spec_bytes(), u64::MAX as u64) == Ok::<
                    u64,
                    ParseError,
                >(v@ as u64),
                Err(e) => spec_parse_size_within(s.spec_bytes(), u64::MAX as u64) == Err::<
                    u64,
                    ParseError,
                >(e),
            },
    {
        match parse_str(s) {
            Ok(size) => ByteSize::<u64>::bsize_from_u64(size),
            Err(e) => Err(e),
        }
    }
}

impl FromStr for ByteSize<usize> {
    type Err = ParseError;

    /// Parses a byte size such as `"1.5 KiB"`, as [`spec_parse_size`] says, and checks that
    /// the rounded count fits in `usize`.
    fn from_str(s: &str) -> (r: Result<Self, Self::Err>)
        ensures
            match r {
                Ok(v) => spec_parse_size_within(s.spec_bytes(), usize::MAX as u64) == Ok::<
                    u64,
                    ParseError,
                >(v@ as u64),
                Err(e) => spec_parse_size_within(s.spec_bytes(), usize::MAX as u64) == Err::<
                    u64,
                    ParseError,
                >(e),
            },
    {
        match parse_str(s) {
            Ok(size) => ByteSize::<usize>::bsize_from_u64(size),
            Err(e) => Err(e),
        }
    }
}

} // verus!

//! Properties that hold of the library as a whole, over every input.
use vstd::prelude::*;

use crate::digits::{
    all_digits_or_separators, digit_count, digits_value, is_digit, is_digit_or_separator,
    scaled_fraction,
};
use crate::display::{base_unit_text, padding_split, unit_label_text, DisplayAlignment};
use crate::format::{ascii_chars, byte_count_bytes, decimal_bytes, digit_byte};
use crate::parse::{
    binary_unit, decimal_unit, fraction_part, integer_part_len, is_letter, is_unit_multiplier,
    parse_number, relevant_fraction_digit_count, spec_parse_size, spec_parse_size_within,
    split_unit, strip_byte_suffix, trim_leading_spaces, trim_trailing_spaces,
};
use vstd::utf8::{encode_utf8, is_ascii_chars, is_ascii_chars_encode_utf8};

verus! {

/// The decimal digits of `n`: at least one, digits only, and read back as `n`.
proof fn lemma_decimal_bytes(n: nat)
    ensures
        decimal_bytes(n).len() >= 1,
        forall|i: int| 0 <= i < decimal_bytes(n).len() ==> is_digit(#[trigger] decimal_bytes(n)[i]),
        digits_value(decimal_bytes(n)) == n,
        digit_count(decimal_bytes(n)) >= 1,
    decreases n,
{
    if n >= 10 {
        lemma_decimal_bytes(n / 10);
        let head = decimal_bytes(n / 10);
        crate::digits::lemma_digits_push(head, digit_byte(n % 10));
    } else {
        let e = Seq::<u8>::empty();
        assert(seq![digit_byte(n)].drop_last() =~= e);
        assert(digits_value(e) == 0);
        assert(digit_count(e) == 0);
    }
}

/// Text made of ASCII bytes encodes back to the same bytes.
proof fn lemma_ascii_round_trip(b: Seq<u8>)
    requires
        forall|i: int| 0 <= i < b.len() ==> #[trigger] b[i] < 128,
    ensures
        encode_utf8(ascii_chars(b)) == b,
{
    let c = ascii_chars(b);
    assert(is_ascii_chars(c));
    is_ascii_chars_encode_utf8(c);
    assert(encode_utf8(c) =~= b);
}

/// Writing a byte count as text (`to_string`) and parsing that text back gives the same count.
pub proof fn law_parse_inverts_to_string(n: u64)
    ensures
        spec_parse_size(encode_utf8(ascii_chars(byte_count_bytes(n as nat)))) == Ok::<
            u64,
            crate::ParseError,
        >(n),
{
    let d = decimal_bytes(n as nat);
    let t = byte_count_bytes(n as nat);
    lemma_decimal_bytes(n as nat);
    assert forall|i: int| 0 <= i < t.len() implies #[trigger] t[i] < 128 by {
        if i < d.len() {
            assert(t[i] == d[i]);
        }
    }
    lemma_ascii_round_trip(t);
    assert(trim_leading_spaces(t) == t);
    assert(trim_trailing_spaces(t) == t);
    assert(t.drop_last() =~= d.push(0x20));
    assert(strip_byte_suffix(t) == d.push(0x20));
    assert(d.push(0x20).drop_last() =~= d);
    assert(trim_trailing_spaces(d.push(0x20)) == trim_trailing_spaces(d));
    assert(trim_trailing_spaces(d) == d);
    assert(decimal_unit(0x20) is None);
    assert(split_unit(t) == Ok::<(Seq<u8>, u64), crate::ParseError>((d, 1)));
    lemma_parse_decimal_number(n, 1);
}

/// The digits of `n` read as a number in units of `m` bytes stand for `n * m` bytes.
proof fn lemma_parse_decimal_number(n: u64, m: u64)
    requires
        n * m <= u64::MAX,
    ensures
        parse_number(decimal_bytes(n as nat), m) == Ok::<u64, crate::ParseError>((n * m) as u64),
{
    let d = decimal_bytes(n as nat);
    lemma_decimal_bytes(n as nat);
    assert(all_digits_or_separators(d.take(d.len() as int))) by {
        assert(d.take(d.len() as int) =~= d);
    }
    crate::parse::lemma_integer_part_len(d, d.len() as int);
    assert(d.take(d.len() as int) =~= d);
    assert(fraction_part(d) == Seq::<u8>::empty());
    crate::digits::lemma_scaled_fraction_no_digits(m as nat, Seq::<u8>::empty());
    assert(all_digits_or_separators(Seq::<u8>::empty()));
    assert(!(integer_part_len(d) < d.len()));
}

/// A count written with a decimal unit, such as `"3 MB"`, is parsed as that many of the unit's
/// bytes: the value that the unit constructors (such as `mb`) build.
pub proof fn law_parse_decimal_unit(n: u64, letter: u8)
    requires
        decimal_unit(letter) is Some,
        n * decimal_unit(letter).unwrap() <= u64::MAX,
    ensures
        spec_parse_size(decimal_bytes(n as nat) + seq![0x20u8, letter, 0x42u8]) == Ok::<
            u64,
            crate::ParseError,
        >((n * decimal_unit(letter).unwrap()) as u64),
{
    let m = decimal_unit(letter).unwrap();
    let d = decimal_bytes(n as nat);
    let t = d + seq![0x20u8, letter, 0x42u8];
    lemma_decimal_bytes(n as nat);
    assert(t[0] == d[0]);
    assert(trim_leading_spaces(t) == t);
    assert(trim_trailing_spaces(t) == t);
    assert(t.drop_last() =~= d + seq![0x20u8, letter]);
    assert((d + seq![0x20u8, letter]).drop_last() =~= d + seq![0x20u8]);
    assert((d + seq![0x20u8]).drop_last() =~= d);
    assert(trim_trailing_spaces(d + seq![0x20u8]) == trim_trailing_spaces(d));
    assert(trim_trailing_spaces(d) == d);
    assert(split_unit(t) == Ok::<(Seq<u8>, u64), crate::ParseError>((d, m)));
    lemma_parse_decimal_number(n, m);
}

/// A count written with a binary unit, such as `"3 MiB"`, is parsed as that many of the unit's
/// bytes: the value that the unit constructors (such as `mib`) build.
pub proof fn law_parse_binary_unit(n: u64, letter: u8)
    requires
        binary_unit(letter) is Some,
        n * binary_unit(letter).unwrap() <= u64::MAX,
    ensures
        spec_parse_size(decimal_bytes(n as nat) + seq![0x20u8, letter, 0x69u8, 0x42u8]) == Ok::<
            u64,
            crate::ParseError,
        >((n * binary_unit(letter).unwrap()) as u64),
{
    let m = binary_unit(letter).unwrap();
    let d = decimal_bytes(n as nat);
    let t = d + seq![0x20u8, letter, 0x69u8, 0x42u8];
    lemma_decimal_bytes(n as nat);
    assert(t[0] == d[0]);
    assert(trim_leading_spaces(t) == t);
    assert(trim_trailing_spaces(t) == t);
    assert(t.drop_last() =~= d + seq![0x20u8, letter, 0x69u8]);
    assert((d + seq![0x20u8, letter, 0x69u8]).drop_last() =~= d + seq![0x20u8, letter]);
    assert((d + seq![0x20u8, letter]).drop_last() =~= d + seq![0x20u8]);
    assert((d + seq![0x20u8]).drop_last() =~= d);
    assert(trim_trailing_spaces(d + seq![0x20u8]) == trim_trailing_spaces(d));
    assert(trim_trailing_spaces(d) == d);
    assert(split_unit(t) == Ok::<(Seq<u8>, u64), crate::ParseError>((d, m)));
    lemma_parse_decimal_number(n, m);
}

/// Writing a byte count of any backing type as text and parsing it back into that type gives
/// the same count.
pub proof fn law_parse_inverts_to_string_within(n: u64, max: u64)
    requires
        n <= max,
    ensures
        spec_parse_size_within(encode_utf8(ascii_chars(byte_count_bytes(n as nat))), max) == Ok::<
            u64,
            crate::ParseError,
        >(n),
{
    law_parse_inverts_to_string(n);
}

/// The text of a byte count is never blank.
pub proof fn law_to_string_not_blank(n: u64)
    ensures
        ascii_chars(byte_count_bytes(n as nat)).len() > 0,
{
}

/// Appending a `0` to the fraction of a number does not change the byte count that it stands for
/// (nor the error, when there is one): `"1.5"` and `"1.50"` are read alike in every unit.
pub proof fn law_fraction_trailing_zero(s: Seq<u8>, multiplier: u64)
    requires
        integer_part_len(s) < s.len(),
    ensures
        parse_number(s.push(0x30), multiplier) == parse_number(s, multiplier),
{
    let k = integer_part_len(s) as int;
    let t = s.push(0x30);
    crate::parse::lemma_integer_part_len_spec(s);
    assert(t.take(k) =~= s.take(k));
    assert(t[k] == s[k]);
    crate::parse::lemma_integer_part_len(t, k);
    let f = fraction_part(s);
    assert(fraction_part(t) =~= f.push(0x30));
    assert(all_digits_or_separators(f.push(0x30)) == all_digits_or_separators(f)) by {
        if all_digits_or_separators(f) {
            assert forall|i: int| 0 <= i < f.push(0x30).len() implies crate::digits::is_digit_or_separator(
                #[trigger] f.push(0x30)[i],
            ) by {
                if i < f.len() {
                    assert(f.push(0x30)[i] == f[i]);
                }
            }
        } else {
            let i = choose|i: int| 0 <= i < f.len() && !crate::digits::is_digit_or_separator(f[i]);
            assert(f.push(0x30)[i] == f[i]);
        }
    }
    crate::digits::lemma_fraction_trailing_zero(multiplier as nat, f);
}

/// `b` can end the number part of a size without being read as part of a unit: a digit, a
/// separator or the decimal point.
pub open spec fn ends_number(b: u8) -> bool {
    is_digit_or_separator(b) || b == crate::parse::DOT
}

/// What [`split_unit`] makes of the text `u` that follows a number: the part of `u` left to the
/// number, and the bytes in one unit.
spec fn unit_tail(u: Seq<u8>) -> Result<(Seq<u8>, u64), crate::ParseError> {
    let v = trim_trailing_spaces(u);
    let t = if v.len() > 0 && is_letter(v.last(), crate::parse::LETTER_B) {
        v.drop_last()
    } else {
        v
    };
    if t.len() > 0 && is_letter(t.last(), crate::parse::LETTER_I) {
        let w = t.drop_last();
        if w.len() > 0 && binary_unit(w.last()) is Some {
            Ok((trim_trailing_spaces(w.drop_last()), binary_unit(w.last()).unwrap()))
        } else {
            Err(crate::ParseError::Malformed)
        }
    } else if t.len() > 0 && decimal_unit(t.last()) is Some {
        Ok((trim_trailing_spaces(t.drop_last()), decimal_unit(t.last()).unwrap()))
    } else {
        Ok((trim_trailing_spaces(t), 1))
    }
}

/// Text that does not end in a space keeps its leading spaces in front of anything appended.
proof fn lemma_trim_leading_append(x: Seq<u8>, u: Seq<u8>)
    requires
        x.len() > 0,
        x.last() != crate::parse::SPACE,
    ensures
        trim_leading_spaces(x + u) == trim_leading_spaces(x) + u,
        trim_leading_spaces(x).len() > 0,
        trim_leading_spaces(x).last() == x.last(),
    decreases x.len(),
{
    assert((x + u)[0] == x[0]);
    if x[0] == crate::parse::SPACE {
        assert(x.len() > 1);
        assert((x + u).drop_first() =~= x.drop_first() + u);
        assert(x.drop_first().last() == x.last());
        lemma_trim_leading_append(x.drop_first(), u);
    }
}

/// Trailing spaces are taken from what follows text that does not end in a space.
proof fn lemma_trim_trailing_append(x: Seq<u8>, u: Seq<u8>)
    requires
        x.len() > 0,
        x.last() != crate::parse::SPACE,
    ensures
        trim_trailing_spaces(x + u) == x + trim_trailing_spaces(u),
    decreases u.len(),
{
    if u.len() > 0 {
        assert((x + u).last() == u.last());
        if u.last() == crate::parse::SPACE {
            assert((x + u).drop_last() =~= x + u.drop_last());
            lemma_trim_trailing_append(x, u.drop_last());
        }
    } else {
        assert(x + u =~= x);
    }
}

/// The unit is split off a number followed by `u` as [`unit_tail`] says, whatever the number.
proof fn lemma_split_unit_append(x: Seq<u8>, u: Seq<u8>)
    requires
        x.len() > 0,
        ends_number(x.last()),
    ensures
        split_unit(x + u) == match unit_tail(u) {
            Ok((w, m)) => Ok::<(Seq<u8>, u64), crate::ParseError>((trim_leading_spaces(x) + w, m)),
            Err(e) => Err(e),
        },
{
    lemma_trim_leading_append(x, u);
    let n = trim_leading_spaces(x);
    lemma_trim_trailing_append(n, u);
    let v = trim_trailing_spaces(u);
    let t = if v.len() > 0 && is_letter(v.last(), crate::parse::LETTER_B) {
        v.drop_last()
    } else {
        v
    };
    if v.len() > 0 {
        assert((n + v).last() == v.last());
        assert((n + v).drop_last() =~= n + v.drop_last());
    } else {
        assert(n + v =~= n);
    }
    assert(strip_byte_suffix(x + u) == n + t);
    if t.len() > 0 {
        assert((n + t).last() == t.last());
        assert((n + t).drop_last() =~= n + t.drop_last());
        let w = t.drop_last();
        if w.len() > 0 {
            assert((n + w).last() == w.last());
            assert((n + w).drop_last() =~= n + w.drop_last());
            lemma_trim_trailing_append(n, w.drop_last());
        } else {
            assert(n + w =~= n);
        }
        lemma_trim_trailing_append(n, w);
    } else {
        assert(n + t =~= n);
    }
    lemma_trim_trailing_append(n, t);
}

/// Appending a `0` to the fraction of a size does not change the byte count that it stands for,
/// nor the error when there is one, whatever spaces and unit follow: `"1.5 KiB"` and
/// `"1.50 KiB"` are read alike. `a` is the text up to the end of the fraction, whose number
/// holds more than an integer part, and `u` is what follows it: text that, after a digit, is
/// read as spaces and a unit only, or is refused.
pub proof fn law_text_fraction_trailing_zero(a: Seq<u8>, u: Seq<u8>)
    requires
        a.len() > 0,
        ends_number(a.last()),
        integer_part_len(trim_leading_spaces(a)) < trim_leading_spaces(a).len(),
        split_unit(seq![crate::parse::DIGIT_ZERO] + u) matches Ok((w, _)) ==> w == seq![
            crate::parse::DIGIT_ZERO,
        ],
    ensures
        spec_parse_size(a.push(crate::parse::DIGIT_ZERO) + u) == spec_parse_size(a + u),
{
    let z = seq![crate::parse::DIGIT_ZERO];
    let b = a.push(crate::parse::DIGIT_ZERO);
    lemma_split_unit_append(z, u);
    lemma_split_unit_append(a, u);
    lemma_split_unit_append(b, u);
    assert(trim_leading_spaces(z) == z);
    lemma_trim_leading_push(a, crate::parse::DIGIT_ZERO);
    lemma_trim_leading_append(a, Seq::<u8>::empty());
    let n = trim_leading_spaces(a);
    match unit_tail(u) {
        Ok((w, m)) => {
            assert((z + w).len() == 1);
            assert(w.len() == 0);
            assert(n + w =~= n);
            assert(trim_leading_spaces(b) + w =~= n.push(crate::parse::DIGIT_ZERO));
            law_fraction_trailing_zero(n, m);
        },
        Err(_) => {},
    }
}

/// A space in front of a size does not change what it is parsed as.
pub proof fn law_leading_space_ignored(s: Seq<u8>)
    ensures
        spec_parse_size(seq![0x20u8] + s) == spec_parse_size(s),
{
    assert((seq![0x20u8] + s).drop_first() =~= s);
    assert(trim_leading_spaces(seq![0x20u8] + s) == trim_leading_spaces(s));
}

proof fn lemma_trim_leading_push(s: Seq<u8>, b: u8)
    ensures
        trim_leading_spaces(s).len() > 0 ==> trim_leading_spaces(s.push(b)) == trim_leading_spaces(
            s,
        ).push(b),
        trim_leading_spaces(s).len() == 0 ==> trim_leading_spaces(s.push(b))
            == trim_leading_spaces(seq![b]),
    decreases s.len(),
{
    if s.len() > 0 {
        assert(s.push(b)[0] == s[0]);
        if s[0] == 0x20 {
            assert(s.push(b).drop_first() =~= s.drop_first().push(b));
            lemma_trim_leading_push(s.drop_first(), b);
        }
    } else {
        assert(s.push(b) =~= seq![b]);
    }
}

/// A space after a size does not change what it is parsed as.
pub proof fn law_trailing_space_ignored(s: Seq<u8>)
    ensures
        spec_parse_size(s.push(0x20)) == spec_parse_size(s),
{
    lemma_trim_leading_push(s, 0x20);
    let l = trim_leading_spaces(s);
    if l.len() > 0 {
        assert(l.push(0x20).drop_last() =~= l);
    } else {
        assert(seq![0x20u8].drop_first() =~= Seq::<u8>::empty());
        assert(trim_leading_spaces(seq![0x20u8]) == trim_leading_spaces(Seq::<u8>::empty()));
    }
    assert(trim_trailing_spaces(trim_leading_spaces(s.push(0x20))) == trim_trailing_spaces(l));
}

/// Fraction digits past the leading ones that can decide the rounding do not change the byte
/// count: every halfway point between two whole byte counts, in units of `m` bytes, is written
/// with at most [`relevant_fraction_digit_count`] fraction digits.
pub proof fn law_fraction_digits_beyond_relevant_ones_ignored(m: u64, head: Seq<u8>, tail: Seq<u8>)
    requires
        is_unit_multiplier(m),
        digit_count(head) == relevant_fraction_digit_count(m),
    ensures
        scaled_fraction(m as nat, head + tail) == scaled_fraction(m as nat, head),
{
    crate::parse::lemma_relevant_fraction_digits(m);
    crate::parse::lemma_unit_multiplier_range(m);
    crate::digits::lemma_scaled_fraction_truncate(m as nat, head, tail);
}

/// The upper-case form of an ASCII letter; other bytes stay as they are.
pub open spec fn ascii_upper(b: u8) -> u8 {
    if 0x61 <= b <= 0x7A {
        (b - 0x20) as u8
    } else {
        b
    }
}

/// `s` with every ASCII letter in upper case.
pub open spec fn ascii_uppercase(s: Seq<u8>) -> Seq<u8> {
    s.map_values(|b: u8| ascii_upper(b))
}

proof fn lemma_upper_drop_first(s: Seq<u8>)
    requires
        s.len() > 0,
    ensures
        ascii_uppercase(s).drop_first() == ascii_uppercase(s.drop_first()),
        ascii_uppercase(s)[0] == ascii_upper(s[0]),
{
    assert(ascii_uppercase(s).drop_first() =~= ascii_uppercase(s.drop_first()));
}

proof fn lemma_upper_drop_last(s: Seq<u8>)
    requires
        s.len() > 0,
    ensures
        ascii_uppercase(s).drop_last() == ascii_uppercase(s.drop_last()),
        ascii_uppercase(s).last() == ascii_upper(s.last()),
{
    assert(ascii_uppercase(s).drop_last() =~= ascii_uppercase(s.drop_last()));
}

proof fn lemma_upper_trim_leading(s: Seq<u8>)
    ensures
        trim_leading_spaces(ascii_uppercase(s)) == ascii_uppercase(trim_leading_spaces(s)),
    decreases s.len(),
{
    if s.len() > 0 {
        lemma_upper_drop_first(s);
        if s[0] == 0x20 {
            lemma_upper_trim_leading(s.drop_first());
        }
    }
}

proof fn lemma_upper_trim_trailing(s: Seq<u8>)
    ensures
        trim_trailing_spaces(ascii_uppercase(s)) == ascii_uppercase(trim_trailing_spaces(s)),
    decreases s.len(),
{
    if s.len() > 0 {
        lemma_upper_drop_last(s);
        if s.last() == 0x20 {
            lemma_upper_trim_trailing(s.drop_last());
        }
    }
}

/// Splitting the unit off upper-cased text gives the upper-cased number and the same unit.
proof fn lemma_upper_split_unit(s: Seq<u8>)
    ensures
        split_unit(ascii_uppercase(s)) == match split_unit(s) {
            Ok((number, m)) => Ok::<(Seq<u8>, u64), crate::ParseError>((ascii_uppercase(number), m)),
            Err(e) => Err(e),
        },
{
    lemma_upper_trim_leading(s);
    lemma_upper_trim_trailing(trim_leading_spaces(s));
    let t0 = trim_trailing_spaces(trim_leading_spaces(s));
    if t0.len() > 0 {
        lemma_upper_drop_last(t0);
    }
    let t = strip_byte_suffix(s);
    assert(strip_byte_suffix(ascii_uppercase(s)) == ascii_uppercase(t));
    if t.len() > 0 {
        lemma_upper_drop_last(t);
        let u = t.drop_last();
        if u.len() > 0 {
            lemma_upper_drop_last(u);
            lemma_upper_trim_trailing(u.drop_last());
        }
        lemma_upper_trim_trailing(u);
    }
    lemma_upper_trim_trailing(t);
}

proof fn lemma_upper_digits(s: Seq<u8>)
    ensures
        digits_value(ascii_uppercase(s)) == digits_value(s),
        digit_count(ascii_uppercase(s)) == digit_count(s),
    decreases s.len(),
{
    if s.len() > 0 {
        lemma_upper_drop_last(s);
        lemma_upper_digits(s.drop_last());
    }
}

proof fn lemma_upper_integer_part_len(s: Seq<u8>)
    ensures
        integer_part_len(ascii_uppercase(s)) == integer_part_len(s),
    decreases s.len(),
{
    if s.len() > 0 {
        lemma_upper_drop_first(s);
        lemma_upper_integer_part_len(s.drop_first());
    }
}

/// Upper-casing a number changes neither its value nor its error.
proof fn lemma_upper_parse_number(s: Seq<u8>, m: u64)
    ensures
        parse_number(ascii_uppercase(s), m) == parse_number(s, m),
{
    let u = ascii_uppercase(s);
    let k = integer_part_len(s) as int;
    lemma_upper_integer_part_len(s);
    crate::parse::lemma_integer_part_len_spec(s);
    assert(u.take(k) =~= ascii_uppercase(s.take(k)));
    lemma_upper_digits(s.take(k));
    let f = fraction_part(s);
    assert(fraction_part(u) =~= ascii_uppercase(f));
    lemma_upper_digits(f);
    assert(all_digits_or_separators(ascii_uppercase(f)) == all_digits_or_separators(f)) by {
        if all_digits_or_separators(f) {
            assert forall|i: int| 0 <= i < f.len() implies crate::digits::is_digit_or_separator(
                #[trigger] ascii_uppercase(f)[i],
            ) by {
                assert(crate::digits::is_digit_or_separator(f[i]));
            }
        } else {
            let i = choose|i: int| 0 <= i < f.len() && !crate::digits::is_digit_or_separator(f[i]);
            assert(!crate::digits::is_digit_or_separator(ascii_uppercase(f)[i]));
        }
    }
}

/// Letters in a size may be written in either case: `"1kb"`, `"1KB"` and `"1Kb"` are one size,
/// and `"1 kib"` is one kibibyte.
pub proof fn law_letter_case_ignored(s: Seq<u8>)
    ensures
        spec_parse_size(ascii_uppercase(s)) == spec_parse_size(s),
{
    lemma_upper_split_unit(s);
    match split_unit(s) {
        Ok((number, m)) => {
            lemma_upper_parse_number(number, m);
        },
        Err(_) => {},
    }
}

} // verus!

verus! {

/// `base` raised to the power `e`.
pub open spec fn power(base: nat, e: nat) -> nat
    decreases e,
{
    if e == 0 {
        1
    } else {
        base * power(base, (e - 1) as nat)
    }
}

/// The first decimal digit of a positive count is not `0`, and `0` is the digit `0` alone.
proof fn lemma_decimal_bytes_leading(n: nat)
    ensures
        n > 0 ==> decimal_bytes(n)[0] != 0x30,
        n == 0 ==> decimal_bytes(n) == seq![0x30u8],
    decreases n,
{
    if n >= 10 {
        lemma_decimal_bytes_leading(n / 10);
        lemma_decimal_bytes(n / 10);
        assert(decimal_bytes(n)[0] == decimal_bytes(n / 10)[0]);
    }
}

/// The text of a byte count (what `to_string` writes) is the count in base bytes: decimal
/// digits without leading zeros that read as the count, then a space and `B`, never a scaled
/// unit such as `kB`.
pub proof fn law_byte_count_text(n: nat)
    ensures
        byte_count_bytes(n).len() >= 3,
        byte_count_bytes(n)[byte_count_bytes(n).len() - 2] == 0x20,
        byte_count_bytes(n).last() == 0x42,
        forall|i: int|
            0 <= i < byte_count_bytes(n).len() - 2 ==> is_digit(#[trigger] byte_count_bytes(n)[i]),
        digits_value(byte_count_bytes(n).take(byte_count_bytes(n).len() - 2)) == n,
        n > 0 ==> byte_count_bytes(n)[0] != 0x30,
        n == 0 ==> byte_count_bytes(n) == seq![0x30u8, 0x20u8, 0x42u8],
{
    let d = decimal_bytes(n);
    let t = byte_count_bytes(n);
    lemma_decimal_bytes(n);
    lemma_decimal_bytes_leading(n);
    assert(t.take(t.len() - 2) =~= d);
    assert forall|i: int| 0 <= i < t.len() - 2 implies is_digit(#[trigger] t[i]) by {
        assert(t[i] == d[i]);
    }
    assert(t[0] == d[0]);
    if n == 0 {
        assert(t =~= seq![0x30u8, 0x20u8, 0x42u8]);
    }
}

/// The unit label for `exponent` steps of the unit base (from 1 to 6) starts with the prefix
/// letter of that magnitude, whatever the unit system: `K` (`k` in the decimal system), `M`,
/// `G`, `T`, `P`, `E`. Read back as a unit, that letter stands for the unit base (1000 or
/// 1024) raised to `exponent`; a binary label follows it with `i`, and the label ends with the
/// base unit.
pub proof fn law_unit_label_prefix(
    base_unit: crate::DisplayBaseUnit,
    unit_system: crate::DisplayUnitSystem,
    exponent: nat,
)
    requires
        1 <= exponent <= 6,
    ensures
        unit_label_text(base_unit, unit_system, exponent)[0] == if exponent == 1
            && unit_system == crate::DisplayUnitSystem::Decimal {
            'k'
        } else {
            seq!['K', 'M', 'G', 'T', 'P', 'E'][exponent - 1]
        },
        unit_system == crate::DisplayUnitSystem::Decimal ==> decimal_unit(
            unit_label_text(base_unit, unit_system, exponent)[0] as u8,
        ) == Some(power(1000, exponent) as u64),
        unit_system == crate::DisplayUnitSystem::Binary ==> binary_unit(
            unit_label_text(base_unit, unit_system, exponent)[0] as u8,
        ) == Some(power(1024, exponent) as u64),
        unit_system == crate::DisplayUnitSystem::Binary ==> unit_label_text(
            base_unit,
            unit_system,
            exponent,
        ) == seq![unit_label_text(base_unit, unit_system, exponent)[0], 'i'] + if base_unit == crate::DisplayBaseUnit::Byte {
            seq!['B']
        } else {
            seq!['b', 'i', 't']
        },
        unit_system == crate::DisplayUnitSystem::Decimal ==> unit_label_text(
            base_unit,
            unit_system,
            exponent,
        ) == seq![unit_label_text(base_unit, unit_system, exponent)[0]] + if base_unit == crate::DisplayBaseUnit::Byte {
            seq!['B']
        } else {
            seq!['b', 'i', 't']
        },
{
    reveal_with_fuel(power, 7);
    let l = unit_label_text(base_unit, unit_system, exponent);
    let b = if base_unit == crate::DisplayBaseUnit::Byte {
        seq!['B']
    } else {
        seq!['b', 'i', 't']
    };
    assert(base_unit_text(base_unit) == b);
    if unit_system == crate::DisplayUnitSystem::Binary {
        assert(l =~= seq![l[0], 'i'] + b);
    } else {
        assert(l =~= seq![l[0]] + b);
    }
}

/// The unit label at exponent 0 is the base unit alone: `B` or `bit`.
pub proof fn law_unit_label_base(
    base_unit: crate::DisplayBaseUnit,
    unit_system: crate::DisplayUnitSystem,
)
    ensures
        unit_label_text(base_unit, unit_system, 0) == if base_unit == crate::DisplayBaseUnit::Byte {
            seq!['B']
        } else {
            seq!['b', 'i', 't']
        },
{
}

/// The fill around a text pads it exactly to the requested width (or adds nothing when the
/// text is as wide already): right alignment puts all of it before the text, left alignment
/// all after it, and centering puts the smaller half before and the larger half after.
pub proof fn law_padding_fills_width(width: usize, content_width: usize, align: DisplayAlignment)
    ensures
        ({
            let r = padding_split(
                (if width > content_width { width - content_width } else { 0 }) as nat,
                align,
            );
            &&& content_width + r.0 + r.1 == if width > content_width {
                width as int
            } else {
                content_width as int
            }
            &&& align == DisplayAlignment::Right ==> r.1 == 0
            &&& align == DisplayAlignment::Left ==> r.0 == 0
            &&& align == DisplayAlignment::Center ==> r.0 <= r.1 <= r.0 + 1
        }),
{
}

} // verus!

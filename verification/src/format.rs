//! Writing byte counts as text.
use vstd::prelude::*;

verus! {

/// `String::push`: appends the character `c` to the end of `s`, as its documentation says.
#[verifier::external_body]
pub(crate) fn push_char(s: &mut String, c: char)
    ensures
        final(s)@ == old(s)@.push(c),
{
    s.push(c);
}

/// The ASCII decimal digit for `d`, which is below ten.
pub open spec fn digit_byte(d: nat) -> u8 {
    (48 + d) as u8
}

/// The decimal digits of `n`, most significant first, with no leading zeros (`0` is `"0"`).
pub open spec fn decimal_bytes(n: nat) -> Seq<u8>
    decreases n,
{
    if n < 10 {
        seq![digit_byte(n)]
    } else {
        decimal_bytes(n / 10).push(digit_byte(n % 10))
    }
}

/// The characters of ASCII bytes.
pub open spec fn ascii_chars(s: Seq<u8>) -> Seq<char> {
    s.map_values(|b: u8| b as char)
}

/// The text of a byte count in base bytes: its decimal digits, a space, and `B`.
pub open spec fn byte_count_bytes(n: nat) -> Seq<u8> {
    decimal_bytes(n) + seq![0x20u8, 0x42u8]
}

fn digit_char(d: u64) -> (c: char)
    requires
        d < 10,
    ensures
        c == digit_byte(d as nat) as char,
{
    if d == 0 {
        '0'
    } else if d == 1 {
        '1'
    } else if d == 2 {
        '2'
    } else if d == 3 {
        '3'
    } else if d == 4 {
        '4'
    } else if d == 5 {
        '5'
    } else if d == 6 {
        '6'
    } else if d == 7 {
        '7'
    } else if d == 8 {
        '8'
    } else {
        '9'
    }
}

/// Appends the decimal digits of `n` to `s`.
fn push_decimal(s: &mut String, n: u64)
    ensures
        final(s)@ == old(s)@ + ascii_chars(decimal_bytes(n as nat)),
    decreases n,
{
    let ghost start = s@;
    if n >= 10 {
        push_decimal(s, n / 10);
    }
    push_char(s, digit_char(n % 10));
    proof {
        if n >= 10 {
            let head = decimal_bytes((n / 10) as nat);
            assert(ascii_chars(head.push(digit_byte((n % 10) as nat))) =~= ascii_chars(head).push(
                digit_byte((n % 10) as nat) as char,
            ));
        } else {
            assert(ascii_chars(seq![digit_byte(n as nat)]) =~= seq![digit_byte(n as nat) as char]);
        }
    }
    assert(s@ =~= start + ascii_chars(decimal_bytes(n as nat)));
}

/// The exact byte count `n` written in base bytes, such as `"1536 B"`.
pub fn format_byte_count(n: u64) -> (r: String)
    ensures
        r@ == ascii_chars(byte_count_bytes(n as nat)),
{
    let mut s = String::new();
    push_decimal(&mut s, n);
    push_char(&mut s, ' ');
    push_char(&mut s, 'B');
    assert(ascii_chars(byte_count_bytes(n as nat)) =~= ascii_chars(decimal_bytes(n as nat)) + seq![' ', 'B']);
    s
}

} // verus!

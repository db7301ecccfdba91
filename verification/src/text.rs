//! Verified text building: appending characters, spaces, and decimal and
//! hexadecimal renderings of numbers to a growing string.

use vstd::prelude::*;
use vstd::string::StringExecFns;

verus! {

/// Relies on String::push: it appends the given character to the end of the
/// string.
#[verifier::external_body]
pub(crate) fn push_char(out: &mut String, c: char)
    ensures
        final(out)@ == old(out)@.push(c),
{
    out.push(c);
}

/// A run of space characters.
pub open spec fn spaces(n: nat) -> Seq<char> {
    Seq::new(n, |i: int| ' ')
}

/// Decimal digit character for a value below ten.
pub open spec fn dec_digit(d: int) -> char {
    if d == 0 {
        '0'
    } else if d == 1 {
        '1'
    } else if d == 2 {
        '2'
    } else if d == 3 {
        '3'
    } else if d == 4 {
        '4'
    } else if d == 5 {
        '5'
    } else if d == 6 {
        '6'
    } else if d == 7 {
        '7'
    } else if d == 8 {
        '8'
    } else {
        '9'
    }
}

/// Decimal rendering of a natural number, without leading zeros.
pub open spec fn spec_dec(n: nat) -> Seq<char>
    decreases n,
{
    if n < 10 {
        seq![dec_digit(n as int)]
    } else {
        spec_dec(n / 10) + seq![dec_digit((n % 10) as int)]
    }
}

/// Decimal rendering of an integer: a minus sign before the magnitude when
/// negative.
pub open spec fn spec_dec_int(v: int) -> Seq<char> {
    if v < 0 {
        seq!['-'] + spec_dec((-v) as nat)
    } else {
        spec_dec(v as nat)
    }
}

/// Lower-case hexadecimal digit character for a value below sixteen.
pub open spec fn hex_digit(d: int) -> char {
    if d == 0 {
        '0'
    } else if d == 1 {
        '1'
    } else if d == 2 {
        '2'
    } else if d == 3 {
        '3'
    } else if d == 4 {
        '4'
    } else if d == 5 {
        '5'
    } else if d == 6 {
        '6'
    } else if d == 7 {
        '7'
    } else if d == 8 {
        '8'
    } else if d == 9 {
        '9'
    } else if d == 10 {
        'a'
    } else if d == 11 {
        'b'
    } else if d == 12 {
        'c'
    } else if d == 13 {
        'd'
    } else if d == 14 {
        'e'
    } else {
        'f'
    }
}

/// Hexadecimal rendering of a natural number, without leading zeros.
pub open spec fn spec_hex(n: nat) -> Seq<char>
    decreases n,
{
    if n < 16 {
        seq![hex_digit(n as int)]
    } else {
        spec_hex(n / 16) + seq![hex_digit((n % 16) as int)]
    }
}

/// Exactly two hexadecimal digits of one byte.
pub open spec fn spec_hex_byte(b: u8) -> Seq<char> {
    seq![hex_digit(b as int / 16), hex_digit(b as int % 16)]
}

/// A hexadecimal value with the 0x prefix, padded to at least two digits.
pub open spec fn spec_hex_value(n: nat) -> Seq<char> {
    if n < 16 {
        "0x0"@ + spec_hex(n)
    } else {
        "0x"@ + spec_hex(n)
    }
}

/// Append `n` space characters.
pub fn push_spaces(out: &mut String, n: usize)
    ensures
        final(out)@ == old(out)@ + spaces(n as nat),
{
    let mut j: usize = 0;
    while j < n
        invariant
            j <= n,
            out@ == old(out)@ + spaces(j as nat),
        decreases n - j,
    {
        push_char(out, ' ');
        assert(out@ =~= old(out)@ + spaces((j + 1) as nat));
        j = j + 1;
    }
}

/// Append six spaces for each counted unit: the width of one rendered byte
/// in the hex column.
pub fn push_align(out: &mut String, count: usize)
    ensures
        final(out)@ == old(out)@ + spaces((6 * count) as nat),
{
    let mut j: usize = 0;
    while j < count
        invariant
            j <= count,
            out@ == old(out)@ + spaces((6 * j) as nat),
        decreases count - j,
    {
        push_spaces(out, 6);
        assert(out@ =~= old(out)@ + spaces((6 * (j + 1)) as nat));
        j = j + 1;
    }
}

/// Append two spaces for each counted unit: the width of one nesting level.
pub fn push_indent(out: &mut String, count: usize)
    ensures
        final(out)@ == old(out)@ + spaces((2 * count) as nat),
{
    let mut j: usize = 0;
    while j < count
        invariant
            j <= count,
            out@ == old(out)@ + spaces((2 * j) as nat),
        decreases count - j,
    {
        push_spaces(out, 2);
        assert(out@ =~= old(out)@ + spaces((2 * (j + 1)) as nat));
        j = j + 1;
    }
}

/// Decimal digit character of a value below ten.
fn dec_digit_char(d: u8) -> (c: char)
    requires
        d < 10,
    ensures
        c == dec_digit(d as int),
{
    if d == 0 {
        '0'
    } else if d == 1 {
        '1'
    } else if d == 2 {
        '2'
    } else if d == 3 {
        '3'
    } else if d == 4 {
        '4'
    } else if d == 5 {
        '5'
    } else if d == 6 {
        '6'
    } else if d == 7 {
        '7'
    } else if d == 8 {
        '8'
    } else {
        '9'
    }
}

/// Lower-case hexadecimal digit character of a value below sixteen.
fn hex_digit_char(d: u8) -> (c: char)
    requires
        d < 16,
    ensures
        c == hex_digit(d as int),
{
    if d < 10 {
        dec_digit_char(d)
    } else if d == 10 {
        'a'
    } else if d == 11 {
        'b'
    } else if d == 12 {
        'c'
    } else if d == 13 {
        'd'
    } else if d == 14 {
        'e'
    } else {
        'f'
    }
}

/// Append the decimal rendering of a number.
pub fn push_dec(out: &mut String, n: u64)
    ensures
        final(out)@ == old(out)@ + spec_dec(n as nat),
    decreases n,
{
    if n >= 10 {
        push_dec(out, n / 10);
    }
    push_char(out, dec_digit_char((n % 10) as u8));
    assert(out@ =~= old(out)@ + spec_dec(n as nat));
}

/// Append the decimal rendering of a signed value.
pub fn push_dec_signed(out: &mut String, v: i32)
    ensures
        final(out)@ == old(out)@ + spec_dec_int(v as int),
{
    if v < 0 {
        push_char(out, '-');
        let m: u64 = (-(v as i64)) as u64;
        push_dec(out, m);
        assert(out@ =~= old(out)@ + spec_dec_int(v as int));
    } else {
        push_dec(out, v as u64);
    }
}

/// Append the hexadecimal rendering of a number, without leading zeros.
fn push_hex(out: &mut String, n: u32)
    ensures
        final(out)@ == old(out)@ + spec_hex(n as nat),
    decreases n,
{
    if n >= 16 {
        push_hex(out, n / 16);
    }
    push_char(out, hex_digit_char((n % 16) as u8));
    assert(out@ =~= old(out)@ + spec_hex(n as nat));
}

/// Append exactly two hexadecimal digits of one byte.
pub fn push_hex_byte(out: &mut String, b: u8)
    ensures
        final(out)@ == old(out)@ + spec_hex_byte(b),
{
    push_char(out, hex_digit_char(b / 16));
    push_char(out, hex_digit_char(b % 16));
    assert(out@ =~= old(out)@ + spec_hex_byte(b));
}

/// Append a hexadecimal value with the 0x prefix, padded to at least two
/// digits.
pub fn push_hex_value(out: &mut String, n: u32)
    ensures
        final(out)@ == old(out)@ + spec_hex_value(n as nat),
{
    if n < 16 {
        out.append("0x0");
    } else {
        out.append("0x");
    }
    push_hex(out, n);
    assert(out@ =~= old(out)@ + spec_hex_value(n as nat));
}

} // verus!

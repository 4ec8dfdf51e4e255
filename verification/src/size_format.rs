//! Human-readable byte counts, as the `bytesize` crate renders them.
use vstd::prelude::*;
use crate::text::{all_digits, digits_value, is_digit};

verus! {

/// The decimal digits of `n`, without leading zeros.
pub open spec fn decimal_text(n: nat) -> Seq<char>
    decreases n,
{
    if n < 10 {
        seq![((n + 48) as u32) as char]
    } else {
        decimal_text(n / 10).push((((n % 10) + 48) as u32) as char)
    }
}

/// One unit: 1024 bytes with binary units, 1000 without.
pub open spec fn one_unit(binary: bool) -> u64 {
    if binary {
        1024u64
    } else {
        1000u64
    }
}

/// The shape of a count of one unit or more: a number with one decimal,
/// a space, a unit letter (`kMGTPE` with binary units, `KMGTPE` without) and
/// `iB` (binary) or `B`.
pub open spec fn is_scaled_text(t: Seq<char>, binary: bool) -> bool {
    let suffix = if binary {
        "iB"@
    } else {
        "B"@
    };
    let letters = if binary {
        "kMGTPE"@
    } else {
        "KMGTPE"@
    };
    let k = t.len() - suffix.len() - 4;
    &&& t.len() >= suffix.len() + 5
    &&& all_digits(t.take(k))
    &&& t[k] == '.'
    &&& is_digit(t[k + 1])
    &&& t[k + 2] == ' '
    &&& letters.contains(t[k + 3])
    &&& t.skip(k + 4) == suffix
}

/// Where the number of a scaled text ends.
pub open spec fn number_end(t: Seq<char>, binary: bool) -> int {
    t.len() - (if binary {
        2int
    } else {
        1int
    }) - 4
}

/// The power of the unit that a unit letter names: `k`/`K` the first, `M`
/// the second, `G` the third, `T` the fourth, `P` the fifth, `E` the sixth.
pub open spec fn letter_exponent(c: char) -> nat {
    if c == 'k' || c == 'K' {
        1
    } else if c == 'M' {
        2
    } else if c == 'G' {
        3
    } else if c == 'T' {
        4
    } else if c == 'P' {
        5
    } else {
        6
    }
}

/// `unit` to the power `e`.
pub open spec fn unit_power(unit: nat, e: nat) -> nat
    decreases e,
{
    if e == 0 {
        1
    } else {
        unit * unit_power(unit, (e - 1) as nat)
    }
}

/// The number a scaled text shows, in tenths.
pub open spec fn shown_tenths(t: Seq<char>, binary: bool) -> int {
    let k = number_end(t, binary);
    digits_value(t.take(k)) * 10 + (t[k + 1] as int - '0' as int)
}

/// The bytes that a scaled text stands for: its number times the power of
/// the unit its letter names.
pub open spec fn shown_scale(t: Seq<char>, binary: bool) -> nat {
    unit_power(one_unit(binary) as nat, letter_exponent(t[number_end(t, binary) + 3]))
}

/// A scaled text shows `bytes`: its number, read in the unit its letter
/// names, is within half a tenth of `bytes` in that unit, allowing for the
/// rounding of `bytes` to a 64-bit float and of the division by the unit
/// (together less than one part in 2^51 of the quotient). Multiplied out:
/// 2^51 * |tenths * scale - 10 * bytes| <= 2^50 * scale + 10 * bytes.
pub open spec fn shows_amount(t: Seq<char>, binary: bool, bytes: nat) -> bool {
    let diff = shown_tenths(t, binary) * shown_scale(t, binary) - 10 * bytes;
    let size = if diff >= 0 {
        diff
    } else {
        -diff
    };
    2251799813685248 * size <= 1125899906842624 * shown_scale(t, binary) + 10 * bytes
}

/// One scaled text does not show two amounts far apart: amounts it shows
/// differ by at most a tenth of its unit, plus the float rounding allowance.
/// So a text that shows the free space cannot also show a capacity that is a
/// unit or more larger.
pub proof fn lemma_text_shows_one_amount(t: Seq<char>, binary: bool, a: nat, b: nat)
    requires
        shows_amount(t, binary, a),
        shows_amount(t, binary, b),
    ensures
        ({
            let gap = if a >= b {
                a - b
            } else {
                b - a
            };
            2251799813685248 * 10 * gap <= 2251799813685248 * shown_scale(t, binary) + 10 * a
                + 10 * b
        }),
{
    let m = shown_tenths(t, binary) * shown_scale(t, binary);
    let sc = shown_scale(t, binary);
    assert(2251799813685248 * (if m - 10 * a >= 0 { m - 10 * a } else { 10 * a - m })
        <= 1125899906842624 * sc + 10 * a);
    assert(2251799813685248 * (if m - 10 * b >= 0 { m - 10 * b } else { 10 * b - m })
        <= 1125899906842624 * sc + 10 * b);
    let da: int = m - 10 * a;
    let db: int = m - 10 * b;
    let ga: int = if da >= 0 { da } else { -da };
    let gb: int = if db >= 0 { db } else { -db };
    let gap: int = if a >= b { a - b } else { b - a };
    assert(10 * gap <= ga + gb);
    assert(2251799813685248 * ga <= 1125899906842624 * sc + 10 * a);
    assert(2251799813685248 * gb <= 1125899906842624 * sc + 10 * b);
    assert(2251799813685248 * (10 * gap) <= 2251799813685248 * (ga + gb)) by (nonlinear_arith)
        requires
            10 * gap <= ga + gb,
    ;
    assert(2251799813685248 * (ga + gb) == 2251799813685248 * ga + 2251799813685248 * gb);
    assert(2251799813685248 * (10 * gap) <= 2251799813685248 * sc + 10 * a + 10 * b);
    assert(2251799813685248 * 10 * gap == 2251799813685248 * (10 * gap)) by (nonlinear_arith);
}

/// Renders `bytes` with `bytesize::ByteSize::to_string_as`.
///
/// Trusted: below one unit the result is the plain decimal count followed by
/// " B", as the crate's `to_string` formats it with `format!("{} B", bytes)`.
/// From one unit on, the crate picks the unit from a floating-point logarithm
/// and prints `bytes as f64 / unit.pow(exp) as f64` with
/// `format!("{:.1} {}{}", ..)` and the letter of that power. Stated of that
/// text: its shape, and that the number it prints, in the unit its letter
/// names, is `bytes` to within the rounding of the conversion, the division
/// and the one-decimal formatting. Which unit the logarithm picks near a power
/// of the unit is not fixed by the source and is not stated.
#[verifier::external_body]
pub(crate) fn format_byte_size(bytes: u64, binary: bool) -> (r: String)
    ensures
        bytes < one_unit(binary) ==> r@ == decimal_text(bytes as nat) + " B"@,
        bytes >= one_unit(binary) ==> is_scaled_text(r@, binary) && shows_amount(
            r@,
            binary,
            bytes as nat,
        ),
{
    bytesize::ByteSize::b(bytes).to_string_as(binary)
}

} // verus!

//! Comparing JSON numbers exactly, doubles included: a double is read from its bits.

use vstd::arithmetic::div_mod::lemma_fundamental_div_mod;
use vstd::arithmetic::power2::{lemma_pow2_pos, lemma_pow2_strictly_increases, lemma2_to64_rest, pow2};
use vstd::bits::lemma_u64_shl_is_mul;
use vstd::prelude::*;

use crate::json::Number;

verus! {

/// The bits of the double minus zero: every double with a sign is this plus the bits of its size.
pub const MINUS_ZERO: u64 = 0x8000_0000_0000_0000;

/// The significand of a double that carries no sign: the double is this times a power of two.
pub open spec fn significand(bits: u64) -> nat {
    let fraction = (bits % 0x10_0000_0000_0000) as nat;
    if bits / 0x10_0000_0000_0000 == 0 {
        fraction
    } else {
        0x10_0000_0000_0000 + fraction
    }
}

/// The power of two by which the significand is scaled.
pub open spec fn scale(bits: u64) -> int {
    let exponent = bits as int / 0x10_0000_0000_0000;
    if exponent == 0 {
        -1074
    } else {
        exponent - 1075
    }
}

/// A double without a sign is no greater than a whole number. Infinities, and what is no number at all, are.
pub open spec fn at_most(magnitude: u64, limit: nat) -> bool {
    if scale(magnitude) >= 0 {
        significand(magnitude) * pow2(scale(magnitude) as nat) <= limit
    } else {
        significand(magnitude) <= limit * pow2((-scale(magnitude)) as nat)
    }
}

/// A double lies between a whole number below zero, given by its size, and one above.
pub open spec fn double_between(bits: u64, below: nat, above: nat) -> bool {
    if bits < MINUS_ZERO {
        at_most(bits, above)
    } else {
        at_most((bits - MINUS_ZERO) as u64, below)
    }
}

/// A number lies between zero and a whole number.
pub open spec fn within(number: Number, highest: nat) -> bool {
    match number {
        Number::PosInt(n) => n <= highest,
        Number::NegInt(n) => 0 <= n <= highest,
        Number::Float(bits) => double_between(bits, 0, highest),
    }
}

fn is_at_most(bits: u64, highest: u32) -> (inside: bool)
    requires
        bits < MINUS_ZERO,
    ensures
        inside == at_most(bits, highest as nat),
{
    let exponent: u64 = bits / 0x10_0000_0000_0000;
    let fraction: u64 = bits % 0x10_0000_0000_0000;
    let held: u64 = if exponent == 0 {
        fraction
    } else {
        0x10_0000_0000_0000 + fraction
    };
    if exponent >= 1075 {
        proof {
            let power = pow2(scale(bits) as nat);
            lemma_pow2_pos(scale(bits) as nat);
            assert(held * power >= held) by (nonlinear_arith)
                requires
                    power >= 1,
                    held >= 0,
            ;
        }
        return false;
    }
    let down: u64 = if exponent == 0 {
        1074
    } else {
        1075 - exponent
    };
    assert(down == -scale(bits));
    if highest == 0 {
        return held == 0;
    }
    if down >= 53 {
        proof {
            lemma2_to64_rest();
            if down > 53 {
                lemma_pow2_strictly_increases(53, down as nat);
            }
            let power = pow2(down as nat);
            assert(highest * power >= power) by (nonlinear_arith)
                requires
                    highest >= 1,
                    power >= 0,
            ;
        }
        return true;
    }
    proof {
        lemma2_to64_rest();
        lemma_pow2_strictly_increases(down as nat, 53);
        lemma_pow2_pos(down as nat);
        lemma_u64_shl_is_mul(1, down);
    }
    let power: u64 = 1u64 << down;
    let whole: u64 = held / power;
    let rest: u64 = held % power;
    proof {
        let limit = highest as int;
        lemma_fundamental_div_mod(held as int, power as int);
        assert(whole * power == power * whole) by (nonlinear_arith);
        assert(held <= limit * power <==> (whole < limit || whole == limit && rest == 0))
            by (nonlinear_arith)
            requires
                held == whole * power + rest,
                0 <= rest < power,
                0 <= whole,
                0 <= limit,
        ;
    }
    whole < highest as u64 || (whole == highest as u64 && rest == 0)
}

pub fn double_is_between(bits: u64, below: u32, above: u32) -> (inside: bool)
    ensures
        inside == double_between(bits, below as nat, above as nat),
{
    if bits < MINUS_ZERO {
        is_at_most(bits, above)
    } else {
        is_at_most(bits - MINUS_ZERO, below)
    }
}

pub fn is_within(number: Number, highest: u32) -> (inside: bool)
    ensures
        inside == within(number, highest as nat),
{
    match number {
        Number::PosInt(n) => n <= highest as u64,
        Number::NegInt(n) => 0 <= n && n <= highest as i64,
        Number::Float(bits) => double_is_between(bits, 0, highest),
    }
}

/// A double that is a number: neither an infinity nor what is no number at all.
pub open spec fn is_finite(bits: u64) -> bool {
    (bits % MINUS_ZERO) / 0x10_0000_0000_0000 != 0x7ff
}

pub fn finite(bits: u64) -> (answer: bool)
    ensures
        answer == is_finite(bits),
{
    (bits % MINUS_ZERO) / 0x10_0000_0000_0000 != 0x7ff
}

/// The size of a double that carries no sign, in units of the smallest double. Infinity is larger than every finite
/// one.
pub open spec fn magnitude(bits: u64) -> nat {
    significand(bits) * pow2((scale(bits) + 1074) as nat)
}

/// The bits of infinity: what is larger, and carries no sign, is no number at all.
pub const INFINITY: u64 = 0x7ff0_0000_0000_0000;

/// A double is a number no smaller than a positive one.
pub open spec fn at_least(bits: u64, least: u64) -> bool {
    bits <= INFINITY && magnitude(bits) >= magnitude(least)
}

proof fn lemma_magnitude_is_bounded(bits: u64)
    requires
        bits < MINUS_ZERO,
    ensures
        magnitude(bits) < 0x20_0000_0000_0000 * pow2((scale(bits) + 1074) as nat),
        bits / 0x10_0000_0000_0000 > 0 ==> magnitude(bits) >= 0x10_0000_0000_0000 * pow2(
            (scale(bits) + 1074) as nat,
        ),
        bits / 0x10_0000_0000_0000 == 0 ==> magnitude(bits) < 0x10_0000_0000_0000,
{
    let held = significand(bits) as int;
    let power = pow2((scale(bits) + 1074) as nat) as int;
    lemma_pow2_pos((scale(bits) + 1074) as nat);
    assert(held * power < 0x20_0000_0000_0000 * power) by (nonlinear_arith)
        requires
            held < 0x20_0000_0000_0000,
            power > 0,
    ;
    if bits / 0x10_0000_0000_0000 > 0 {
        assert(held * power >= 0x10_0000_0000_0000 * power) by (nonlinear_arith)
            requires
                held >= 0x10_0000_0000_0000,
                power > 0,
        ;
    } else {
        vstd::arithmetic::power2::lemma2_to64();
        assert(held * power == held) by (nonlinear_arith)
            requires
                power == 1,
        ;
    }
}

/// Doubles that carry no sign are ordered as their bits are.
pub proof fn law_doubles_are_ordered_as_their_bits(low: u64, high: u64)
    requires
        low < high < MINUS_ZERO,
    ensures
        magnitude(low) < magnitude(high),
{
    let low_exponent = low / 0x10_0000_0000_0000;
    let high_exponent = high / 0x10_0000_0000_0000;
    if low_exponent == high_exponent {
        let power = pow2((scale(low) + 1074) as nat) as int;
        lemma_pow2_pos((scale(low) + 1074) as nat);
        let a = significand(low) as int;
        let b = significand(high) as int;
        assert(a * power < b * power) by (nonlinear_arith)
            requires
                a < b,
                power > 0,
        ;
    } else {
        lemma_magnitude_is_bounded(low);
        lemma_magnitude_is_bounded(high);
        let low_power = pow2((scale(low) + 1074) as nat);
        let high_power = pow2((scale(high) + 1074) as nat);
        lemma_pow2_pos((scale(low) + 1074) as nat);
        if low_exponent == 0 {
            lemma_pow2_pos((scale(high) + 1074) as nat);
            assert(0x10_0000_0000_0000 * high_power >= 0x10_0000_0000_0000);
        } else {
            let up = (scale(high) - scale(low)) as nat;
            vstd::arithmetic::power2::lemma_pow2_adds(up, (scale(low) + 1074) as nat);
            lemma_pow2_doubles(up);
            let factor = pow2(up) as int;
            let base = low_power as int;
            assert(high_power == factor * base);
            assert(0x10_0000_0000_0000 * (factor * base) >= 0x20_0000_0000_0000 * base) by (nonlinear_arith)
                requires
                    factor >= 2,
                    base >= 0,
            ;
        }
    }
}

proof fn lemma_pow2_doubles(up: nat)
    requires
        up >= 1,
    ensures
        pow2(up) >= 2,
{
    vstd::arithmetic::power2::lemma2_to64();
    if up > 1 {
        lemma_pow2_strictly_increases(1, up);
    }
}

/// A double is a number no smaller than a positive one: told from the bits.
pub fn is_at_least(bits: u64, least: u64) -> (answer: bool)
    requires
        least <= INFINITY,
    ensures
        answer == at_least(bits, least),
{
    proof {
        if bits < MINUS_ZERO && bits < least {
            law_doubles_are_ordered_as_their_bits(bits, least);
        }
        if bits < MINUS_ZERO && least < bits {
            law_doubles_are_ordered_as_their_bits(least, bits);
        }
    }
    bits <= INFINITY && bits >= least
}

/// A double that is no number at all: an exponent of all ones, and a fraction.
pub open spec fn is_nan(bits: u64) -> bool {
    bits % MINUS_ZERO > INFINITY
}

/// The bits that stand for every double that is no number.
pub const NOT_A_NUMBER: u64 = 0x7ff8_0000_0000_0000;

/// The bits of the double that the standard library reads from a text.
pub uninterp spec fn double_parsed(text: Seq<char>) -> Option<u64>;

/// `str::parse` of the standard library into a double, whose bits `buffa` encodes as eight bytes. Whether there is a
/// double depends on the text alone, and so do its bits where it is a number. Which bits stand for what is no number
/// is left open.
#[verifier::external_body]
fn parse_double(text: &str) -> (bits: Option<u64>)
    ensures
        bits is Some <==> double_parsed(text@) is Some,
        bits is Some && !(is_nan(bits->Some_0) && is_nan(double_parsed(text@)->Some_0)) ==> bits == double_parsed(text@),
{
    let number = text.parse().ok()?;
    let mut bytes: Vec<u8> = Vec::new();
    buffa::types::encode_double(number, &mut bytes);
    buffa::types::decode_fixed64(&mut bytes.as_slice()).ok()
}

/// The double that a text writes, by its bits; what is no number always has the same bits.
pub open spec fn double_in(text: Seq<char>) -> Option<u64> {
    match double_parsed(text) {
        Some(bits) if is_nan(bits) => Some(NOT_A_NUMBER),
        parsed => parsed,
    }
}

pub fn read_double(text: &str) -> (bits: Option<u64>)
    ensures
        bits == double_in(text@),
{
    match parse_double(text) {
        Some(bits) if bits % MINUS_ZERO > INFINITY => Some(NOT_A_NUMBER),
        parsed => parsed,
    }
}

proof fn lemma_at_most_by_size(size: u64, limit: nat)
    requires
        size < MINUS_ZERO,
    ensures
        at_most(size, limit) <==> magnitude(size) <= limit * pow2(1074),
{
    let held = significand(size) as int;
    let power = pow2((scale(size) + 1074) as nat) as int;
    let unit = pow2(1074) as int;
    let most = limit as int;
    lemma_pow2_pos((scale(size) + 1074) as nat);
    lemma_pow2_pos(1074);
    if scale(size) >= 0 {
        let up = pow2(scale(size) as nat) as int;
        vstd::arithmetic::power2::lemma_pow2_adds(scale(size) as nat, 1074);
        assert(held * up <= most <==> held * power <= most * unit) by (nonlinear_arith)
            requires
                power == up * unit,
                unit > 0,
        ;
    } else {
        let down = pow2((-scale(size)) as nat) as int;
        vstd::arithmetic::power2::lemma_pow2_adds((-scale(size)) as nat, (scale(size) + 1074) as nat);
        assert(held <= most * down <==> held * power <= most * unit) by (nonlinear_arith)
            requires
                unit == down * power,
                power > 0,
        ;
    }
}

proof fn lemma_size_of_whole(size: u64, limit: nat, shift: nat)
    requires
        size < MINUS_ZERO,
        shift <= 1074,
        scale(size) == -shift,
        significand(size) == limit * pow2(shift),
    ensures
        magnitude(size) == limit * pow2(1074),
{
    let low = pow2(shift) as int;
    let high = pow2((1074 - shift) as nat) as int;
    let unit = pow2(1074) as int;
    let most = limit as int;
    vstd::arithmetic::power2::lemma_pow2_adds(shift, (1074 - shift) as nat);
    assert(magnitude(size) == (most * low) * high);
    assert((most * low) * high == most * unit) by (nonlinear_arith)
        requires
            unit == low * high,
    ;
}

proof fn lemma_at_most_by_bits(size: u64, limit: nat, bits: u64)
    requires
        size < MINUS_ZERO,
        bits < MINUS_ZERO,
        magnitude(bits) == limit * pow2(1074),
    ensures
        at_most(size, limit) <==> size <= bits,
{
    lemma_at_most_by_size(size, limit);
    if size < bits {
        law_doubles_are_ordered_as_their_bits(size, bits);
    }
    if bits < size {
        law_doubles_are_ordered_as_their_bits(bits, size);
    }
}

proof fn lemma_small_wholes()
    ensures
        magnitude(0) == 0 * pow2(1074),
        magnitude(0x3ff0_0000_0000_0000) == 1 * pow2(1074),
        magnitude(0x4000_0000_0000_0000) == 2 * pow2(1074),
        magnitude(0x4059_0000_0000_0000) == 100 * pow2(1074),
{
    vstd::arithmetic::power2::lemma2_to64();
    lemma2_to64_rest();
    lemma_size_of_whole(0x3ff0_0000_0000_0000, 1, 52);
    lemma_size_of_whole(0x4000_0000_0000_0000, 2, 51);
    lemma_size_of_whole(0x4059_0000_0000_0000, 100, 46);
    assert(significand(0) == 0);
}

/// Which doubles lie between whole numbers that settings are held to: no size above that of the bound, on either side,
/// and zero is zero with either sign. What is no number, and what is infinite, lies between none.
pub proof fn law_a_double_is_held_to_its_bounds(bits: u64)
    ensures
        double_between(bits, 0, 1) <==> bits <= 0x3ff0_0000_0000_0000 || bits == MINUS_ZERO,
        double_between(bits, 0, 2) <==> bits <= 0x4000_0000_0000_0000 || bits == MINUS_ZERO,
        double_between(bits, 2, 2) <==> bits % MINUS_ZERO <= 0x4000_0000_0000_0000,
        double_between(bits, 100, 100) <==> bits % MINUS_ZERO <= 0x4059_0000_0000_0000,
{
    lemma_small_wholes();
    let size = (bits % MINUS_ZERO) as u64;
    if bits < MINUS_ZERO {
        assert(size == bits);
    } else {
        assert(size == bits - MINUS_ZERO);
    }
    lemma_at_most_by_bits(size, 0, 0);
    lemma_at_most_by_bits(size, 1, 0x3ff0_0000_0000_0000);
    lemma_at_most_by_bits(size, 2, 0x4000_0000_0000_0000);
    lemma_at_most_by_bits(size, 100, 0x4059_0000_0000_0000);
}

/// A number lies between zero and one exactly where it is one of the two integers or a double of that size.
pub proof fn law_what_lies_between_zero_and_one(number: Number)
    ensures
        within(number, 1) <==> (match number {
            Number::PosInt(n) => n == 0 || n == 1,
            Number::NegInt(n) => n == 0 || n == 1,
            Number::Float(bits) => bits <= 0x3ff0_0000_0000_0000 || bits == MINUS_ZERO,
        }),
{
    if let Number::Float(bits) = number {
        law_a_double_is_held_to_its_bounds(bits);
    }
}

/// A number lies below a whole number exactly where its size does: an integer by itself, a double by what it stands
/// for in units of the smallest one.
pub proof fn law_a_number_is_held_to_a_whole_one(number: Number, highest: nat)
    ensures
        number matches Number::PosInt(n) ==> (within(number, highest) <==> n <= highest),
        number matches Number::NegInt(n) ==> (within(number, highest) <==> 0 <= n <= highest),
        number matches Number::Float(bits) ==> (within(number, highest) <==> (bits < MINUS_ZERO && magnitude(
            bits,
        ) <= highest * pow2(1074)) || bits == MINUS_ZERO),
{
    if let Number::Float(bits) = number {
        if bits < MINUS_ZERO {
            lemma_at_most_by_size(bits, highest);
        } else {
            lemma_small_wholes();
            lemma_at_most_by_bits((bits - MINUS_ZERO) as u64, 0, 0);
        }
    }
}

/// A double is finite exactly where its size is below that of infinity, and is no number where it is above.
pub proof fn law_what_is_finite_and_what_is_no_number(bits: u64)
    ensures
        is_finite(bits) <==> bits % MINUS_ZERO < 0x7ff0_0000_0000_0000,
        is_nan(bits) <==> bits % MINUS_ZERO > 0x7ff0_0000_0000_0000,
        bits < MINUS_ZERO ==> bits % MINUS_ZERO == bits,
        bits >= MINUS_ZERO ==> bits % MINUS_ZERO == bits - MINUS_ZERO,
{
}

/// A double is no smaller than a positive one exactly where its bits are not, and it is a number without a sign.
pub proof fn law_no_smaller_is_told_by_the_bits(bits: u64, least: u64)
    requires
        least <= 0x7ff0_0000_0000_0000,
    ensures
        at_least(bits, least) <==> least <= bits <= 0x7ff0_0000_0000_0000,
{
    if bits < least {
        law_doubles_are_ordered_as_their_bits(bits, least);
    } else if least < bits && bits <= INFINITY {
        law_doubles_are_ordered_as_their_bits(least, bits);
    }
}

/// A text that writes a number is read as that number, and every text that writes no number reads the same.
pub proof fn law_what_is_no_number_reads_the_same(text: Seq<char>)
    ensures
        double_parsed(text) is None <==> double_in(text) is None,
        double_parsed(text) matches Some(bits) ==> (bits % MINUS_ZERO <= 0x7ff0_0000_0000_0000 ==> double_in(
            text,
        ) == Some(bits)),
        double_parsed(text) matches Some(bits) ==> (bits % MINUS_ZERO > 0x7ff0_0000_0000_0000 ==> double_in(
            text,
        ) == Some(0x7ff8_0000_0000_0000u64)),
{
}

} // verus!

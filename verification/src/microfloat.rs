//! The one-byte duration format of the `ufloat8` crate: a four-bit exponent
//! above a four-bit mantissa, chosen so that successive codes stand for
//! strictly growing numbers.

use vstd::prelude::*;

verus! {

/// The smallest number whose code has the given exponent.
pub open spec fn floor_of(exponent: u32) -> u32 {
    (0xffffu32 >> ((16 - exponent) as u32)) << 4
}

/// The number that a code stands for.
pub open spec fn expanded(code: u8) -> u32 {
    let mantissa = (code as u32) & 0x0f;
    let exponent = ((code & 0xf0) >> 4) as u32;
    ((mantissa << exponent) + floor_of(exponent)) as u32
}

/// The code that the search for a number's exponent arrives at, when it has
/// reached `exponent` and found the number to be at least `floor`.
pub open spec fn compressed_from(number: u32, exponent: u32, floor: u32) -> u8
    decreases 16 - exponent,
{
    if exponent >= 16 {
        0
    } else if number < floor * 2 + 16 {
        ((((number - floor) as u32) >> exponent) + (exponent << 4)) as u8
    } else {
        compressed_from(number, (exponent + 1) as u32, (floor * 2 + 16) as u32)
    }
}

/// The code that stands for a number, or for the nearest number below it
/// that has a code. Numbers beyond the largest code give 0.
pub open spec fn compressed(number: u32) -> u8 {
    compressed_from(number, 0, 0)
}

/// `ufloat8::decode`. It shifts the low four bits of the code left by the
/// high four bits and adds sixteen times one less than that power of two.
pub assume_specification[ ufloat8::decode ](code: u8) -> (number: u32)
    ensures
        number == expanded(code),
;

/// `ufloat8::encode`. It tries the exponents from 0 upward, doubling the
/// floor and adding 16 at each step, and at the first exponent whose next
/// floor lies above the number it returns the exponent in the high four bits
/// and the number's distance from the floor, shifted right by the exponent,
/// in the low four. With no such exponent below 16 it returns 0.
pub assume_specification[ ufloat8::encode ](number: u32) -> (code: u8)
    ensures
        code == compressed(number),
;

proof fn lemma_floor_steps(exponent: u32)
    requires
        exponent < 16,
    ensures
        floor_of(0) == 0,
        floor_of((exponent + 1) as u32) == floor_of(exponent) * 2 + 16,
        floor_of(exponent) <= 524272,
{
    assert(floor_of(0) == 0) by (bit_vector);
    let next = (exponent + 1) as u32;
    assert(floor_of(next) == floor_of(exponent) * 2 + 16 && floor_of(exponent) <= 524272)
        by (bit_vector)
        requires
            exponent < 16,
            next == exponent + 1,
    ;
}

proof fn lemma_floor_grows(low: u32, high: u32)
    requires
        low <= high <= 16,
    ensures
        floor_of(low) <= floor_of(high),
{
    assert(floor_of(low) <= floor_of(high)) by (bit_vector)
        requires
            low <= high <= 16,
    ;
}

/// The search stops at the exponent between whose floor and the next the number lies.
proof fn lemma_search_stops(number: u32, start: u32, exponent: u32)
    requires
        start <= exponent < 16,
        floor_of(exponent) <= number < floor_of(exponent) * 2 + 16,
    ensures
        compressed_from(number, start, floor_of(start)) == ((((number - floor_of(exponent)) as u32)
            >> exponent) + (exponent << 4)) as u8,
    decreases exponent - start,
{
    lemma_floor_steps(start);
    if start < exponent {
        lemma_floor_grows((start + 1) as u32, exponent);
        lemma_search_stops(number, (start + 1) as u32, exponent);
    }
}

/// Every code is the code of the number it stands for.
pub proof fn lemma_code_round_trip(code: u8)
    ensures
        compressed(expanded(code)) == code,
{
    let exponent = ((code & 0xf0) >> 4) as u32;
    let number = expanded(code);
    let floor = floor_of(exponent);
    assert(exponent < 16 && floor <= number < floor * 2 + 16 && ((((number - floor) as u32)
        >> exponent) + (exponent << 4)) as u8 == code) by (bit_vector)
        requires
            exponent == ((code & 0xf0) >> 4) as u32,
            number == expanded(code),
            floor == floor_of(exponent),
    ;
    lemma_floor_steps(0);
    lemma_search_stops(number, 0, exponent);
}

} // verus!

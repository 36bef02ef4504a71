//! Little-endian fields at the front of a byte slice.
//!
//! Each reader takes the unread input and gives back what is left of it
//! together with the value read, or `TruncatedInput` where the input is too
//! short for the field.
use crate::error::ThorError;
use vstd::prelude::*;
use vstd::slice::slice_subrange;

verus! {

/// The unsigned 16-bit value of the first two bytes of `s`, low byte first.
pub open spec fn spec_le_u16(s: Seq<u8>) -> int
    recommends
        s.len() >= 2,
{
    s[0] as int + 0x100 * (s[1] as int)
}

/// The unsigned 32-bit value of the first four bytes of `s`, low byte first.
pub open spec fn spec_le_u32(s: Seq<u8>) -> int
    recommends
        s.len() >= 4,
{
    s[0] as int + 0x100 * (s[1] as int) + 0x1_0000 * (s[2] as int) + 0x100_0000 * (s[3] as int)
}

/// The first two bytes of `s` read as a two's complement number.
pub open spec fn spec_le_i16(s: Seq<u8>) -> int
    recommends
        s.len() >= 2,
{
    let u = spec_le_u16(s);
    if u < 0x8000 {
        u
    } else {
        u - 0x1_0000
    }
}

/// The first four bytes of `s` read as a two's complement number.
pub open spec fn spec_le_i32(s: Seq<u8>) -> int
    recommends
        s.len() >= 4,
{
    let u = spec_le_u32(s);
    if u < 0x8000_0000 {
        u
    } else {
        u - 0x1_0000_0000
    }
}

/// Splits `count` bytes off the front of the input.
pub fn take(input: &[u8], count: usize) -> (r: Result<(&[u8], &[u8]), ThorError>)
    ensures
        match r {
            Ok((rest, taken)) => {
                &&& count <= input@.len()
                &&& taken@ == input@.take(count as int)
                &&& rest@ == input@.skip(count as int)
            },
            Err(e) => e == ThorError::TruncatedInput && input@.len() < count,
        },
{
    if input.len() < count {
        return Err(ThorError::TruncatedInput);
    }
    let taken = slice_subrange(input, 0, count);
    let rest = slice_subrange(input, count, input.len());
    Ok((rest, taken))
}

/// Reads one byte.
pub fn le_u8(input: &[u8]) -> (r: Result<(&[u8], u8), ThorError>)
    ensures
        match r {
            Ok((rest, value)) => {
                &&& input@.len() >= 1
                &&& value == input@[0]
                &&& rest@ == input@.skip(1)
            },
            Err(e) => e == ThorError::TruncatedInput && input@.len() < 1,
        },
{
    if input.len() < 1 {
        return Err(ThorError::TruncatedInput);
    }
    let rest = slice_subrange(input, 1, input.len());
    Ok((rest, input[0]))
}

/// Reads an unsigned 32-bit number.
pub fn le_u32(input: &[u8]) -> (r: Result<(&[u8], u32), ThorError>)
    ensures
        match r {
            Ok((rest, value)) => {
                &&& input@.len() >= 4
                &&& value == spec_le_u32(input@)
                &&& rest@ == input@.skip(4)
            },
            Err(e) => e == ThorError::TruncatedInput && input@.len() < 4,
        },
{
    if input.len() < 4 {
        return Err(ThorError::TruncatedInput);
    }
    let b0: u32 = input[0] as u32;
    let b1: u32 = input[1] as u32;
    let b2: u32 = input[2] as u32;
    let b3: u32 = input[3] as u32;
    let value: u32 = b0 + 0x100 * b1 + 0x1_0000 * b2 + 0x100_0000 * b3;
    let rest = slice_subrange(input, 4, input.len());
    Ok((rest, value))
}

/// Reads a signed 16-bit number.
pub fn le_i16(input: &[u8]) -> (r: Result<(&[u8], i16), ThorError>)
    ensures
        match r {
            Ok((rest, value)) => {
                &&& input@.len() >= 2
                &&& value == spec_le_i16(input@)
                &&& rest@ == input@.skip(2)
            },
            Err(e) => e == ThorError::TruncatedInput && input@.len() < 2,
        },
{
    if input.len() < 2 {
        return Err(ThorError::TruncatedInput);
    }
    let b0: u16 = input[0] as u16;
    let b1: u16 = input[1] as u16;
    let unsigned: u16 = b0 + 0x100 * b1;
    let value: i16 = if unsigned < 0x8000 {
        unsigned as i16
    } else {
        (unsigned - 0x8000) as i16 + i16::MIN
    };
    let rest = slice_subrange(input, 2, input.len());
    Ok((rest, value))
}

/// Reads a signed 32-bit number.
pub fn le_i32(input: &[u8]) -> (r: Result<(&[u8], i32), ThorError>)
    ensures
        match r {
            Ok((rest, value)) => {
                &&& input@.len() >= 4
                &&& value == spec_le_i32(input@)
                &&& rest@ == input@.skip(4)
            },
            Err(e) => e == ThorError::TruncatedInput && input@.len() < 4,
        },
{
    let (rest, unsigned) = le_u32(input)?;
    let value: i32 = if unsigned < 0x8000_0000 {
        unsigned as i32
    } else {
        (unsigned - 0x8000_0000) as i32 + i32::MIN
    };
    Ok((rest, value))
}

} // verus!

//! Range-checked narrowing of the 64-bit integers that the host hands over.

use vstd::prelude::*;

verus! {

/// Calls `num_traits::FromPrimitive::from_i64` for `u8`. The contract claims
/// what its source shows: the value itself when it lies in `0..=255`, and
/// nothing otherwise.
#[verifier::external_body]
pub(crate) fn u8_from_i64(value: i64) -> (narrow: Option<u8>)
    ensures
        0 <= value <= u8::MAX ==> narrow == Some(value as u8),
        !(0 <= value <= u8::MAX) ==> narrow is None,
{
    <u8 as num_traits::FromPrimitive>::from_i64(value)
}

/// Calls `num_traits::FromPrimitive::from_i64` for `u16`. The contract claims
/// what its source shows: the value itself when it lies in `0..=65535`, and
/// nothing otherwise.
#[verifier::external_body]
pub(crate) fn u16_from_i64(value: i64) -> (narrow: Option<u16>)
    ensures
        0 <= value <= u16::MAX ==> narrow == Some(value as u16),
        !(0 <= value <= u16::MAX) ==> narrow is None,
{
    <u16 as num_traits::FromPrimitive>::from_i64(value)
}

/// Calls `num_traits::FromPrimitive::from_i64` for `u32`. The contract claims
/// what its source shows: the value itself when it lies in `0..=u32::MAX`, and
/// nothing otherwise.
#[verifier::external_body]
pub(crate) fn u32_from_i64(value: i64) -> (narrow: Option<u32>)
    ensures
        0 <= value <= u32::MAX ==> narrow == Some(value as u32),
        !(0 <= value <= u32::MAX) ==> narrow is None,
{
    <u32 as num_traits::FromPrimitive>::from_i64(value)
}

/// What a host integer becomes in an unsigned field of the wire that holds
/// `max` at most: itself when it fits, zero when it does not.
pub open spec fn spec_narrow_or_zero(value: i64, max: int) -> int {
    if 0 <= value <= max {
        value as int
    } else {
        0
    }
}

/// A host integer as an unsigned byte on the wire; zero when it does not fit.
pub fn i64_to_wire_u8(value: i64) -> (wire: u8)
    ensures
        wire == spec_narrow_or_zero(value, u8::MAX as int),
{
    match u8_from_i64(value) {
        Some(narrow) => narrow,
        None => 0,
    }
}

/// A host integer as a 16-bit field on the wire; zero when it does not fit.
pub fn i64_to_wire_u16(value: i64) -> (wire: u16)
    ensures
        wire == spec_narrow_or_zero(value, u16::MAX as int),
{
    match u16_from_i64(value) {
        Some(narrow) => narrow,
        None => 0,
    }
}

/// A host integer as a 32-bit field on the wire; zero when it does not fit.
pub fn i64_to_wire_u32(value: i64) -> (wire: u32)
    ensures
        wire == spec_narrow_or_zero(value, u32::MAX as int),
{
    match u32_from_i64(value) {
        Some(narrow) => narrow,
        None => 0,
    }
}

/// An unsigned byte of the wire as a host integer.
pub fn u8_to_host(wire: u8) -> (value: i64)
    ensures
        value == wire,
{
    wire as i64
}

/// A 16-bit field of the wire as a host integer.
pub fn u16_to_host(wire: u16) -> (value: i64)
    ensures
        value == wire,
{
    wire as i64
}

/// A 32-bit field of the wire as a host integer.
pub fn u32_to_host(wire: u32) -> (value: i64)
    ensures
        value == wire,
{
    wire as i64
}

} // verus!

//! The stored bytes of integers, as `zerocopy` lays them out.
use crate::codec;
use crate::data_type::endian::order::{Big, ByteOrder, Little};
use vstd::prelude::*;

verus! {

/// `zerocopy::byteorder::U16::<BigEndian>::new`, whose bytes are those of its argument,
/// most significant byte first.
#[verifier::external_body]
pub(super) fn u16_to_big(v: u16) -> (r: [u8; 2])
    ensures
        r@ == Big::bytes(v as nat, 2),
{
    zerocopy::byteorder::U16::<zerocopy::byteorder::BigEndian>::new(v).to_bytes()
}

/// `zerocopy::byteorder::U16::<BigEndian>::get`, which takes the stored bytes for a number,
/// most significant byte first.
#[verifier::external_body]
pub(super) fn u16_from_big(bytes: [u8; 2]) -> (r: u16)
    ensures
        r == Big::value(bytes@),
{
    zerocopy::byteorder::U16::<zerocopy::byteorder::BigEndian>::from_bytes(bytes).get()
}

/// `zerocopy::byteorder::I16::<BigEndian>::new`, whose bytes are those of its argument in
/// two's complement, most significant byte first.
#[verifier::external_body]
pub(super) fn i16_to_big(v: i16) -> (r: [u8; 2])
    ensures
        r@ == Big::bytes(codec::unsigned_value(v as int, 16), 2),
{
    zerocopy::byteorder::I16::<zerocopy::byteorder::BigEndian>::new(v).to_bytes()
}

/// `zerocopy::byteorder::I16::<BigEndian>::get`, which takes the stored bytes for a number in
/// two's complement, most significant byte first.
#[verifier::external_body]
pub(super) fn i16_from_big(bytes: [u8; 2]) -> (r: i16)
    ensures
        r == codec::signed_value(Big::value(bytes@), 16),
{
    zerocopy::byteorder::I16::<zerocopy::byteorder::BigEndian>::from_bytes(bytes).get()
}

/// `zerocopy::byteorder::U32::<BigEndian>::new`, whose bytes are those of its argument,
/// most significant byte first.
#[verifier::external_body]
pub(super) fn u32_to_big(v: u32) -> (r: [u8; 4])
    ensures
        r@ == Big::bytes(v as nat, 4),
{
    zerocopy::byteorder::U32::<zerocopy::byteorder::BigEndian>::new(v).to_bytes()
}

/// `zerocopy::byteorder::U32::<BigEndian>::get`, which takes the stored bytes for a number,
/// most significant byte first.
#[verifier::external_body]
pub(super) fn u32_from_big(bytes: [u8; 4]) -> (r: u32)
    ensures
        r == Big::value(bytes@),
{
    zerocopy::byteorder::U32::<zerocopy::byteorder::BigEndian>::from_bytes(bytes).get()
}

/// `zerocopy::byteorder::I32::<BigEndian>::new`, whose bytes are those of its argument in
/// two's complement, most significant byte first.
#[verifier::external_body]
pub(super) fn i32_to_big(v: i32) -> (r: [u8; 4])
    ensures
        r@ == Big::bytes(codec::unsigned_value(v as int, 32), 4),
{
    zerocopy::byteorder::I32::<zerocopy::byteorder::BigEndian>::new(v).to_bytes()
}

/// `zerocopy::byteorder::I32::<BigEndian>::get`, which takes the stored bytes for a number in
/// two's complement, most significant byte first.
#[verifier::external_body]
pub(super) fn i32_from_big(bytes: [u8; 4]) -> (r: i32)
    ensures
        r == codec::signed_value(Big::value(bytes@), 32),
{
    zerocopy::byteorder::I32::<zerocopy::byteorder::BigEndian>::from_bytes(bytes).get()
}

/// `zerocopy::byteorder::U64::<BigEndian>::new`, whose bytes are those of its argument,
/// most significant byte first.
#[verifier::external_body]
pub(super) fn u64_to_big(v: u64) -> (r: [u8; 8])
    ensures
        r@ == Big::bytes(v as nat, 8),
{
    zerocopy::byteorder::U64::<zerocopy::byteorder::BigEndian>::new(v).to_bytes()
}

/// `zerocopy::byteorder::U64::<BigEndian>::get`, which takes the stored bytes for a number,
/// most significant byte first.
#[verifier::external_body]
pub(super) fn u64_from_big(bytes: [u8; 8]) -> (r: u64)
    ensures
        r == Big::value(bytes@),
{
    zerocopy::byteorder::U64::<zerocopy::byteorder::BigEndian>::from_bytes(bytes).get()
}

/// `zerocopy::byteorder::I64::<BigEndian>::new`, whose bytes are those of its argument in
/// two's complement, most significant byte first.
#[verifier::external_body]
pub(super) fn i64_to_big(v: i64) -> (r: [u8; 8])
    ensures
        r@ == Big::bytes(codec::unsigned_value(v as int, 64), 8),
{
    zerocopy::byteorder::I64::<zerocopy::byteorder::BigEndian>::new(v).to_bytes()
}

/// `zerocopy::byteorder::I64::<BigEndian>::get`, which takes the stored bytes for a number in
/// two's complement, most significant byte first.
#[verifier::external_body]
pub(super) fn i64_from_big(bytes: [u8; 8]) -> (r: i64)
    ensures
        r == codec::signed_value(Big::value(bytes@), 64),
{
    zerocopy::byteorder::I64::<zerocopy::byteorder::BigEndian>::from_bytes(bytes).get()
}

/// `zerocopy::byteorder::U16::<LittleEndian>::new`, whose bytes are those of its argument,
/// least significant byte first.
#[verifier::external_body]
pub(super) fn u16_to_little(v: u16) -> (r: [u8; 2])
    ensures
        r@ == Little::bytes(v as nat, 2),
{
    zerocopy::byteorder::U16::<zerocopy::byteorder::LittleEndian>::new(v).to_bytes()
}

/// `zerocopy::byteorder::U16::<LittleEndian>::get`, which takes the stored bytes for a number,
/// least significant byte first.
#[verifier::external_body]
pub(super) fn u16_from_little(bytes: [u8; 2]) -> (r: u16)
    ensures
        r == Little::value(bytes@),
{
    zerocopy::byteorder::U16::<zerocopy::byteorder::LittleEndian>::from_bytes(bytes).get()
}

/// `zerocopy::byteorder::I16::<LittleEndian>::new`, whose bytes are those of its argument in
/// two's complement, least significant byte first.
#[verifier::external_body]
pub(super) fn i16_to_little(v: i16) -> (r: [u8; 2])
    ensures
        r@ == Little::bytes(codec::unsigned_value(v as int, 16), 2),
{
    zerocopy::byteorder::I16::<zerocopy::byteorder::LittleEndian>::new(v).to_bytes()
}

/// `zerocopy::byteorder::I16::<LittleEndian>::get`, which takes the stored bytes for a number in
/// two's complement, least significant byte first.
#[verifier::external_body]
pub(super) fn i16_from_little(bytes: [u8; 2]) -> (r: i16)
    ensures
        r == codec::signed_value(Little::value(bytes@), 16),
{
    zerocopy::byteorder::I16::<zerocopy::byteorder::LittleEndian>::from_bytes(bytes).get()
}

/// `zerocopy::byteorder::U32::<LittleEndian>::new`, whose bytes are those of its argument,
/// least significant byte first.
#[verifier::external_body]
pub(super) fn u32_to_little(v: u32) -> (r: [u8; 4])
    ensures
        r@ == Little::bytes(v as nat, 4),
{
    zerocopy::byteorder::U32::<zerocopy::byteorder::LittleEndian>::new(v).to_bytes()
}

/// `zerocopy::byteorder::U32::<LittleEndian>::get`, which takes the stored bytes for a number,
/// least significant byte first.
#[verifier::external_body]
pub(super) fn u32_from_little(bytes: [u8; 4]) -> (r: u32)
    ensures
        r == Little::value(bytes@),
{
    zerocopy::byteorder::U32::<zerocopy::byteorder::LittleEndian>::from_bytes(bytes).get()
}

/// `zerocopy::byteorder::I32::<LittleEndian>::new`, whose bytes are those of its argument in
/// two's complement, least significant byte first.
#[verifier::external_body]
pub(super) fn i32_to_little(v: i32) -> (r: [u8; 4])
    ensures
        r@ == Little::bytes(codec::unsigned_value(v as int, 32), 4),
{
    zerocopy::byteorder::I32::<zerocopy::byteorder::LittleEndian>::new(v).to_bytes()
}

/// `zerocopy::byteorder::I32::<LittleEndian>::get`, which takes the stored bytes for a number in
/// two's complement, least significant byte first.
#[verifier::external_body]
pub(super) fn i32_from_little(bytes: [u8; 4]) -> (r: i32)
    ensures
        r == codec::signed_value(Little::value(bytes@), 32),
{
    zerocopy::byteorder::I32::<zerocopy::byteorder::LittleEndian>::from_bytes(bytes).get()
}

/// `zerocopy::byteorder::U64::<LittleEndian>::new`, whose bytes are those of its argument,
/// least significant byte first.
#[verifier::external_body]
pub(super) fn u64_to_little(v: u64) -> (r: [u8; 8])
    ensures
        r@ == Little::bytes(v as nat, 8),
{
    zerocopy::byteorder::U64::<zerocopy::byteorder::LittleEndian>::new(v).to_bytes()
}

/// `zerocopy::byteorder::U64::<LittleEndian>::get`, which takes the stored bytes for a number,
/// least significant byte first.
#[verifier::external_body]
pub(super) fn u64_from_little(bytes: [u8; 8]) -> (r: u64)
    ensures
        r == Little::value(bytes@),
{
    zerocopy::byteorder::U64::<zerocopy::byteorder::LittleEndian>::from_bytes(bytes).get()
}

/// `zerocopy::byteorder::I64::<LittleEndian>::new`, whose bytes are those of its argument in
/// two's complement, least significant byte first.
#[verifier::external_body]
pub(super) fn i64_to_little(v: i64) -> (r: [u8; 8])
    ensures
        r@ == Little::bytes(codec::unsigned_value(v as int, 64), 8),
{
    zerocopy::byteorder::I64::<zerocopy::byteorder::LittleEndian>::new(v).to_bytes()
}

/// `zerocopy::byteorder::I64::<LittleEndian>::get`, which takes the stored bytes for a number in
/// two's complement, least significant byte first.
#[verifier::external_body]
pub(super) fn i64_from_little(bytes: [u8; 8]) -> (r: i64)
    ensures
        r == codec::signed_value(Little::value(bytes@), 64),
{
    zerocopy::byteorder::I64::<zerocopy::byteorder::LittleEndian>::from_bytes(bytes).get()
}

} // verus!

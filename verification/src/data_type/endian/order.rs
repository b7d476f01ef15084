//! The orders in which the bytes of an integer can be stored.
use crate::codec;
use crate::data_type::endian::stored_bytes;
use vstd::arithmetic::power2;
use vstd::prelude::*;

verus! {

/// The number that bytes stand for, least significant byte first.
pub open spec fn le_value(bytes: Seq<u8>) -> nat
    decreases bytes.len(),
{
    if bytes.len() == 0 {
        0
    } else {
        bytes[0] as nat + 256 * le_value(bytes.drop_first())
    }
}

/// The `n` lowest bytes of `v`, least significant byte first.
pub open spec fn le_bytes(v: nat, n: nat) -> Seq<u8>
    decreases n,
{
    if n == 0 {
        Seq::empty()
    } else {
        seq![(v % 256) as u8] + le_bytes(v / 256, (n - 1) as nat)
    }
}

proof fn le_bytes_len(v: nat, n: nat)
    ensures
        le_bytes(v, n).len() == n,
    decreases n,
{
    if n > 0 {
        le_bytes_len(v / 256, (n - 1) as nat);
    }
}

proof fn le_value_bytes(v: nat, n: nat)
    requires
        v < power2::pow2(8 * n),
    ensures
        le_value(le_bytes(v, n)) == v,
    decreases n,
{
    power2::lemma2_to64();
    if n > 0 {
        let m = (n - 1) as nat;
        power2::lemma_pow2_adds(8 * m, 8);
        le_value_bytes(v / 256, m);
        assert(le_bytes(v, n).drop_first() =~= le_bytes(v / 256, m));
    }
}

proof fn le_bytes_value(bytes: Seq<u8>)
    ensures
        le_bytes(le_value(bytes), bytes.len()) == bytes,
    decreases bytes.len(),
{
    if bytes.len() > 0 {
        let rest = bytes.drop_first();
        le_bytes_value(rest);
        assert(seq![bytes[0]] + rest =~= bytes);
    } else {
        assert(bytes =~= Seq::empty());
    }
}

proof fn le_value_bound(bytes: Seq<u8>)
    ensures
        le_value(bytes) < power2::pow2(8 * bytes.len()),
    decreases bytes.len(),
{
    power2::lemma2_to64();
    if bytes.len() > 0 {
        let m = (bytes.len() - 1) as nat;
        power2::lemma_pow2_adds(8 * m, 8);
        le_value_bound(bytes.drop_first());
    }
}

/// An order in which the bytes of an integer are stored.
pub trait ByteOrder: Sized {
    /// The unsigned number that bytes stand for in this order.
    spec fn value(bytes: Seq<u8>) -> nat;

    /// The `n` lowest bytes of `v` in this order.
    spec fn bytes(v: nat, n: nat) -> Seq<u8>;

    /// There are as many bytes as were asked for.
    proof fn bytes_len(v: nat, n: nat)
        ensures
            Self::bytes(v, n).len() == n,
    ;

    /// A number that fits is what its bytes stand for.
    proof fn value_of_bytes(v: nat, n: nat)
        requires
            v < power2::pow2(8 * n),
        ensures
            Self::value(Self::bytes(v, n)) == v,
    ;

    /// Bytes are those of the number that they stand for.
    proof fn bytes_of_value(bytes: Seq<u8>)
        ensures
            Self::bytes(Self::value(bytes), bytes.len()) == bytes,
    ;

    /// Bytes stand for a number that fits them.
    proof fn value_bound(bytes: Seq<u8>)
        ensures
            Self::value(bytes) < power2::pow2(8 * bytes.len()),
    ;

    /// The bytes of a `u16` in this order.
    fn u16_to_bytes(v: u16) -> (r: [u8; 2])
        ensures
            r@ == Self::bytes(v as nat, 2),
    ;

    /// The `u16` that bytes stand for in this order.
    fn u16_from_bytes(bytes: [u8; 2]) -> (r: u16)
        ensures
            r == Self::value(bytes@),
    ;

    /// The bytes of an `i16` in two's complement in this order.
    fn i16_to_bytes(v: i16) -> (r: [u8; 2])
        ensures
            r@ == Self::bytes(codec::unsigned_value(v as int, 16), 2),
    ;

    /// The `i16` that bytes stand for in two's complement in this order.
    fn i16_from_bytes(bytes: [u8; 2]) -> (r: i16)
        ensures
            r == codec::signed_value(Self::value(bytes@), 16),
    ;

    /// The bytes of a `u32` in this order.
    fn u32_to_bytes(v: u32) -> (r: [u8; 4])
        ensures
            r@ == Self::bytes(v as nat, 4),
    ;

    /// The `u32` that bytes stand for in this order.
    fn u32_from_bytes(bytes: [u8; 4]) -> (r: u32)
        ensures
            r == Self::value(bytes@),
    ;

    /// The bytes of an `i32` in two's complement in this order.
    fn i32_to_bytes(v: i32) -> (r: [u8; 4])
        ensures
            r@ == Self::bytes(codec::unsigned_value(v as int, 32), 4),
    ;

    /// The `i32` that bytes stand for in two's complement in this order.
    fn i32_from_bytes(bytes: [u8; 4]) -> (r: i32)
        ensures
            r == codec::signed_value(Self::value(bytes@), 32),
    ;

    /// The bytes of a `u64` in this order.
    fn u64_to_bytes(v: u64) -> (r: [u8; 8])
        ensures
            r@ == Self::bytes(v as nat, 8),
    ;

    /// The `u64` that bytes stand for in this order.
    fn u64_from_bytes(bytes: [u8; 8]) -> (r: u64)
        ensures
            r == Self::value(bytes@),
    ;

    /// The bytes of an `i64` in two's complement in this order.
    fn i64_to_bytes(v: i64) -> (r: [u8; 8])
        ensures
            r@ == Self::bytes(codec::unsigned_value(v as int, 64), 8),
    ;

    /// The `i64` that bytes stand for in two's complement in this order.
    fn i64_from_bytes(bytes: [u8; 8]) -> (r: i64)
        ensures
            r == codec::signed_value(Self::value(bytes@), 64),
    ;
}

/// Most significant byte first.
#[derive(Clone, Copy, Debug, PartialEq, Eq)]
pub struct Big;

/// Least significant byte first.
#[derive(Clone, Copy, Debug, PartialEq, Eq)]
pub struct Little;

impl ByteOrder for Big {
    open spec fn value(bytes: Seq<u8>) -> nat {
        le_value(bytes.reverse())
    }

    open spec fn bytes(v: nat, n: nat) -> Seq<u8> {
        le_bytes(v, n).reverse()
    }

    proof fn bytes_len(v: nat, n: nat) {
        le_bytes_len(v, n);
    }

    proof fn value_of_bytes(v: nat, n: nat) {
        le_value_bytes(v, n);
        assert(le_bytes(v, n).reverse().reverse() =~= le_bytes(v, n));
    }

    proof fn bytes_of_value(bytes: Seq<u8>) {
        le_bytes_value(bytes.reverse());
        assert(bytes.reverse().reverse() =~= bytes);
    }

    proof fn value_bound(bytes: Seq<u8>) {
        le_value_bound(bytes.reverse());
    }

    fn u16_to_bytes(v: u16) -> [u8; 2] {
        stored_bytes::u16_to_big(v)
    }

    fn u16_from_bytes(bytes: [u8; 2]) -> u16 {
        stored_bytes::u16_from_big(bytes)
    }

    fn i16_to_bytes(v: i16) -> [u8; 2] {
        stored_bytes::i16_to_big(v)
    }

    fn i16_from_bytes(bytes: [u8; 2]) -> i16 {
        stored_bytes::i16_from_big(bytes)
    }

    fn u32_to_bytes(v: u32) -> [u8; 4] {
        stored_bytes::u32_to_big(v)
    }

    fn u32_from_bytes(bytes: [u8; 4]) -> u32 {
        stored_bytes::u32_from_big(bytes)
    }

    fn i32_to_bytes(v: i32) -> [u8; 4] {
        stored_bytes::i32_to_big(v)
    }

    fn i32_from_bytes(bytes: [u8; 4]) -> i32 {
        stored_bytes::i32_from_big(bytes)
    }

    fn u64_to_bytes(v: u64) -> [u8; 8] {
        stored_bytes::u64_to_big(v)
    }

    fn u64_from_bytes(bytes: [u8; 8]) -> u64 {
        stored_bytes::u64_from_big(bytes)
    }

    fn i64_to_bytes(v: i64) -> [u8; 8] {
        stored_bytes::i64_to_big(v)
    }

    fn i64_from_bytes(bytes: [u8; 8]) -> i64 {
        stored_bytes::i64_from_big(bytes)
    }
}

impl ByteOrder for Little {
    open spec fn value(bytes: Seq<u8>) -> nat {
        le_value(bytes)
    }

    open spec fn bytes(v: nat, n: nat) -> Seq<u8> {
        le_bytes(v, n)
    }

    proof fn bytes_len(v: nat, n: nat) {
        le_bytes_len(v, n);
    }

    proof fn value_of_bytes(v: nat, n: nat) {
        le_value_bytes(v, n);
    }

    proof fn bytes_of_value(bytes: Seq<u8>) {
        le_bytes_value(bytes);
    }

    proof fn value_bound(bytes: Seq<u8>) {
        le_value_bound(bytes);
    }

    fn u16_to_bytes(v: u16) -> [u8; 2] {
        stored_bytes::u16_to_little(v)
    }

    fn u16_from_bytes(bytes: [u8; 2]) -> u16 {
        stored_bytes::u16_from_little(bytes)
    }

    fn i16_to_bytes(v: i16) -> [u8; 2] {
        stored_bytes::i16_to_little(v)
    }

    fn i16_from_bytes(bytes: [u8; 2]) -> i16 {
        stored_bytes::i16_from_little(bytes)
    }

    fn u32_to_bytes(v: u32) -> [u8; 4] {
        stored_bytes::u32_to_little(v)
    }

    fn u32_from_bytes(bytes: [u8; 4]) -> u32 {
        stored_bytes::u32_from_little(bytes)
    }

    fn i32_to_bytes(v: i32) -> [u8; 4] {
        stored_bytes::i32_to_little(v)
    }

    fn i32_from_bytes(bytes: [u8; 4]) -> i32 {
        stored_bytes::i32_from_little(bytes)
    }

    fn u64_to_bytes(v: u64) -> [u8; 8] {
        stored_bytes::u64_to_little(v)
    }

    fn u64_from_bytes(bytes: [u8; 8]) -> u64 {
        stored_bytes::u64_from_little(bytes)
    }

    fn i64_to_bytes(v: i64) -> [u8; 8] {
        stored_bytes::i64_to_little(v)
    }

    fn i64_from_bytes(bytes: [u8; 8]) -> i64 {
        stored_bytes::i64_from_little(bytes)
    }
}

} // verus!

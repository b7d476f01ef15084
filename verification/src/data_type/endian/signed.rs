//! Signed integers that store their bytes in a given order, in two's complement.
use crate::bit_lemmas;
use crate::bits;
use crate::byte_repr;
use crate::byte_repr::{ByteLayout, SoundLayout};
use crate::codec;
use crate::codec::{BitCodec, SoundCodec};
use crate::data_type::endian::order::ByteOrder;
use core::marker::PhantomData;
use vstd::arithmetic::power2;
use vstd::prelude::*;

verus! {

/// A signed 16-bit integer stored in the byte order `O`.
#[derive(Debug, PartialEq, Eq)]
pub struct I16<O> {
    pub bytes: [u8; 2],
    pub order: PhantomData<O>,
}

impl<O> Clone for I16<O> {
    fn clone(&self) -> (r: Self)
        ensures
            r == *self,
    {
        *self
    }
}

impl<O> Copy for I16<O> {

}

impl<O: ByteOrder> I16<O> {
    /// The number that is stored.
    pub open spec fn value(&self) -> int {
        codec::signed_value(O::value(self.bytes@), 16)
    }

    pub fn new(v: i16) -> (r: Self)
        ensures
            r.bytes@ == O::bytes(codec::unsigned_value(v as int, 16), 2),
            r.value() == v,
    {
        proof {
            power2::lemma2_to64();
            power2::lemma2_to64_rest();
            O::value_of_bytes(codec::unsigned_value(v as int, 16), 2);
        }
        I16 { bytes: O::i16_to_bytes(v), order: PhantomData }
    }

    pub fn get(&self) -> (r: i16)
        ensures
            r == self.value(),
    {
        O::i16_from_bytes(self.bytes)
    }

    pub fn from_bytes(bytes: [u8; 2]) -> (r: Self)
        ensures
            r.bytes == bytes,
    {
        I16 { bytes, order: PhantomData }
    }

    pub fn to_bytes(&self) -> (r: [u8; 2])
        ensures
            r == self.bytes,
    {
        self.bytes
    }

    pub fn as_bytes(&self) -> (r: &[u8])
        ensures
            r@ == self.bytes@,
    {
        &self.bytes
    }

    pub fn as_mut_bytes(&mut self) -> (r: &mut [u8])
        ensures
            r@ == old(self).bytes@,
            final(self).bytes@ == final(r)@,
    {
        &mut self.bytes
    }
}

impl<O: ByteOrder> BitCodec<I16<O>> for I16<O> {
    const BITS: usize = 16;

    const IS_FALLIBLE: bool = false;

    type Read = I16<O>;

    open spec fn decode(bits: Seq<bool>) -> Option<I16<O>> {
        Some(choose|v: I16<O>| #[trigger] bits::bit_seq(v.bytes@, 0, 16) == bits)
    }

    open spec fn try_decode(bits: Seq<bool>) -> Option<Result<I16<O>, I16<O>>> {
        match Self::decode(bits) {
            Some(v) => Some(Ok(v)),
            None => None,
        }
    }

    open spec fn read_value(bits: Seq<bool>) -> Option<I16<O>> {
        Self::decode(bits)
    }

    open spec fn encode(&self) -> Seq<bool> {
        bits::bit_seq(self.bytes@, 0, 16)
    }

    open spec fn storable(&self) -> bool {
        true
    }

    open spec fn reachable(offset: int) -> bool {
        true
    }

    fn read_bits(src: &[u8], bit_offset: usize) -> I16<O> {
        let mut bytes: [u8; 2] = [0u8; 2];
        bits::copy(src, bit_offset, &mut bytes, 0, 16);
        let v: I16<O> = Self::from_bytes(bytes);
        proof {
            assert(v.encode() =~= bits::bit_seq(src@, bit_offset as int, 16)) by {
                assert forall|i: int| 0 <= i < 16 implies v.encode()[i] == bits::bit_at(
                    src@,
                    bit_offset + i,
                ) by {
                    assert(bits::bit_at(v.bytes@, i) == v.encode()[i]);
                }
            }
            v.decode_encode();
        }
        v
    }

    fn try_read_bits(src: &[u8], bit_offset: usize) -> Result<I16<O>, I16<O>> {
        Ok(Self::read_bits(src, bit_offset))
    }

    fn read(src: &[u8], bit_offset: usize) -> I16<O> {
        Self::read_bits(src, bit_offset)
    }

    fn write_bits(&self, dst: &mut [u8], bit_offset: usize) {
        bits::copy(self.as_bytes(), 0, dst, bit_offset, 16);
    }
}

impl<O: ByteOrder> SoundCodec<I16<O>> for I16<O> {
    proof fn encode_len(&self) {
    }

    proof fn decode_encode(&self) {
        let v = choose|v: I16<O>|
            #[trigger] bits::bit_seq(v.bytes@, 0, 16) == self.encode();
        bit_lemmas::same_bytes(v.bytes@, self.bytes@);
        assert(v.bytes =~= self.bytes);
    }

    proof fn try_decode_agrees(bits: Seq<bool>) {
    }

    open spec fn as_result(read: I16<O>) -> Result<I16<O>, I16<O>> {
        Ok(read)
    }

    proof fn read_agrees(bits: Seq<bool>) {
    }

    proof fn infallible_decodes_all(bits: Seq<bool>) {
    }
}

impl<O: ByteOrder> BitCodec<I16<O>> for i16 {
    const BITS: usize = 16;

    const IS_FALLIBLE: bool = false;

    type Read = i16;

    open spec fn decode(bits: Seq<bool>) -> Option<i16> {
        match <I16<O> as BitCodec<I16<O>>>::decode(bits) {
            Some(v) => Some(v.value() as i16),
            None => None,
        }
    }

    open spec fn try_decode(bits: Seq<bool>) -> Option<Result<i16, I16<O>>> {
        match <i16 as BitCodec<I16<O>>>::decode(bits) {
            Some(v) => Some(Ok(v)),
            None => None,
        }
    }

    open spec fn read_value(bits: Seq<bool>) -> Option<i16> {
        <i16 as BitCodec<I16<O>>>::decode(bits)
    }

    open spec fn encode(&self) -> Seq<bool> {
        bits::bit_seq(O::bytes(codec::unsigned_value(*self as int, 16), 2), 0, 16)
    }

    open spec fn storable(&self) -> bool {
        true
    }

    open spec fn reachable(offset: int) -> bool {
        true
    }

    fn read_bits(src: &[u8], bit_offset: usize) -> i16 {
        let v: I16<O> = <I16<O> as BitCodec<I16<O>>>::read_bits(src, bit_offset);
        v.get()
    }

    fn try_read_bits(src: &[u8], bit_offset: usize) -> Result<i16, I16<O>> {
        Ok(<i16 as BitCodec<I16<O>>>::read_bits(src, bit_offset))
    }

    fn read(src: &[u8], bit_offset: usize) -> i16 {
        <i16 as BitCodec<I16<O>>>::read_bits(src, bit_offset)
    }

    fn write_bits(&self, dst: &mut [u8], bit_offset: usize) {
        let v: I16<O> = I16::new(*self);
        v.write_bits(dst, bit_offset);
    }
}

impl<O: ByteOrder> SoundCodec<I16<O>> for i16 {
    proof fn encode_len(&self) {
    }

    proof fn decode_encode(&self) {
        power2::lemma2_to64();
        power2::lemma2_to64_rest();
        let raw = codec::unsigned_value(*self as int, 16);
        let s = O::bytes(raw, 2);
        O::bytes_len(raw, 2);
        O::value_of_bytes(raw, 2);
        let v = I16::<O> { bytes: [s[0], s[1]], order: PhantomData };
        assert(v.bytes@ =~= s);
        v.decode_encode();
    }

    proof fn try_decode_agrees(bits: Seq<bool>) {
    }

    open spec fn as_result(read: i16) -> Result<i16, I16<O>> {
        Ok(read)
    }

    proof fn read_agrees(bits: Seq<bool>) {
    }

    proof fn infallible_decodes_all(bits: Seq<bool>) {
    }
}

/// A signed 32-bit integer stored in the byte order `O`.
#[derive(Debug, PartialEq, Eq)]
pub struct I32<O> {
    pub bytes: [u8; 4],
    pub order: PhantomData<O>,
}

impl<O> Clone for I32<O> {
    fn clone(&self) -> (r: Self)
        ensures
            r == *self,
    {
        *self
    }
}

impl<O> Copy for I32<O> {

}

impl<O: ByteOrder> I32<O> {
    /// The number that is stored.
    pub open spec fn value(&self) -> int {
        codec::signed_value(O::value(self.bytes@), 32)
    }

    pub fn new(v: i32) -> (r: Self)
        ensures
            r.bytes@ == O::bytes(codec::unsigned_value(v as int, 32), 4),
            r.value() == v,
    {
        proof {
            power2::lemma2_to64();
            power2::lemma2_to64_rest();
            O::value_of_bytes(codec::unsigned_value(v as int, 32), 4);
        }
        I32 { bytes: O::i32_to_bytes(v), order: PhantomData }
    }

    pub fn get(&self) -> (r: i32)
        ensures
            r == self.value(),
    {
        O::i32_from_bytes(self.bytes)
    }

    pub fn from_bytes(bytes: [u8; 4]) -> (r: Self)
        ensures
            r.bytes == bytes,
    {
        I32 { bytes, order: PhantomData }
    }

    pub fn to_bytes(&self) -> (r: [u8; 4])
        ensures
            r == self.bytes,
    {
        self.bytes
    }

    pub fn as_bytes(&self) -> (r: &[u8])
        ensures
            r@ == self.bytes@,
    {
        &self.bytes
    }

    pub fn as_mut_bytes(&mut self) -> (r: &mut [u8])
        ensures
            r@ == old(self).bytes@,
            final(self).bytes@ == final(r)@,
    {
        &mut self.bytes
    }
}

impl<O: ByteOrder> BitCodec<I32<O>> for I32<O> {
    const BITS: usize = 32;

    const IS_FALLIBLE: bool = false;

    type Read = I32<O>;

    open spec fn decode(bits: Seq<bool>) -> Option<I32<O>> {
        Some(choose|v: I32<O>| #[trigger] bits::bit_seq(v.bytes@, 0, 32) == bits)
    }

    open spec fn try_decode(bits: Seq<bool>) -> Option<Result<I32<O>, I32<O>>> {
        match Self::decode(bits) {
            Some(v) => Some(Ok(v)),
            None => None,
        }
    }

    open spec fn read_value(bits: Seq<bool>) -> Option<I32<O>> {
        Self::decode(bits)
    }

    open spec fn encode(&self) -> Seq<bool> {
        bits::bit_seq(self.bytes@, 0, 32)
    }

    open spec fn storable(&self) -> bool {
        true
    }

    open spec fn reachable(offset: int) -> bool {
        true
    }

    fn read_bits(src: &[u8], bit_offset: usize) -> I32<O> {
        let mut bytes: [u8; 4] = [0u8; 4];
        bits::copy(src, bit_offset, &mut bytes, 0, 32);
        let v: I32<O> = Self::from_bytes(bytes);
        proof {
            assert(v.encode() =~= bits::bit_seq(src@, bit_offset as int, 32)) by {
                assert forall|i: int| 0 <= i < 32 implies v.encode()[i] == bits::bit_at(
                    src@,
                    bit_offset + i,
                ) by {
                    assert(bits::bit_at(v.bytes@, i) == v.encode()[i]);
                }
            }
            v.decode_encode();
        }
        v
    }

    fn try_read_bits(src: &[u8], bit_offset: usize) -> Result<I32<O>, I32<O>> {
        Ok(Self::read_bits(src, bit_offset))
    }

    fn read(src: &[u8], bit_offset: usize) -> I32<O> {
        Self::read_bits(src, bit_offset)
    }

    fn write_bits(&self, dst: &mut [u8], bit_offset: usize) {
        bits::copy(self.as_bytes(), 0, dst, bit_offset, 32);
    }
}

impl<O: ByteOrder> SoundCodec<I32<O>> for I32<O> {
    proof fn encode_len(&self) {
    }

    proof fn decode_encode(&self) {
        let v = choose|v: I32<O>|
            #[trigger] bits::bit_seq(v.bytes@, 0, 32) == self.encode();
        bit_lemmas::same_bytes(v.bytes@, self.bytes@);
        assert(v.bytes =~= self.bytes);
    }

    proof fn try_decode_agrees(bits: Seq<bool>) {
    }

    open spec fn as_result(read: I32<O>) -> Result<I32<O>, I32<O>> {
        Ok(read)
    }

    proof fn read_agrees(bits: Seq<bool>) {
    }

    proof fn infallible_decodes_all(bits: Seq<bool>) {
    }
}

impl<O: ByteOrder> BitCodec<I32<O>> for i32 {
    const BITS: usize = 32;

    const IS_FALLIBLE: bool = false;

    type Read = i32;

    open spec fn decode(bits: Seq<bool>) -> Option<i32> {
        match <I32<O> as BitCodec<I32<O>>>::decode(bits) {
            Some(v) => Some(v.value() as i32),
            None => None,
        }
    }

    open spec fn try_decode(bits: Seq<bool>) -> Option<Result<i32, I32<O>>> {
        match <i32 as BitCodec<I32<O>>>::decode(bits) {
            Some(v) => Some(Ok(v)),
            None => None,
        }
    }

    open spec fn read_value(bits: Seq<bool>) -> Option<i32> {
        <i32 as BitCodec<I32<O>>>::decode(bits)
    }

    open spec fn encode(&self) -> Seq<bool> {
        bits::bit_seq(O::bytes(codec::unsigned_value(*self as int, 32), 4), 0, 32)
    }

    open spec fn storable(&self) -> bool {
        true
    }

    open spec fn reachable(offset: int) -> bool {
        true
    }

    fn read_bits(src: &[u8], bit_offset: usize) -> i32 {
        let v: I32<O> = <I32<O> as BitCodec<I32<O>>>::read_bits(src, bit_offset);
        v.get()
    }

    fn try_read_bits(src: &[u8], bit_offset: usize) -> Result<i32, I32<O>> {
        Ok(<i32 as BitCodec<I32<O>>>::read_bits(src, bit_offset))
    }

    fn read(src: &[u8], bit_offset: usize) -> i32 {
        <i32 as BitCodec<I32<O>>>::read_bits(src, bit_offset)
    }

    fn write_bits(&self, dst: &mut [u8], bit_offset: usize) {
        let v: I32<O> = I32::new(*self);
        v.write_bits(dst, bit_offset);
    }
}

impl<O: ByteOrder> SoundCodec<I32<O>> for i32 {
    proof fn encode_len(&self) {
    }

    proof fn decode_encode(&self) {
        power2::lemma2_to64();
        power2::lemma2_to64_rest();
        let raw = codec::unsigned_value(*self as int, 32);
        let s = O::bytes(raw, 4);
        O::bytes_len(raw, 4);
        O::value_of_bytes(raw, 4);
        let v = I32::<O> { bytes: [s[0], s[1], s[2], s[3]], order: PhantomData };
        assert(v.bytes@ =~= s);
        v.decode_encode();
    }

    proof fn try_decode_agrees(bits: Seq<bool>) {
    }

    open spec fn as_result(read: i32) -> Result<i32, I32<O>> {
        Ok(read)
    }

    proof fn read_agrees(bits: Seq<bool>) {
    }

    proof fn infallible_decodes_all(bits: Seq<bool>) {
    }
}

/// A signed 64-bit integer stored in the byte order `O`.
#[derive(Debug, PartialEq, Eq)]
pub struct I64<O> {
    pub bytes: [u8; 8],
    pub order: PhantomData<O>,
}

impl<O> Clone for I64<O> {
    fn clone(&self) -> (r: Self)
        ensures
            r == *self,
    {
        *self
    }
}

impl<O> Copy for I64<O> {

}

impl<O: ByteOrder> I64<O> {
    /// The number that is stored.
    pub open spec fn value(&self) -> int {
        codec::signed_value(O::value(self.bytes@), 64)
    }

    pub fn new(v: i64) -> (r: Self)
        ensures
            r.bytes@ == O::bytes(codec::unsigned_value(v as int, 64), 8),
            r.value() == v,
    {
        proof {
            power2::lemma2_to64();
            power2::lemma2_to64_rest();
            O::value_of_bytes(codec::unsigned_value(v as int, 64), 8);
        }
        I64 { bytes: O::i64_to_bytes(v), order: PhantomData }
    }

    pub fn get(&self) -> (r: i64)
        ensures
            r == self.value(),
    {
        O::i64_from_bytes(self.bytes)
    }

    pub fn from_bytes(bytes: [u8; 8]) -> (r: Self)
        ensures
            r.bytes == bytes,
    {
        I64 { bytes, order: PhantomData }
    }

    pub fn to_bytes(&self) -> (r: [u8; 8])
        ensures
            r == self.bytes,
    {
        self.bytes
    }

    pub fn as_bytes(&self) -> (r: &[u8])
        ensures
            r@ == self.bytes@,
    {
        &self.bytes
    }

    pub fn as_mut_bytes(&mut self) -> (r: &mut [u8])
        ensures
            r@ == old(self).bytes@,
            final(self).bytes@ == final(r)@,
    {
        &mut self.bytes
    }
}

impl<O: ByteOrder> BitCodec<I64<O>> for I64<O> {
    const BITS: usize = 64;

    const IS_FALLIBLE: bool = false;

    type Read = I64<O>;

    open spec fn decode(bits: Seq<bool>) -> Option<I64<O>> {
        Some(choose|v: I64<O>| #[trigger] bits::bit_seq(v.bytes@, 0, 64) == bits)
    }

    open spec fn try_decode(bits: Seq<bool>) -> Option<Result<I64<O>, I64<O>>> {
        match Self::decode(bits) {
            Some(v) => Some(Ok(v)),
            None => None,
        }
    }

    open spec fn read_value(bits: Seq<bool>) -> Option<I64<O>> {
        Self::decode(bits)
    }

    open spec fn encode(&self) -> Seq<bool> {
        bits::bit_seq(self.bytes@, 0, 64)
    }

    open spec fn storable(&self) -> bool {
        true
    }

    open spec fn reachable(offset: int) -> bool {
        true
    }

    fn read_bits(src: &[u8], bit_offset: usize) -> I64<O> {
        let mut bytes: [u8; 8] = [0u8; 8];
        bits::copy(src, bit_offset, &mut bytes, 0, 64);
        let v: I64<O> = Self::from_bytes(bytes);
        proof {
            assert(v.encode() =~= bits::bit_seq(src@, bit_offset as int, 64)) by {
                assert forall|i: int| 0 <= i < 64 implies v.encode()[i] == bits::bit_at(
                    src@,
                    bit_offset + i,
                ) by {
                    assert(bits::bit_at(v.bytes@, i) == v.encode()[i]);
                }
            }
            v.decode_encode();
        }
        v
    }

    fn try_read_bits(src: &[u8], bit_offset: usize) -> Result<I64<O>, I64<O>> {
        Ok(Self::read_bits(src, bit_offset))
    }

    fn read(src: &[u8], bit_offset: usize) -> I64<O> {
        Self::read_bits(src, bit_offset)
    }

    fn write_bits(&self, dst: &mut [u8], bit_offset: usize) {
        bits::copy(self.as_bytes(), 0, dst, bit_offset, 64);
    }
}

impl<O: ByteOrder> SoundCodec<I64<O>> for I64<O> {
    proof fn encode_len(&self) {
    }

    proof fn decode_encode(&self) {
        let v = choose|v: I64<O>|
            #[trigger] bits::bit_seq(v.bytes@, 0, 64) == self.encode();
        bit_lemmas::same_bytes(v.bytes@, self.bytes@);
        assert(v.bytes =~= self.bytes);
    }

    proof fn try_decode_agrees(bits: Seq<bool>) {
    }

    open spec fn as_result(read: I64<O>) -> Result<I64<O>, I64<O>> {
        Ok(read)
    }

    proof fn read_agrees(bits: Seq<bool>) {
    }

    proof fn infallible_decodes_all(bits: Seq<bool>) {
    }
}

impl<O: ByteOrder> BitCodec<I64<O>> for i64 {
    const BITS: usize = 64;

    const IS_FALLIBLE: bool = false;

    type Read = i64;

    open spec fn decode(bits: Seq<bool>) -> Option<i64> {
        match <I64<O> as BitCodec<I64<O>>>::decode(bits) {
            Some(v) => Some(v.value() as i64),
            None => None,
        }
    }

    open spec fn try_decode(bits: Seq<bool>) -> Option<Result<i64, I64<O>>> {
        match <i64 as BitCodec<I64<O>>>::decode(bits) {
            Some(v) => Some(Ok(v)),
            None => None,
        }
    }

    open spec fn read_value(bits: Seq<bool>) -> Option<i64> {
        <i64 as BitCodec<I64<O>>>::decode(bits)
    }

    open spec fn encode(&self) -> Seq<bool> {
        bits::bit_seq(O::bytes(codec::unsigned_value(*self as int, 64), 8), 0, 64)
    }

    open spec fn storable(&self) -> bool {
        true
    }

    open spec fn reachable(offset: int) -> bool {
        true
    }

    fn read_bits(src: &[u8], bit_offset: usize) -> i64 {
        let v: I64<O> = <I64<O> as BitCodec<I64<O>>>::read_bits(src, bit_offset);
        v.get()
    }

    fn try_read_bits(src: &[u8], bit_offset: usize) -> Result<i64, I64<O>> {
        Ok(<i64 as BitCodec<I64<O>>>::read_bits(src, bit_offset))
    }

    fn read(src: &[u8], bit_offset: usize) -> i64 {
        <i64 as BitCodec<I64<O>>>::read_bits(src, bit_offset)
    }

    fn write_bits(&self, dst: &mut [u8], bit_offset: usize) {
        let v: I64<O> = I64::new(*self);
        v.write_bits(dst, bit_offset);
    }
}

impl<O: ByteOrder> SoundCodec<I64<O>> for i64 {
    proof fn encode_len(&self) {
    }

    proof fn decode_encode(&self) {
        power2::lemma2_to64();
        power2::lemma2_to64_rest();
        let raw = codec::unsigned_value(*self as int, 64);
        let s = O::bytes(raw, 8);
        O::bytes_len(raw, 8);
        O::value_of_bytes(raw, 8);
        let v = I64::<O> {
            bytes: [s[0], s[1], s[2], s[3], s[4], s[5], s[6], s[7]],
            order: PhantomData,
        };
        assert(v.bytes@ =~= s);
        v.decode_encode();
    }

    proof fn try_decode_agrees(bits: Seq<bool>) {
    }

    open spec fn as_result(read: i64) -> Result<i64, I64<O>> {
        Ok(read)
    }

    proof fn read_agrees(bits: Seq<bool>) {
    }

    proof fn infallible_decodes_all(bits: Seq<bool>) {
    }
}

impl<O: ByteOrder> ByteLayout for I16<O> {
    open spec fn size() -> nat {
        2
    }

    open spec fn repr(&self) -> Seq<u8> {
        self.bytes@
    }

    fn size_of() -> usize {
        2
    }

    fn new_zeroed() -> Self {
        I16 { bytes: byte_repr::zeroed_array(), order: PhantomData }
    }

    fn as_bytes(&self) -> &[u8] {
        byte_repr::array_bytes(&self.bytes)
    }

    fn as_mut_bytes(&mut self) -> &mut [u8] {
        byte_repr::array_bytes_mut(&mut self.bytes)
    }

    fn read_from_bytes(bytes: &[u8]) -> Option<Self> {
        match byte_repr::array_from_bytes(bytes) {
            Some(array) => Some(I16 { bytes: *array, order: PhantomData }),
            None => None,
        }
    }
}

impl<O: ByteOrder> SoundLayout for I16<O> {
    proof fn repr_len(&self) {
    }

    proof fn same_repr(a: &Self, b: &Self) {
        assert(a.bytes =~= b.bytes);
    }
}

impl<O: ByteOrder> ByteLayout for I32<O> {
    open spec fn size() -> nat {
        4
    }

    open spec fn repr(&self) -> Seq<u8> {
        self.bytes@
    }

    fn size_of() -> usize {
        4
    }

    fn new_zeroed() -> Self {
        I32 { bytes: byte_repr::zeroed_array(), order: PhantomData }
    }

    fn as_bytes(&self) -> &[u8] {
        byte_repr::array_bytes(&self.bytes)
    }

    fn as_mut_bytes(&mut self) -> &mut [u8] {
        byte_repr::array_bytes_mut(&mut self.bytes)
    }

    fn read_from_bytes(bytes: &[u8]) -> Option<Self> {
        match byte_repr::array_from_bytes(bytes) {
            Some(array) => Some(I32 { bytes: *array, order: PhantomData }),
            None => None,
        }
    }
}

impl<O: ByteOrder> SoundLayout for I32<O> {
    proof fn repr_len(&self) {
    }

    proof fn same_repr(a: &Self, b: &Self) {
        assert(a.bytes =~= b.bytes);
    }
}

impl<O: ByteOrder> ByteLayout for I64<O> {
    open spec fn size() -> nat {
        8
    }

    open spec fn repr(&self) -> Seq<u8> {
        self.bytes@
    }

    fn size_of() -> usize {
        8
    }

    fn new_zeroed() -> Self {
        I64 { bytes: byte_repr::zeroed_array(), order: PhantomData }
    }

    fn as_bytes(&self) -> &[u8] {
        byte_repr::array_bytes(&self.bytes)
    }

    fn as_mut_bytes(&mut self) -> &mut [u8] {
        byte_repr::array_bytes_mut(&mut self.bytes)
    }

    fn read_from_bytes(bytes: &[u8]) -> Option<Self> {
        match byte_repr::array_from_bytes(bytes) {
            Some(array) => Some(I64 { bytes: *array, order: PhantomData }),
            None => None,
        }
    }
}

impl<O: ByteOrder> SoundLayout for I64<O> {
    proof fn repr_len(&self) {
    }

    proof fn same_repr(a: &Self, b: &Self) {
        assert(a.bytes =~= b.bytes);
    }
}

/// The widths of the codecs of signed integers in a byte order, none of which can fail.
pub proof fn signed_codecs<O: ByteOrder>()
    ensures
        <I16<O> as BitCodec<I16<O>>>::BITS == 16,
        <i16 as BitCodec<I16<O>>>::BITS == 16,
        !<I16<O> as BitCodec<I16<O>>>::IS_FALLIBLE,
        !<i16 as BitCodec<I16<O>>>::IS_FALLIBLE,
        <I32<O> as BitCodec<I32<O>>>::BITS == 32,
        <i32 as BitCodec<I32<O>>>::BITS == 32,
        !<I32<O> as BitCodec<I32<O>>>::IS_FALLIBLE,
        !<i32 as BitCodec<I32<O>>>::IS_FALLIBLE,
        <I64<O> as BitCodec<I64<O>>>::BITS == 64,
        <i64 as BitCodec<I64<O>>>::BITS == 64,
        !<I64<O> as BitCodec<I64<O>>>::IS_FALLIBLE,
        !<i64 as BitCodec<I64<O>>>::IS_FALLIBLE,
{
}

} // verus!

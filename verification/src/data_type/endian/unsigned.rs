//! Unsigned integers that store their bytes in a given order.
use crate::bit_lemmas;
use crate::bits;
use crate::byte_repr;
use crate::byte_repr::{ByteLayout, SoundLayout};
use crate::codec::{BitCodec, SoundCodec};
use crate::data_type::endian::order::ByteOrder;
use core::marker::PhantomData;
use vstd::arithmetic::power2;
use vstd::prelude::*;

verus! {

/// An unsigned 16-bit integer stored in the byte order `O`.
#[derive(Debug, PartialEq, Eq)]
pub struct U16<O> {
    pub bytes: [u8; 2],
    pub order: PhantomData<O>,
}

impl<O> Clone for U16<O> {
    fn clone(&self) -> (r: Self)
        ensures
            r == *self,
    {
        *self
    }
}

impl<O> Copy for U16<O> {

}

impl<O: ByteOrder> U16<O> {
    /// The number that is stored.
    pub open spec fn value(&self) -> int {
        O::value(self.bytes@) as int
    }

    pub fn new(v: u16) -> (r: Self)
        ensures
            r.bytes@ == O::bytes(v as nat, 2),
            r.value() == v,
    {
        proof {
            power2::lemma2_to64();
            power2::lemma2_to64_rest();
            O::value_of_bytes(v as nat, 2);
        }
        U16 { bytes: O::u16_to_bytes(v), order: PhantomData }
    }

    pub fn get(&self) -> (r: u16)
        ensures
            r == self.value(),
    {
        O::u16_from_bytes(self.bytes)
    }

    pub fn from_bytes(bytes: [u8; 2]) -> (r: Self)
        ensures
            r.bytes == bytes,
    {
        U16 { bytes, order: PhantomData }
    }

    pub fn to_bytes(&self) -> (r: [u8; 2])
        ensures
            r == self.bytes,
    {
        self.bytes
    }

    pub fn as_bytes(&self) -> (r: &[u8])
        ensures
            r@ == self.bytes@,
    {
        &self.bytes
    }

    pub fn as_mut_bytes(&mut self) -> (r: &mut [u8])
        ensures
            r@ == old(self).bytes@,
            final(self).bytes@ == final(r)@,
    {
        &mut self.bytes
    }
}

impl<O: ByteOrder> BitCodec<U16<O>> for U16<O> {
    const BITS: usize = 16;

    const IS_FALLIBLE: bool = false;

    type Read = U16<O>;

    open spec fn decode(bits: Seq<bool>) -> Option<U16<O>> {
        Some(choose|v: U16<O>| #[trigger] bits::bit_seq(v.bytes@, 0, 16) == bits)
    }

    open spec fn try_decode(bits: Seq<bool>) -> Option<Result<U16<O>, U16<O>>> {
        match Self::decode(bits) {
            Some(v) => Some(Ok(v)),
            None => None,
        }
    }

    open spec fn read_value(bits: Seq<bool>) -> Option<U16<O>> {
        Self::decode(bits)
    }

    open spec fn encode(&self) -> Seq<bool> {
        bits::bit_seq(self.bytes@, 0, 16)
    }

    open spec fn storable(&self) -> bool {
        true
    }

    open spec fn reachable(offset: int) -> bool {
        true
    }

    fn read_bits(src: &[u8], bit_offset: usize) -> U16<O> {
        let mut bytes: [u8; 2] = [0u8; 2];
        bits::copy(src, bit_offset, &mut bytes, 0, 16);
        let v: U16<O> = Self::from_bytes(bytes);
        proof {
            assert(v.encode() =~= bits::bit_seq(src@, bit_offset as int, 16)) by {
                assert forall|i: int| 0 <= i < 16 implies v.encode()[i] == bits::bit_at(
                    src@,
                    bit_offset + i,
                ) by {
                    assert(bits::bit_at(v.bytes@, i) == v.encode()[i]);
                }
            }
            v.decode_encode();
        }
        v
    }

    fn try_read_bits(src: &[u8], bit_offset: usize) -> Result<U16<O>, U16<O>> {
        Ok(Self::read_bits(src, bit_offset))
    }

    fn read(src: &[u8], bit_offset: usize) -> U16<O> {
        Self::read_bits(src, bit_offset)
    }

    fn write_bits(&self, dst: &mut [u8], bit_offset: usize) {
        bits::copy(self.as_bytes(), 0, dst, bit_offset, 16);
    }
}

impl<O: ByteOrder> SoundCodec<U16<O>> for U16<O> {
    proof fn encode_len(&self) {
    }

    proof fn decode_encode(&self) {
        let v = choose|v: U16<O>|
            #[trigger] bits::bit_seq(v.bytes@, 0, 16) == self.encode();
        bit_lemmas::same_bytes(v.bytes@, self.bytes@);
        assert(v.bytes =~= self.bytes);
    }

    proof fn try_decode_agrees(bits: Seq<bool>) {
    }

    open spec fn as_result(read: U16<O>) -> Result<U16<O>, U16<O>> {
        Ok(read)
    }

    proof fn read_agrees(bits: Seq<bool>) {
    }

    proof fn infallible_decodes_all(bits: Seq<bool>) {
    }
}

impl<O: ByteOrder> BitCodec<U16<O>> for u16 {
    const BITS: usize = 16;

    const IS_FALLIBLE: bool = false;

    type Read = u16;

    open spec fn decode(bits: Seq<bool>) -> Option<u16> {
        match <U16<O> as BitCodec<U16<O>>>::decode(bits) {
            Some(v) => Some(v.value() as u16),
            None => None,
        }
    }

    open spec fn try_decode(bits: Seq<bool>) -> Option<Result<u16, U16<O>>> {
        match <u16 as BitCodec<U16<O>>>::decode(bits) {
            Some(v) => Some(Ok(v)),
            None => None,
        }
    }

    open spec fn read_value(bits: Seq<bool>) -> Option<u16> {
        <u16 as BitCodec<U16<O>>>::decode(bits)
    }

    open spec fn encode(&self) -> Seq<bool> {
        bits::bit_seq(O::bytes(*self as nat, 2), 0, 16)
    }

    open spec fn storable(&self) -> bool {
        true
    }

    open spec fn reachable(offset: int) -> bool {
        true
    }

    fn read_bits(src: &[u8], bit_offset: usize) -> u16 {
        let v: U16<O> = <U16<O> as BitCodec<U16<O>>>::read_bits(src, bit_offset);
        v.get()
    }

    fn try_read_bits(src: &[u8], bit_offset: usize) -> Result<u16, U16<O>> {
        Ok(<u16 as BitCodec<U16<O>>>::read_bits(src, bit_offset))
    }

    fn read(src: &[u8], bit_offset: usize) -> u16 {
        <u16 as BitCodec<U16<O>>>::read_bits(src, bit_offset)
    }

    fn write_bits(&self, dst: &mut [u8], bit_offset: usize) {
        let v: U16<O> = U16::new(*self);
        v.write_bits(dst, bit_offset);
    }
}

impl<O: ByteOrder> SoundCodec<U16<O>> for u16 {
    proof fn encode_len(&self) {
    }

    proof fn decode_encode(&self) {
        power2::lemma2_to64();
        power2::lemma2_to64_rest();
        let raw = *self as nat;
        let s = O::bytes(raw, 2);
        O::bytes_len(raw, 2);
        O::value_of_bytes(raw, 2);
        let v = U16::<O> { bytes: [s[0], s[1]], order: PhantomData };
        assert(v.bytes@ =~= s);
        v.decode_encode();
    }

    proof fn try_decode_agrees(bits: Seq<bool>) {
    }

    open spec fn as_result(read: u16) -> Result<u16, U16<O>> {
        Ok(read)
    }

    proof fn read_agrees(bits: Seq<bool>) {
    }

    proof fn infallible_decodes_all(bits: Seq<bool>) {
    }
}

/// An unsigned 32-bit integer stored in the byte order `O`.
#[derive(Debug, PartialEq, Eq)]
pub struct U32<O> {
    pub bytes: [u8; 4],
    pub order: PhantomData<O>,
}

impl<O> Clone for U32<O> {
    fn clone(&self) -> (r: Self)
        ensures
            r == *self,
    {
        *self
    }
}

impl<O> Copy for U32<O> {

}

impl<O: ByteOrder> U32<O> {
    /// The number that is stored.
    pub open spec fn value(&self) -> int {
        O::value(self.bytes@) as int
    }

    pub fn new(v: u32) -> (r: Self)
        ensures
            r.bytes@ == O::bytes(v as nat, 4),
            r.value() == v,
    {
        proof {
            power2::lemma2_to64();
            power2::lemma2_to64_rest();
            O::value_of_bytes(v as nat, 4);
        }
        U32 { bytes: O::u32_to_bytes(v), order: PhantomData }
    }

    pub fn get(&self) -> (r: u32)
        ensures
            r == self.value(),
    {
        O::u32_from_bytes(self.bytes)
    }

    pub fn from_bytes(bytes: [u8; 4]) -> (r: Self)
        ensures
            r.bytes == bytes,
    {
        U32 { bytes, order: PhantomData }
    }

    pub fn to_bytes(&self) -> (r: [u8; 4])
        ensures
            r == self.bytes,
    {
        self.bytes
    }

    pub fn as_bytes(&self) -> (r: &[u8])
        ensures
            r@ == self.bytes@,
    {
        &self.bytes
    }

    pub fn as_mut_bytes(&mut self) -> (r: &mut [u8])
        ensures
            r@ == old(self).bytes@,
            final(self).bytes@ == final(r)@,
    {
        &mut self.bytes
    }
}

impl<O: ByteOrder> BitCodec<U32<O>> for U32<O> {
    const BITS: usize = 32;

    const IS_FALLIBLE: bool = false;

    type Read = U32<O>;

    open spec fn decode(bits: Seq<bool>) -> Option<U32<O>> {
        Some(choose|v: U32<O>| #[trigger] bits::bit_seq(v.bytes@, 0, 32) == bits)
    }

    open spec fn try_decode(bits: Seq<bool>) -> Option<Result<U32<O>, U32<O>>> {
        match Self::decode(bits) {
            Some(v) => Some(Ok(v)),
            None => None,
        }
    }

    open spec fn read_value(bits: Seq<bool>) -> Option<U32<O>> {
        Self::decode(bits)
    }

    open spec fn encode(&self) -> Seq<bool> {
        bits::bit_seq(self.bytes@, 0, 32)
    }

    open spec fn storable(&self) -> bool {
        true
    }

    open spec fn reachable(offset: int) -> bool {
        true
    }

    fn read_bits(src: &[u8], bit_offset: usize) -> U32<O> {
        let mut bytes: [u8; 4] = [0u8; 4];
        bits::copy(src, bit_offset, &mut bytes, 0, 32);
        let v: U32<O> = Self::from_bytes(bytes);
        proof {
            assert(v.encode() =~= bits::bit_seq(src@, bit_offset as int, 32)) by {
                assert forall|i: int| 0 <= i < 32 implies v.encode()[i] == bits::bit_at(
                    src@,
                    bit_offset + i,
                ) by {
                    assert(bits::bit_at(v.bytes@, i) == v.encode()[i]);
                }
            }
            v.decode_encode();
        }
        v
    }

    fn try_read_bits(src: &[u8], bit_offset: usize) -> Result<U32<O>, U32<O>> {
        Ok(Self::read_bits(src, bit_offset))
    }

    fn read(src: &[u8], bit_offset: usize) -> U32<O> {
        Self::read_bits(src, bit_offset)
    }

    fn write_bits(&self, dst: &mut [u8], bit_offset: usize) {
        bits::copy(self.as_bytes(), 0, dst, bit_offset, 32);
    }
}

impl<O: ByteOrder> SoundCodec<U32<O>> for U32<O> {
    proof fn encode_len(&self) {
    }

    proof fn decode_encode(&self) {
        let v = choose|v: U32<O>|
            #[trigger] bits::bit_seq(v.bytes@, 0, 32) == self.encode();
        bit_lemmas::same_bytes(v.bytes@, self.bytes@);
        assert(v.bytes =~= self.bytes);
    }

    proof fn try_decode_agrees(bits: Seq<bool>) {
    }

    open spec fn as_result(read: U32<O>) -> Result<U32<O>, U32<O>> {
        Ok(read)
    }

    proof fn read_agrees(bits: Seq<bool>) {
    }

    proof fn infallible_decodes_all(bits: Seq<bool>) {
    }
}

impl<O: ByteOrder> BitCodec<U32<O>> for u32 {
    const BITS: usize = 32;

    const IS_FALLIBLE: bool = false;

    type Read = u32;

    open spec fn decode(bits: Seq<bool>) -> Option<u32> {
        match <U32<O> as BitCodec<U32<O>>>::decode(bits) {
            Some(v) => Some(v.value() as u32),
            None => None,
        }
    }

    open spec fn try_decode(bits: Seq<bool>) -> Option<Result<u32, U32<O>>> {
        match <u32 as BitCodec<U32<O>>>::decode(bits) {
            Some(v) => Some(Ok(v)),
            None => None,
        }
    }

    open spec fn read_value(bits: Seq<bool>) -> Option<u32> {
        <u32 as BitCodec<U32<O>>>::decode(bits)
    }

    open spec fn encode(&self) -> Seq<bool> {
        bits::bit_seq(O::bytes(*self as nat, 4), 0, 32)
    }

    open spec fn storable(&self) -> bool {
        true
    }

    open spec fn reachable(offset: int) -> bool {
        true
    }

    fn read_bits(src: &[u8], bit_offset: usize) -> u32 {
        let v: U32<O> = <U32<O> as BitCodec<U32<O>>>::read_bits(src, bit_offset);
        v.get()
    }

    fn try_read_bits(src: &[u8], bit_offset: usize) -> Result<u32, U32<O>> {
        Ok(<u32 as BitCodec<U32<O>>>::read_bits(src, bit_offset))
    }

    fn read(src: &[u8], bit_offset: usize) -> u32 {
        <u32 as BitCodec<U32<O>>>::read_bits(src, bit_offset)
    }

    fn write_bits(&self, dst: &mut [u8], bit_offset: usize) {
        let v: U32<O> = U32::new(*self);
        v.write_bits(dst, bit_offset);
    }
}

impl<O: ByteOrder> SoundCodec<U32<O>> for u32 {
    proof fn encode_len(&self) {
    }

    proof fn decode_encode(&self) {
        power2::lemma2_to64();
        power2::lemma2_to64_rest();
        let raw = *self as nat;
        let s = O::bytes(raw, 4);
        O::bytes_len(raw, 4);
        O::value_of_bytes(raw, 4);
        let v = U32::<O> { bytes: [s[0], s[1], s[2], s[3]], order: PhantomData };
        assert(v.bytes@ =~= s);
        v.decode_encode();
    }

    proof fn try_decode_agrees(bits: Seq<bool>) {
    }

    open spec fn as_result(read: u32) -> Result<u32, U32<O>> {
        Ok(read)
    }

    proof fn read_agrees(bits: Seq<bool>) {
    }

    proof fn infallible_decodes_all(bits: Seq<bool>) {
    }
}

/// An unsigned 64-bit integer stored in the byte order `O`.
#[derive(Debug, PartialEq, Eq)]
pub struct U64<O> {
    pub bytes: [u8; 8],
    pub order: PhantomData<O>,
}

impl<O> Clone for U64<O> {
    fn clone(&self) -> (r: Self)
        ensures
            r == *self,
    {
        *self
    }
}

impl<O> Copy for U64<O> {

}

impl<O: ByteOrder> U64<O> {
    /// The number that is stored.
    pub open spec fn value(&self) -> int {
        O::value(self.bytes@) as int
    }

    pub fn new(v: u64) -> (r: Self)
        ensures
            r.bytes@ == O::bytes(v as nat, 8),
            r.value() == v,
    {
        proof {
            power2::lemma2_to64();
            power2::lemma2_to64_rest();
            O::value_of_bytes(v as nat, 8);
        }
        U64 { bytes: O::u64_to_bytes(v), order: PhantomData }
    }

    pub fn get(&self) -> (r: u64)
        ensures
            r == self.value(),
    {
        O::u64_from_bytes(self.bytes)
    }

    pub fn from_bytes(bytes: [u8; 8]) -> (r: Self)
        ensures
            r.bytes == bytes,
    {
        U64 { bytes, order: PhantomData }
    }

    pub fn to_bytes(&self) -> (r: [u8; 8])
        ensures
            r == self.bytes,
    {
        self.bytes
    }

    pub fn as_bytes(&self) -> (r: &[u8])
        ensures
            r@ == self.bytes@,
    {
        &self.bytes
    }

    pub fn as_mut_bytes(&mut self) -> (r: &mut [u8])
        ensures
            r@ == old(self).bytes@,
            final(self).bytes@ == final(r)@,
    {
        &mut self.bytes
    }
}

impl<O: ByteOrder> BitCodec<U64<O>> for U64<O> {
    const BITS: usize = 64;

    const IS_FALLIBLE: bool = false;

    type Read = U64<O>;

    open spec fn decode(bits: Seq<bool>) -> Option<U64<O>> {
        Some(choose|v: U64<O>| #[trigger] bits::bit_seq(v.bytes@, 0, 64) == bits)
    }

    open spec fn try_decode(bits: Seq<bool>) -> Option<Result<U64<O>, U64<O>>> {
        match Self::decode(bits) {
            Some(v) => Some(Ok(v)),
            None => None,
        }
    }

    open spec fn read_value(bits: Seq<bool>) -> Option<U64<O>> {
        Self::decode(bits)
    }

    open spec fn encode(&self) -> Seq<bool> {
        bits::bit_seq(self.bytes@, 0, 64)
    }

    open spec fn storable(&self) -> bool {
        true
    }

    open spec fn reachable(offset: int) -> bool {
        true
    }

    fn read_bits(src: &[u8], bit_offset: usize) -> U64<O> {
        let mut bytes: [u8; 8] = [0u8; 8];
        bits::copy(src, bit_offset, &mut bytes, 0, 64);
        let v: U64<O> = Self::from_bytes(bytes);
        proof {
            assert(v.encode() =~= bits::bit_seq(src@, bit_offset as int, 64)) by {
                assert forall|i: int| 0 <= i < 64 implies v.encode()[i] == bits::bit_at(
                    src@,
                    bit_offset + i,
                ) by {
                    assert(bits::bit_at(v.bytes@, i) == v.encode()[i]);
                }
            }
            v.decode_encode();
        }
        v
    }

    fn try_read_bits(src: &[u8], bit_offset: usize) -> Result<U64<O>, U64<O>> {
        Ok(Self::read_bits(src, bit_offset))
    }

    fn read(src: &[u8], bit_offset: usize) -> U64<O> {
        Self::read_bits(src, bit_offset)
    }

    fn write_bits(&self, dst: &mut [u8], bit_offset: usize) {
        bits::copy(self.as_bytes(), 0, dst, bit_offset, 64);
    }
}

impl<O: ByteOrder> SoundCodec<U64<O>> for U64<O> {
    proof fn encode_len(&self) {
    }

    proof fn decode_encode(&self) {
        let v = choose|v: U64<O>|
            #[trigger] bits::bit_seq(v.bytes@, 0, 64) == self.encode();
        bit_lemmas::same_bytes(v.bytes@, self.bytes@);
        assert(v.bytes =~= self.bytes);
    }

    proof fn try_decode_agrees(bits: Seq<bool>) {
    }

    open spec fn as_result(read: U64<O>) -> Result<U64<O>, U64<O>> {
        Ok(read)
    }

    proof fn read_agrees(bits: Seq<bool>) {
    }

    proof fn infallible_decodes_all(bits: Seq<bool>) {
    }
}

impl<O: ByteOrder> BitCodec<U64<O>> for u64 {
    const BITS: usize = 64;

    const IS_FALLIBLE: bool = false;

    type Read = u64;

    open spec fn decode(bits: Seq<bool>) -> Option<u64> {
        match <U64<O> as BitCodec<U64<O>>>::decode(bits) {
            Some(v) => Some(v.value() as u64),
            None => None,
        }
    }

    open spec fn try_decode(bits: Seq<bool>) -> Option<Result<u64, U64<O>>> {
        match <u64 as BitCodec<U64<O>>>::decode(bits) {
            Some(v) => Some(Ok(v)),
            None => None,
        }
    }

    open spec fn read_value(bits: Seq<bool>) -> Option<u64> {
        <u64 as BitCodec<U64<O>>>::decode(bits)
    }

    open spec fn encode(&self) -> Seq<bool> {
        bits::bit_seq(O::bytes(*self as nat, 8), 0, 64)
    }

    open spec fn storable(&self) -> bool {
        true
    }

    open spec fn reachable(offset: int) -> bool {
        true
    }

    fn read_bits(src: &[u8], bit_offset: usize) -> u64 {
        let v: U64<O> = <U64<O> as BitCodec<U64<O>>>::read_bits(src, bit_offset);
        v.get()
    }

    fn try_read_bits(src: &[u8], bit_offset: usize) -> Result<u64, U64<O>> {
        Ok(<u64 as BitCodec<U64<O>>>::read_bits(src, bit_offset))
    }

    fn read(src: &[u8], bit_offset: usize) -> u64 {
        <u64 as BitCodec<U64<O>>>::read_bits(src, bit_offset)
    }

    fn write_bits(&self, dst: &mut [u8], bit_offset: usize) {
        let v: U64<O> = U64::new(*self);
        v.write_bits(dst, bit_offset);
    }
}

impl<O: ByteOrder> SoundCodec<U64<O>> for u64 {
    proof fn encode_len(&self) {
    }

    proof fn decode_encode(&self) {
        power2::lemma2_to64();
        power2::lemma2_to64_rest();
        let raw = *self as nat;
        let s = O::bytes(raw, 8);
        O::bytes_len(raw, 8);
        O::value_of_bytes(raw, 8);
        let v = U64::<O> {
            bytes: [s[0], s[1], s[2], s[3], s[4], s[5], s[6], s[7]],
            order: PhantomData,
        };
        assert(v.bytes@ =~= s);
        v.decode_encode();
    }

    proof fn try_decode_agrees(bits: Seq<bool>) {
    }

    open spec fn as_result(read: u64) -> Result<u64, U64<O>> {
        Ok(read)
    }

    proof fn read_agrees(bits: Seq<bool>) {
    }

    proof fn infallible_decodes_all(bits: Seq<bool>) {
    }
}

impl<O: ByteOrder> ByteLayout for U16<O> {
    open spec fn size() -> nat {
        2
    }

    open spec fn repr(&self) -> Seq<u8> {
        self.bytes@
    }

    fn size_of() -> usize {
        2
    }

    fn new_zeroed() -> Self {
        U16 { bytes: byte_repr::zeroed_array(), order: PhantomData }
    }

    fn as_bytes(&self) -> &[u8] {
        byte_repr::array_bytes(&self.bytes)
    }

    fn as_mut_bytes(&mut self) -> &mut [u8] {
        byte_repr::array_bytes_mut(&mut self.bytes)
    }

    fn read_from_bytes(bytes: &[u8]) -> Option<Self> {
        match byte_repr::array_from_bytes(bytes) {
            Some(array) => Some(U16 { bytes: *array, order: PhantomData }),
            None => None,
        }
    }
}

impl<O: ByteOrder> SoundLayout for U16<O> {
    proof fn repr_len(&self) {
    }

    proof fn same_repr(a: &Self, b: &Self) {
        assert(a.bytes =~= b.bytes);
    }
}

impl<O: ByteOrder> ByteLayout for U32<O> {
    open spec fn size() -> nat {
        4
    }

    open spec fn repr(&self) -> Seq<u8> {
        self.bytes@
    }

    fn size_of() -> usize {
        4
    }

    fn new_zeroed() -> Self {
        U32 { bytes: byte_repr::zeroed_array(), order: PhantomData }
    }

    fn as_bytes(&self) -> &[u8] {
        byte_repr::array_bytes(&self.bytes)
    }

    fn as_mut_bytes(&mut self) -> &mut [u8] {
        byte_repr::array_bytes_mut(&mut self.bytes)
    }

    fn read_from_bytes(bytes: &[u8]) -> Option<Self> {
        match byte_repr::array_from_bytes(bytes) {
            Some(array) => Some(U32 { bytes: *array, order: PhantomData }),
            None => None,
        }
    }
}

impl<O: ByteOrder> SoundLayout for U32<O> {
    proof fn repr_len(&self) {
    }

    proof fn same_repr(a: &Self, b: &Self) {
        assert(a.bytes =~= b.bytes);
    }
}

impl<O: ByteOrder> ByteLayout for U64<O> {
    open spec fn size() -> nat {
        8
    }

    open spec fn repr(&self) -> Seq<u8> {
        self.bytes@
    }

    fn size_of() -> usize {
        8
    }

    fn new_zeroed() -> Self {
        U64 { bytes: byte_repr::zeroed_array(), order: PhantomData }
    }

    fn as_bytes(&self) -> &[u8] {
        byte_repr::array_bytes(&self.bytes)
    }

    fn as_mut_bytes(&mut self) -> &mut [u8] {
        byte_repr::array_bytes_mut(&mut self.bytes)
    }

    fn read_from_bytes(bytes: &[u8]) -> Option<Self> {
        match byte_repr::array_from_bytes(bytes) {
            Some(array) => Some(U64 { bytes: *array, order: PhantomData }),
            None => None,
        }
    }
}

impl<O: ByteOrder> SoundLayout for U64<O> {
    proof fn repr_len(&self) {
    }

    proof fn same_repr(a: &Self, b: &Self) {
        assert(a.bytes =~= b.bytes);
    }
}

/// The widths of the codecs of unsigned integers in a byte order, none of which can fail.
pub proof fn unsigned_codecs<O: ByteOrder>()
    ensures
        <U16<O> as BitCodec<U16<O>>>::BITS == 16,
        <u16 as BitCodec<U16<O>>>::BITS == 16,
        !<U16<O> as BitCodec<U16<O>>>::IS_FALLIBLE,
        !<u16 as BitCodec<U16<O>>>::IS_FALLIBLE,
        <U32<O> as BitCodec<U32<O>>>::BITS == 32,
        <u32 as BitCodec<U32<O>>>::BITS == 32,
        !<U32<O> as BitCodec<U32<O>>>::IS_FALLIBLE,
        !<u32 as BitCodec<U32<O>>>::IS_FALLIBLE,
        <U64<O> as BitCodec<U64<O>>>::BITS == 64,
        <u64 as BitCodec<U64<O>>>::BITS == 64,
        !<U64<O> as BitCodec<U64<O>>>::IS_FALLIBLE,
        !<u64 as BitCodec<U64<O>>>::IS_FALLIBLE,
{
}

} // verus!

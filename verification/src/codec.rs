//! Values that are stored as bits.
use crate::bit_lemmas;
use crate::bits;
use vstd::arithmetic::power2;
use vstd::prelude::*;

verus! {

/// A type that can be read and written as an `S` bit-level storage representation.
///
/// All bit offsets follow the LSB0 convention of [`crate::bits`]. What the stored bits mean is said
/// by the specification functions; a codec that does not define them makes no promise that a proof
/// could use.
pub trait BitCodec<S>: Sized {
    /// Number of bits in this storage representation.
    const BITS: usize;

    /// Whether reading can fail because not every storage value is valid.
    const IS_FALLIBLE: bool;

    /// Public read result for this storage representation.
    type Read;

    /// The value that the stored bits stand for, if there is one.
    open spec fn decode(bits: Seq<bool>) -> Option<Self> {
        None
    }

    /// What [`BitCodec::try_read_bits`] makes of the stored bits, if it has a result for them.
    open spec fn try_decode(bits: Seq<bool>) -> Option<Result<Self, S>> {
        None
    }

    /// What [`BitCodec::read`] makes of the stored bits, if it has a result for them.
    open spec fn read_value(bits: Seq<bool>) -> Option<Self::Read> {
        None
    }

    /// The bits that the value is stored as.
    open spec fn encode(&self) -> Seq<bool> {
        arbitrary()
    }

    /// Whether the stored bits tell the value apart from all others.
    open spec fn storable(&self) -> bool {
        false
    }

    /// Whether a `usize` can address every part of a value that is stored at `offset`.
    open spec fn reachable(offset: int) -> bool {
        true
    }

    /// Reads from bit-packed bytes at an arbitrary bit offset.
    fn read_bits(src: &[u8], bit_offset: usize) -> (r: Self)
        requires
            bits::in_range(src@.len(), bit_offset as int, Self::BITS as int),
            Self::reachable(bit_offset as int),
            Self::decode(bits::bit_seq(src@, bit_offset as int, Self::BITS as nat)) is Some,
        ensures
            Self::decode(bits::bit_seq(src@, bit_offset as int, Self::BITS as nat)) == Some(r),
    ;

    /// Tries to read from bit-packed bytes. Returns the raw storage value on invalid data.
    fn try_read_bits(src: &[u8], bit_offset: usize) -> (r: Result<Self, S>)
        requires
            bits::in_range(src@.len(), bit_offset as int, Self::BITS as int),
            Self::reachable(bit_offset as int),
            Self::try_decode(bits::bit_seq(src@, bit_offset as int, Self::BITS as nat)) is Some,
        ensures
            Self::try_decode(bits::bit_seq(src@, bit_offset as int, Self::BITS as nat)) == Some(r),
    ;

    /// Reads using the public API shape for this codec. Infallible codecs return `Self`, fallible
    /// ones `Result<Self, S>`.
    fn read(src: &[u8], bit_offset: usize) -> (r: Self::Read)
        requires
            bits::in_range(src@.len(), bit_offset as int, Self::BITS as int),
            Self::reachable(bit_offset as int),
            Self::read_value(bits::bit_seq(src@, bit_offset as int, Self::BITS as nat)) is Some,
        ensures
            Self::read_value(bits::bit_seq(src@, bit_offset as int, Self::BITS as nat)) == Some(r),
    ;

    /// Writes to bit-packed bytes at an arbitrary bit offset.
    fn write_bits(&self, dst: &mut [u8], bit_offset: usize)
        requires
            bits::in_range(old(dst)@.len(), bit_offset as int, Self::BITS as int),
            Self::reachable(bit_offset as int),
        ensures
            self.encode().len() == Self::BITS,
            bits::overwritten(final(dst)@, old(dst)@, bit_offset as int, self.encode()),
    ;
}

/// A codec that gives back what was stored.
pub trait SoundCodec<S>: BitCodec<S> {
    /// A value takes up `BITS` bits.
    proof fn encode_len(&self)
        ensures
            self.encode().len() == Self::BITS,
    ;

    /// What was written is read back.
    proof fn decode_encode(&self)
        requires
            self.storable(),
        ensures
            Self::decode(self.encode()) == Some(*self),
    ;

    /// The checked read finds the same values as the plain one.
    proof fn try_decode_agrees(bits: Seq<bool>)
        ensures
            Self::decode(bits) matches Some(v) ==> Self::try_decode(bits) == Some(
                Ok::<Self, S>(v),
            ),
            Self::try_decode(bits) matches Some(Ok(v)) ==> Self::decode(bits) == Some(v),
    ;

    /// What [`BitCodec::read`] gave, in the shape of the checked read.
    spec fn as_result(read: Self::Read) -> Result<Self, S>;

    /// The public read finds the same as the checked one, and where there is a value it finds that.
    proof fn read_agrees(bits: Seq<bool>)
        ensures
            Self::decode(bits) is Some ==> Self::read_value(bits) is Some,
            Self::read_value(bits) matches Some(read) ==> Self::try_decode(bits) == Some(
                Self::as_result(read),
            ),
    ;

    /// A codec that cannot fail has a value for all stored bits.
    proof fn infallible_decodes_all(bits: Seq<bool>)
        requires
            !Self::IS_FALLIBLE,
            bits.len() == Self::BITS,
        ensures
            Self::decode(bits) is Some,
    ;
}

/// The shape of what reading a `T` that is stored as an `S` gives: a `T`, or a `T` or the raw `S`.
/// A type that stores a `U` as an `R` by means of `T` is read in the same shape.
pub trait ReadShape<T, S, U, R>: Sized {
    /// The same shape for `U` and `R`.
    type Read;

    /// A checked read in this shape, if the shape has room for it.
    spec fn shaped(result: Result<U, R>) -> Option<Self::Read>;

    /// The checked read that has this shape.
    spec fn unshaped(read: Self::Read) -> Result<U, R>;

    /// The shape changes nothing.
    proof fn unshaped_shaped(result: Result<U, R>)
        ensures
            Self::shaped(result) matches Some(read) ==> Self::unshaped(read) == result,
            result is Ok ==> Self::shaped(result) is Some,
    ;

    /// Gives a checked read this shape.
    fn shape(result: Result<U, R>) -> (r: Self::Read)
        requires
            Self::shaped(result) is Some,
        ensures
            Self::shaped(result) == Some(r),
    ;
}

impl<T, S, U, R> ReadShape<T, S, U, R> for T {
    type Read = U;

    open spec fn shaped(result: Result<U, R>) -> Option<U> {
        match result {
            Ok(value) => Some(value),
            Err(_) => None,
        }
    }

    open spec fn unshaped(read: U) -> Result<U, R> {
        Ok(read)
    }

    proof fn unshaped_shaped(result: Result<U, R>) {
    }

    fn shape(result: Result<U, R>) -> U {
        result.ok().unwrap()
    }
}

impl<T, S, U, R> ReadShape<T, S, U, R> for Result<T, S> {
    type Read = Result<U, R>;

    open spec fn shaped(result: Result<U, R>) -> Option<Result<U, R>> {
        Some(result)
    }

    open spec fn unshaped(read: Result<U, R>) -> Result<U, R> {
        read
    }

    proof fn unshaped_shaped(result: Result<U, R>) {
    }

    fn shape(result: Result<U, R>) -> Result<U, R> {
        result
    }
}

/// The number in two's complement that the unsigned value `v` of `n` bits stands for.
pub open spec fn signed_value(v: nat, n: nat) -> int {
    if v < power2::pow2((n - 1) as nat) {
        v as int
    } else {
        v - power2::pow2(n)
    }
}

/// The unsigned value of `n` bits that stands for `v` in two's complement.
pub open spec fn unsigned_value(v: int, n: nat) -> nat {
    (if v < 0 {
        v + power2::pow2(n)
    } else {
        v
    }) as nat
}

/// The widths of the codecs of `bool` and the native integers, none of which can fail.
pub proof fn native_codecs()
    ensures
        <bool as BitCodec<bool>>::BITS == 1,
        <u8 as BitCodec<u8>>::BITS == 8,
        <u16 as BitCodec<u16>>::BITS == 16,
        <u32 as BitCodec<u32>>::BITS == 32,
        <u64 as BitCodec<u64>>::BITS == 64,
        <i8 as BitCodec<i8>>::BITS == 8,
        <i16 as BitCodec<i16>>::BITS == 16,
        <i32 as BitCodec<i32>>::BITS == 32,
        <i64 as BitCodec<i64>>::BITS == 64,
        !<bool as BitCodec<bool>>::IS_FALLIBLE,
        !<u8 as BitCodec<u8>>::IS_FALLIBLE,
        !<u16 as BitCodec<u16>>::IS_FALLIBLE,
        !<u32 as BitCodec<u32>>::IS_FALLIBLE,
        !<u64 as BitCodec<u64>>::IS_FALLIBLE,
        !<i8 as BitCodec<i8>>::IS_FALLIBLE,
        !<i16 as BitCodec<i16>>::IS_FALLIBLE,
        !<i32 as BitCodec<i32>>::IS_FALLIBLE,
        !<i64 as BitCodec<i64>>::IS_FALLIBLE,
{
}

impl BitCodec<bool> for bool {
    const BITS: usize = 1;

    const IS_FALLIBLE: bool = false;

    type Read = bool;

    open spec fn decode(bits: Seq<bool>) -> Option<bool> {
        Some(bits[0])
    }

    open spec fn try_decode(bits: Seq<bool>) -> Option<Result<bool, bool>> {
        Some(Ok(bits[0]))
    }

    open spec fn read_value(bits: Seq<bool>) -> Option<bool> {
        Some(bits[0])
    }

    open spec fn encode(&self) -> Seq<bool> {
        seq![*self]
    }

    open spec fn storable(&self) -> bool {
        true
    }

    open spec fn reachable(offset: int) -> bool {
        true
    }

    fn read_bits(src: &[u8], bit_offset: usize) -> bool {
        proof {
            bit_lemmas::zero_value(bits::bit_seq(src@, bit_offset as int, 1));
        }
        bits::read_u64(src, bit_offset, 1) != 0
    }

    fn try_read_bits(src: &[u8], bit_offset: usize) -> Result<bool, bool> {
        Ok(Self::read_bits(src, bit_offset))
    }

    fn read(src: &[u8], bit_offset: usize) -> bool {
        Self::read_bits(src, bit_offset)
    }

    fn write_bits(&self, dst: &mut [u8], bit_offset: usize) {
        let word: u64 = if *self {
            1
        } else {
            0
        };
        proof {
            assert((1u64 >> 0u64) & 1 == 1 && (0u64 >> 0u64) & 1 == 0) by (bit_vector);
            assert(bits::word_bits(word, 1) =~= self.encode());
        }
        bits::write_u64(dst, bit_offset, 1, word);
    }
}

impl SoundCodec<bool> for bool {
    proof fn encode_len(&self) {
    }

    proof fn decode_encode(&self) {
    }

    proof fn try_decode_agrees(bits: Seq<bool>) {
    }

    open spec fn as_result(read: bool) -> Result<bool, bool> {
        Ok(read)
    }

    proof fn read_agrees(bits: Seq<bool>) {
    }

    proof fn infallible_decodes_all(bits: Seq<bool>) {
    }
}

impl BitCodec<u8> for u8 {
    const BITS: usize = 8;

    const IS_FALLIBLE: bool = false;

    type Read = u8;

    open spec fn decode(bits: Seq<bool>) -> Option<u8> {
        Some(bits::bits_value(bits) as u8)
    }

    open spec fn try_decode(bits: Seq<bool>) -> Option<Result<u8, u8>> {
        Some(Ok(bits::bits_value(bits) as u8))
    }

    open spec fn read_value(bits: Seq<bool>) -> Option<u8> {
        Some(bits::bits_value(bits) as u8)
    }

    open spec fn encode(&self) -> Seq<bool> {
        bits::word_bits(*self as u64, 8)
    }

    open spec fn storable(&self) -> bool {
        true
    }

    open spec fn reachable(offset: int) -> bool {
        true
    }

    fn read_bits(src: &[u8], bit_offset: usize) -> u8 {
        bits::read_u64(src, bit_offset, 8) as u8
    }

    fn try_read_bits(src: &[u8], bit_offset: usize) -> Result<u8, u8> {
        Ok(<u8 as BitCodec<u8>>::read_bits(src, bit_offset))
    }

    fn read(src: &[u8], bit_offset: usize) -> u8 {
        <u8 as BitCodec<u8>>::read_bits(src, bit_offset)
    }

    fn write_bits(&self, dst: &mut [u8], bit_offset: usize) {
        bits::write_u64(dst, bit_offset, 8, *self as u64);
    }
}

impl SoundCodec<u8> for u8 {
    proof fn encode_len(&self) {
    }

    proof fn decode_encode(&self) {
        assert((1u64 << 8u64) == 0x100) by (bit_vector);
        bit_lemmas::small_word_value(*self as u64, 8);
    }

    proof fn try_decode_agrees(bits: Seq<bool>) {
    }

    open spec fn as_result(read: u8) -> Result<u8, u8> {
        Ok(read)
    }

    proof fn read_agrees(bits: Seq<bool>) {
    }

    proof fn infallible_decodes_all(bits: Seq<bool>) {
    }
}

impl BitCodec<u16> for u16 {
    const BITS: usize = 16;

    const IS_FALLIBLE: bool = false;

    type Read = u16;

    open spec fn decode(bits: Seq<bool>) -> Option<u16> {
        Some(bits::bits_value(bits) as u16)
    }

    open spec fn try_decode(bits: Seq<bool>) -> Option<Result<u16, u16>> {
        Some(Ok(bits::bits_value(bits) as u16))
    }

    open spec fn read_value(bits: Seq<bool>) -> Option<u16> {
        Some(bits::bits_value(bits) as u16)
    }

    open spec fn encode(&self) -> Seq<bool> {
        bits::word_bits(*self as u64, 16)
    }

    open spec fn storable(&self) -> bool {
        true
    }

    open spec fn reachable(offset: int) -> bool {
        true
    }

    fn read_bits(src: &[u8], bit_offset: usize) -> u16 {
        bits::read_u64(src, bit_offset, 16) as u16
    }

    fn try_read_bits(src: &[u8], bit_offset: usize) -> Result<u16, u16> {
        Ok(<u16 as BitCodec<u16>>::read_bits(src, bit_offset))
    }

    fn read(src: &[u8], bit_offset: usize) -> u16 {
        <u16 as BitCodec<u16>>::read_bits(src, bit_offset)
    }

    fn write_bits(&self, dst: &mut [u8], bit_offset: usize) {
        bits::write_u64(dst, bit_offset, 16, *self as u64);
    }
}

impl SoundCodec<u16> for u16 {
    proof fn encode_len(&self) {
    }

    proof fn decode_encode(&self) {
        assert((1u64 << 16u64) == 0x10000) by (bit_vector);
        bit_lemmas::small_word_value(*self as u64, 16);
    }

    proof fn try_decode_agrees(bits: Seq<bool>) {
    }

    open spec fn as_result(read: u16) -> Result<u16, u16> {
        Ok(read)
    }

    proof fn read_agrees(bits: Seq<bool>) {
    }

    proof fn infallible_decodes_all(bits: Seq<bool>) {
    }
}

impl BitCodec<u32> for u32 {
    const BITS: usize = 32;

    const IS_FALLIBLE: bool = false;

    type Read = u32;

    open spec fn decode(bits: Seq<bool>) -> Option<u32> {
        Some(bits::bits_value(bits) as u32)
    }

    open spec fn try_decode(bits: Seq<bool>) -> Option<Result<u32, u32>> {
        Some(Ok(bits::bits_value(bits) as u32))
    }

    open spec fn read_value(bits: Seq<bool>) -> Option<u32> {
        Some(bits::bits_value(bits) as u32)
    }

    open spec fn encode(&self) -> Seq<bool> {
        bits::word_bits(*self as u64, 32)
    }

    open spec fn storable(&self) -> bool {
        true
    }

    open spec fn reachable(offset: int) -> bool {
        true
    }

    fn read_bits(src: &[u8], bit_offset: usize) -> u32 {
        bits::read_u64(src, bit_offset, 32) as u32
    }

    fn try_read_bits(src: &[u8], bit_offset: usize) -> Result<u32, u32> {
        Ok(<u32 as BitCodec<u32>>::read_bits(src, bit_offset))
    }

    fn read(src: &[u8], bit_offset: usize) -> u32 {
        <u32 as BitCodec<u32>>::read_bits(src, bit_offset)
    }

    fn write_bits(&self, dst: &mut [u8], bit_offset: usize) {
        bits::write_u64(dst, bit_offset, 32, *self as u64);
    }
}

impl SoundCodec<u32> for u32 {
    proof fn encode_len(&self) {
    }

    proof fn decode_encode(&self) {
        assert((1u64 << 32u64) == 0x100000000) by (bit_vector);
        bit_lemmas::small_word_value(*self as u64, 32);
    }

    proof fn try_decode_agrees(bits: Seq<bool>) {
    }

    open spec fn as_result(read: u32) -> Result<u32, u32> {
        Ok(read)
    }

    proof fn read_agrees(bits: Seq<bool>) {
    }

    proof fn infallible_decodes_all(bits: Seq<bool>) {
    }
}

impl BitCodec<u64> for u64 {
    const BITS: usize = 64;

    const IS_FALLIBLE: bool = false;

    type Read = u64;

    open spec fn decode(bits: Seq<bool>) -> Option<u64> {
        Some(bits::bits_value(bits) as u64)
    }

    open spec fn try_decode(bits: Seq<bool>) -> Option<Result<u64, u64>> {
        Some(Ok(bits::bits_value(bits) as u64))
    }

    open spec fn read_value(bits: Seq<bool>) -> Option<u64> {
        Some(bits::bits_value(bits) as u64)
    }

    open spec fn encode(&self) -> Seq<bool> {
        bits::word_bits(*self as u64, 64)
    }

    open spec fn storable(&self) -> bool {
        true
    }

    open spec fn reachable(offset: int) -> bool {
        true
    }

    fn read_bits(src: &[u8], bit_offset: usize) -> u64 {
        bits::read_u64(src, bit_offset, 64)
    }

    fn try_read_bits(src: &[u8], bit_offset: usize) -> Result<u64, u64> {
        Ok(<u64 as BitCodec<u64>>::read_bits(src, bit_offset))
    }

    fn read(src: &[u8], bit_offset: usize) -> u64 {
        <u64 as BitCodec<u64>>::read_bits(src, bit_offset)
    }

    fn write_bits(&self, dst: &mut [u8], bit_offset: usize) {
        bits::write_u64(dst, bit_offset, 64, *self);
    }
}

impl SoundCodec<u64> for u64 {
    proof fn encode_len(&self) {
    }

    proof fn decode_encode(&self) {
        bit_lemmas::small_word_value(*self as u64, 64);
    }

    proof fn try_decode_agrees(bits: Seq<bool>) {
    }

    open spec fn as_result(read: u64) -> Result<u64, u64> {
        Ok(read)
    }

    proof fn read_agrees(bits: Seq<bool>) {
    }

    proof fn infallible_decodes_all(bits: Seq<bool>) {
    }
}

impl BitCodec<i8> for i8 {
    const BITS: usize = 8;

    const IS_FALLIBLE: bool = false;

    type Read = i8;

    open spec fn decode(bits: Seq<bool>) -> Option<i8> {
        Some(signed_value(bits::bits_value(bits), 8) as i8)
    }

    open spec fn try_decode(bits: Seq<bool>) -> Option<Result<i8, i8>> {
        Some(Ok(signed_value(bits::bits_value(bits), 8) as i8))
    }

    open spec fn read_value(bits: Seq<bool>) -> Option<i8> {
        Some(signed_value(bits::bits_value(bits), 8) as i8)
    }

    open spec fn encode(&self) -> Seq<bool> {
        bits::word_bits(unsigned_value(*self as int, 8) as u64, 8)
    }

    open spec fn storable(&self) -> bool {
        true
    }

    open spec fn reachable(offset: int) -> bool {
        true
    }

    fn read_bits(src: &[u8], bit_offset: usize) -> i8 {
        let word = bits::read_u64(src, bit_offset, 8);
        proof {
            bit_lemmas::word_as_i8(bits::bit_seq(src@, bit_offset as int, 8), word);
        }
        word as i8
    }

    fn try_read_bits(src: &[u8], bit_offset: usize) -> Result<i8, i8> {
        Ok(<i8 as BitCodec<i8>>::read_bits(src, bit_offset))
    }

    fn read(src: &[u8], bit_offset: usize) -> i8 {
        <i8 as BitCodec<i8>>::read_bits(src, bit_offset)
    }

    fn write_bits(&self, dst: &mut [u8], bit_offset: usize) {
        proof {
            bit_lemmas::i8_word(*self);
        }
        bits::write_u64(dst, bit_offset, 8, *self as u64);
    }
}

impl SoundCodec<i8> for i8 {
    proof fn encode_len(&self) {
    }

    proof fn decode_encode(&self) {
        bit_lemmas::i8_word(*self);
    }

    proof fn try_decode_agrees(bits: Seq<bool>) {
    }

    open spec fn as_result(read: i8) -> Result<i8, i8> {
        Ok(read)
    }

    proof fn read_agrees(bits: Seq<bool>) {
    }

    proof fn infallible_decodes_all(bits: Seq<bool>) {
    }
}

impl BitCodec<i16> for i16 {
    const BITS: usize = 16;

    const IS_FALLIBLE: bool = false;

    type Read = i16;

    open spec fn decode(bits: Seq<bool>) -> Option<i16> {
        Some(signed_value(bits::bits_value(bits), 16) as i16)
    }

    open spec fn try_decode(bits: Seq<bool>) -> Option<Result<i16, i16>> {
        Some(Ok(signed_value(bits::bits_value(bits), 16) as i16))
    }

    open spec fn read_value(bits: Seq<bool>) -> Option<i16> {
        Some(signed_value(bits::bits_value(bits), 16) as i16)
    }

    open spec fn encode(&self) -> Seq<bool> {
        bits::word_bits(unsigned_value(*self as int, 16) as u64, 16)
    }

    open spec fn storable(&self) -> bool {
        true
    }

    open spec fn reachable(offset: int) -> bool {
        true
    }

    fn read_bits(src: &[u8], bit_offset: usize) -> i16 {
        let word = bits::read_u64(src, bit_offset, 16);
        proof {
            bit_lemmas::word_as_i16(bits::bit_seq(src@, bit_offset as int, 16), word);
        }
        word as i16
    }

    fn try_read_bits(src: &[u8], bit_offset: usize) -> Result<i16, i16> {
        Ok(<i16 as BitCodec<i16>>::read_bits(src, bit_offset))
    }

    fn read(src: &[u8], bit_offset: usize) -> i16 {
        <i16 as BitCodec<i16>>::read_bits(src, bit_offset)
    }

    fn write_bits(&self, dst: &mut [u8], bit_offset: usize) {
        proof {
            bit_lemmas::i16_word(*self);
        }
        bits::write_u64(dst, bit_offset, 16, *self as u64);
    }
}

impl SoundCodec<i16> for i16 {
    proof fn encode_len(&self) {
    }

    proof fn decode_encode(&self) {
        bit_lemmas::i16_word(*self);
    }

    proof fn try_decode_agrees(bits: Seq<bool>) {
    }

    open spec fn as_result(read: i16) -> Result<i16, i16> {
        Ok(read)
    }

    proof fn read_agrees(bits: Seq<bool>) {
    }

    proof fn infallible_decodes_all(bits: Seq<bool>) {
    }
}

impl BitCodec<i32> for i32 {
    const BITS: usize = 32;

    const IS_FALLIBLE: bool = false;

    type Read = i32;

    open spec fn decode(bits: Seq<bool>) -> Option<i32> {
        Some(signed_value(bits::bits_value(bits), 32) as i32)
    }

    open spec fn try_decode(bits: Seq<bool>) -> Option<Result<i32, i32>> {
        Some(Ok(signed_value(bits::bits_value(bits), 32) as i32))
    }

    open spec fn read_value(bits: Seq<bool>) -> Option<i32> {
        Some(signed_value(bits::bits_value(bits), 32) as i32)
    }

    open spec fn encode(&self) -> Seq<bool> {
        bits::word_bits(unsigned_value(*self as int, 32) as u64, 32)
    }

    open spec fn storable(&self) -> bool {
        true
    }

    open spec fn reachable(offset: int) -> bool {
        true
    }

    fn read_bits(src: &[u8], bit_offset: usize) -> i32 {
        let word = bits::read_u64(src, bit_offset, 32);
        proof {
            bit_lemmas::word_as_i32(bits::bit_seq(src@, bit_offset as int, 32), word);
        }
        word as i32
    }

    fn try_read_bits(src: &[u8], bit_offset: usize) -> Result<i32, i32> {
        Ok(<i32 as BitCodec<i32>>::read_bits(src, bit_offset))
    }

    fn read(src: &[u8], bit_offset: usize) -> i32 {
        <i32 as BitCodec<i32>>::read_bits(src, bit_offset)
    }

    fn write_bits(&self, dst: &mut [u8], bit_offset: usize) {
        proof {
            bit_lemmas::i32_word(*self);
        }
        bits::write_u64(dst, bit_offset, 32, *self as u64);
    }
}

impl SoundCodec<i32> for i32 {
    proof fn encode_len(&self) {
    }

    proof fn decode_encode(&self) {
        bit_lemmas::i32_word(*self);
    }

    proof fn try_decode_agrees(bits: Seq<bool>) {
    }

    open spec fn as_result(read: i32) -> Result<i32, i32> {
        Ok(read)
    }

    proof fn read_agrees(bits: Seq<bool>) {
    }

    proof fn infallible_decodes_all(bits: Seq<bool>) {
    }
}

impl BitCodec<i64> for i64 {
    const BITS: usize = 64;

    const IS_FALLIBLE: bool = false;

    type Read = i64;

    open spec fn decode(bits: Seq<bool>) -> Option<i64> {
        Some(signed_value(bits::bits_value(bits), 64) as i64)
    }

    open spec fn try_decode(bits: Seq<bool>) -> Option<Result<i64, i64>> {
        Some(Ok(signed_value(bits::bits_value(bits), 64) as i64))
    }

    open spec fn read_value(bits: Seq<bool>) -> Option<i64> {
        Some(signed_value(bits::bits_value(bits), 64) as i64)
    }

    open spec fn encode(&self) -> Seq<bool> {
        bits::word_bits(unsigned_value(*self as int, 64) as u64, 64)
    }

    open spec fn storable(&self) -> bool {
        true
    }

    open spec fn reachable(offset: int) -> bool {
        true
    }

    fn read_bits(src: &[u8], bit_offset: usize) -> i64 {
        let word = bits::read_u64(src, bit_offset, 64);
        proof {
            bit_lemmas::word_as_i64(bits::bit_seq(src@, bit_offset as int, 64), word);
        }
        word as i64
    }

    fn try_read_bits(src: &[u8], bit_offset: usize) -> Result<i64, i64> {
        Ok(<i64 as BitCodec<i64>>::read_bits(src, bit_offset))
    }

    fn read(src: &[u8], bit_offset: usize) -> i64 {
        <i64 as BitCodec<i64>>::read_bits(src, bit_offset)
    }

    fn write_bits(&self, dst: &mut [u8], bit_offset: usize) {
        proof {
            bit_lemmas::i64_word(*self);
        }
        bits::write_u64(dst, bit_offset, 64, *self as u64);
    }
}

impl SoundCodec<i64> for i64 {
    proof fn encode_len(&self) {
    }

    proof fn decode_encode(&self) {
        bit_lemmas::i64_word(*self);
    }

    proof fn try_decode_agrees(bits: Seq<bool>) {
    }

    open spec fn as_result(read: i64) -> Result<i64, i64> {
        Ok(read)
    }

    proof fn read_agrees(bits: Seq<bool>) {
    }

    proof fn infallible_decodes_all(bits: Seq<bool>) {
    }
}

} // verus!

//! What the stored bits of numbers mean.
//!
//! A buffer is one long bit array, and a number is stored in binary: bit `i` of it counts `2^i`,
//! and negative numbers are in two's complement. With a byte order, the bytes of the number are
//! stored in that order.
use crate::array_codec;
use crate::bit_lemmas;
use crate::bits;
use crate::codec;
use crate::codec::{BitCodec, ReadShape, SoundCodec};
use crate::data_type::endian::{Big, ByteOrder, Little, I16, I32, I64, U16, U32, U64};
use crate::data_type::small::UInt;
use crate::laws;
use crate::packed::Packed;
use crate::views;
use core::marker::PhantomData;
use vstd::arithmetic::power2;
use vstd::prelude::*;

verus! {

/// A byte holds eight bits, the lowest first: bit `i` of a buffer counts `2^(i % 8)` in byte `i /
/// 8`.
pub proof fn bits_make_up_bytes(bytes: Seq<u8>, k: int)
    requires
        0 <= k < bytes.len(),
    ensures
        bytes[k] == bit_weight(bytes, 8 * k, 1) + bit_weight(bytes, 8 * k + 1, 2) + bit_weight(
            bytes,
            8 * k + 2,
            4,
        ) + bit_weight(bytes, 8 * k + 3, 8) + bit_weight(bytes, 8 * k + 4, 16) + bit_weight(
            bytes,
            8 * k + 5,
            32,
        ) + bit_weight(bytes, 8 * k + 6, 64) + bit_weight(bytes, 8 * k + 7, 128),
{
    let b = bytes[k];
    assert(b == (b >> 0u8 & 1) + 2 * (b >> 1u8 & 1) + 4 * (b >> 2u8 & 1) + 8 * (b >> 3u8 & 1) + 16
        * (b >> 4u8 & 1) + 32 * (b >> 5u8 & 1) + 64 * (b >> 6u8 & 1) + 128 * (b >> 7u8 & 1))
        by (bit_vector);
    assert((b >> 0u8 & 1) <= 1 && (b >> 1u8 & 1) <= 1 && (b >> 2u8 & 1) <= 1 && (b >> 3u8 & 1) <= 1
        && (b >> 4u8 & 1) <= 1 && (b >> 5u8 & 1) <= 1 && (b >> 6u8 & 1) <= 1 && (b >> 7u8 & 1)
        <= 1) by (bit_vector);
}

/// What a bit counts: `weight` if it is set.
pub open spec fn bit_weight(bytes: Seq<u8>, i: int, weight: int) -> int {
    if bits::bit_at(bytes, i) {
        weight
    } else {
        0
    }
}

/// Bits stand for the number in which bit `i` counts `2^i`: the first bit counts 1, and all others
/// count twice what they count without it.
pub proof fn bits_are_binary(stored: Seq<bool>)
    ensures
        bits::bits_value(Seq::<bool>::empty()) == 0,
        stored.len() > 0 ==> bits::bits_value(stored) == (if stored[0] {
            1int
        } else {
            0
        }) + 2 * bits::bits_value(stored.drop_first()),
{
}

/// A `bool` is one bit, which is set for `true`.
pub proof fn bool_is_one_bit(v: bool, stored: Seq<bool>)
    requires
        stored.len() == 1,
    ensures
        v.encode().len() == 1,
        v.encode()[0] == v,
        <bool as BitCodec<bool>>::decode(stored) == Some(stored[0]),
        <bool as BitCodec<bool>>::try_decode(stored) == Some(Ok::<bool, bool>(stored[0])),
        <bool as BitCodec<bool>>::read_value(stored) == Some(stored[0]),
{
}

/// The stored bits of a `u8` stand for its number, and are read as it.
pub proof fn u8_is_binary(v: u8, stored: Seq<bool>)
    requires
        stored.len() == 8,
    ensures
        <u8 as BitCodec<u8>>::encode(&v).len() == 8,
        bits::bits_value(<u8 as BitCodec<u8>>::encode(&v)) == v,
        bits::bits_value(stored) <= u8::MAX,
        <u8 as BitCodec<u8>>::decode(stored) == Some(bits::bits_value(stored) as u8),
        <u8 as BitCodec<u8>>::try_decode(stored) == Some(Ok::<u8, u8>(bits::bits_value(stored) as u8)),
        <u8 as BitCodec<u8>>::read_value(stored) == Some(bits::bits_value(stored) as u8),
{
    codec::native_codecs();
    power2::lemma2_to64();
    power2::lemma2_to64_rest();
    laws::value_is_bounded(stored);
    <u8 as SoundCodec<u8>>::decode_encode(&v);
    laws::value_is_bounded(<u8 as BitCodec<u8>>::encode(&v));
}

/// The stored bits of a `u16` stand for its number, and are read as it.
pub proof fn u16_is_binary(v: u16, stored: Seq<bool>)
    requires
        stored.len() == 16,
    ensures
        <u16 as BitCodec<u16>>::encode(&v).len() == 16,
        bits::bits_value(<u16 as BitCodec<u16>>::encode(&v)) == v,
        bits::bits_value(stored) <= u16::MAX,
        <u16 as BitCodec<u16>>::decode(stored) == Some(bits::bits_value(stored) as u16),
        <u16 as BitCodec<u16>>::try_decode(stored) == Some(Ok::<u16, u16>(bits::bits_value(stored) as u16)),
        <u16 as BitCodec<u16>>::read_value(stored) == Some(bits::bits_value(stored) as u16),
{
    codec::native_codecs();
    power2::lemma2_to64();
    power2::lemma2_to64_rest();
    laws::value_is_bounded(stored);
    <u16 as SoundCodec<u16>>::decode_encode(&v);
    laws::value_is_bounded(<u16 as BitCodec<u16>>::encode(&v));
}

/// The stored bits of a `u32` stand for its number, and are read as it.
pub proof fn u32_is_binary(v: u32, stored: Seq<bool>)
    requires
        stored.len() == 32,
    ensures
        <u32 as BitCodec<u32>>::encode(&v).len() == 32,
        bits::bits_value(<u32 as BitCodec<u32>>::encode(&v)) == v,
        bits::bits_value(stored) <= u32::MAX,
        <u32 as BitCodec<u32>>::decode(stored) == Some(bits::bits_value(stored) as u32),
        <u32 as BitCodec<u32>>::try_decode(stored) == Some(Ok::<u32, u32>(bits::bits_value(stored) as u32)),
        <u32 as BitCodec<u32>>::read_value(stored) == Some(bits::bits_value(stored) as u32),
{
    codec::native_codecs();
    power2::lemma2_to64();
    power2::lemma2_to64_rest();
    laws::value_is_bounded(stored);
    <u32 as SoundCodec<u32>>::decode_encode(&v);
    laws::value_is_bounded(<u32 as BitCodec<u32>>::encode(&v));
}

/// The stored bits of a `u64` stand for its number, and are read as it.
pub proof fn u64_is_binary(v: u64, stored: Seq<bool>)
    requires
        stored.len() == 64,
    ensures
        <u64 as BitCodec<u64>>::encode(&v).len() == 64,
        bits::bits_value(<u64 as BitCodec<u64>>::encode(&v)) == v,
        bits::bits_value(stored) <= u64::MAX,
        <u64 as BitCodec<u64>>::decode(stored) == Some(bits::bits_value(stored) as u64),
        <u64 as BitCodec<u64>>::try_decode(stored) == Some(Ok::<u64, u64>(bits::bits_value(stored) as u64)),
        <u64 as BitCodec<u64>>::read_value(stored) == Some(bits::bits_value(stored) as u64),
{
    codec::native_codecs();
    power2::lemma2_to64();
    power2::lemma2_to64_rest();
    laws::value_is_bounded(stored);
    <u64 as SoundCodec<u64>>::decode_encode(&v);
    laws::value_is_bounded(<u64 as BitCodec<u64>>::encode(&v));
}

/// The stored bits of an `i8` are its two's complement, and are read as it.
pub proof fn i8_is_twos_complement(v: i8, stored: Seq<bool>)
    requires
        stored.len() == 8,
    ensures
        <i8 as BitCodec<i8>>::encode(&v).len() == 8,
        bits::bits_value(<i8 as BitCodec<i8>>::encode(&v)) == if v >= 0 {
            v as int
        } else {
            v + 0x100
        },
        ({
            let n = bits::bits_value(stored) as int;
            let v = (if n < 0x80 {
                n
            } else {
                n - 0x100
            }) as i8;
            &&& v == if n < 0x80 {
                n
            } else {
                n - 0x100
            }
            &&& <i8 as BitCodec<i8>>::decode(stored) == Some(v)
            &&& <i8 as BitCodec<i8>>::try_decode(stored) == Some(Ok::<i8, i8>(v))
            &&& <i8 as BitCodec<i8>>::read_value(stored) == Some(v)
        }),
{
    power2::lemma2_to64();
    power2::lemma2_to64_rest();
    laws::value_is_bounded(stored);
    bit_lemmas::i8_word(v);
    laws::value_is_bounded(<i8 as BitCodec<i8>>::encode(&v));
}

/// The stored bits of an `i16` are its two's complement, and are read as it.
pub proof fn i16_is_twos_complement(v: i16, stored: Seq<bool>)
    requires
        stored.len() == 16,
    ensures
        <i16 as BitCodec<i16>>::encode(&v).len() == 16,
        bits::bits_value(<i16 as BitCodec<i16>>::encode(&v)) == if v >= 0 {
            v as int
        } else {
            v + 0x1_0000
        },
        ({
            let n = bits::bits_value(stored) as int;
            let v = (if n < 0x8000 {
                n
            } else {
                n - 0x1_0000
            }) as i16;
            &&& v == if n < 0x8000 {
                n
            } else {
                n - 0x1_0000
            }
            &&& <i16 as BitCodec<i16>>::decode(stored) == Some(v)
            &&& <i16 as BitCodec<i16>>::try_decode(stored) == Some(Ok::<i16, i16>(v))
            &&& <i16 as BitCodec<i16>>::read_value(stored) == Some(v)
        }),
{
    power2::lemma2_to64();
    power2::lemma2_to64_rest();
    laws::value_is_bounded(stored);
    bit_lemmas::i16_word(v);
    laws::value_is_bounded(<i16 as BitCodec<i16>>::encode(&v));
}

/// The stored bits of an `i32` are its two's complement, and are read as it.
pub proof fn i32_is_twos_complement(v: i32, stored: Seq<bool>)
    requires
        stored.len() == 32,
    ensures
        <i32 as BitCodec<i32>>::encode(&v).len() == 32,
        bits::bits_value(<i32 as BitCodec<i32>>::encode(&v)) == if v >= 0 {
            v as int
        } else {
            v + 0x1_0000_0000
        },
        ({
            let n = bits::bits_value(stored) as int;
            let v = (if n < 0x8000_0000 {
                n
            } else {
                n - 0x1_0000_0000
            }) as i32;
            &&& v == if n < 0x8000_0000 {
                n
            } else {
                n - 0x1_0000_0000
            }
            &&& <i32 as BitCodec<i32>>::decode(stored) == Some(v)
            &&& <i32 as BitCodec<i32>>::try_decode(stored) == Some(Ok::<i32, i32>(v))
            &&& <i32 as BitCodec<i32>>::read_value(stored) == Some(v)
        }),
{
    power2::lemma2_to64();
    power2::lemma2_to64_rest();
    laws::value_is_bounded(stored);
    bit_lemmas::i32_word(v);
    laws::value_is_bounded(<i32 as BitCodec<i32>>::encode(&v));
}

/// The stored bits of an `i64` are its two's complement, and are read as it.
pub proof fn i64_is_twos_complement(v: i64, stored: Seq<bool>)
    requires
        stored.len() == 64,
    ensures
        <i64 as BitCodec<i64>>::encode(&v).len() == 64,
        bits::bits_value(<i64 as BitCodec<i64>>::encode(&v)) == if v >= 0 {
            v as int
        } else {
            v + 0x1_0000_0000_0000_0000
        },
        ({
            let n = bits::bits_value(stored) as int;
            let v = (if n < 0x8000_0000_0000_0000 {
                n
            } else {
                n - 0x1_0000_0000_0000_0000
            }) as i64;
            &&& v == if n < 0x8000_0000_0000_0000 {
                n
            } else {
                n - 0x1_0000_0000_0000_0000
            }
            &&& <i64 as BitCodec<i64>>::decode(stored) == Some(v)
            &&& <i64 as BitCodec<i64>>::try_decode(stored) == Some(Ok::<i64, i64>(v))
            &&& <i64 as BitCodec<i64>>::read_value(stored) == Some(v)
        }),
{
    power2::lemma2_to64();
    power2::lemma2_to64_rest();
    laws::value_is_bounded(stored);
    bit_lemmas::i64_word(v);
    laws::value_is_bounded(<i64 as BitCodec<i64>>::encode(&v));
}

/// The stored bits of an unsigned integer of an odd width stand for its number, and are read as it.
pub proof fn odd_width_is_binary<const W: usize>(v: UInt<W>, stored: Seq<bool>)
    requires
        v.wf(),
        stored.len() == W,
    ensures
        v.value < power2::pow2(W as nat),
        v.encode().len() == W,
        bits::bits_value(v.encode()) == v.value,
        <UInt<W> as BitCodec<UInt<W>>>::decode(stored) matches Some(r) && r.value
            == bits::bits_value(stored),
        <UInt<W> as BitCodec<UInt<W>>>::try_decode(stored) matches Some(Ok(r)) && r.value
            == bits::bits_value(stored),
        <UInt<W> as BitCodec<UInt<W>>>::read_value(stored) matches Some(r) && r.value
            == bits::bits_value(stored),
{
    UInt::<W>::decode_fits(stored);
    bit_lemmas::power_word(W as u64);
    bit_lemmas::small_word_value(v.value as u64, W as u64);
}

/// Numbers in a byte order: most significant byte first counts each byte 256 times the next one,
/// and the other order the other way round.
pub proof fn byte_orders_are_positional(bytes: Seq<u8>)
    ensures
        Big::value(Seq::empty()) == 0,
        Little::value(Seq::empty()) == 0,
        bytes.len() > 0 ==> Big::value(bytes) == 256 * Big::value(bytes.drop_last())
            + bytes.last(),
        bytes.len() > 0 ==> Little::value(bytes) == bytes[0] + 256 * Little::value(
            bytes.drop_first(),
        ),
{
    assert(Seq::<u8>::empty().reverse() =~= Seq::empty());
    if bytes.len() > 0 {
        assert(bytes.reverse().drop_first() =~= bytes.drop_last().reverse());
        assert(bytes.reverse()[0] == bytes.last());
    }
}

/// `2` stored bytes are read as the number that they stand for in their order, and a number is
/// stored as the bytes that stand for it.
pub proof fn u16_has_byte_order<O: ByteOrder>(v: u16, bytes: Seq<u8>)
    requires
        bytes.len() == 2,
    ensures
        ({
            let stored = bits::bit_seq(bytes, 0, 16);
            let n = O::value(bytes) as int;
            &&& <u16 as BitCodec<U16<O>>>::decode(stored) matches Some(r) && r == n
            &&& <u16 as BitCodec<U16<O>>>::try_decode(stored) matches Some(Ok(r)) && r == n
            &&& <u16 as BitCodec<U16<O>>>::read_value(stored) matches Some(r) && r == n
            &&& <U16<O> as BitCodec<U16<O>>>::decode(stored) matches Some(r) && r.bytes@ == bytes
                && r.value() == n
            &&& <U16<O> as BitCodec<U16<O>>>::try_decode(stored) matches Some(Ok(r)) && r.bytes@
                == bytes
            &&& <U16<O> as BitCodec<U16<O>>>::read_value(stored) matches Some(r) && r.bytes@
                == bytes
        }),
        exists|stored: Seq<u8>| #![auto]
            stored.len() == 2 && O::value(stored) == v as nat
                && <u16 as BitCodec<U16<O>>>::encode(&v) == bits::bit_seq(stored, 0, 16),
{
    power2::lemma2_to64();
    power2::lemma2_to64_rest();
    O::value_bound(bytes);
    let raw = U16::<O> { bytes: [bytes[0], bytes[1]], order: PhantomData };
    assert(raw.bytes@ =~= bytes);
    <U16<O> as SoundCodec<U16<O>>>::decode_encode(&raw);
    let unsigned = (v as int) as nat;
    O::bytes_len(unsigned, 2);
    O::value_of_bytes(unsigned, 2);
    assert(O::bytes(unsigned, 2).len() == 2);
}

/// `4` stored bytes are read as the number that they stand for in their order, and a number is
/// stored as the bytes that stand for it.
pub proof fn u32_has_byte_order<O: ByteOrder>(v: u32, bytes: Seq<u8>)
    requires
        bytes.len() == 4,
    ensures
        ({
            let stored = bits::bit_seq(bytes, 0, 32);
            let n = O::value(bytes) as int;
            &&& <u32 as BitCodec<U32<O>>>::decode(stored) matches Some(r) && r == n
            &&& <u32 as BitCodec<U32<O>>>::try_decode(stored) matches Some(Ok(r)) && r == n
            &&& <u32 as BitCodec<U32<O>>>::read_value(stored) matches Some(r) && r == n
            &&& <U32<O> as BitCodec<U32<O>>>::decode(stored) matches Some(r) && r.bytes@ == bytes
                && r.value() == n
            &&& <U32<O> as BitCodec<U32<O>>>::try_decode(stored) matches Some(Ok(r)) && r.bytes@
                == bytes
            &&& <U32<O> as BitCodec<U32<O>>>::read_value(stored) matches Some(r) && r.bytes@
                == bytes
        }),
        exists|stored: Seq<u8>| #![auto]
            stored.len() == 4 && O::value(stored) == v as nat
                && <u32 as BitCodec<U32<O>>>::encode(&v) == bits::bit_seq(stored, 0, 32),
{
    power2::lemma2_to64();
    power2::lemma2_to64_rest();
    O::value_bound(bytes);
    let raw = U32::<O> { bytes: [bytes[0], bytes[1], bytes[2], bytes[3]], order: PhantomData };
    assert(raw.bytes@ =~= bytes);
    <U32<O> as SoundCodec<U32<O>>>::decode_encode(&raw);
    let unsigned = (v as int) as nat;
    O::bytes_len(unsigned, 4);
    O::value_of_bytes(unsigned, 4);
    assert(O::bytes(unsigned, 4).len() == 4);
}

/// `8` stored bytes are read as the number that they stand for in their order, and a number is
/// stored as the bytes that stand for it.
pub proof fn u64_has_byte_order<O: ByteOrder>(v: u64, bytes: Seq<u8>)
    requires
        bytes.len() == 8,
    ensures
        ({
            let stored = bits::bit_seq(bytes, 0, 64);
            let n = O::value(bytes) as int;
            &&& <u64 as BitCodec<U64<O>>>::decode(stored) matches Some(r) && r == n
            &&& <u64 as BitCodec<U64<O>>>::try_decode(stored) matches Some(Ok(r)) && r == n
            &&& <u64 as BitCodec<U64<O>>>::read_value(stored) matches Some(r) && r == n
            &&& <U64<O> as BitCodec<U64<O>>>::decode(stored) matches Some(r) && r.bytes@ == bytes
                && r.value() == n
            &&& <U64<O> as BitCodec<U64<O>>>::try_decode(stored) matches Some(Ok(r)) && r.bytes@
                == bytes
            &&& <U64<O> as BitCodec<U64<O>>>::read_value(stored) matches Some(r) && r.bytes@
                == bytes
        }),
        exists|stored: Seq<u8>| #![auto]
            stored.len() == 8 && O::value(stored) == v as nat
                && <u64 as BitCodec<U64<O>>>::encode(&v) == bits::bit_seq(stored, 0, 64),
{
    power2::lemma2_to64();
    power2::lemma2_to64_rest();
    O::value_bound(bytes);
    let raw = U64::<O> { bytes: [bytes[0], bytes[1], bytes[2], bytes[3], bytes[4], bytes[5], bytes[6], bytes[7]], order: PhantomData };
    assert(raw.bytes@ =~= bytes);
    <U64<O> as SoundCodec<U64<O>>>::decode_encode(&raw);
    let unsigned = (v as int) as nat;
    O::bytes_len(unsigned, 8);
    O::value_of_bytes(unsigned, 8);
    assert(O::bytes(unsigned, 8).len() == 8);
}

/// `2` stored bytes are read as the signed number that they stand for in their order, and a number
/// is stored as the bytes that stand for it.
pub proof fn i16_has_byte_order<O: ByteOrder>(v: i16, bytes: Seq<u8>)
    requires
        bytes.len() == 2,
    ensures
        ({
            let stored = bits::bit_seq(bytes, 0, 16);
            let n = (if O::value(bytes) < 0x8000 {
                O::value(bytes) as int
            } else {
                O::value(bytes) - 0x1_0000
            });
            &&& <i16 as BitCodec<I16<O>>>::decode(stored) matches Some(r) && r == n
            &&& <i16 as BitCodec<I16<O>>>::try_decode(stored) matches Some(Ok(r)) && r == n
            &&& <i16 as BitCodec<I16<O>>>::read_value(stored) matches Some(r) && r == n
            &&& <I16<O> as BitCodec<I16<O>>>::decode(stored) matches Some(r) && r.bytes@ == bytes
                && r.value() == n
            &&& <I16<O> as BitCodec<I16<O>>>::try_decode(stored) matches Some(Ok(r)) && r.bytes@
                == bytes
            &&& <I16<O> as BitCodec<I16<O>>>::read_value(stored) matches Some(r) && r.bytes@
                == bytes
        }),
        exists|stored: Seq<u8>| #![auto]
            stored.len() == 2 && O::value(stored) == (if v >= 0 {
                v as int
            } else {
                v + 0x1_0000
            }) as nat
                && <i16 as BitCodec<I16<O>>>::encode(&v) == bits::bit_seq(stored, 0, 16),
{
    power2::lemma2_to64();
    power2::lemma2_to64_rest();
    O::value_bound(bytes);
    let raw = I16::<O> { bytes: [bytes[0], bytes[1]], order: PhantomData };
    assert(raw.bytes@ =~= bytes);
    <I16<O> as SoundCodec<I16<O>>>::decode_encode(&raw);
    let unsigned = (codec::unsigned_value(v as int, 16)) as nat;
    O::bytes_len(unsigned, 2);
    O::value_of_bytes(unsigned, 2);
    assert(O::bytes(unsigned, 2).len() == 2);
}

/// `4` stored bytes are read as the signed number that they stand for in their order, and a number
/// is stored as the bytes that stand for it.
pub proof fn i32_has_byte_order<O: ByteOrder>(v: i32, bytes: Seq<u8>)
    requires
        bytes.len() == 4,
    ensures
        ({
            let stored = bits::bit_seq(bytes, 0, 32);
            let n = (if O::value(bytes) < 0x8000_0000 {
                O::value(bytes) as int
            } else {
                O::value(bytes) - 0x1_0000_0000
            });
            &&& <i32 as BitCodec<I32<O>>>::decode(stored) matches Some(r) && r == n
            &&& <i32 as BitCodec<I32<O>>>::try_decode(stored) matches Some(Ok(r)) && r == n
            &&& <i32 as BitCodec<I32<O>>>::read_value(stored) matches Some(r) && r == n
            &&& <I32<O> as BitCodec<I32<O>>>::decode(stored) matches Some(r) && r.bytes@ == bytes
                && r.value() == n
            &&& <I32<O> as BitCodec<I32<O>>>::try_decode(stored) matches Some(Ok(r)) && r.bytes@
                == bytes
            &&& <I32<O> as BitCodec<I32<O>>>::read_value(stored) matches Some(r) && r.bytes@
                == bytes
        }),
        exists|stored: Seq<u8>| #![auto]
            stored.len() == 4 && O::value(stored) == (if v >= 0 {
                v as int
            } else {
                v + 0x1_0000_0000
            }) as nat
                && <i32 as BitCodec<I32<O>>>::encode(&v) == bits::bit_seq(stored, 0, 32),
{
    power2::lemma2_to64();
    power2::lemma2_to64_rest();
    O::value_bound(bytes);
    let raw = I32::<O> { bytes: [bytes[0], bytes[1], bytes[2], bytes[3]], order: PhantomData };
    assert(raw.bytes@ =~= bytes);
    <I32<O> as SoundCodec<I32<O>>>::decode_encode(&raw);
    let unsigned = (codec::unsigned_value(v as int, 32)) as nat;
    O::bytes_len(unsigned, 4);
    O::value_of_bytes(unsigned, 4);
    assert(O::bytes(unsigned, 4).len() == 4);
}

/// `8` stored bytes are read as the signed number that they stand for in their order, and a number
/// is stored as the bytes that stand for it.
pub proof fn i64_has_byte_order<O: ByteOrder>(v: i64, bytes: Seq<u8>)
    requires
        bytes.len() == 8,
    ensures
        ({
            let stored = bits::bit_seq(bytes, 0, 64);
            let n = (if O::value(bytes) < 0x8000_0000_0000_0000 {
                O::value(bytes) as int
            } else {
                O::value(bytes) - 0x1_0000_0000_0000_0000
            });
            &&& <i64 as BitCodec<I64<O>>>::decode(stored) matches Some(r) && r == n
            &&& <i64 as BitCodec<I64<O>>>::try_decode(stored) matches Some(Ok(r)) && r == n
            &&& <i64 as BitCodec<I64<O>>>::read_value(stored) matches Some(r) && r == n
            &&& <I64<O> as BitCodec<I64<O>>>::decode(stored) matches Some(r) && r.bytes@ == bytes
                && r.value() == n
            &&& <I64<O> as BitCodec<I64<O>>>::try_decode(stored) matches Some(Ok(r)) && r.bytes@
                == bytes
            &&& <I64<O> as BitCodec<I64<O>>>::read_value(stored) matches Some(r) && r.bytes@
                == bytes
        }),
        exists|stored: Seq<u8>| #![auto]
            stored.len() == 8 && O::value(stored) == (if v >= 0 {
                v as int
            } else {
                v + 0x1_0000_0000_0000_0000
            }) as nat
                && <i64 as BitCodec<I64<O>>>::encode(&v) == bits::bit_seq(stored, 0, 64),
{
    power2::lemma2_to64();
    power2::lemma2_to64_rest();
    O::value_bound(bytes);
    let raw = I64::<O> { bytes: [bytes[0], bytes[1], bytes[2], bytes[3], bytes[4], bytes[5], bytes[6], bytes[7]], order: PhantomData };
    assert(raw.bytes@ =~= bytes);
    <I64<O> as SoundCodec<I64<O>>>::decode_encode(&raw);
    let unsigned = (codec::unsigned_value(v as int, 64)) as nat;
    O::bytes_len(unsigned, 8);
    O::value_of_bytes(unsigned, 8);
    assert(O::bytes(unsigned, 8).len() == 8);
}

/// The elements of an array are stored one after the other, the first one first.
pub proof fn array_elements_are_in_order<T: SoundCodec<T>, const N: usize>(a: [T; N], i: int) where
    <T as BitCodec<T>>::Read: ReadShape<T, T, [T; N], [T; N]>,

    requires
        0 <= i < N,
        T::BITS * N <= usize::MAX,
    ensures
        a.encode().len() == T::BITS * N,
        0 <= i * T::BITS,
        i * T::BITS + T::BITS <= a.encode().len(),
        a.encode().subrange(i * T::BITS, i * T::BITS + T::BITS) == a@[i].encode(),
{
    array_codec::array_codecs::<T, N>();
    a.encode_len();
    a@[i].encode_len();
    array_codec::element_of_array(a, i);
    array_codec::element_end(i, N as int, T::BITS as int);
    assert(a.encode().subrange(i * T::BITS, i * T::BITS + T::BITS) =~= array_codec::element(
        a.encode(),
        T::BITS as nat,
        i,
    ));
}

/// Each element of an array that is read stands for its own bits.
pub proof fn array_elements_are_read_in_order<T: SoundCodec<T>, const N: usize>(
    stored: Seq<bool>,
    i: int,
) where <T as BitCodec<T>>::Read: ReadShape<T, T, [T; N], [T; N]>,
    requires
        0 <= i < N,
        T::BITS * N <= usize::MAX,
        stored.len() == T::BITS * N,
    ensures
        <[T; N] as BitCodec<[T; N]>>::decode(stored) matches Some(a) ==> T::decode(
            stored.subrange(i * T::BITS, i * T::BITS + T::BITS),
        ) == Some(a@[i]),
        <[T; N] as BitCodec<[T; N]>>::try_decode(stored) matches Some(Ok(a)) ==> T::try_decode(
            stored.subrange(i * T::BITS, i * T::BITS + T::BITS),
        ) == Some(Ok::<T, T>(a@[i])),
        <[T; N] as BitCodec<[T; N]>>::try_decode(stored) matches Some(Err(a)) ==> (T::try_decode(
            stored.subrange(i * T::BITS, i * T::BITS + T::BITS),
        ) == Some(Ok::<T, T>(a@[i])) || T::try_decode(
            stored.subrange(i * T::BITS, i * T::BITS + T::BITS),
        ) == Some(Err::<T, T>(a@[i]))),
{
    array_codec::element_end(i, N as int, T::BITS as int);
    assert(stored.subrange(i * T::BITS, i * T::BITS + T::BITS) =~= array_codec::element(
        stored,
        T::BITS as nat,
        i,
    ));
    array_codec::reads_are_settled::<T, N>(stored);
}

/// A packed value is stored as the first bits of its bytes; what is read has those bits and is
/// clear behind them.
pub proof fn packed_value_is_its_first_bits<const N: usize, const W: usize>(
    v: Packed<N, W>,
    stored: Seq<bool>,
    i: int,
)
    requires
        W <= 8 * N,
        stored.len() == W,
        0 <= i < 8 * N,
    ensures
        v.encode().len() == W,
        i < W ==> v.encode()[i] == bits::bit_at(v.bytes@, i),
        <Packed<N, W> as BitCodec<Packed<N, W>>>::decode(stored) matches Some(r)
            && bits::bit_at(r.bytes@, i) == (i < W && stored[i]),
        <Packed<N, W> as BitCodec<Packed<N, W>>>::try_decode(stored) matches Some(Ok(r))
            && bits::bit_at(r.bytes@, i) == (i < W && stored[i]),
        <Packed<N, W> as BitCodec<Packed<N, W>>>::read_value(stored) matches Some(r)
            && bits::bit_at(r.bytes@, i) == (i < W && stored[i]),
{
    Packed::<N, W>::decode_unpacks(stored);
    laws::clear_bytes_have_clear_bits(N as nat);
}

/// The elements of a repeated field start where the field starts, and each lies one stride behind
/// the one before it.
pub proof fn elements_are_a_stride_apart(bit_offset: usize, stride: usize, index: int)
    ensures
        views::element_offset(bit_offset, stride, 0) == bit_offset,
        views::element_offset(bit_offset, stride, index + 1) == views::element_offset(
            bit_offset,
            stride,
            index,
        ) + stride,
{
    assert((index + 1) * stride == index * stride + stride) by (nonlinear_arith);
}

} // verus!

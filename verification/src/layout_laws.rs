//! What holds of stored bytes, stored discriminants and fields that may be absent.
use crate::bits;
use crate::byte_repr::ByteLayout;
use crate::codec::{BitCodec, SoundCodec};
use crate::data_type::endian::order::ByteOrder;
use crate::data_type::endian::signed::{I16, I32, I64};
use crate::data_type::endian::unsigned;
use crate::data_type::endian::unsigned::{U16, U32, U64};
use crate::data_type::small::UInt;
use crate::enum_codec;
use crate::enum_codec::DiscriminantStorage;
use crate::views;
use vstd::arithmetic::power2;
use vstd::prelude::*;

verus! {

/// Bytes and arrays of bytes are stored as they are.
pub proof fn bytes_are_stored_as_they_are<const N: usize>(byte: u8, array: [u8; N])
    ensures
        <u8 as ByteLayout>::size() == 1,
        byte.repr().len() == 1,
        byte.repr()[0] == byte,
        <[u8; N] as ByteLayout>::size() == N,
        array.repr() == array@,
        forall|n: nat| (#[trigger] bits::zero_bytes(n)).len() == n,
        forall|n: nat, i: int| 0 <= i < n ==> #[trigger] bits::zero_bytes(n)[i] == 0,
{
}

/// Endian-aware integers are stored as their bytes, and stand for the number that these stand for
/// in their order.
pub proof fn unsigned_integers_are_their_bytes<O: ByteOrder>(short: U16<O>, word: U32<O>, long: U64<O>)
    ensures
        <U16<O> as ByteLayout>::size() == 2,
        short.repr() == short.bytes@,
        short.value() == O::value(short.bytes@),
        <U32<O> as ByteLayout>::size() == 4,
        word.repr() == word.bytes@,
        word.value() == O::value(word.bytes@),
        <U64<O> as ByteLayout>::size() == 8,
        long.repr() == long.bytes@,
        long.value() == O::value(long.bytes@),
{
}

/// Signed endian-aware integers are stored as their bytes, and stand for the number that these
/// stand for in their order, in two's complement.
pub proof fn signed_integers_are_their_bytes<O: ByteOrder>(short: I16<O>, word: I32<O>, long: I64<O>)
    ensures
        <I16<O> as ByteLayout>::size() == 2,
        short.repr() == short.bytes@,
        O::value(short.bytes@) < 0x8000 ==> short.value() == O::value(short.bytes@),
        O::value(short.bytes@) >= 0x8000 ==> short.value() == O::value(short.bytes@) - 0x1_0000,
        <I32<O> as ByteLayout>::size() == 4,
        word.repr() == word.bytes@,
        O::value(word.bytes@) < 0x8000_0000 ==> word.value() == O::value(word.bytes@),
        O::value(word.bytes@) >= 0x8000_0000 ==> word.value() == O::value(word.bytes@)
            - 0x1_0000_0000,
        <I64<O> as ByteLayout>::size() == 8,
        long.repr() == long.bytes@,
        O::value(long.bytes@) < 0x8000_0000_0000_0000 ==> long.value() == O::value(long.bytes@),
        O::value(long.bytes@) >= 0x8000_0000_0000_0000 ==> long.value() == O::value(long.bytes@)
            - 0x1_0000_0000_0000_0000,
{
    power2::lemma2_to64();
    power2::lemma2_to64_rest();
}

/// An endian-aware integer as a field of its own is stored as its bytes, and all reads of those
/// give it back.
pub proof fn unsigned_integers_are_read_as_stored<O: ByteOrder>(
    short: U16<O>,
    word: U32<O>,
    long: U64<O>,
)
    ensures
        short.encode() == bits::bit_seq(short.bytes@, 0, 16),
        <U16<O> as BitCodec<U16<O>>>::decode(short.encode()) == Some(short),
        <U16<O> as BitCodec<U16<O>>>::try_decode(short.encode()) == Some(
            Ok::<U16<O>, U16<O>>(short),
        ),
        <U16<O> as BitCodec<U16<O>>>::read_value(short.encode()) == Some(short),
        word.encode() == bits::bit_seq(word.bytes@, 0, 32),
        <U32<O> as BitCodec<U32<O>>>::decode(word.encode()) == Some(word),
        <U32<O> as BitCodec<U32<O>>>::try_decode(word.encode()) == Some(Ok::<U32<O>, U32<O>>(word)),
        <U32<O> as BitCodec<U32<O>>>::read_value(word.encode()) == Some(word),
        long.encode() == bits::bit_seq(long.bytes@, 0, 64),
        <U64<O> as BitCodec<U64<O>>>::decode(long.encode()) == Some(long),
        <U64<O> as BitCodec<U64<O>>>::try_decode(long.encode()) == Some(Ok::<U64<O>, U64<O>>(long)),
        <U64<O> as BitCodec<U64<O>>>::read_value(long.encode()) == Some(long),
{
    short.decode_encode();
    word.decode_encode();
    long.decode_encode();
}

/// A signed endian-aware integer as a field of its own is stored as its bytes, and all reads of
/// those give it back.
pub proof fn signed_integers_are_read_as_stored<O: ByteOrder>(
    short: I16<O>,
    word: I32<O>,
    long: I64<O>,
)
    ensures
        short.encode() == bits::bit_seq(short.bytes@, 0, 16),
        <I16<O> as BitCodec<I16<O>>>::decode(short.encode()) == Some(short),
        <I16<O> as BitCodec<I16<O>>>::try_decode(short.encode()) == Some(
            Ok::<I16<O>, I16<O>>(short),
        ),
        <I16<O> as BitCodec<I16<O>>>::read_value(short.encode()) == Some(short),
        word.encode() == bits::bit_seq(word.bytes@, 0, 32),
        <I32<O> as BitCodec<I32<O>>>::decode(word.encode()) == Some(word),
        <I32<O> as BitCodec<I32<O>>>::try_decode(word.encode()) == Some(Ok::<I32<O>, I32<O>>(word)),
        <I32<O> as BitCodec<I32<O>>>::read_value(word.encode()) == Some(word),
        long.encode() == bits::bit_seq(long.bytes@, 0, 64),
        <I64<O> as BitCodec<I64<O>>>::decode(long.encode()) == Some(long),
        <I64<O> as BitCodec<I64<O>>>::try_decode(long.encode()) == Some(Ok::<I64<O>, I64<O>>(long)),
        <I64<O> as BitCodec<I64<O>>>::read_value(long.encode()) == Some(long),
{
    short.decode_encode();
    word.decode_encode();
    long.decode_encode();
}

/// A discriminant is stored in a native integer as its own number, or its remainder where the
/// integer is too narrow for it.
pub proof fn discriminants_are_numbers(
    discriminant: u32,
    byte: u8,
    short: u16,
    word: u32,
    long: u64,
)
    ensures
        enum_codec::holds_discriminant(byte, discriminant) <==> byte == discriminant % 0x100,
        enum_codec::holds_discriminant(short, discriminant) <==> short == discriminant % 0x1_0000,
        enum_codec::holds_discriminant(word, discriminant) <==> word == discriminant,
        enum_codec::holds_discriminant(long, discriminant) <==> long == discriminant,
{
    crate::codec::native_codecs();
    power2::lemma2_to64();
    power2::lemma2_to64_rest();
    vstd::arithmetic::div_mod::lemma_small_mod(discriminant as nat, power2::pow2(32));
    vstd::arithmetic::div_mod::lemma_small_mod(discriminant as nat, power2::pow2(64));
}

/// A discriminant is stored in an integer of an odd width as its own number, or its remainder where
/// the integer is too narrow for it.
pub proof fn odd_width_discriminants_are_numbers<const W: usize>(discriminant: u32, raw: UInt<W>)
    ensures
        enum_codec::holds_discriminant(raw, discriminant) <==> raw.value == discriminant as nat
            % power2::pow2(W as nat),
{
    UInt::<W>::codec_width();
}

/// A discriminant is stored in an endian-aware integer as its own number in that byte order, or its
/// remainder where the integer is too narrow for it.
pub proof fn endian_discriminants_are_numbers<O: ByteOrder>(
    discriminant: u32,
    short: U16<O>,
    word: U32<O>,
    long: U64<O>,
)
    ensures
        enum_codec::holds_discriminant(short, discriminant) <==> O::value(short.bytes@)
            == discriminant % 0x1_0000,
        enum_codec::holds_discriminant(word, discriminant) <==> O::value(word.bytes@)
            == discriminant,
        enum_codec::holds_discriminant(long, discriminant) <==> O::value(long.bytes@)
            == discriminant,
{
    unsigned::unsigned_codecs::<O>();
    power2::lemma2_to64();
    power2::lemma2_to64_rest();
    vstd::arithmetic::div_mod::lemma_small_mod(discriminant as nat, power2::pow2(32));
    vstd::arithmetic::div_mod::lemma_small_mod(discriminant as nat, power2::pow2(64));
}

proof fn first_position(discriminants: Seq<u32>, value: nat, from: int)
    requires
        0 <= from <= discriminants.len(),
    ensures
        match enum_codec::variant_from(discriminants, value, from) {
            Some(i) => from <= i < discriminants.len() && discriminants[i] == value && forall|
                j: int,
            |
                from <= j < i ==> discriminants[j] != value,
            None => forall|j: int| from <= j < discriminants.len() ==> discriminants[j] != value,
        },
    decreases discriminants.len() - from,
{
    if from < discriminants.len() && discriminants[from] != value {
        first_position(discriminants, value, from + 1);
    }
}

/// Stored bits stand for the first variant whose discriminant is the stored number, and for none if
/// no variant has it.
pub proof fn variants_are_found_by_number<S: DiscriminantStorage>(
    stored: Seq<bool>,
    discriminants: Seq<u32>,
    raw: S,
)
    requires
        <S as BitCodec<S>>::decode(stored) == Some(raw),
    ensures
        match enum_codec::stored_variant::<S>(stored, discriminants) {
            Some(i) => 0 <= i < discriminants.len() && discriminants[i] == raw.number() && forall|
                j: int,
            |
                0 <= j < i ==> discriminants[j] != raw.number(),
            None => forall|j: int|
                0 <= j < discriminants.len() ==> discriminants[j] != raw.number(),
        },
{
    first_position(discriminants, raw.number(), 0);
}

/// A field that may be absent is absent exactly if all its bits are clear; otherwise it holds the
/// value that its stored bits stand for. Bits are looked for only inside the buffer.
pub proof fn fields_are_absent_while_clear<T: BitCodec<S>, S>(
    bytes: Seq<u8>,
    offset: int,
    count: int,
)
    ensures
        (forall|i: int|
            offset <= i < offset + count && i < 8 * bytes.len() ==> !(#[trigger] bits::bit_at(
                bytes,
                i,
            ))) ==> views::zeroed_option::<T, S>(bytes, offset, count) is None,
        (exists|i: int|
            offset <= i < offset + count && i < 8 * bytes.len() && #[trigger] bits::bit_at(
                bytes,
                i,
            )) ==> views::zeroed_option::<T, S>(bytes, offset, count) == T::decode(
            Seq::new(T::BITS as nat, |i: int| bits::bit_at(bytes, offset + i)),
        ),
        views::stored::<T, S>(bytes, offset) == Seq::new(
            T::BITS as nat,
            |i: int| bits::bit_at(bytes, offset + i),
        ),
{
}

/// Every native value can be stored, at any bit offset.
pub proof fn native_values_can_be_stored(
    flag: bool,
    unsigned: (u8, u16, u32, u64),
    signed: (i8, i16, i32, i64),
    offset: int,
)
    ensures
        <bool as BitCodec<bool>>::storable(&flag) && <bool as BitCodec<bool>>::reachable(offset),
        <u8 as BitCodec<u8>>::storable(&unsigned.0) && <u8 as BitCodec<u8>>::reachable(offset),
        <u16 as BitCodec<u16>>::storable(&unsigned.1) && <u16 as BitCodec<u16>>::reachable(offset),
        <u32 as BitCodec<u32>>::storable(&unsigned.2) && <u32 as BitCodec<u32>>::reachable(offset),
        <u64 as BitCodec<u64>>::storable(&unsigned.3) && <u64 as BitCodec<u64>>::reachable(offset),
        <i8 as BitCodec<i8>>::storable(&signed.0) && <i8 as BitCodec<i8>>::reachable(offset),
        <i16 as BitCodec<i16>>::storable(&signed.1) && <i16 as BitCodec<i16>>::reachable(offset),
        <i32 as BitCodec<i32>>::storable(&signed.2) && <i32 as BitCodec<i32>>::reachable(offset),
        <i64 as BitCodec<i64>>::storable(&signed.3) && <i64 as BitCodec<i64>>::reachable(offset),
{
}

} // verus!

//! What holds of the library as a whole.
//!
//! The contracts of single functions speak of bit sequences and of the bytes before and after a
//! call. The laws here say how several calls go together.
use crate::bit_lemmas;
use crate::bits;
use crate::byte_repr::SoundLayout;
use crate::codec;
use crate::codec::{BitCodec, SoundCodec};
use crate::data_type::endian::order;
use crate::data_type::endian::{Big, ByteOrder, Little, I16, I32, I64, U16, U32, U64};
use crate::views;
use crate::views::BitArrayView;
use vstd::arithmetic::div_mod;
use vstd::arithmetic::power2;
use vstd::prelude::*;

verus! {

/// A run of `n` bits stands for a number below `2^n`.
pub proof fn value_is_bounded(stored: Seq<bool>)
    ensures
        bits::bits_value(stored) < power2::pow2(stored.len()),
{
    bit_lemmas::value_bound(stored);
}

/// Two runs of bits that follow each other stand for the low number plus the high one shifted up by
/// the length of the low run.
pub proof fn adjacent_values_add(low: Seq<bool>, high: Seq<bool>)
    ensures
        bits::bits_value(low + high) == bits::bits_value(low) + power2::pow2(low.len())
            * bits::bits_value(high),
    decreases low.len(),
{
    if low.len() == 0 {
        power2::lemma2_to64();
        assert(low + high =~= high);
    } else {
        let rest = low.drop_first();
        adjacent_values_add(rest, high);
        assert((low + high).drop_first() =~= rest + high);
        power2::lemma_pow2_unfold(low.len());
        let p = power2::pow2(rest.len()) as int;
        let h = bits::bits_value(high) as int;
        assert(2 * (p * h) == (2 * p) * h) by (nonlinear_arith);
    }
}

/// Runs of bits of the same length that stand for the same number are the same.
pub proof fn value_determines_bits(a: Seq<bool>, b: Seq<bool>)
    requires
        a.len() == b.len(),
        bits::bits_value(a) == bits::bits_value(b),
    ensures
        a == b,
    decreases a.len(),
{
    if a.len() > 0 {
        value_determines_bits(a.drop_first(), b.drop_first());
        assert(seq![a[0]] + a.drop_first() =~= a);
        assert(seq![b[0]] + b.drop_first() =~= b);
    } else {
        assert(a =~= b);
    }
}

/// The `n` lowest bits of a word stand for its remainder modulo `2^n`.
pub proof fn low_bits_are_remainder(w: u64, n: nat)
    requires
        n <= 64,
    ensures
        bits::bits_value(bits::word_bits(w, n)) == w as nat % power2::pow2(n),
{
    let low = bits::word_bits(w, n);
    let all = bits::word_bits(w, 64);
    let high = all.skip(n as int);
    assert(low + high =~= all);
    bit_lemmas::word_value(w, 64);
    adjacent_values_add(low, high);
    bit_lemmas::value_bound(low);
    let p = power2::pow2(n) as int;
    let h = bits::bits_value(high) as int;
    assert(p * h == h * p) by (nonlinear_arith);
    div_mod::lemma_fundamental_div_mod_converse_mod(
        w as int,
        p,
        h,
        bits::bits_value(low) as int,
    );
}

/// What was written is read back: exactly the bits that were written, which stand for the written
/// value modulo `2^n`.
pub proof fn written_value_is_read(
    new: Seq<u8>,
    old_bytes: Seq<u8>,
    offset: int,
    count: nat,
    value: u64,
)
    requires
        0 <= offset,
        count <= 64,
        bits::in_range(old_bytes.len(), offset, count as int),
        bits::overwritten(new, old_bytes, offset, bits::word_bits(value, count)),
    ensures
        bits::bit_seq(new, offset, count) == bits::word_bits(value, count),
        bits::bits_value(bits::bit_seq(new, offset, count)) == value as nat % power2::pow2(count),
{
    written_bits_are_read(new, old_bytes, offset, bits::word_bits(value, count));
    low_bits_are_remainder(value, count);
}

/// Bits that were written are read back.
pub proof fn written_bits_are_read(
    new: Seq<u8>,
    old_bytes: Seq<u8>,
    offset: int,
    written: Seq<bool>,
)
    requires
        0 <= offset,
        bits::in_range(old_bytes.len(), offset, written.len() as int),
        bits::overwritten(new, old_bytes, offset, written),
    ensures
        bits::bit_seq(new, offset, written.len()) == written,
{
    assert forall|i: int| 0 <= i < written.len() implies bits::bit_seq(
        new,
        offset,
        written.len(),
    )[i] == written[i] by {
        assert(bits::bit_at(new, offset + i) == written[i]);
    }
    assert(bits::bit_seq(new, offset, written.len()) =~= written);
}

/// A write leaves every other run of bits as it was.
pub proof fn write_keeps_other_bits(
    new: Seq<u8>,
    old_bytes: Seq<u8>,
    offset: int,
    written: Seq<bool>,
    other: int,
    count: nat,
)
    requires
        0 <= other,
        bits::in_range(old_bytes.len(), other, count as int),
        other + count <= offset || offset + written.len() <= other,
        bits::overwritten(new, old_bytes, offset, written),
    ensures
        bits::bit_seq(new, other, count) == bits::bit_seq(old_bytes, other, count),
{
    assert forall|i: int| 0 <= i < count implies bits::bit_seq(new, other, count)[i]
        == bits::bit_seq(old_bytes, other, count)[i] by {
        assert(bits::bit_at(new, other + i) == bits::bit_at(old_bytes, other + i));
    }
    assert(bits::bit_seq(new, other, count) =~= bits::bit_seq(old_bytes, other, count));
}

/// Buffers of the same length with the same bits are the same.
pub proof fn bits_determine_bytes(a: Seq<u8>, b: Seq<u8>)
    requires
        a.len() == b.len(),
        forall|i: int| 0 <= i < 8 * a.len() ==> bits::bit_at(a, i) == bits::bit_at(b, i),
    ensures
        a == b,
{
    assert(bits::bit_seq(a, 0, 8 * a.len()) =~= bits::bit_seq(b, 0, 8 * a.len()));
    bit_lemmas::same_bytes(a, b);
}

/// What a write leaves behind is determined by the buffer before it and by what was written.
pub proof fn write_is_determined(
    a: Seq<u8>,
    b: Seq<u8>,
    old_bytes: Seq<u8>,
    offset: int,
    written: Seq<bool>,
)
    requires
        bits::overwritten(a, old_bytes, offset, written),
        bits::overwritten(b, old_bytes, offset, written),
    ensures
        a == b,
{
    bits_determine_bytes(a, b);
}

/// Writing what is there already changes nothing.
pub proof fn rewriting_changes_nothing(
    new: Seq<u8>,
    old_bytes: Seq<u8>,
    offset: int,
    count: nat,
)
    requires
        bits::overwritten(
            new,
            old_bytes,
            offset,
            bits::bit_seq(old_bytes, offset, count),
        ),
    ensures
        new == old_bytes,
{
    bits_determine_bytes(new, old_bytes);
}

/// Of two writes to the same bits only the later one counts.
pub proof fn later_write_counts(
    last: Seq<u8>,
    middle: Seq<u8>,
    first: Seq<u8>,
    offset: int,
    earlier: Seq<bool>,
    later: Seq<bool>,
)
    requires
        earlier.len() == later.len(),
        bits::overwritten(middle, first, offset, earlier),
        bits::overwritten(last, middle, offset, later),
    ensures
        bits::overwritten(last, first, offset, later),
{
}

/// Writes to bits that do not overlap can be made in any order.
pub proof fn disjoint_writes_commute(
    start: Seq<u8>,
    one: Seq<u8>,
    one_two: Seq<u8>,
    two: Seq<u8>,
    two_one: Seq<u8>,
    offset1: int,
    bits1: Seq<bool>,
    offset2: int,
    bits2: Seq<bool>,
)
    requires
        offset1 + bits1.len() <= offset2 || offset2 + bits2.len() <= offset1,
        bits::overwritten(one, start, offset1, bits1),
        bits::overwritten(one_two, one, offset2, bits2),
        bits::overwritten(two, start, offset2, bits2),
        bits::overwritten(two_one, two, offset1, bits1),
    ensures
        one_two == two_one,
{
    bits_determine_bytes(one_two, two_one);
}

/// Bits that were cleared are found to be clear.
pub proof fn cleared_bits_are_zero(new: Seq<u8>, old_bytes: Seq<u8>, offset: int, count: nat)
    requires
        0 <= offset,
        bits::overwritten(new, old_bytes, offset, bits::zero_bits(count)),
    ensures
        bits::all_zero(new, offset, count as int),
{
    assert forall|i: int|
        offset <= i < offset + count && i < 8 * new.len() implies !(#[trigger] bits::bit_at(
        new,
        i,
    )) by {
        assert(bits::bit_at(new, i) == bits::zero_bits(count)[i - offset]);
    }
}

/// Bits are found to be clear exactly if they stand for zero.
pub proof fn clear_bits_stand_for_zero(bytes: Seq<u8>, offset: int, count: nat)
    requires
        0 <= offset,
        bits::in_range(bytes.len(), offset, count as int),
    ensures
        bits::all_zero(bytes, offset, count as int) == (bits::bits_value(
            bits::bit_seq(bytes, offset, count),
        ) == 0),
{
    let stored = bits::bit_seq(bytes, offset, count);
    bit_lemmas::zero_value(stored);
    if bits::bits_value(stored) == 0 {
        assert forall|i: int|
            offset <= i < offset + count && i < 8 * bytes.len() implies !(#[trigger] bits::bit_at(
            bytes,
            i,
        )) by {
            assert(stored[i - offset] == bits::bit_at(bytes, i));
        }
    }
}

/// Copying bits out of a buffer and the copy into another leaves what copying directly leaves.
pub proof fn copies_compose(
    src: Seq<u8>,
    from: int,
    middle: Seq<u8>,
    middle_before: Seq<u8>,
    at: int,
    dst: Seq<u8>,
    dst_before: Seq<u8>,
    to: int,
    count: nat,
)
    requires
        0 <= at,
        bits::in_range(middle_before.len(), at, count as int),
        bits::overwritten(middle, middle_before, at, bits::bit_seq(src, from, count)),
        bits::overwritten(dst, dst_before, to, bits::bit_seq(middle, at, count)),
    ensures
        bits::overwritten(dst, dst_before, to, bits::bit_seq(src, from, count)),
{
    written_bits_are_read(middle, middle_before, at, bits::bit_seq(src, from, count));
}

/// Copying all bits of a buffer over another one of the same length makes them equal.
pub proof fn whole_copy_is_equal(new: Seq<u8>, old_bytes: Seq<u8>, src: Seq<u8>)
    requires
        old_bytes.len() == src.len(),
        bits::overwritten(new, old_bytes, 0, bits::bit_seq(src, 0, 8 * src.len())),
    ensures
        new == src,
{
    assert forall|i: int| 0 <= i < 8 * new.len() implies bits::bit_at(new, i) == bits::bit_at(
        src,
        i,
    ) by {
        assert(bits::bit_at(new, i) == bits::bit_seq(src, 0, 8 * src.len())[i]);
    }
    bits_determine_bytes(new, src);
}

/// A value that its stored bits tell apart is read back as it was written.
pub proof fn written_codec_value_is_read<T: SoundCodec<S>, S>(
    value: T,
    new: Seq<u8>,
    old_bytes: Seq<u8>,
    offset: int,
)
    requires
        value.storable(),
        0 <= offset,
        bits::in_range(old_bytes.len(), offset, T::BITS as int),
        bits::overwritten(new, old_bytes, offset, value.encode()),
    ensures
        T::decode(bits::bit_seq(new, offset, T::BITS as nat)) == Some(value),
        T::try_decode(bits::bit_seq(new, offset, T::BITS as nat)) == Some(Ok::<T, S>(value)),
        T::read_value(bits::bit_seq(new, offset, T::BITS as nat)) matches Some(read) && T::as_result(
            read,
        ) == Ok::<T, S>(value),
{
    value.encode_len();
    value.decode_encode();
    T::try_decode_agrees(value.encode());
    T::read_agrees(value.encode());
    written_bits_are_read(new, old_bytes, offset, value.encode());
}

/// An element of a view whose codec cannot fail is always there, and the checked read finds the
/// same value as the public and the plain one.
pub proof fn infallible_elements_are_found<T: SoundCodec<S>, S>(
    view: BitArrayView<'_, T, S>,
    index: int,
)
    requires
        !T::IS_FALLIBLE,
        0 <= index < view.len,
        views::has_room::<T, S>(view.bytes@.len(), view.offset(index)),
    ensures
        ({
            let stored = views::stored::<T, S>(view.bytes@, view.offset(index));
            &&& T::decode(stored) is Some
            &&& T::try_decode(stored) == Some(Ok::<T, S>(T::decode(stored)->Some_0))
            &&& T::read_value(stored) matches Some(read) && T::as_result(read) == Ok::<T, S>(
                T::decode(stored)->Some_0,
            )
        }),
{
    let stored = views::stored::<T, S>(view.bytes@, view.offset(index));
    T::infallible_decodes_all(stored);
    T::try_decode_agrees(stored);
    T::read_agrees(stored);
}

/// If reading gives plain values and cannot fail, the checked read of an element is `Ok` of what
/// the public read gives.
pub proof fn plain_elements_are_found<T: SoundCodec<S, Read = T>, S>(
    view: BitArrayView<'_, T, S>,
    index: int,
)
    requires
        !T::IS_FALLIBLE,
        forall|v: T| #[trigger] T::as_result(v) == Ok::<T, S>(v),
        0 <= index < view.len,
        views::has_room::<T, S>(view.bytes@.len(), view.offset(index)),
    ensures
        T::read_value(views::stored::<T, S>(view.bytes@, view.offset(index))) matches Some(v)
            && T::try_decode(views::stored::<T, S>(view.bytes@, view.offset(index))) == Some(
            Ok::<T, S>(v),
        ),
{
    infallible_elements_are_found(view, index);
}

proof fn elements_apart(bit_offset: usize, stride: usize, i: int, j: int, width: int)
    requires
        0 <= i,
        0 <= j,
        i != j,
        0 <= width <= stride,
    ensures
        views::element_offset(bit_offset, stride, i) >= bit_offset,
        views::element_offset(bit_offset, stride, i) + width <= views::element_offset(
            bit_offset,
            stride,
            j,
        ) || views::element_offset(bit_offset, stride, j) + width <= views::element_offset(
            bit_offset,
            stride,
            i,
        ),
{
    assert(0 <= i * stride) by (nonlinear_arith)
        requires
            0 <= i,
    ;
    if i < j {
        assert(i * stride + stride <= j * stride) by (nonlinear_arith)
            requires
                i < j,
        ;
    } else {
        assert(j * stride + stride <= i * stride) by (nonlinear_arith)
            requires
                j < i,
        ;
    }
}

/// An element that was set is found at its index, and setting it changes no other element, as long
/// as elements do not overlap.
pub proof fn set_element_is_found<T: SoundCodec<S>, S>(
    new: Seq<u8>,
    old_bytes: Seq<u8>,
    bit_offset: usize,
    stride: usize,
    index: int,
    value: T,
    other: int,
)
    requires
        0 <= index,
        0 <= other,
        T::BITS <= stride,
        value.storable(),
        views::has_room::<T, S>(
            old_bytes.len(),
            views::element_offset(bit_offset, stride, index),
        ),
        views::has_room::<T, S>(
            old_bytes.len(),
            views::element_offset(bit_offset, stride, other),
        ),
        bits::overwritten(
            new,
            old_bytes,
            views::element_offset(bit_offset, stride, index),
            value.encode(),
        ),
    ensures
        T::decode(
            views::stored::<T, S>(new, views::element_offset(bit_offset, stride, index)),
        ) == Some(value),
        index != other ==> views::stored::<T, S>(
            new,
            views::element_offset(bit_offset, stride, other),
        ) == views::stored::<T, S>(
            old_bytes,
            views::element_offset(bit_offset, stride, other),
        ),
{
    value.encode_len();
    let offset = views::element_offset(bit_offset, stride, index);
    elements_apart(bit_offset, stride, index, index + 1, T::BITS as int);
    written_codec_value_is_read::<T, S>(value, new, old_bytes, offset);
    if index != other {
        elements_apart(bit_offset, stride, other, index, T::BITS as int);
        write_keeps_other_bits(
            new,
            old_bytes,
            offset,
            value.encode(),
            views::element_offset(bit_offset, stride, other),
            T::BITS as nat,
        );
    }
}

/// A field whose clear bits mean that there is no value holds what was last stored: nothing, if its
/// bits were cleared, and otherwise the stored value, if its bits are not all clear.
pub proof fn stored_option_is_found<T: SoundCodec<S>, S>(
    new: Seq<u8>,
    old_bytes: Seq<u8>,
    offset: int,
    value: Option<T>,
)
    requires
        0 <= offset,
        bits::in_range(old_bytes.len(), offset, T::BITS as int),
        bits::overwritten(
            new,
            old_bytes,
            offset,
            match value {
                Some(v) => v.encode(),
                None => bits::zero_bits(T::BITS as nat),
            },
        ),
        value matches Some(v) ==> v.storable() && bits::bits_value(v.encode()) != 0,
    ensures
        views::zeroed_option::<T, S>(new, offset, T::BITS as int) == value,
{
    match value {
        None => {
            cleared_bits_are_zero(new, old_bytes, offset, T::BITS as nat);
        },
        Some(v) => {
            v.encode_len();
            written_bits_are_read(new, old_bytes, offset, v.encode());
            clear_bits_stand_for_zero(new, offset, T::BITS as nat);
            written_codec_value_is_read::<T, S>(v, new, old_bytes, offset);
        },
    }
}

/// All bits of zero bytes are clear.
pub proof fn clear_bytes_have_clear_bits(n: nat)
    ensures
        forall|i: int|
            0 <= i < 8 * n ==> !(#[trigger] bits::bit_at(bits::zero_bytes(n), i)),
{
    assert forall|i: int| 0 <= i < 8 * n implies !(#[trigger] bits::bit_at(
        bits::zero_bytes(n),
        i,
    )) by {
        bit_lemmas::clear_byte((i % 8) as u8);
    }
}

/// A packed value is read back as it was written, if everything behind its packed bits is clear.
pub proof fn written_packed_value_is_read<T: SoundLayout>(
    value: T,
    read: T,
    new: Seq<u8>,
    old_bytes: Seq<u8>,
    offset: int,
    count: nat,
)
    requires
        0 <= offset,
        bits::in_range(old_bytes.len(), offset, count as int),
        bits::overwritten(new, old_bytes, offset, bits::bit_seq(value.repr(), 0, count)),
        bits::overwritten(
            read.repr(),
            bits::zero_bytes(T::size()),
            0,
            bits::bit_seq(new, offset, count),
        ),
        bits::all_zero(value.repr(), count as int, 8 * T::size() as int),
    ensures
        read == value,
{
    written_bits_are_read(new, old_bytes, offset, bits::bit_seq(value.repr(), 0, count));
    value.repr_len();
    read.repr_len();
    let zeros = bits::zero_bytes(T::size());
    clear_bytes_have_clear_bits(T::size());
    assert forall|i: int| 0 <= i < 8 * T::size() implies bits::bit_at(read.repr(), i)
        == bits::bit_at(value.repr(), i) by {
        if i < count {
            assert(bits::bit_seq(value.repr(), 0, count)[i] == bits::bit_at(value.repr(), i));
        } else {
            assert(!bits::bit_at(value.repr(), i));
            assert(!bits::bit_at(zeros, i));
        }
    }
    bits_determine_bytes(read.repr(), value.repr());
    T::same_repr(&read, &value);
}

proof fn byte_value(b: u8)
    ensures
        bits::bits_value(bits::bit_seq(seq![b], 0, 8)) == b,
{
    let w = b as u64;
    bit_lemmas::power_word(8);
    power2::lemma2_to64();
    bit_lemmas::small_word_value(w, 8);
    assert forall|j: int| 0 <= j < 8 implies #[trigger] bits::word_bit(w, j) == bits::byte_bit(
        b,
        j,
    ) by {
        bit_lemmas::byte_as_word_bit(b, j as u8, j as u64);
    }
    assert(bits::bit_seq(seq![b], 0, 8) =~= bits::word_bits(w, 8));
}

/// Bytes in little-endian order stand for the number that their bits stand for.
pub proof fn little_endian_is_bit_order(bytes: Seq<u8>)
    ensures
        order::le_value(bytes) == bits::bits_value(bits::bit_seq(bytes, 0, 8 * bytes.len())),
    decreases bytes.len(),
{
    if bytes.len() > 0 {
        let rest = bytes.drop_first();
        let low = bits::bit_seq(seq![bytes[0]], 0, 8);
        let high = bits::bit_seq(rest, 0, 8 * rest.len());
        little_endian_is_bit_order(rest);
        byte_value(bytes[0]);
        adjacent_values_add(low, high);
        power2::lemma2_to64();
        assert forall|i: int| 0 <= i < 8 * bytes.len() implies bits::bit_seq(
            bytes,
            0,
            8 * bytes.len(),
        )[i] == (low + high)[i] by {
            if i >= 8 {
                assert(rest[(i - 8) / 8] == bytes[i / 8]);
            }
        }
        assert(bits::bit_seq(bytes, 0, 8 * bytes.len()) =~= low + high);
    }
}

/// The little-endian bytes of a number that fits them hold its bits in order.
pub proof fn little_endian_bytes_hold_bits(w: u64, n: nat)
    requires
        n <= 8,
        w < power2::pow2(8 * n),
    ensures
        order::le_bytes(w as nat, n).len() == n,
        bits::bit_seq(order::le_bytes(w as nat, n), 0, 8 * n) == bits::word_bits(w, 8 * n),
{
    let bytes = order::le_bytes(w as nat, n);
    Little::bytes_len(w as nat, n);
    Little::value_of_bytes(w as nat, n);
    little_endian_is_bit_order(bytes);
    low_bits_are_remainder(w, 8 * n);
    div_mod::lemma_small_mod(w as nat, power2::pow2(8 * n));
    value_determines_bits(bits::bit_seq(bytes, 0, 8 * n), bits::word_bits(w, 8 * n));
}

/// Big-endian storage holds the bytes of little-endian storage in reverse.
pub proof fn big_endian_is_reversed(v: nat, n: nat, bytes: Seq<u8>)
    ensures
        Big::bytes(v, n) == Little::bytes(v, n).reverse(),
        Big::value(bytes) == Little::value(bytes.reverse()),
{
}

/// A `u16` in little-endian storage is stored and read like one in native bit order.
pub proof fn little_endian_u16_is_native(value: u16, stored: Seq<bool>)
    requires
        stored.len() == 16,
    ensures
        BitCodec::<U16<Little>>::encode(&value) == BitCodec::<u16>::encode(&value),
        <u16 as BitCodec<U16<Little>>>::decode(stored) == <u16 as BitCodec<u16>>::decode(stored),
{
    power2::lemma2_to64();
    little_endian_bytes_hold_bits(value as u64, 2);
    value_is_bounded(stored);
    let w = bits::bits_value(stored) as u16;
    little_endian_bytes_hold_bits(w as u64, 2);
    low_bits_are_remainder(w as u64, 16);
    value_determines_bits(stored, bits::word_bits(w as u64, 16));
    <u16 as SoundCodec<U16<Little>>>::decode_encode(&w);
}

/// A `u32` in little-endian storage is stored and read like one in native bit order.
pub proof fn little_endian_u32_is_native(value: u32, stored: Seq<bool>)
    requires
        stored.len() == 32,
    ensures
        BitCodec::<U32<Little>>::encode(&value) == BitCodec::<u32>::encode(&value),
        <u32 as BitCodec<U32<Little>>>::decode(stored) == <u32 as BitCodec<u32>>::decode(stored),
{
    power2::lemma2_to64();
    little_endian_bytes_hold_bits(value as u64, 4);
    value_is_bounded(stored);
    let w = bits::bits_value(stored) as u32;
    little_endian_bytes_hold_bits(w as u64, 4);
    low_bits_are_remainder(w as u64, 32);
    value_determines_bits(stored, bits::word_bits(w as u64, 32));
    <u32 as SoundCodec<U32<Little>>>::decode_encode(&w);
}

/// A `u64` in little-endian storage is stored and read like one in native bit order.
pub proof fn little_endian_u64_is_native(value: u64, stored: Seq<bool>)
    requires
        stored.len() == 64,
    ensures
        BitCodec::<U64<Little>>::encode(&value) == BitCodec::<u64>::encode(&value),
        <u64 as BitCodec<U64<Little>>>::decode(stored) == <u64 as BitCodec<u64>>::decode(stored),
{
    power2::lemma2_to64();
    little_endian_bytes_hold_bits(value, 8);
    value_is_bounded(stored);
    let w = bits::bits_value(stored) as u64;
    little_endian_bytes_hold_bits(w, 8);
    low_bits_are_remainder(w, 64);
    value_determines_bits(stored, bits::word_bits(w, 64));
    <u64 as SoundCodec<U64<Little>>>::decode_encode(&w);
}

/// An `i16` in little-endian storage is stored and read like one in native bit order.
pub proof fn little_endian_i16_is_native(value: i16, stored: Seq<bool>)
    requires
        stored.len() == 16,
    ensures
        BitCodec::<I16<Little>>::encode(&value) == BitCodec::<i16>::encode(&value),
        <i16 as BitCodec<I16<Little>>>::decode(stored) == <i16 as BitCodec<i16>>::decode(stored),
{
    power2::lemma2_to64();
    power2::lemma2_to64_rest();
    little_endian_bytes_hold_bits(codec::unsigned_value(value as int, 16) as u64, 2);
    value_is_bounded(stored);
    let word = bits::bits_value(stored) as u64;
    let w = codec::signed_value(bits::bits_value(stored), 16) as i16;
    assert(codec::unsigned_value(w as int, 16) == word);
    little_endian_bytes_hold_bits(word, 2);
    low_bits_are_remainder(word, 16);
    value_determines_bits(stored, bits::word_bits(word, 16));
    <i16 as SoundCodec<I16<Little>>>::decode_encode(&w);
}

/// An `i32` in little-endian storage is stored and read like one in native bit order.
pub proof fn little_endian_i32_is_native(value: i32, stored: Seq<bool>)
    requires
        stored.len() == 32,
    ensures
        BitCodec::<I32<Little>>::encode(&value) == BitCodec::<i32>::encode(&value),
        <i32 as BitCodec<I32<Little>>>::decode(stored) == <i32 as BitCodec<i32>>::decode(stored),
{
    power2::lemma2_to64();
    power2::lemma2_to64_rest();
    little_endian_bytes_hold_bits(codec::unsigned_value(value as int, 32) as u64, 4);
    value_is_bounded(stored);
    let word = bits::bits_value(stored) as u64;
    let w = codec::signed_value(bits::bits_value(stored), 32) as i32;
    assert(codec::unsigned_value(w as int, 32) == word);
    little_endian_bytes_hold_bits(word, 4);
    low_bits_are_remainder(word, 32);
    value_determines_bits(stored, bits::word_bits(word, 32));
    <i32 as SoundCodec<I32<Little>>>::decode_encode(&w);
}

/// An `i64` in little-endian storage is stored and read like one in native bit order.
pub proof fn little_endian_i64_is_native(value: i64, stored: Seq<bool>)
    requires
        stored.len() == 64,
    ensures
        BitCodec::<I64<Little>>::encode(&value) == BitCodec::<i64>::encode(&value),
        <i64 as BitCodec<I64<Little>>>::decode(stored) == <i64 as BitCodec<i64>>::decode(stored),
{
    power2::lemma2_to64();
    power2::lemma2_to64_rest();
    little_endian_bytes_hold_bits(codec::unsigned_value(value as int, 64) as u64, 8);
    value_is_bounded(stored);
    let word = bits::bits_value(stored) as u64;
    let w = codec::signed_value(bits::bits_value(stored), 64) as i64;
    assert(codec::unsigned_value(w as int, 64) == word);
    little_endian_bytes_hold_bits(word, 8);
    low_bits_are_remainder(word, 64);
    value_determines_bits(stored, bits::word_bits(word, 64));
    <i64 as SoundCodec<I64<Little>>>::decode_encode(&w);
}

} // verus!

use crate::bits;
use crate::codec;
use crate::laws;
use vstd::arithmetic::power2;
use vstd::prelude::*;

verus! {

pub(crate) proof fn or_byte_bit(buf: u64, b: u8, k: u64, j: u64)
    by (bit_vector)
    requires
        k <= 56,
        j < 64,
    ensures
        ((buf | ((b as u64) << k)) >> j) & 1 == 1 <==> ((buf >> j) & 1 == 1 || (k <= j && j < k + 8
            && (b >> ((j - k) as u8)) & 1 == 1)),
{
}

pub(crate) proof fn shr_bit(w: u64, s: u64, j: u64)
    by (bit_vector)
    requires
        s < 64,
        j < 64,
    ensures
        ((w >> s) >> j) & 1 == 1 <==> (j + s < 64 && (w >> ((j + s) as u64)) & 1 == 1),
{
}

pub(crate) proof fn shl_bit(w: u64, s: u64, j: u64)
    by (bit_vector)
    requires
        s < 64,
        j < 64,
    ensures
        ((w << s) >> j) & 1 == 1 <==> (j >= s && (w >> ((j - s) as u64)) & 1 == 1),
{
}

pub(crate) proof fn low_mask_bit(n: u64, j: u64)
    by (bit_vector)
    requires
        n < 64,
        j < 64,
    ensures
        1u64 << n >= 1,
        ((((1u64 << n) - 1) as u64) >> j) & 1 == 1 <==> j < n,
{
}

pub(crate) proof fn logic_bit(a: u64, b: u64, j: u64)
    by (bit_vector)
    requires
        j < 64,
    ensures
        ((a | b) >> j) & 1 == 1 <==> ((a >> j) & 1 == 1 || (b >> j) & 1 == 1),
        ((a & b) >> j) & 1 == 1 <==> ((a >> j) & 1 == 1 && (b >> j) & 1 == 1),
        ((!a) >> j) & 1 == 1 <==> !((a >> j) & 1 == 1),
        (0u64 >> j) & 1 != 1,
{
}

pub(crate) proof fn byte_of_word_bit(w: u64, k: u64, j: u64)
    by (bit_vector)
    requires
        k <= 56,
        j < 8,
    ensures
        (((w >> k) as u8) >> (j as u8)) & 1 == 1 <==> (w >> ((k + j) as u64)) & 1 == 1,
{
}

pub(crate) proof fn merge_byte_bit(old: u8, v: u8, m: u8, e: u8, j: u8)
    by (bit_vector)
    requires
        e < 8,
        j < 8,
        m == ((1u8 << e) - 1),
    ensures
        (((old & !m) | (v & m)) >> j) & 1 == 1 <==> (if j < e {
            (v >> j) & 1 == 1
        } else {
            (old >> j) & 1 == 1
        }),
{
}

pub(crate) proof fn high_byte_bit(b: u8, k: u64, j: u64)
    by (bit_vector)
    requires
        56 < k < 64,
        j < 64,
    ensures
        (((b as u64) << k) >> j) & 1 == 1 <==> (k <= j && (b >> ((j - k) as u8)) & 1 == 1),
{
}

pub(crate) proof fn low_byte_mask(e: u8)
    by (bit_vector)
    requires
        e < 8,
    ensures
        1u8 << e >= 1,
{
}

/// Bit `j` of `buf` with the bits under `hole` replaced by the `mask`ed part of `val`, moved up
/// by `s`.
pub(crate) proof fn patched_bit(buf: u64, hole: u64, val: u64, mask: u64, s: u64, j: int)
    requires
        s < 64,
        0 <= j < 64,
    ensures
        bits::word_bit((buf & !hole) | ((val & mask) << s), j) == ((bits::word_bit(buf, j) && !bits::word_bit(
            hole,
            j,
        )) || (s <= j && bits::word_bit(val, j - s) && bits::word_bit(mask, j - s))),
{
    logic_bit(buf & !hole, (val & mask) << s, j as u64);
    logic_bit(buf, !hole, j as u64);
    logic_bit(hole, hole, j as u64);
    shl_bit(val & mask, s, j as u64);
    if s <= j {
        logic_bit(val, mask, (j - s) as u64);
    }
}

pub(crate) proof fn complement_bit(w: u64, j: int)
    requires
        0 <= j < 64,
    ensures
        bits::word_bit(!w, j) == !bits::word_bit(w, j),
{
    logic_bit(w, w, j as u64);
}

pub(crate) proof fn shifted_bit(w: u64, s: u64, j: int)
    requires
        s < 64,
        0 <= j < 64,
    ensures
        bits::word_bit(w << s, j) == (s <= j && bits::word_bit(w, j - s)),
{
    shl_bit(w, s, j as u64);
}

/// Bit `e` of the part of the masked `val` that is left above bit `k`.
pub(crate) proof fn carried_bit(val: u64, mask: u64, k: u64, e: int)
    requires
        56 < k < 64,
        0 <= e < 8,
        e + k < 64,
    ensures
        bits::byte_bit(((val & mask) >> k) as u8, e) == (bits::word_bit(val, k + e)
            && bits::word_bit(mask, k + e)),
{
    carried_word_bit(val & mask, k, e as u64);
    logic_bit(val, mask, (k + e) as u64);
}

proof fn carried_word_bit(w: u64, k: u64, e: u64)
    by (bit_vector)
    requires
        56 < k < 64,
        e < 8,
        e + k < 64,
    ensures
        (((w >> k) as u8) >> (e as u8)) & 1 == 1 <==> (w >> ((k + e) as u64)) & 1 == 1,
{
}

proof fn drop_top_bit(w: u64, k: u64)
    by (bit_vector)
    requires
        k < 63,
        w >> ((k + 1) as u64) == 0,
        (w >> k) & 1 != 1,
    ensures
        w >> k == 0,
{
}

proof fn no_bits_from(w: u64, k: u64)
    requires
        k < 64,
        forall|j: int| 0 <= j < 64 ==> !(#[trigger] bits::word_bit(w, j)),
    ensures
        w >> k == 0,
    decreases 64 - k,
{
    assert(!bits::word_bit(w, k as int));
    if k == 63 {
        assert((w >> 63u64) & 1 != 1 ==> w >> 63u64 == 0) by (bit_vector);
    } else {
        no_bits_from(w, (k + 1) as u64);
        drop_top_bit(w, k);
    }
}

proof fn halve(w: u64)
    by (bit_vector)
    ensures
        w == 2 * (w >> 1u64) + (w & 1u64),
        w >> 0u64 == w,
        (w & 1u64) == 0 || (w & 1u64) == 1,
{
}

/// A word with no bit set from `n` on is the number that its `n` lowest bits stand for.
pub(crate) proof fn word_value(w: u64, n: nat)
    requires
        n <= 64,
        forall|j: int| n <= j < 64 ==> !(#[trigger] bits::word_bit(w, j)),
    ensures
        bits::bits_value(bits::word_bits(w, n)) == w,
    decreases n,
{
    halve(w);
    if n == 0 {
        no_bits_from(w, 0);
    } else {
        let h = w >> 1u64;
        assert forall|j: int| 0 <= j < 64 implies #[trigger] bits::word_bit(h, j) == (j + 1 < 64
            && bits::word_bit(w, j + 1)) by {
            shr_bit(w, 1, j as u64);
        }
        word_value(h, (n - 1) as nat);
        assert(bits::word_bits(w, n).drop_first() =~= bits::word_bits(h, (n - 1) as nat));
        assert(bits::word_bit(w, 0) == ((w >> 0u64) & 1 == 1));
    }
}

/// A run of clear bits stands for zero, and only such a run does.
pub(crate) proof fn zero_value(bits: Seq<bool>)
    ensures
        bits::bits_value(bits) == 0 <==> forall|i: int|
            0 <= i < bits.len() ==> !(#[trigger] bits[i]),
    decreases bits.len(),
{
    if bits.len() > 0 {
        let rest = bits.drop_first();
        zero_value(rest);
        if forall|i: int| 0 <= i < bits.len() ==> !(#[trigger] bits[i]) {
            assert forall|i: int| 0 <= i < rest.len() implies !(#[trigger] rest[i]) by {
                assert(rest[i] == bits[i + 1]);
            }
        }
        if bits::bits_value(bits) == 0 {
            assert forall|i: int| 0 <= i < bits.len() implies !(#[trigger] bits[i]) by {
                if i > 0 {
                    assert(rest[i - 1] == bits[i]);
                }
            }
        }
    }
}

pub(crate) proof fn word_is_zero(w: u64, bytes: Seq<u8>, offset: int, n: nat)
    requires
        0 <= offset,
        offset + n <= 8 * bytes.len(),
        w == bits::bits_value(bits::bit_seq(bytes, offset, n)),
    ensures
        w == 0 <==> bits::all_zero(bytes, offset, n as int),
{
    let bits = bits::bit_seq(bytes, offset, n);
    zero_value(bits);
    if w == 0 {
        assert forall|i: int|
            offset <= i < offset + n && i < 8 * bytes.len() implies !(#[trigger] bits::bit_at(
            bytes,
            i,
        )) by {
            assert(bits[i - offset] == bits::bit_at(bytes, i));
        }
    }
}

pub(crate) proof fn zero_word_bits(n: nat)
    requires
        n <= 64,
    ensures
        bits::word_bits(0, n) == bits::zero_bits(n),
{
    assert forall|j: int| 0 <= j < n implies !(#[trigger] bits::word_bit(0u64, j)) by {
        logic_bit(0, 0, j as u64);
    }
    assert(bits::word_bits(0, n) =~= bits::zero_bits(n));
}

proof fn high_bit_clear(w: u64, n: u64, j: u64)
    by (bit_vector)
    requires
        n <= j < 64,
        w < (1u64 << n),
    ensures
        (w >> j) & 1 != 1,
{
}

/// A word below `2^n` is the number that its `n` lowest bits stand for.
pub(crate) proof fn small_word_value(w: u64, n: u64)
    requires
        n <= 64,
        n < 64 ==> w < (1u64 << n),
    ensures
        bits::bits_value(bits::word_bits(w, n as nat)) == w,
{
    assert forall|j: int| n <= j < 64 implies !(#[trigger] bits::word_bit(w, j)) by {
        high_bit_clear(w, n, j as u64);
    }
    word_value(w, n as nat);
}

/// A run of bits stands for a number below the power of two of its length.
pub(crate) proof fn value_bound(bits: Seq<bool>)
    ensures
        bits::bits_value(bits) < power2::pow2(bits.len()),
    decreases bits.len(),
{
    if bits.len() == 0 {
        power2::lemma2_to64();
    } else {
        value_bound(bits.drop_first());
        power2::lemma_pow2_unfold(bits.len());
    }
}

/// What the lowest 8 bits of a word stand for in two's complement.
pub(crate) proof fn word_as_i8(bits: Seq<bool>, w: u64)
    requires
        bits.len() == 8,
        w == bits::bits_value(bits),
    ensures
        w as i8 == codec::signed_value(bits::bits_value(bits), 8),
{
    value_bound(bits);
    power2::lemma2_to64();
    power2::lemma2_to64_rest();
    assert(w <= 0xff ==> (w as i8) == if w < 0x80 {
        w as int
    } else {
        w - 0x100
    }) by (bit_vector);
}

proof fn i8_low_bit(v: i8, u: u64, j: u64)
    by (bit_vector)
    requires
        j < 8,
        u == if v < 0 {
            v + 0x100
        } else {
            v as int
        },
    ensures
        ((v as u64) >> j) & 1 == (u >> j) & 1,
{
}

/// The lowest 8 bits of a sign-extended word are those of the value in two's complement.
pub(crate) proof fn i8_word(v: i8)
    ensures
        bits::word_bits(v as u64, 8) == bits::word_bits(
            codec::unsigned_value(v as int, 8) as u64,
            8,
        ),
        codec::signed_value(
            bits::bits_value(
                bits::word_bits(codec::unsigned_value(v as int, 8) as u64, 8),
            ),
            8,
        ) == v,
{
    power2::lemma2_to64();
    power2::lemma2_to64_rest();
    let u = codec::unsigned_value(v as int, 8) as u64;
    assert forall|j: int| 0 <= j < 8 implies bits::word_bit(v as u64, j) == bits::word_bit(
        u,
        j,
    ) by {
        i8_low_bit(v, u, j as u64);
    }
    assert(bits::word_bits(v as u64, 8) =~= bits::word_bits(u, 8));
    assert((1u64 << 8u64) == 0x100) by (bit_vector);
    small_word_value(u, 8);
}

/// What the lowest 16 bits of a word stand for in two's complement.
pub(crate) proof fn word_as_i16(bits: Seq<bool>, w: u64)
    requires
        bits.len() == 16,
        w == bits::bits_value(bits),
    ensures
        w as i16 == codec::signed_value(bits::bits_value(bits), 16),
{
    value_bound(bits);
    power2::lemma2_to64();
    power2::lemma2_to64_rest();
    assert(w <= 0xffff ==> (w as i16) == if w < 0x8000 {
        w as int
    } else {
        w - 0x10000
    }) by (bit_vector);
}

proof fn i16_low_bit(v: i16, u: u64, j: u64)
    by (bit_vector)
    requires
        j < 16,
        u == if v < 0 {
            v + 0x10000
        } else {
            v as int
        },
    ensures
        ((v as u64) >> j) & 1 == (u >> j) & 1,
{
}

/// The lowest 16 bits of a sign-extended word are those of the value in two's complement.
pub(crate) proof fn i16_word(v: i16)
    ensures
        bits::word_bits(v as u64, 16) == bits::word_bits(
            codec::unsigned_value(v as int, 16) as u64,
            16,
        ),
        codec::signed_value(
            bits::bits_value(
                bits::word_bits(codec::unsigned_value(v as int, 16) as u64, 16),
            ),
            16,
        ) == v,
{
    power2::lemma2_to64();
    power2::lemma2_to64_rest();
    let u = codec::unsigned_value(v as int, 16) as u64;
    assert forall|j: int| 0 <= j < 16 implies bits::word_bit(v as u64, j) == bits::word_bit(
        u,
        j,
    ) by {
        i16_low_bit(v, u, j as u64);
    }
    assert(bits::word_bits(v as u64, 16) =~= bits::word_bits(u, 16));
    assert((1u64 << 16u64) == 0x10000) by (bit_vector);
    small_word_value(u, 16);
}

/// What the lowest 32 bits of a word stand for in two's complement.
pub(crate) proof fn word_as_i32(bits: Seq<bool>, w: u64)
    requires
        bits.len() == 32,
        w == bits::bits_value(bits),
    ensures
        w as i32 == codec::signed_value(bits::bits_value(bits), 32),
{
    value_bound(bits);
    power2::lemma2_to64();
    power2::lemma2_to64_rest();
    assert(w <= 0xffffffff ==> (w as i32) == if w < 0x80000000 {
        w as int
    } else {
        w - 0x100000000
    }) by (bit_vector);
}

proof fn i32_low_bit(v: i32, u: u64, j: u64)
    by (bit_vector)
    requires
        j < 32,
        u == if v < 0 {
            v + 0x100000000
        } else {
            v as int
        },
    ensures
        ((v as u64) >> j) & 1 == (u >> j) & 1,
{
}

/// The lowest 32 bits of a sign-extended word are those of the value in two's complement.
pub(crate) proof fn i32_word(v: i32)
    ensures
        bits::word_bits(v as u64, 32) == bits::word_bits(
            codec::unsigned_value(v as int, 32) as u64,
            32,
        ),
        codec::signed_value(
            bits::bits_value(
                bits::word_bits(codec::unsigned_value(v as int, 32) as u64, 32),
            ),
            32,
        ) == v,
{
    power2::lemma2_to64();
    power2::lemma2_to64_rest();
    let u = codec::unsigned_value(v as int, 32) as u64;
    assert forall|j: int| 0 <= j < 32 implies bits::word_bit(v as u64, j) == bits::word_bit(
        u,
        j,
    ) by {
        i32_low_bit(v, u, j as u64);
    }
    assert(bits::word_bits(v as u64, 32) =~= bits::word_bits(u, 32));
    assert((1u64 << 32u64) == 0x100000000) by (bit_vector);
    small_word_value(u, 32);
}

/// What the lowest 64 bits of a word stand for in two's complement.
pub(crate) proof fn word_as_i64(bits: Seq<bool>, w: u64)
    requires
        bits.len() == 64,
        w == bits::bits_value(bits),
    ensures
        w as i64 == codec::signed_value(bits::bits_value(bits), 64),
{
    value_bound(bits);
    power2::lemma2_to64();
    power2::lemma2_to64_rest();
    assert(w <= 0xffffffffffffffff ==> (w as i64) == if w < 0x8000000000000000 {
        w as int
    } else {
        w - 0x10000000000000000
    }) by (bit_vector);
}

proof fn i64_low_bit(v: i64, u: u64, j: u64)
    by (bit_vector)
    requires
        j < 64,
        u == if v < 0 {
            v + 0x10000000000000000
        } else {
            v as int
        },
    ensures
        ((v as u64) >> j) & 1 == (u >> j) & 1,
{
}

/// The lowest 64 bits of a sign-extended word are those of the value in two's complement.
pub(crate) proof fn i64_word(v: i64)
    ensures
        bits::word_bits(v as u64, 64) == bits::word_bits(
            codec::unsigned_value(v as int, 64) as u64,
            64,
        ),
        codec::signed_value(
            bits::bits_value(
                bits::word_bits(codec::unsigned_value(v as int, 64) as u64, 64),
            ),
            64,
        ) == v,
{
    power2::lemma2_to64();
    power2::lemma2_to64_rest();
    let u = codec::unsigned_value(v as int, 64) as u64;
    assert forall|j: int| 0 <= j < 64 implies bits::word_bit(v as u64, j) == bits::word_bit(
        u,
        j,
    ) by {
        i64_low_bit(v, u, j as u64);
    }
    assert(bits::word_bits(v as u64, 64) =~= bits::word_bits(u, 64));
    small_word_value(u, 64);
}

proof fn byte_from_bits(a: u8, b: u8)
    by (bit_vector)
    requires
        (a >> 0u8) & 1 == (b >> 0u8) & 1,
        (a >> 1u8) & 1 == (b >> 1u8) & 1,
        (a >> 2u8) & 1 == (b >> 2u8) & 1,
        (a >> 3u8) & 1 == (b >> 3u8) & 1,
        (a >> 4u8) & 1 == (b >> 4u8) & 1,
        (a >> 5u8) & 1 == (b >> 5u8) & 1,
        (a >> 6u8) & 1 == (b >> 6u8) & 1,
        (a >> 7u8) & 1 == (b >> 7u8) & 1,
    ensures
        a == b,
{
}

proof fn bit_is_binary(a: u8, j: u8)
    by (bit_vector)
    ensures
        (a >> j) & 1 == 0 || (a >> j) & 1 == 1,
{
}

pub(crate) proof fn byte_as_word_bit(b: u8, j: u8, k: u64)
    by (bit_vector)
    requires
        j < 8,
        k == j,
    ensures
        (((b as u64) >> k) & 1 == 1) == ((b >> j) & 1 == 1),
{
}

pub(crate) proof fn clear_byte(j: u8)
    by (bit_vector)
    ensures
        (0u8 >> j) & 1 != 1,
{
}

/// Bytes with the same bits are the same.
pub(crate) proof fn same_bytes(a: Seq<u8>, b: Seq<u8>)
    requires
        a.len() == b.len(),
        bits::bit_seq(a, 0, 8 * a.len()) == bits::bit_seq(b, 0, 8 * a.len()),
    ensures
        a == b,
{
    assert forall|k: int| 0 <= k < a.len() implies a[k] == b[k] by {
        assert forall|j: u8| j < 8 implies #[trigger] (a[k] >> j) & 1 == (b[k] >> j) & 1 by {
            let p = 8 * k + j;
            assert(bits::bit_seq(a, 0, 8 * a.len())[p] == bits::bit_at(a, p));
            assert(bits::bit_seq(b, 0, 8 * a.len())[p] == bits::bit_at(b, p));
            bit_is_binary(a[k], j);
            bit_is_binary(b[k], j);
        }
        byte_from_bits(a[k], b[k]);
    }
    assert(a =~= b);
}

/// Shifting one up by `n` gives the power of two.
pub(crate) proof fn power_word(n: u64)
    requires
        n < 64,
    ensures
        (1u64 << n) == power2::pow2(n as nat),
    decreases n,
{
    power2::lemma2_to64();
    if n == 0 {
        assert(1u64 << 0u64 == 1) by (bit_vector);
    } else {
        let m = (n - 1) as u64;
        power_word(m);
        power2::lemma_pow2_unfold(n as nat);
        double_power(m, n);
    }
}

proof fn double_power(m: u64, n: u64)
    by (bit_vector)
    requires
        m < 63,
        n == m + 1,
    ensures
        (1u64 << n) == 2 * (1u64 << m),
{
}

/// There is a byte with any eight bits.
proof fn byte_with_bits(b: Seq<bool>) -> (r: u8)
    requires
        b.len() == 8,
    ensures
        forall|j: int| 0 <= j < 8 ==> bits::byte_bit(r, j) == b[j],
{
    value_bound(b);
    power2::lemma2_to64();
    let w = bits::bits_value(b) as u64;
    let r = w as u8;
    laws::low_bits_are_remainder(w, 8);
    vstd::arithmetic::div_mod::lemma_small_mod(w as nat, power2::pow2(8));
    laws::value_determines_bits(bits::word_bits(w, 8), b);
    assert forall|j: int| 0 <= j < 8 implies bits::byte_bit(r, j) == b[j] by {
        byte_as_word_bit(r, j as u8, j as u64);
        assert(bits::word_bits(w, 8)[j] == b[j]);
    }
    r
}

/// There are bytes that have any bits in front and are clear behind them.
pub(crate) proof fn bytes_with_bits(n: nat, b: Seq<bool>) -> (r: Seq<u8>)
    requires
        b.len() <= 8 * n,
    ensures
        r.len() == n,
        forall|i: int| 0 <= i < 8 * n ==> #[trigger] bits::bit_at(r, i) == (i < b.len() && b[i]),
    decreases n,
{
    if n == 0 {
        Seq::empty()
    } else {
        let m = (n - 1) as nat;
        let low = if b.len() <= 8 * m {
            b
        } else {
            b.take(8 * m as int)
        };
        let front = bytes_with_bits(m, low);
        let last = byte_with_bits(
            Seq::new(8, |j: int| 8 * m + j < b.len() && b[8 * m + j]),
        );
        let r = front.push(last);
        assert forall|i: int| 0 <= i < 8 * n implies #[trigger] bits::bit_at(r, i) == (i < b.len()
            && b[i]) by {
            if i < 8 * m {
                assert(bits::bit_at(front, i) == bits::bit_at(r, i));
            } else {
                assert(r[i / 8] == last);
                assert(bits::byte_bit(last, i % 8) == (8 * m + i % 8 < b.len() && b[8 * m + i
                    % 8]));
            }
        }
        r
    }
}

} // verus!

//! Bit-level access to packed binary data.
//!
//! Every function treats a byte slice as a little-endian bit array: bit 0 is the least
//! significant bit of byte 0, bit 8 the least significant bit of byte 1, and so on.
use crate::bit_lemmas;
use vstd::prelude::*;

verus! {

/// Bit `i` of the byte `b`, counted from the least significant one.
pub open spec fn byte_bit(b: u8, i: int) -> bool {
    (b >> (i as u8)) & 1 == 1
}

/// Bit `i` of the word `w`, counted from the least significant one.
pub open spec fn word_bit(w: u64, i: int) -> bool {
    (w >> (i as u64)) & 1 == 1
}

/// Bit `i` of a byte sequence in LSB0 order.
pub open spec fn bit_at(bytes: Seq<u8>, i: int) -> bool {
    byte_bit(bytes[i / 8], i % 8)
}

/// The `count` bits of `bytes` that start at bit `offset`.
pub open spec fn bit_seq(bytes: Seq<u8>, offset: int, count: nat) -> Seq<bool> {
    Seq::new(count, |i: int| bit_at(bytes, offset + i))
}

/// The `count` lowest bits of `w`.
pub open spec fn word_bits(w: u64, count: nat) -> Seq<bool> {
    Seq::new(count, |i: int| word_bit(w, i))
}

/// The number that a bit sequence stands for, least significant bit first.
pub open spec fn bits_value(bits: Seq<bool>) -> nat
    decreases bits.len(),
{
    if bits.len() == 0 {
        0
    } else {
        (if bits[0] {
            1nat
        } else {
            0nat
        }) + 2 * bits_value(bits.drop_first())
    }
}

/// Whether `count` bits at `offset` lie inside a buffer of `len` bytes. No bits lie anywhere.
pub open spec fn in_range(len: nat, offset: int, count: int) -> bool {
    count == 0 || offset + count <= 8 * len
}

/// Whether `new` is `old` with the bits from `offset` on replaced by `bits`.
pub open spec fn overwritten(new: Seq<u8>, old: Seq<u8>, offset: int, bits: Seq<bool>) -> bool {
    &&& new.len() == old.len()
    &&& forall|i: int|
        0 <= i < 8 * old.len() ==> #[trigger] bit_at(new, i) == if offset <= i < offset
            + bits.len() {
            bits[i - offset]
        } else {
            bit_at(old, i)
        }
}

/// Where the last block of up to 64 bits starts in a run of `count` bits.
pub open spec fn last_block(count: int) -> int {
    if count == 0 {
        0
    } else {
        64 * ((count - 1) / 64)
    }
}

/// A run of `count` cleared bits.
pub open spec fn zero_bits(count: nat) -> Seq<bool> {
    Seq::new(count, |i: int| false)
}

/// `n` zero bytes.
pub open spec fn zero_bytes(n: nat) -> Seq<u8> {
    Seq::new(n, |i: int| 0u8)
}

/// Whether every bit from `offset` up to `offset + count` that lies in `bytes` is clear.
pub open spec fn all_zero(bytes: Seq<u8>, offset: int, count: int) -> bool {
    forall|i: int|
        offset <= i < offset + count && i < 8 * bytes.len() ==> !(#[trigger] bit_at(bytes, i))
}

/// Whether a run of `count` bits at `offset` lies in a buffer of `len` bytes, and a `usize` can
/// address each 64-bit block of it.
pub open spec fn addressable(len: nat, offset: int, count: int) -> bool {
    in_range(len, offset, count) && offset + last_block(count) <= usize::MAX
}

/// Whether the 64-bit block number `k` of a run of `count` bits lies in `bytes`, is followed by
/// more of the run and has a bit set.
pub open spec fn stops_at(bytes: Seq<u8>, offset: int, count: int, k: int) -> bool {
    &&& 0 <= k
    &&& 64 * (k + 1) < count
    &&& offset + 64 * (k + 1) <= 8 * bytes.len()
    &&& offset + 64 * k <= usize::MAX
    &&& !all_zero(bytes, offset + 64 * k, 64)
}

/// Reads up to 64 bits from a byte slice at an arbitrary bit offset.
///
/// An unaligned read may touch nine bytes; the ninth does not fit the 64-bit buffer and is merged
/// into the result on its own.
pub fn read_u64(src: &[u8], bit_offset: usize, bit_count: usize) -> (r: u64)
    requires
        bit_count <= 64,
        in_range(src@.len(), bit_offset as int, bit_count as int),
    ensures
        r == bits_value(bit_seq(src@, bit_offset as int, bit_count as nat)),
        word_bits(r, bit_count as nat) == bit_seq(src@, bit_offset as int, bit_count as nat),
{
    if bit_count == 0 {
        proof {
            assert forall|j: int| 0 <= j < 64 implies !(#[trigger] word_bit(0u64, j)) by {
                bit_lemmas::logic_bit(0, 0, j as u64);
            }
            bit_lemmas::word_value(0, 0);
            assert(word_bits(0, 0) =~= bit_seq(src@, bit_offset as int, 0));
        }
        return 0;
    }
    let start_byte: usize = bit_offset / 8;
    let shift: usize = bit_offset % 8;
    let bytes_needed: usize = (shift + bit_count + 7) / 8;
    let count: usize = if bytes_needed < 8 {
        bytes_needed
    } else {
        8
    };
    let buf = gather(src, start_byte, count);
    let mut result: u64 = buf >> shift;
    if bytes_needed > 8 {
        let extra: u64 = src[start_byte + 8] as u64;
        result = result | (extra << (64 - shift));
    }
    let mask = low_mask(bit_count);
    proof {
        let before = result;
        let r = result & mask;
        assert forall|j: int| 0 <= j < 64 implies word_bit(r, j) == (j < bit_count && bit_at(
            src@,
            bit_offset + j,
        )) by {
            bit_lemmas::logic_bit(before, mask, j as u64);
            bit_lemmas::shr_bit(buf, shift as u64, j as u64);
            if bytes_needed > 8 {
                let b = src@[start_byte + 8];
                bit_lemmas::logic_bit(buf >> shift, (b as u64) << (64 - shift), j as u64);
                bit_lemmas::high_byte_bit(b, (64 - shift) as u64, j as u64);
            }
            assert(word_bit(mask, j) == (j < bit_count));
            if j < bit_count {
                let p = bit_offset + j;
                if j + shift < 64 {
                    assert(word_bit(buf, j + shift) == byte_bit(
                        src@[start_byte + (j + shift) / 8],
                        (j + shift) % 8,
                    ));
                } else {
                    assert(j - (64 - shift) == (j + shift) % 8);
                }
                assert(p / 8 == start_byte + (shift + j) / 8);
                assert(p % 8 == (shift + j) % 8);
            }
        }
        bit_lemmas::word_value(r, bit_count as nat);
        assert(word_bits(r, bit_count as nat) =~= bit_seq(
            src@,
            bit_offset as int,
            bit_count as nat,
        ));
    }
    result & mask
}

/// Writes up to 64 bits to a byte slice at an arbitrary bit offset.
///
/// The bits of `val` above `bit_count` are ignored and every other bit of `dst` is kept. As for
/// [`read_u64`], the ninth byte of an unaligned run is patched on its own.
pub fn write_u64(dst: &mut [u8], bit_offset: usize, bit_count: usize, val: u64)
    requires
        bit_count <= 64,
        in_range(old(dst)@.len(), bit_offset as int, bit_count as int),
    ensures
        overwritten(
            final(dst)@,
            old(dst)@,
            bit_offset as int,
            word_bits(val, bit_count as nat),
        ),
{
    if bit_count == 0 {
        return;
    }
    let start_byte: usize = bit_offset / 8;
    let shift: usize = bit_offset % 8;
    let bytes_needed: usize = (shift + bit_count + 7) / 8;
    let mask = low_mask(bit_count);
    let field: u64 = val & mask;
    let ghost before = dst@;
    if bytes_needed <= 8 {
        let buf = gather(dst, start_byte, bytes_needed);
        let below = low_mask(shift);
        let shifted_mask: u64 = if shift + bit_count >= 64 {
            !below
        } else {
            mask << shift
        };
        let patched: u64 = (buf & !shifted_mask) | (field << shift);
        scatter(dst, start_byte, bytes_needed, patched);
        proof {
            assert forall|p: int| 0 <= p < 8 * before.len() implies #[trigger] bit_at(dst@, p)
                == if bit_offset <= p < bit_offset + bit_count {
                word_bits(val, bit_count as nat)[p - bit_offset]
            } else {
                bit_at(before, p)
            } by {
                let j = p - 8 * start_byte;
                if 0 <= j < 8 * bytes_needed {
                    assert(p / 8 == start_byte + j / 8 && p % 8 == j % 8);
                    bit_lemmas::patched_bit(buf, shifted_mask, val, mask, shift as u64, j);
                    assert(word_bit(patched, j) == bit_at(dst@, p));
                    assert(word_bit(buf, j) == bit_at(before, p));
                    if shift + bit_count >= 64 {
                        bit_lemmas::complement_bit(below, j);
                    } else {
                        bit_lemmas::shifted_bit(mask, shift as u64, j);
                    }
                }
            }
        }
    } else {
        let buf = gather(dst, start_byte, 8);
        let below = low_mask(shift);
        let high_mask: u64 = !below;
        let patched: u64 = (buf & !high_mask) | (field << shift);
        scatter(dst, start_byte, 8, patched);
        let ghost middle = dst@;
        let extra_bits: usize = shift + bit_count - 64;
        let extra_val: u8 = (field >> (64 - shift)) as u8;
        proof {
            bit_lemmas::low_byte_mask(extra_bits as u8);
        }
        let extra_mask: u8 = (1u8 << extra_bits) - 1;
        let last = dst[start_byte + 8];
        dst[start_byte + 8] = (last & !extra_mask) | (extra_val & extra_mask);
        proof {
            assert forall|p: int| 0 <= p < 8 * before.len() implies #[trigger] bit_at(dst@, p)
                == if bit_offset <= p < bit_offset + bit_count {
                word_bits(val, bit_count as nat)[p - bit_offset]
            } else {
                bit_at(before, p)
            } by {
                let j = p - 8 * start_byte;
                if 0 <= j < 64 {
                    assert(p / 8 == start_byte + j / 8 && p % 8 == j % 8);
                    bit_lemmas::patched_bit(buf, high_mask, val, mask, shift as u64, j);
                    bit_lemmas::complement_bit(below, j);
                    assert(word_bit(patched, j) == bit_at(middle, p));
                    assert(word_bit(buf, j) == bit_at(before, p));
                } else if 64 <= j < 72 {
                    let e = j - 64;
                    bit_lemmas::merge_byte_bit(
                        last,
                        extra_val,
                        extra_mask,
                        extra_bits as u8,
                        e as u8,
                    );
                    if e < extra_bits {
                        bit_lemmas::carried_bit(val, mask, (64 - shift) as u64, e);
                        assert(word_bit(mask, 64 - shift + e));
                    }
                }
            }
        }
    }
}

/// Checks if `bit_count` bits starting at `bit_offset` are all zero.
///
/// The bits are read in blocks of 64 and the first block with a bit set ends the search, so the
/// run may leave the slice behind such a block.
pub fn are_zero(src: &[u8], bit_offset: usize, bit_count: usize) -> (r: bool)
    requires
        addressable(src@.len(), bit_offset as int, bit_count as int) || exists|k: int|
            #[trigger] stops_at(src@, bit_offset as int, bit_count as int, k),
    ensures
        r == all_zero(src@, bit_offset as int, bit_count as int),
{
    if bit_count == 0 {
        return true;
    }
    let mut offset: usize = bit_offset;
    let mut remaining: usize = bit_count;
    let ghost mut block: int = 0;
    while remaining > 64
        invariant
            0 < remaining <= bit_count,
            0 <= block,
            offset == bit_offset + 64 * block,
            remaining == bit_count - 64 * block,
            all_zero(src@, bit_offset as int, 64 * block),
            addressable(src@.len(), bit_offset as int, bit_count as int) || exists|k: int|
                #[trigger] stops_at(src@, bit_offset as int, bit_count as int, k),
        decreases remaining,
    {
        proof {
            if !addressable(src@.len(), bit_offset as int, bit_count as int) {
                let k = choose|k: int|
                    #[trigger] stops_at(src@, bit_offset as int, bit_count as int, k);
                assert(k >= block);
            }
        }
        let word = read_u64(src, offset, 64);
        proof {
            bit_lemmas::word_is_zero(word, src@, offset as int, 64);
        }
        if word != 0 {
            return false;
        }
        proof {
            if !addressable(src@.len(), bit_offset as int, bit_count as int) {
                let k = choose|k: int|
                    #[trigger] stops_at(src@, bit_offset as int, bit_count as int, k);
                assert(k != block);
            }
            block = block + 1;
        }
        offset += 64;
        remaining -= 64;
    }
    proof {
        if !addressable(src@.len(), bit_offset as int, bit_count as int) {
            let k = choose|k: int| #[trigger]
                stops_at(src@, bit_offset as int, bit_count as int, k);
            assert(k >= block);
        }
    }
    let word = read_u64(src, offset, remaining);
    proof {
        bit_lemmas::word_is_zero(word, src@, offset as int, remaining as nat);
    }
    word == 0
}

/// Clears `bit_count` bits in `dst` starting at `bit_offset`; every other bit is kept.
pub fn zero(dst: &mut [u8], bit_offset: usize, bit_count: usize)
    requires
        addressable(old(dst)@.len(), bit_offset as int, bit_count as int),
    ensures
        overwritten(final(dst)@, old(dst)@, bit_offset as int, zero_bits(bit_count as nat)),
{
    let ghost before = dst@;
    let mut offset: usize = bit_offset;
    let mut remaining: usize = bit_count;
    while remaining > 64
        invariant
            remaining <= bit_count,
            offset == bit_offset + (bit_count - remaining),
            (bit_count - remaining) % 64 == 0,
            remaining > 0 || bit_count == 0,
            addressable(before.len(), bit_offset as int, bit_count as int),
            overwritten(
                dst@,
                before,
                bit_offset as int,
                zero_bits((bit_count - remaining) as nat),
            ),
        decreases remaining,
    {
        let ghost middle = dst@;
        write_u64(dst, offset, 64, 0);
        proof {
            bit_lemmas::zero_word_bits(64);
            let done = bit_count - remaining + 64;
            assert forall|i: int| 0 <= i < 8 * before.len() implies #[trigger] bit_at(dst@, i)
                == if bit_offset <= i < bit_offset + done {
                zero_bits(done as nat)[i - bit_offset]
            } else {
                bit_at(before, i)
            } by {
                assert(bit_at(middle, i) == bit_at(middle, i));
            }
        }
        offset += 64;
        remaining -= 64;
    }
    if remaining > 0 {
        write_u64(dst, offset, remaining, 0);
        proof {
            bit_lemmas::zero_word_bits(remaining as nat);
        }
    }
}

/// Copies `bit_count` bits from `src` at `src_bit` to `dst` at `dst_bit`; every other bit of `dst`
/// is kept.
pub fn copy(src: &[u8], src_bit: usize, dst: &mut [u8], dst_bit: usize, bit_count: usize)
    requires
        addressable(src@.len(), src_bit as int, bit_count as int),
        addressable(old(dst)@.len(), dst_bit as int, bit_count as int),
    ensures
        overwritten(
            final(dst)@,
            old(dst)@,
            dst_bit as int,
            bit_seq(src@, src_bit as int, bit_count as nat),
        ),
{
    if bit_count == 0 {
        return;
    }
    let ghost before = dst@;
    let mut s: usize = src_bit;
    let mut d: usize = dst_bit;
    let mut remaining: usize = bit_count;
    while remaining > 64
        invariant
            0 < remaining <= bit_count,
            s == src_bit + (bit_count - remaining),
            d == dst_bit + (bit_count - remaining),
            (bit_count - remaining) % 64 == 0,
            addressable(src@.len(), src_bit as int, bit_count as int),
            addressable(before.len(), dst_bit as int, bit_count as int),
            overwritten(
                dst@,
                before,
                dst_bit as int,
                bit_seq(src@, src_bit as int, (bit_count - remaining) as nat),
            ),
        decreases remaining,
    {
        let val = read_u64(src, s, 64);
        write_u64(dst, d, 64, val);
        s += 64;
        d += 64;
        remaining -= 64;
    }
    if remaining > 0 {
        let val = read_u64(src, s, remaining);
        write_u64(dst, d, remaining, val);
    }
}

/// Stores the lowest `count` bytes of `buf` at `start`.
fn scatter(dst: &mut [u8], start: usize, count: usize, buf: u64)
    requires
        count <= 8,
        start + count <= old(dst)@.len(),
    ensures
        final(dst)@.len() == old(dst)@.len(),
        forall|k: int|
            0 <= k < old(dst)@.len() && !(start <= k < start + count) ==> final(dst)@[k] == old(
                dst,
            )@[k],
        forall|j: int|
            0 <= j < 8 * count ==> byte_bit(final(dst)@[start + j / 8], j % 8)
                == #[trigger] word_bit(buf, j),
{
    let ghost before = dst@;
    let mut i: usize = 0;
    while i < count
        invariant
            i <= count <= 8,
            start + count <= dst.len(),
            dst@.len() == before.len(),
            forall|k: int|
                0 <= k < before.len() && !(start <= k < start + i) ==> dst@[k] == before[k],
            forall|j: int|
                0 <= j < 8 * i ==> byte_bit(dst@[start + j / 8], j % 8) == #[trigger] word_bit(
                    buf,
                    j,
                ),
        decreases count - i,
    {
        #[verifier::truncate]
        let b: u8 = (buf >> (i * 8)) as u8;
        dst[start + i] = b;
        proof {
            assert forall|j: int| 8 * i <= j < 8 * (i + 1) implies byte_bit(b, j % 8)
                == #[trigger] word_bit(buf, j) by {
                bit_lemmas::byte_of_word_bit(buf, (i * 8) as u64, (j - i * 8) as u64);
            }
        }
        i += 1;
    }
}

/// A word whose lowest `count` bits are set.
fn low_mask(count: usize) -> (mask: u64)
    requires
        count <= 64,
    ensures
        forall|j: int| 0 <= j < 64 ==> #[trigger] word_bit(mask, j) == (j < count),
{
    if count >= 64 {
        proof {
            assert forall|j: int| 0 <= j < 64 implies #[trigger] word_bit(!0u64, j) by {
                bit_lemmas::logic_bit(0, 0, j as u64);
            }
        }
        !0u64
    } else {
        proof {
            bit_lemmas::low_mask_bit(count as u64, 0);
            assert forall|j: int| 0 <= j < 64 implies #[trigger] word_bit(
                ((1u64 << count) - 1) as u64,
                j,
            ) == (j < count) by {
                bit_lemmas::low_mask_bit(count as u64, j as u64);
            }
        }
        (1u64 << count) - 1
    }
}

/// The `count` bytes of `src` from `start` on as one little-endian word.
fn gather(src: &[u8], start: usize, count: usize) -> (buf: u64)
    requires
        count <= 8,
        start + count <= src@.len(),
    ensures
        forall|j: int|
            0 <= j < 64 ==> #[trigger] word_bit(buf, j) == (j < 8 * count && byte_bit(
                src@[start + j / 8],
                j % 8,
            )),
{
    let mut buf: u64 = 0;
    let mut i: usize = 0;
    proof {
        assert forall|j: int| 0 <= j < 64 implies !(#[trigger] word_bit(0u64, j)) by {
            bit_lemmas::logic_bit(0, 0, j as u64);
        }
    }
    while i < count
        invariant
            i <= count <= 8,
            start + count <= src.len(),
            forall|j: int|
                0 <= j < 64 ==> #[trigger] word_bit(buf, j) == (j < 8 * i && byte_bit(
                    src@[start + j / 8],
                    j % 8,
                )),
        decreases count - i,
    {
        let b = src[start + i];
        let next: u64 = buf | ((b as u64) << (i * 8));
        proof {
            assert forall|j: int| 0 <= j < 64 implies #[trigger] word_bit(next, j) == (j < 8 * (i
                + 1) && byte_bit(src@[start + j / 8], j % 8)) by {
                bit_lemmas::or_byte_bit(buf, b, (i * 8) as u64, j as u64);
                assert(word_bit(buf, j) == (j < 8 * i && byte_bit(src@[start + j / 8], j % 8)));
            }
        }
        buf = next;
        i += 1;
    }
    buf
}

} // verus!

//! Values that are stored as the first bits of their own bytes.
use crate::array_codec;
use crate::bit_lemmas;
use crate::bits;
use crate::byte_repr::ByteLayout;
use crate::codec::{BitCodec, SoundCodec};
use crate::laws;
use vstd::prelude::*;

verus! {

/// Reads a value that is stored as its own first `bit_count` bits; the rest of it is zero.
pub fn read_packed<T: ByteLayout>(src: &[u8], bit_offset: usize, bit_count: usize) -> (r: T)
    requires
        bits::addressable(src@.len(), bit_offset as int, bit_count as int),
        bits::addressable(T::size(), 0, bit_count as int),
    ensures
        bits::overwritten(
            r.repr(),
            bits::zero_bytes(T::size()),
            0,
            bits::bit_seq(src@, bit_offset as int, bit_count as nat),
        ),
{
    let mut value = T::new_zeroed();
    bits::copy(src, bit_offset, value.as_mut_bytes(), 0, bit_count);
    value
}

/// Writes the first `bit_count` bits of a value.
pub fn write_packed<T: ByteLayout>(value: &T, dst: &mut [u8], bit_offset: usize, bit_count: usize)
    requires
        bits::addressable(T::size(), 0, bit_count as int),
        bits::addressable(old(dst)@.len(), bit_offset as int, bit_count as int),
    ensures
        bits::overwritten(
            final(dst)@,
            old(dst)@,
            bit_offset as int,
            bits::bit_seq(value.repr(), 0, bit_count as nat),
        ),
{
    bits::copy(value.as_bytes(), 0, dst, bit_offset, bit_count);
}

/// `N` bytes of which the first `W` bits are stored; the rest is zero wherever they are read.
#[derive(Clone, Copy, Debug)]
pub struct Packed<const N: usize, const W: usize> {
    pub bytes: [u8; N],
}

impl<const N: usize, const W: usize> Packed<N, W> {
    /// Whether the bytes are clear but for the bits.
    pub open spec fn unpacks(&self, bits: Seq<bool>) -> bool {
        bits::overwritten(self.bytes@, bits::zero_bytes(N as nat), 0, bits)
    }

    /// The codec is as wide as the type says and cannot fail.
    pub proof fn codec_width()
        ensures
            <Self as BitCodec<Self>>::BITS == W,
            !<Self as BitCodec<Self>>::IS_FALLIBLE,
    {
    }

    /// What is read has the stored bits and is clear behind them.
    pub(crate) proof fn decode_unpacks(bits: Seq<bool>)
        requires
            W <= 8 * N,
            bits.len() == W,
        ensures
            <Self as BitCodec<Self>>::decode(bits) matches Some(v) && v.unpacks(bits),
    {
        let bytes = bit_lemmas::bytes_with_bits(N as nat, bits);
        let array = array_codec::array_of::<u8, N>(bytes, N as nat);
        assert(array@ =~= bytes);
        let v = Packed::<N, W> { bytes: array };
        laws::clear_bytes_have_clear_bits(N as nat);
        assert forall|i: int| 0 <= i < 8 * N implies #[trigger] bits::bit_at(v.bytes@, i) == if 0
            <= i < bits.len() {
            bits[i]
        } else {
            bits::bit_at(bits::zero_bytes(N as nat), i)
        } by {
            assert(bits::bit_at(bytes, i) == (i < bits.len() && bits[i]));
        }
        assert(v.unpacks(bits));
    }

    proof fn same_unpacked(a: Self, b: Self, bits: Seq<bool>)
        requires
            a.unpacks(bits),
            b.unpacks(bits),
        ensures
            a == b,
    {
        laws::write_is_determined(a.bytes@, b.bytes@, bits::zero_bytes(N as nat), 0, bits);
        assert(a.bytes =~= b.bytes);
    }
}

impl<const N: usize, const W: usize> BitCodec<Packed<N, W>> for Packed<N, W> {
    const BITS: usize = W;

    const IS_FALLIBLE: bool = false;

    type Read = Packed<N, W>;

    open spec fn decode(bits: Seq<bool>) -> Option<Packed<N, W>> {
        Some(choose|v: Packed<N, W>| #[trigger] v.unpacks(bits))
    }

    open spec fn try_decode(bits: Seq<bool>) -> Option<Result<Packed<N, W>, Packed<N, W>>> {
        match Self::decode(bits) {
            Some(v) => Some(Ok(v)),
            None => None,
        }
    }

    open spec fn read_value(bits: Seq<bool>) -> Option<Packed<N, W>> {
        Self::decode(bits)
    }

    open spec fn encode(&self) -> Seq<bool> {
        bits::bit_seq(self.bytes@, 0, W as nat)
    }

    open spec fn storable(&self) -> bool {
        W <= 8 * N && bits::all_zero(self.bytes@, W as int, 8 * N)
    }

    open spec fn reachable(offset: int) -> bool {
        W <= 8 * N && offset + bits::last_block(W as int) <= usize::MAX
    }

    fn read_bits(src: &[u8], bit_offset: usize) -> Packed<N, W> {
        let v = Packed { bytes: read_packed::<[u8; N]>(src, bit_offset, W) };
        proof {
            let stored = bits::bit_seq(src@, bit_offset as int, W as nat);
            assert(v.unpacks(stored));
            Self::same_unpacked(
                choose|u: Packed<N, W>| #[trigger] u.unpacks(stored),
                v,
                stored,
            );
        }
        v
    }

    fn try_read_bits(src: &[u8], bit_offset: usize) -> Result<Packed<N, W>, Packed<N, W>> {
        Ok(Self::read_bits(src, bit_offset))
    }

    fn read(src: &[u8], bit_offset: usize) -> Packed<N, W> {
        Self::read_bits(src, bit_offset)
    }

    fn write_bits(&self, dst: &mut [u8], bit_offset: usize) {
        write_packed(&self.bytes, dst, bit_offset, W);
    }
}

impl<const N: usize, const W: usize> SoundCodec<Packed<N, W>> for Packed<N, W> {
    proof fn encode_len(&self) {
    }

    proof fn decode_encode(&self) {
        laws::clear_bytes_have_clear_bits(N as nat);
        assert forall|i: int| 0 <= i < 8 * N implies #[trigger] bits::bit_at(self.bytes@, i)
            == if 0 <= i < W {
            self.encode()[i]
        } else {
            bits::bit_at(bits::zero_bytes(N as nat), i)
        } by {}
        assert(self.unpacks(self.encode()));
        Self::same_unpacked(
            choose|v: Packed<N, W>| #[trigger] v.unpacks(self.encode()),
            *self,
            self.encode(),
        );
    }

    proof fn try_decode_agrees(bits: Seq<bool>) {
    }

    open spec fn as_result(read: Packed<N, W>) -> Result<Packed<N, W>, Packed<N, W>> {
        Ok(read)
    }

    proof fn read_agrees(bits: Seq<bool>) {
    }

    proof fn infallible_decodes_all(bits: Seq<bool>) {
    }
}

} // verus!

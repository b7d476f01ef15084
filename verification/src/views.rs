//! Checked views of repeated bit-packed fields.
use crate::bit_lemmas;
use crate::bits;
use crate::codec::BitCodec;
use core::marker::PhantomData;
use vstd::prelude::*;

verus! {

/// Where element `index` of a repeated field starts.
pub open spec fn element_offset(bit_offset: usize, stride: usize, index: int) -> int {
    bit_offset + index * stride
}

/// The stored bits of the `T` that starts at `offset`.
pub open spec fn stored<T: BitCodec<S>, S>(bytes: Seq<u8>, offset: int) -> Seq<bool> {
    bits::bit_seq(bytes, offset, T::BITS as nat)
}

/// Whether a `T` can be stored at `offset` in a buffer of `len` bytes.
pub open spec fn has_room<T: BitCodec<S>, S>(len: nat, offset: int) -> bool {
    &&& offset <= usize::MAX
    &&& bits::in_range(len, offset, T::BITS as int)
    &&& T::reachable(offset)
}

/// Whether the search for a set bit in `count` bits at `offset` stays inside `bytes`.
pub open spec fn zero_test_defined(bytes: Seq<u8>, offset: int, count: int) -> bool {
    &&& offset <= usize::MAX
    &&& bits::addressable(bytes.len(), offset, count) || exists|k: int|
        #[trigger] bits::stops_at(bytes, offset, count, k)
}

/// A shared view of `len` elements that lie `stride` bits apart from `bit_offset` on.
pub struct BitArrayView<'a, T, S = T> {
    pub bytes: &'a [u8],
    pub bit_offset: usize,
    pub len: usize,
    pub stride: usize,
    pub marker: PhantomData<(T, S)>,
}

impl<'a, T, S> Clone for BitArrayView<'a, T, S> {
    fn clone(&self) -> (r: Self)
        ensures
            r == *self,
    {
        *self
    }
}

impl<'a, T, S> Copy for BitArrayView<'a, T, S> {

}

impl<'a, T, S> BitArrayView<'a, T, S> {
    /// Where element `index` starts.
    pub open spec fn offset(&self, index: int) -> int {
        element_offset(self.bit_offset, self.stride, index)
    }

    pub fn new(bytes: &'a [u8], bit_offset: usize, len: usize, stride: usize) -> (r: Self)
        ensures
            r.bytes == bytes,
            r.bit_offset == bit_offset,
            r.len == len,
            r.stride == stride,
    {
        BitArrayView { bytes, bit_offset, len, stride, marker: PhantomData }
    }

    pub fn len(&self) -> (r: usize)
        ensures
            r == self.len,
    {
        self.len
    }

    pub fn is_empty(&self) -> (r: bool)
        ensures
            r == (self.len == 0),
    {
        self.len == 0
    }

    /// The element at `index`, in the shape that its codec reads; `None` past the end.
    pub fn get(&self, index: usize) -> (r: Option<<T as BitCodec<S>>::Read>) where T: BitCodec<S>
        requires
            index < self.len ==> has_room::<T, S>(self.bytes@.len(), self.offset(index as int))
                && T::read_value(stored::<T, S>(self.bytes@, self.offset(index as int))) is Some,
        ensures
            r == if index < self.len {
                T::read_value(stored::<T, S>(self.bytes@, self.offset(index as int)))
            } else {
                None
            },
    {
        if index < self.len {
            let offset = offset_of(self.bit_offset, self.stride, index);
            Some(T::read(self.bytes, offset))
        } else {
            None
        }
    }

    /// The element at `index`, or its raw storage value if that is invalid; `None` past the end.
    pub fn try_get(&self, index: usize) -> (r: Option<Result<T, S>>) where T: BitCodec<S>
        requires
            index < self.len ==> has_room::<T, S>(self.bytes@.len(), self.offset(index as int))
                && T::try_decode(stored::<T, S>(self.bytes@, self.offset(index as int))) is Some,
        ensures
            r == if index < self.len {
                T::try_decode(stored::<T, S>(self.bytes@, self.offset(index as int)))
            } else {
                None
            },
    {
        if index < self.len {
            let offset = offset_of(self.bit_offset, self.stride, index);
            Some(T::try_read_bits(self.bytes, offset))
        } else {
            None
        }
    }

    /// All elements in order.
    pub fn iter(&self) -> (r: Vec<<T as BitCodec<S>>::Read>) where T: BitCodec<S>
        requires
            forall|i: int|
                0 <= i < self.len ==> has_room::<T, S>(
                    self.bytes@.len(),
                    #[trigger] self.offset(i),
                ) && T::read_value(stored::<T, S>(self.bytes@, self.offset(i))) is Some,
        ensures
            r@.len() == self.len,
            forall|i: int|
                0 <= i < self.len ==> Some(#[trigger] r@[i]) == T::read_value(
                    stored::<T, S>(self.bytes@, self.offset(i)),
                ),
    {
        let mut items: Vec<<T as BitCodec<S>>::Read> = Vec::new();
        let mut index: usize = 0;
        while index < self.len
            invariant
                index <= self.len,
                items@.len() == index,
                forall|i: int|
                    0 <= i < self.len ==> has_room::<T, S>(
                        self.bytes@.len(),
                        #[trigger] self.offset(i),
                    ) && T::read_value(stored::<T, S>(self.bytes@, self.offset(i))) is Some,
                forall|i: int|
                    0 <= i < index ==> Some(#[trigger] items@[i]) == T::read_value(
                        stored::<T, S>(self.bytes@, self.offset(i)),
                    ),
            decreases self.len - index,
        {
            assert(has_room::<T, S>(self.bytes@.len(), self.offset(index as int)));
            let offset = offset_of(self.bit_offset, self.stride, index);
            items.push(T::read(self.bytes, offset));
            index += 1;
        }
        items
    }
}

/// Where element `index` starts.
fn offset_of(bit_offset: usize, stride: usize, index: usize) -> (offset: usize)
    requires
        element_offset(bit_offset, stride, index as int) <= usize::MAX,
    ensures
        offset == element_offset(bit_offset, stride, index as int),
{
    assert(0 <= index * stride) by (nonlinear_arith);
    bit_offset + index * stride
}

/// An exclusive view of `len` elements that lie `stride` bits apart from `bit_offset` on.
pub struct BitArrayViewMut<'a, T, S = T> {
    pub bytes: &'a mut [u8],
    pub bit_offset: usize,
    pub len: usize,
    pub stride: usize,
    pub marker: PhantomData<(T, S)>,
}

impl<'a, T, S> BitArrayViewMut<'a, T, S> {
    /// Where element `index` starts.
    pub open spec fn offset(&self, index: int) -> int {
        element_offset(self.bit_offset, self.stride, index)
    }

    /// The bytes under the view.
    pub open spec fn contents(&self) -> Seq<u8> {
        self.bytes@
    }

    pub fn new(bytes: &'a mut [u8], bit_offset: usize, len: usize, stride: usize) -> (r: Self)
        ensures
            r.contents() == old(bytes)@,
            final(r.bytes)@ == final(bytes)@,
            r.bit_offset == bit_offset,
            r.len == len,
            r.stride == stride,
    {
        BitArrayViewMut { bytes, bit_offset, len, stride, marker: PhantomData }
    }

    pub fn len(&self) -> (r: usize)
        ensures
            r == self.len,
    {
        self.len
    }

    pub fn is_empty(&self) -> (r: bool)
        ensures
            r == (self.len == 0),
    {
        self.len == 0
    }

    /// The element at `index`, in the shape that its codec reads; `None` past the end.
    pub fn get(&self, index: usize) -> (r: Option<<T as BitCodec<S>>::Read>) where T: BitCodec<S>
        requires
            index < self.len ==> {
                &&& has_room::<T, S>(self.contents().len(), self.offset(index as int))
                &&& T::read_value(stored::<T, S>(self.contents(), self.offset(index as int))) is Some
            },
        ensures
            r == if index < self.len {
                T::read_value(stored::<T, S>(self.contents(), self.offset(index as int)))
            } else {
                None
            },
    {
        if index < self.len {
            let offset = offset_of(self.bit_offset, self.stride, index);
            Some(T::read(self.bytes, offset))
        } else {
            None
        }
    }

    /// The element at `index`, or its raw storage value if that is invalid; `None` past the end.
    pub fn try_get(&self, index: usize) -> (r: Option<Result<T, S>>) where T: BitCodec<S>
        requires
            index < self.len ==> {
                &&& has_room::<T, S>(self.contents().len(), self.offset(index as int))
                &&& T::try_decode(stored::<T, S>(self.contents(), self.offset(index as int))) is Some
            },
        ensures
            r == if index < self.len {
                T::try_decode(stored::<T, S>(self.contents(), self.offset(index as int)))
            } else {
                None
            },
    {
        if index < self.len {
            let offset = offset_of(self.bit_offset, self.stride, index);
            Some(T::try_read_bits(self.bytes, offset))
        } else {
            None
        }
    }

    /// Stores `value` at `index` and returns `true`; past the end nothing changes and the result
    /// is `false`.
    pub fn set(&mut self, index: usize, value: T) -> (r: bool) where T: BitCodec<S>
        requires
            index < old(self).len ==> has_room::<T, S>(
                old(self).contents().len(),
                old(self).offset(index as int),
            ),
        ensures
            r == (index < old(self).len),
            final(self).bit_offset == old(self).bit_offset,
            final(self).len == old(self).len,
            final(self).stride == old(self).stride,
            final(final(self).bytes)@ == final(old(self).bytes)@,
            r ==> bits::overwritten(
                final(self).contents(),
                old(self).contents(),
                old(self).offset(index as int),
                value.encode(),
            ),
            !r ==> final(self).contents() == old(self).contents(),
    {
        if index >= self.len {
            return false;
        }
        let offset = offset_of(self.bit_offset, self.stride, index);
        value.write_bits(self.bytes, offset);
        true
    }
}

/// A shared view of elements for which a run of `bits` clear bits means that there is none.
pub struct ZeroedOptionBitArrayView<'a, T, S = T> {
    pub bytes: &'a [u8],
    pub bit_offset: usize,
    pub len: usize,
    pub stride: usize,
    pub bits: usize,
    pub marker: PhantomData<(T, S)>,
}

/// What a field of `count` bits at `offset` holds when clear bits mean that there is no value.
pub open spec fn zeroed_option<T: BitCodec<S>, S>(bytes: Seq<u8>, offset: int, count: int) -> Option<
    T,
> {
    if bits::all_zero(bytes, offset, count) {
        None
    } else {
        T::decode(stored::<T, S>(bytes, offset))
    }
}

/// Whether such a field can be read: the search for a set bit stays inside `bytes`, and if it
/// finds one the stored bits stand for a value.
pub open spec fn zeroed_option_readable<T: BitCodec<S>, S>(
    bytes: Seq<u8>,
    offset: int,
    count: int,
) -> bool {
    &&& zero_test_defined(bytes, offset, count)
    &&& !bits::all_zero(bytes, offset, count) ==> has_room::<T, S>(bytes.len(), offset)
        && T::decode(stored::<T, S>(bytes, offset)) is Some
}

impl<'a, T, S> Clone for ZeroedOptionBitArrayView<'a, T, S> {
    fn clone(&self) -> (r: Self)
        ensures
            r == *self,
    {
        *self
    }
}

impl<'a, T, S> Copy for ZeroedOptionBitArrayView<'a, T, S> {

}

impl<'a, T, S> ZeroedOptionBitArrayView<'a, T, S> {
    /// Where element `index` starts.
    pub open spec fn offset(&self, index: int) -> int {
        element_offset(self.bit_offset, self.stride, index)
    }

    pub fn new(
        bytes: &'a [u8],
        bit_offset: usize,
        len: usize,
        stride: usize,
        bits: usize,
    ) -> (r: Self)
        ensures
            r.bytes == bytes,
            r.bit_offset == bit_offset,
            r.len == len,
            r.stride == stride,
            r.bits == bits,
    {
        ZeroedOptionBitArrayView { bytes, bit_offset, len, stride, bits, marker: PhantomData }
    }

    pub fn len(&self) -> (r: usize)
        ensures
            r == self.len,
    {
        self.len
    }

    pub fn is_empty(&self) -> (r: bool)
        ensures
            r == (self.len == 0),
    {
        self.len == 0
    }

    /// The element at `index`, `Some(None)` where its bits are clear, and `None` past the end.
    pub fn get(&self, index: usize) -> (r: Option<Option<T>>) where T: BitCodec<S>
        requires
            index < self.len ==> zeroed_option_readable::<T, S>(
                self.bytes@,
                self.offset(index as int),
                self.bits as int,
            ),
        ensures
            r == if index < self.len {
                Some(
                    zeroed_option::<T, S>(
                        self.bytes@,
                        self.offset(index as int),
                        self.bits as int,
                    ),
                )
            } else {
                None
            },
    {
        if index >= self.len {
            return None;
        }
        let offset = offset_of(self.bit_offset, self.stride, index);
        Some(read_zeroed_option::<T, S>(self.bytes, offset, self.bits))
    }

    /// All elements in order.
    pub fn iter(&self) -> (r: Vec<Option<T>>) where T: BitCodec<S>
        requires
            forall|i: int|
                0 <= i < self.len ==> zeroed_option_readable::<T, S>(
                    self.bytes@,
                    #[trigger] self.offset(i),
                    self.bits as int,
                ),
        ensures
            r@.len() == self.len,
            forall|i: int|
                0 <= i < self.len ==> #[trigger] r@[i] == zeroed_option::<T, S>(
                    self.bytes@,
                    self.offset(i),
                    self.bits as int,
                ),
    {
        let mut items: Vec<Option<T>> = Vec::new();
        let mut index: usize = 0;
        while index < self.len
            invariant
                index <= self.len,
                items@.len() == index,
                forall|i: int|
                    0 <= i < self.len ==> zeroed_option_readable::<T, S>(
                        self.bytes@,
                        #[trigger] self.offset(i),
                        self.bits as int,
                    ),
                forall|i: int|
                    0 <= i < index ==> #[trigger] items@[i] == zeroed_option::<T, S>(
                        self.bytes@,
                        self.offset(i),
                        self.bits as int,
                    ),
            decreases self.len - index,
        {
            assert(zeroed_option_readable::<T, S>(
                self.bytes@,
                self.offset(index as int),
                self.bits as int,
            ));
            let offset = offset_of(self.bit_offset, self.stride, index);
            items.push(read_zeroed_option::<T, S>(self.bytes, offset, self.bits));
            index += 1;
        }
        items
    }
}

/// Reads a field of `count` bits in which clear bits mean that there is no value.
pub fn read_zeroed_option<T: BitCodec<S>, S>(src: &[u8], bit_offset: usize, count: usize) -> (r:
    Option<T>)
    requires
        zeroed_option_readable::<T, S>(src@, bit_offset as int, count as int),
    ensures
        r == zeroed_option::<T, S>(src@, bit_offset as int, count as int),
{
    if bits::are_zero(src, bit_offset, count) {
        None
    } else {
        Some(T::read_bits(src, bit_offset))
    }
}

/// Writes a field in which clear bits mean that there is no value; bits are cleared as one word.
pub fn write_zeroed_option<T: BitCodec<S>, S>(
    dst: &mut [u8],
    bit_offset: usize,
    value: Option<T>,
)
    requires
        has_room::<T, S>(old(dst)@.len(), bit_offset as int),
        value is None ==> T::BITS <= 64,
    ensures
        bits::overwritten(
            final(dst)@,
            old(dst)@,
            bit_offset as int,
            match value {
                Some(v) => v.encode(),
                None => bits::zero_bits(T::BITS as nat),
            },
        ),
{
    match value {
        Some(value) => value.write_bits(dst, bit_offset),
        None => {
            proof {
                bit_lemmas::zero_word_bits(T::BITS as nat);
            }
            bits::write_u64(dst, bit_offset, T::BITS, 0)
        },
    }
}

/// An exclusive view of elements for which a run of `bits` clear bits means that there is none.
pub struct ZeroedOptionBitArrayViewMut<'a, T, S = T> {
    pub bytes: &'a mut [u8],
    pub bit_offset: usize,
    pub len: usize,
    pub stride: usize,
    pub bits: usize,
    pub marker: PhantomData<(T, S)>,
}

impl<'a, T, S> ZeroedOptionBitArrayViewMut<'a, T, S> {
    /// Where element `index` starts.
    pub open spec fn offset(&self, index: int) -> int {
        element_offset(self.bit_offset, self.stride, index)
    }

    /// The bytes under the view.
    pub open spec fn contents(&self) -> Seq<u8> {
        self.bytes@
    }

    pub fn new(
        bytes: &'a mut [u8],
        bit_offset: usize,
        len: usize,
        stride: usize,
        bits: usize,
    ) -> (r: Self)
        ensures
            r.contents() == old(bytes)@,
            final(r.bytes)@ == final(bytes)@,
            r.bit_offset == bit_offset,
            r.len == len,
            r.stride == stride,
            r.bits == bits,
    {
        ZeroedOptionBitArrayViewMut { bytes, bit_offset, len, stride, bits, marker: PhantomData }
    }

    pub fn len(&self) -> (r: usize)
        ensures
            r == self.len,
    {
        self.len
    }

    pub fn is_empty(&self) -> (r: bool)
        ensures
            r == (self.len == 0),
    {
        self.len == 0
    }

    /// The element at `index`, `Some(None)` where its bits are clear, and `None` past the end.
    pub fn get(&self, index: usize) -> (r: Option<Option<T>>) where T: BitCodec<S>
        requires
            index < self.len ==> zeroed_option_readable::<T, S>(
                self.contents(),
                self.offset(index as int),
                self.bits as int,
            ),
        ensures
            r == if index < self.len {
                Some(
                    zeroed_option::<T, S>(
                        self.contents(),
                        self.offset(index as int),
                        self.bits as int,
                    ),
                )
            } else {
                None
            },
    {
        if index >= self.len {
            return None;
        }
        let offset = offset_of(self.bit_offset, self.stride, index);
        Some(read_zeroed_option::<T, S>(self.bytes, offset, self.bits))
    }

    /// Stores `value` at `index`, clearing the element's bits for `None`, and returns `true`; past
    /// the end nothing changes and the result is `false`.
    pub fn set(&mut self, index: usize, value: Option<T>) -> (r: bool) where T: BitCodec<S>
        requires
            index < old(self).len ==> match value {
                Some(_) => has_room::<T, S>(
                    old(self).contents().len(),
                    old(self).offset(index as int),
                ),
                None => old(self).offset(index as int) <= usize::MAX && bits::addressable(
                    old(self).contents().len(),
                    old(self).offset(index as int),
                    old(self).bits as int,
                ),
            },
        ensures
            r == (index < old(self).len),
            final(self).bit_offset == old(self).bit_offset,
            final(self).len == old(self).len,
            final(self).stride == old(self).stride,
            final(self).bits == old(self).bits,
            final(final(self).bytes)@ == final(old(self).bytes)@,
            r ==> bits::overwritten(
                final(self).contents(),
                old(self).contents(),
                old(self).offset(index as int),
                match value {
                    Some(v) => v.encode(),
                    None => bits::zero_bits(old(self).bits as nat),
                },
            ),
            !r ==> final(self).contents() == old(self).contents(),
    {
        if index >= self.len {
            return false;
        }
        let offset = offset_of(self.bit_offset, self.stride, index);
        match value {
            Some(value) => value.write_bits(self.bytes, offset),
            None => bits::zero(self.bytes, offset, self.bits),
        }
        true
    }
}

} // verus!

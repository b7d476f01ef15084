//! Arrays of values that are stored one after the other.
use crate::bits;
use crate::codec::{BitCodec, ReadShape, SoundCodec};
use vstd::arithmetic::div_mod;
use vstd::prelude::*;

verus! {

/// `core::array::from_fn`, which calls `f` with each index below `N` and stores what it returned
/// at that index. As for every function that Verus knows of, calls leave `f` as it was.
pub assume_specification<T, const N: usize, F: FnMut(usize) -> T>[ core::array::from_fn::<
    T,
    N,
    F,
> ](f: F) -> (r: [T; N])
    requires
        forall|i: usize| i < N ==> call_requires(f, (i,)),
    ensures
        forall|i: usize| i < N ==> call_ensures(f, (i,), #[trigger] r@[i as int]),
;

/// The stored bits of element `i` in a run of elements of `width` bits.
pub open spec fn element(bits: Seq<bool>, width: nat, i: int) -> Seq<bool> {
    Seq::new(width, |j: int| bits[i * width + j])
}

/// Whether the bits stand for the elements of `a`, one after the other.
pub open spec fn holds<T: BitCodec<T>, const N: usize>(a: [T; N], bits: Seq<bool>) -> bool {
    forall|i: int|
        0 <= i < N ==> T::decode(element(bits, T::BITS as nat, i)) == Some(#[trigger] a@[i])
}

/// The value or the raw storage value that a checked read gave.
pub open spec fn either<T>(result: Result<T, T>) -> T {
    match result {
        Ok(value) => value,
        Err(raw) => raw,
    }
}

/// Whether `a` holds what the checked reads of all elements give.
pub open spec fn tries<T: BitCodec<T>, const N: usize>(a: [T; N], bits: Seq<bool>) -> bool {
    forall|i: int|
        0 <= i < N ==> T::try_decode(element(bits, T::BITS as nat, i)) is Some && #[trigger] a@[i]
            == either(T::try_decode(element(bits, T::BITS as nat, i))->Some_0)
}

/// Whether the first `n` elements of a run stand for values.
pub open spec fn all_valid<T: BitCodec<T>>(bits: Seq<bool>, n: int) -> bool {
    forall|i: int|
        0 <= i < n ==> T::try_decode(#[trigger] element(bits, T::BITS as nat, i)) matches Some(
            Ok(_),
        )
}

proof fn element_of_run(bytes: Seq<u8>, offset: int, total: nat, width: nat, i: int)
    requires
        0 <= i,
        (i + 1) * width <= total,
    ensures
        element(bits::bit_seq(bytes, offset, total), width, i) == bits::bit_seq(
            bytes,
            offset + i * width,
            width,
        ),
{
    assert((i + 1) * width == i * width + width) by (nonlinear_arith);
    assert(0 <= i * width) by (nonlinear_arith)
        requires
            0 <= i,
    ;
    assert(element(bits::bit_seq(bytes, offset, total), width, i) =~= bits::bit_seq(
        bytes,
        offset + i * width,
        width,
    ));
}

/// Elements before the end of a run end inside it.
pub(crate) proof fn element_end(i: int, n: int, width: int)
    by (nonlinear_arith)
    requires
        0 <= i < n,
        0 <= width,
    ensures
        0 <= i * width,
        i * width + width == (i + 1) * width,
        (i + 1) * width <= width * n,
{
}

/// The bits of element `i` in what an array is stored as.
pub(crate) proof fn element_of_array<T: BitCodec<T>, const N: usize>(a: [T; N], i: int) where
    <T as BitCodec<T>>::Read: ReadShape<T, T, [T; N], [T; N]>,

    requires
        0 <= i < N,
        a@[i].encode().len() == T::BITS,
        T::BITS * N <= usize::MAX,
    ensures
        element(a.encode(), T::BITS as nat, i) == a@[i].encode(),
{
    let width = T::BITS as int;
    element_end(i, N as int, width);
    assert forall|j: int| 0 <= j < width implies element(a.encode(), width as nat, i)[j]
        == a@[i].encode()[j] by {
        div_mod::lemma_fundamental_div_mod_converse(i * width + j, width, i, j);
    }
    assert(element(a.encode(), width as nat, i) =~= a@[i].encode());
}

/// The bits settle every element.
proof fn same_elements<T: BitCodec<T>, const N: usize>(a: [T; N], b: [T; N], bits: Seq<bool>)
    requires
        holds(a, bits),
        holds(b, bits),
    ensures
        a == b,
{
    assert forall|i: int| 0 <= i < N implies a@[i] == b@[i] by {
        assert(Some(a@[i]) == Some(b@[i]));
    }
    assert(a =~= b);
}

/// There is an array of any elements; `n` of them are settled.
pub(crate) proof fn array_of<T, const N: usize>(elements: Seq<T>, n: nat) -> (a: [T; N])
    requires
        elements.len() == N,
        n <= N,
    ensures
        forall|i: int| 0 <= i < n ==> a@[i] == elements[i],
    decreases n,
{
    if n == 0 {
        arbitrary()
    } else {
        let before = array_of::<T, N>(elements, (n - 1) as nat);
        vstd::array::spec_array_update(before, n - 1, elements[n - 1])
    }
}

/// There is an array of the values that the bits stand for.
proof fn held<T: BitCodec<T>, const N: usize>(bits: Seq<bool>) -> (a: [T; N])
    requires
        forall|i: int|
            0 <= i < N ==> T::decode(#[trigger] element(bits, T::BITS as nat, i)) is Some,
    ensures
        holds(a, bits),
{
    let elements = Seq::new(
        N as nat,
        |i: int| T::decode(element(bits, T::BITS as nat, i))->Some_0,
    );
    let a = array_of::<T, N>(elements, N as nat);
    assert forall|i: int| 0 <= i < N implies T::decode(element(bits, T::BITS as nat, i)) == Some(
        #[trigger] a@[i],
    ) by {
        assert(T::decode(element(bits, T::BITS as nat, i)) is Some);
        assert(a@[i] == elements[i]);
    }
    a
}

/// The checked reads settle every element.
proof fn same_tries<T: BitCodec<T>, const N: usize>(a: [T; N], b: [T; N], bits: Seq<bool>)
    requires
        tries(a, bits),
        tries(b, bits),
    ensures
        a == b,
{
    assert(a =~= b);
}

impl<T: BitCodec<T>, const N: usize> BitCodec<[T; N]> for [T; N] where
    <T as BitCodec<T>>::Read: ReadShape<T, T, [T; N], [T; N]>,
 {
    const BITS: usize = <T as BitCodec<T>>::BITS * N;

    const IS_FALLIBLE: bool = <T as BitCodec<T>>::IS_FALLIBLE;

    type Read = <<T as BitCodec<T>>::Read as ReadShape<T, T, [T; N], [T; N]>>::Read;

    open spec fn decode(bits: Seq<bool>) -> Option<[T; N]> {
        if forall|i: int|
            0 <= i < N ==> T::decode(#[trigger] element(bits, T::BITS as nat, i)) is Some {
            Some(choose|a: [T; N]| holds(a, bits))
        } else {
            None
        }
    }

    open spec fn try_decode(bits: Seq<bool>) -> Option<Result<[T; N], [T; N]>> {
        if forall|i: int|
            0 <= i < N ==> T::try_decode(#[trigger] element(bits, T::BITS as nat, i)) is Some {
            let a = choose|a: [T; N]| tries(a, bits);
            if all_valid::<T>(bits, N as int) {
                Some(Ok(a))
            } else {
                Some(Err(a))
            }
        } else {
            None
        }
    }

    open spec fn read_value(bits: Seq<bool>) -> Option<
        <<T as BitCodec<T>>::Read as ReadShape<T, T, [T; N], [T; N]>>::Read,
    > {
        match Self::try_decode(bits) {
            Some(result) => <<T as BitCodec<T>>::Read as ReadShape<
                T,
                T,
                [T; N],
                [T; N],
            >>::shaped(result),
            None => None,
        }
    }

    open spec fn encode(&self) -> Seq<bool> {
        Seq::new(
            Self::BITS as nat,
            |p: int| self@[p / T::BITS as int].encode()[p % T::BITS as int],
        )
    }

    open spec fn storable(&self) -> bool {
        &&& T::BITS * N <= usize::MAX
        &&& forall|i: int| 0 <= i < N ==> (#[trigger] self@[i]).storable()
    }

    open spec fn reachable(offset: int) -> bool {
        &&& T::BITS * N <= usize::MAX
        &&& forall|i: int|
            0 <= i < N ==> offset + i * T::BITS <= usize::MAX && #[trigger] T::reachable(
                offset + i * T::BITS,
            )
    }

    fn read_bits(src: &[u8], bit_offset: usize) -> [T; N] {
        let ghost bits = bits::bit_seq(src@, bit_offset as int, Self::BITS as nat);
        let ghost width = T::BITS as nat;
        let a: [T; N] = core::array::from_fn(
            |i: usize| -> (v: T)
                requires
                    i < N,
                ensures
                    T::decode(element(bits, width, i as int)) == Some(v)
                {
                    proof {
                        element_end(i as int, N as int, T::BITS as int);
                        element_of_run(
                            src@,
                            bit_offset as int,
                            Self::BITS as nat,
                            width,
                            i as int,
                        );
                        assert(T::reachable(bit_offset + i * T::BITS));
                        assert(T::decode(element(bits, width, i as int)) is Some);
                    }
                    T::read_bits(src, bit_offset + i * <T as BitCodec<T>>::BITS)
                },
        );
        proof {
            assert forall|i: int| 0 <= i < N implies T::decode(element(bits, width, i)) == Some(
                #[trigger] a@[i],
            ) by {
                let k = i as usize;
                assert(a@[k as int] == a@[i]);
            }
            assert(holds(a, bits));
            let b = choose|b: [T; N]| holds(b, bits);
            same_elements(a, b, bits);
        }
        a
    }

    fn try_read_bits(src: &[u8], bit_offset: usize) -> Result<[T; N], [T; N]> {
        let ghost bits = bits::bit_seq(src@, bit_offset as int, Self::BITS as nat);
        let ghost width = T::BITS as nat;
        let stride = <T as BitCodec<T>>::BITS;
        let mut valid = true;
        let mut i: usize = 0;
        while i < N
            invariant
                i <= N,
                stride == T::BITS,
                width == T::BITS,
                Self::BITS == T::BITS * N,
                bits == bits::bit_seq(src@, bit_offset as int, Self::BITS as nat),
                bits::in_range(src@.len(), bit_offset as int, Self::BITS as int),
                Self::reachable(bit_offset as int),
                forall|k: int|
                    0 <= k < N ==> T::try_decode(#[trigger] element(bits, width, k)) is Some,
                valid == all_valid::<T>(bits, i as int),
            decreases N - i,
        {
            proof {
                element_end(i as int, N as int, stride as int);
                element_of_run(src@, bit_offset as int, Self::BITS as nat, width, i as int);
                assert(T::reachable(bit_offset + i * T::BITS));
                assert(T::try_decode(element(bits, width, i as int)) is Some);
            }
            if T::try_read_bits(src, bit_offset + i * stride).is_err() {
                valid = false;
            }
            i += 1;
        }
        let a: [T; N] = core::array::from_fn(
            |i: usize| -> (v: T)
                requires
                    i < N,
                ensures
                    T::try_decode(element(bits, width, i as int)) is Some,
                    v == either(T::try_decode(element(bits, width, i as int))->Some_0)
                {
                    proof {
                        element_end(i as int, N as int, T::BITS as int);
                        element_of_run(
                            src@,
                            bit_offset as int,
                            Self::BITS as nat,
                            width,
                            i as int,
                        );
                        assert(T::reachable(bit_offset + i * T::BITS));
                        assert(T::try_decode(element(bits, width, i as int)) is Some);
                    }
                    match T::try_read_bits(src, bit_offset + i * <T as BitCodec<T>>::BITS) {
                        Ok(value) => value,
                        Err(raw) => raw,
                    }
                },
        );
        proof {
            assert forall|i: int| 0 <= i < N implies #[trigger] a@[i] == either(
                T::try_decode(element(bits, width, i))->Some_0,
            ) by {
                let k = i as usize;
                assert(a@[k as int] == a@[i]);
            }
            assert(tries(a, bits));
            let b = choose|b: [T; N]| tries(b, bits);
            same_tries(a, b, bits);
        }
        if valid {
            Ok(a)
        } else {
            Err(a)
        }
    }

    fn read(
        src: &[u8],
        bit_offset: usize,
    ) -> <<T as BitCodec<T>>::Read as ReadShape<T, T, [T; N], [T; N]>>::Read {
        <<T as BitCodec<T>>::Read as ReadShape<T, T, [T; N], [T; N]>>::shape(
            Self::try_read_bits(src, bit_offset),
        )
    }

    fn write_bits(&self, dst: &mut [u8], bit_offset: usize) {
        let stride = <T as BitCodec<T>>::BITS;
        let ghost before = dst@;
        let mut i: usize = 0;
        while i < N
            invariant
                i <= N,
                stride == T::BITS,
                Self::BITS == T::BITS * N,
                bits::in_range(before.len(), bit_offset as int, Self::BITS as int),
                Self::reachable(bit_offset as int),
                bits::overwritten(
                    dst@,
                    before,
                    bit_offset as int,
                    Seq::new((i * stride) as nat, |p: int| self.encode()[p]),
                ),
            decreases N - i,
        {
            proof {
                element_end(i as int, N as int, stride as int);
                assert(T::reachable(bit_offset + i * T::BITS));
            }
            self[i].write_bits(dst, bit_offset + i * stride);
            proof {
                element_of_array(*self, i as int);
                let e = self@[i as int].encode();
                assert forall|p: int| 0 <= p < 8 * before.len() implies #[trigger] bits::bit_at(
                    dst@,
                    p,
                ) == if bit_offset <= p < bit_offset + (i + 1) * stride {
                    self.encode()[p - bit_offset]
                } else {
                    bits::bit_at(before, p)
                } by {
                    let q = p - bit_offset - i * stride;
                    if 0 <= q < stride {
                        assert(element(self.encode(), stride as nat, i as int)[q] == e[q]);
                    }
                }
            }
            i += 1;
        }
        proof {
            assert(N * stride == stride * N) by (nonlinear_arith);
            assert(Seq::new((i * stride) as nat, |p: int| self.encode()[p]) =~= self.encode());
        }
    }
}

impl<T: SoundCodec<T>, const N: usize> SoundCodec<[T; N]> for [T; N] where
    <T as BitCodec<T>>::Read: ReadShape<T, T, [T; N], [T; N]>,
 {
    proof fn encode_len(&self) {
    }

    proof fn decode_encode(&self) {
        let bits = self.encode();
        let width = T::BITS as nat;
        assert(Self::BITS == T::BITS * N);
        assert forall|i: int| 0 <= i < N implies T::decode(#[trigger] element(bits, width, i))
            == Some(self@[i]) by {
            self@[i].encode_len();
            element_of_array(*self, i);
            self@[i].decode_encode();
        }
        assert(holds(*self, bits));
        let a = choose|a: [T; N]| holds(a, bits);
        same_elements(a, *self, bits);
    }

    proof fn try_decode_agrees(bits: Seq<bool>) {
        let width = T::BITS as nat;
        assert forall|i: int| 0 <= i < N implies {
            let stored = #[trigger] element(bits, width, i);
            &&& T::decode(stored) matches Some(v) ==> T::try_decode(stored) == Some(
                Ok::<T, T>(v),
            )
            &&& T::try_decode(stored) matches Some(Ok(v)) ==> T::decode(stored) == Some(v)
        } by {
            T::try_decode_agrees(element(bits, width, i));
        }
        if let Some(a) = Self::decode(bits) {
            let _ = held::<T, N>(bits);
            assert(tries::<T, N>(a, bits));
            let b = choose|b: [T; N]| tries(b, bits);
            same_tries(a, b, bits);
        }
        if let Some(Ok(b)) = Self::try_decode(bits) {
            let _ = held::<T, N>(bits);
            let a = Self::decode(bits)->Some_0;
            assert(tries::<T, N>(a, bits));
            same_tries(a, b, bits);
        }
    }

    open spec fn as_result(
        read: <<T as BitCodec<T>>::Read as ReadShape<T, T, [T; N], [T; N]>>::Read,
    ) -> Result<[T; N], [T; N]> {
        <<T as BitCodec<T>>::Read as ReadShape<T, T, [T; N], [T; N]>>::unshaped(read)
    }

    proof fn read_agrees(bits: Seq<bool>) {
        Self::try_decode_agrees(bits);
        if let Some(result) = Self::try_decode(bits) {
            <<T as BitCodec<T>>::Read as ReadShape<T, T, [T; N], [T; N]>>::unshaped_shaped(result);
        }
    }

    proof fn infallible_decodes_all(bits: Seq<bool>) {
        assert forall|i: int| 0 <= i < N implies T::decode(
            #[trigger] element(bits, T::BITS as nat, i),
        ) is Some by {
            T::infallible_decodes_all(element(bits, T::BITS as nat, i));
        }
    }
}

/// There are arrays of what was read, wherever reading has a result.
pub(crate) proof fn reads_are_settled<T: SoundCodec<T>, const N: usize>(bits: Seq<bool>) where
    <T as BitCodec<T>>::Read: ReadShape<T, T, [T; N], [T; N]>,

    ensures
        <[T; N] as BitCodec<[T; N]>>::decode(bits) matches Some(a) ==> holds(a, bits),
        <[T; N] as BitCodec<[T; N]>>::try_decode(bits) matches Some(Ok(a)) ==> tries(a, bits)
            && all_valid::<T>(bits, N as int),
        <[T; N] as BitCodec<[T; N]>>::try_decode(bits) matches Some(Err(a)) ==> tries(a, bits),
{
    if <[T; N] as BitCodec<[T; N]>>::decode(bits) is Some {
        let _ = held::<T, N>(bits);
    }
    if <[T; N] as BitCodec<[T; N]>>::try_decode(bits) is Some {
        let elements = Seq::new(
            N as nat,
            |i: int| either(T::try_decode(element(bits, T::BITS as nat, i))->Some_0),
        );
        let a = array_of::<T, N>(elements, N as nat);
        assert forall|i: int| 0 <= i < N implies T::try_decode(element(bits, T::BITS as nat, i))
            is Some && #[trigger] a@[i] == either(
            T::try_decode(element(bits, T::BITS as nat, i))->Some_0,
        ) by {
            assert(T::try_decode(element(bits, T::BITS as nat, i)) is Some);
            assert(a@[i] == elements[i]);
        }
        assert(tries(a, bits));
    }
}

/// An array is as wide as its elements together, and reading it can fail if reading them can.
pub proof fn array_codecs<T: BitCodec<T>, const N: usize>() where
    <T as BitCodec<T>>::Read: ReadShape<T, T, [T; N], [T; N]>,

    requires
        T::BITS * N <= usize::MAX,
    ensures
        <[T; N] as BitCodec<[T; N]>>::BITS == T::BITS * N,
        <[T; N] as BitCodec<[T; N]>>::IS_FALLIBLE == T::IS_FALLIBLE,
{
}

} // verus!

//! Byte-level representation of storage types.
use crate::bits;
use vstd::prelude::*;

verus! {

/// A type without padding that any bytes of its size stand for, at any address.
///
/// Multi-byte native primitives are no such type: they are aligned and host-endian; endian-aware
/// integers are. Which bytes stand for a value is said by the specification functions; a type that
/// does not define them makes no promise that a proof could use.
pub trait ByteLayout: Sized {
    /// How many bytes a value takes up.
    open spec fn size() -> nat {
        arbitrary()
    }

    /// The bytes of the value.
    open spec fn repr(&self) -> Seq<u8> {
        arbitrary()
    }

    fn size_of() -> (r: usize)
        ensures
            r == Self::size(),
    ;

    /// The value whose bytes are all zero.
    fn new_zeroed() -> (r: Self)
        ensures
            r.repr() == bits::zero_bytes(Self::size()),
    ;

    /// The bytes of the value.
    fn as_bytes(&self) -> (r: &[u8])
        ensures
            r@.len() == Self::size(),
            r@ == self.repr(),
    ;

    /// The bytes of the value, for writing.
    fn as_mut_bytes(&mut self) -> (r: &mut [u8])
        ensures
            r@.len() == Self::size(),
            r@ == old(self).repr(),
            final(self).repr() == final(r)@,
    ;

    /// The value that all of `bytes` stand for, if their number is right.
    fn read_from_bytes(bytes: &[u8]) -> (r: Option<Self>)
        ensures
            match r {
                Some(v) => bytes@.len() == Self::size() && v.repr() == bytes@,
                None => bytes@.len() != Self::size(),
            },
    ;
}

/// A type whose values can be seen in bytes where they are.
pub trait ByteView: ByteLayout {
    /// The value that all of `bytes` stand for, if their number is right.
    fn ref_from_bytes(bytes: &[u8]) -> (r: Option<&Self>)
        ensures
            match r {
                Some(v) => bytes@.len() == Self::size() && v.repr() == bytes@,
                None => bytes@.len() != Self::size(),
            },
    ;

    /// As [`ByteView::ref_from_bytes`], for writing.
    fn mut_from_bytes(bytes: &mut [u8]) -> (r: Option<&mut Self>)
        ensures
            match r {
                Some(v) => {
                    &&& old(bytes)@.len() == Self::size()
                    &&& v.repr() == old(bytes)@
                    &&& final(bytes)@ == final(v).repr()
                },
                None => old(bytes)@.len() != Self::size() && final(bytes)@ == old(bytes)@,
            },
    ;

    /// The value that the first bytes stand for and the bytes behind it, if there are enough.
    fn ref_from_prefix(bytes: &[u8]) -> (r: Option<(&Self, &[u8])>)
        ensures
            match r {
                Some((v, rest)) => {
                    &&& Self::size() <= bytes@.len()
                    &&& v.repr() == bytes@.take(Self::size() as int)
                    &&& rest@ == bytes@.skip(Self::size() as int)
                },
                None => bytes@.len() < Self::size(),
            },
    ;

    /// As [`ByteView::ref_from_prefix`], for writing.
    fn mut_from_prefix(bytes: &mut [u8]) -> (r: Option<(&mut Self, &mut [u8])>)
        ensures
            match r {
                Some((v, rest)) => {
                    &&& Self::size() <= old(bytes)@.len()
                    &&& v.repr() == old(bytes)@.take(Self::size() as int)
                    &&& rest@ == old(bytes)@.skip(Self::size() as int)
                    &&& final(bytes)@ == final(v).repr() + final(rest)@
                },
                None => old(bytes)@.len() < Self::size() && final(bytes)@ == old(bytes)@,
            },
    ;
}

/// A type whose values are settled by their bytes.
pub trait SoundLayout: ByteLayout {
    /// A value takes up as many bytes as its type says.
    proof fn repr_len(&self)
        ensures
            self.repr().len() == Self::size(),
    ;

    /// The bytes settle the value.
    proof fn same_repr(a: &Self, b: &Self)
        requires
            a.repr() == b.repr(),
        ensures
            *a == *b,
    ;
}

/// Byte-level access for file-format storage types: a convenience over [`ByteLayout`] and
/// [`ByteView`].
pub trait ByteRepr: ByteLayout {
    /// The value that all of `bytes` stand for; `None` if their number is wrong.
    fn read_ref(bytes: &[u8]) -> (r: Option<&Self>) where Self: ByteView
        ensures
            match r {
                Some(v) => bytes@.len() == Self::size() && v.repr() == bytes@,
                None => bytes@.len() != Self::size(),
            },
    {
        Self::ref_from_bytes(bytes)
    }

    /// As [`ByteRepr::read_ref`], for writing: what is written to the value is written to `bytes`.
    fn read_mut(bytes: &mut [u8]) -> (r: Option<&mut Self>) where Self: ByteView
        ensures
            match r {
                Some(v) => {
                    &&& old(bytes)@.len() == Self::size()
                    &&& v.repr() == old(bytes)@
                    &&& final(bytes)@ == final(v).repr()
                },
                None => old(bytes)@.len() != Self::size() && final(bytes)@ == old(bytes)@,
            },
    {
        Self::mut_from_bytes(bytes)
    }

    /// The value that the first bytes stand for and the bytes behind it; `None` if there are too
    /// few.
    fn read_prefix(bytes: &[u8]) -> (r: Option<(&Self, &[u8])>) where Self: ByteView
        ensures
            match r {
                Some((v, rest)) => {
                    &&& Self::size() <= bytes@.len()
                    &&& v.repr() == bytes@.take(Self::size() as int)
                    &&& rest@ == bytes@.skip(Self::size() as int)
                },
                None => bytes@.len() < Self::size(),
            },
    {
        Self::ref_from_prefix(bytes)
    }

    /// As [`ByteRepr::read_prefix`], for writing.
    fn read_prefix_mut(bytes: &mut [u8]) -> (r: Option<(&mut Self, &mut [u8])>) where Self: ByteView
        ensures
            match r {
                Some((v, rest)) => {
                    &&& Self::size() <= old(bytes)@.len()
                    &&& v.repr() == old(bytes)@.take(Self::size() as int)
                    &&& rest@ == old(bytes)@.skip(Self::size() as int)
                    &&& final(bytes)@ == final(v).repr() + final(rest)@
                },
                None => old(bytes)@.len() < Self::size() && final(bytes)@ == old(bytes)@,
            },
    {
        Self::mut_from_prefix(bytes)
    }

    /// A clone of the value that all of `bytes` stand for.
    fn read_owned(bytes: &[u8]) -> (r: Option<Self>) where Self: Clone
        ensures
            match r {
                Some(v) => bytes@.len() == Self::size() && exists|stored: Self|
                    #[trigger] stored.repr() == bytes@ && cloned(stored, v),
                None => bytes@.len() != Self::size(),
            },
    {
        match Self::read_from_bytes(bytes) {
            Some(stored) => {
                let v = stored.clone();
                assert(stored.repr() == bytes@ && cloned(stored, v));
                Some(v)
            },
            None => None,
        }
    }

    /// The same bytes as a `T`; `None` if a `T` is larger or smaller.
    fn view_as<T: ByteView>(&self) -> (r: Option<&T>)
        ensures
            match r {
                Some(v) => T::size() == Self::size() && v.repr() == self.repr(),
                None => T::size() != Self::size(),
            },
    {
        T::ref_from_bytes(self.as_bytes())
    }

    /// As [`ByteRepr::view_as`], for writing.
    fn view_as_mut<T: ByteView>(&mut self) -> (r: Option<&mut T>)
        ensures
            match r {
                Some(v) => {
                    &&& T::size() == Self::size()
                    &&& v.repr() == old(self).repr()
                    &&& final(self).repr() == final(v).repr()
                },
                None => T::size() != Self::size() && final(self).repr() == old(self).repr(),
            },
    {
        T::mut_from_bytes(self.as_mut_bytes())
    }

    /// A clone of the same bytes as a `T`.
    fn clone_as<T: ByteLayout + Clone>(&self) -> (r: Option<T>)
        ensures
            match r {
                Some(v) => T::size() == Self::size() && exists|stored: T|
                    #[trigger] stored.repr() == self.repr() && cloned(stored, v),
                None => T::size() != Self::size(),
            },
    {
        match T::read_from_bytes(self.as_bytes()) {
            Some(stored) => {
                let v = stored.clone();
                assert(stored.repr() == self.repr() && cloned(stored, v));
                Some(v)
            },
            None => None,
        }
    }

    /// The bytes as an `A` followed by a `B`; `None` if the two do not fill them exactly.
    fn split_ref<A: ByteView, B: ByteView>(&self) -> (r: Option<(&A, &B)>)
        ensures
            match r {
                Some((a, b)) => A::size() + B::size() == Self::size() && a.repr() + b.repr()
                    == self.repr(),
                None => A::size() + B::size() != Self::size(),
            },
    {
        let bytes = self.as_bytes();
        let size = A::size_of();
        if size > bytes.len() {
            return None;
        }
        let (front, back) = bytes.split_at(size);
        assert(front@ + back@ =~= bytes@);
        match A::ref_from_bytes(front) {
            None => None,
            Some(a) => match B::ref_from_bytes(back) {
                None => None,
                Some(b) => Some((a, b)),
            },
        }
    }

    /// As [`ByteRepr::split_ref`], for writing.
    fn split_mut<A: ByteView, B: ByteView>(&mut self) -> (r: Option<(&mut A, &mut B)>)
        ensures
            match r {
                Some((a, b)) => {
                    &&& A::size() + B::size() == Self::size()
                    &&& a.repr() + b.repr() == old(self).repr()
                    &&& final(self).repr() == final(a).repr() + final(b).repr()
                },
                None => {
                    &&& A::size() + B::size() != Self::size()
                    &&& final(self).repr() == old(self).repr()
                },
            },
    {
        let size = A::size_of();
        let bytes = self.as_mut_bytes();
        if size > bytes.len() {
            return None;
        }
        let (front, back) = bytes.split_at_mut(size);
        match A::mut_from_bytes(front) {
            None => None,
            Some(a) => match B::mut_from_bytes(back) {
                None => None,
                Some(b) => Some((a, b)),
            },
        }
    }
}

impl<T: ByteLayout> ByteRepr for T {

}

/// `zerocopy::FromZeros::new_zeroed` of a byte array: every byte is zero.
#[verifier::external_body]
pub(crate) fn zeroed_array<const N: usize>() -> (r: [u8; N])
    ensures
        r@ == bits::zero_bytes(N as nat),
{
    <[u8; N] as zerocopy::FromZeros>::new_zeroed()
}

/// `zerocopy::IntoBytes::as_bytes` of a byte array: the same bytes as a slice.
#[verifier::external_body]
pub(crate) fn array_bytes<const N: usize>(array: &[u8; N]) -> (r: &[u8])
    ensures
        r@ == array@,
{
    zerocopy::IntoBytes::as_bytes(array)
}

/// `zerocopy::IntoBytes::as_mut_bytes` of a byte array: the same bytes as a slice, and what is
/// written to the slice is written to the array.
#[verifier::external_body]
pub(crate) fn array_bytes_mut<const N: usize>(array: &mut [u8; N]) -> (r: &mut [u8])
    ensures
        r@ == old(array)@,
        final(array)@ == final(r)@,
{
    zerocopy::IntoBytes::as_mut_bytes(array)
}

/// `zerocopy::FromBytes::ref_from_bytes` of a byte array: the same bytes, if there are `N`.
#[verifier::external_body]
pub(crate) fn array_from_bytes<const N: usize>(bytes: &[u8]) -> (r: Option<&[u8; N]>)
    ensures
        match r {
            Some(array) => array@ == bytes@,
            None => bytes@.len() != N,
        },
{
    <[u8; N] as zerocopy::FromBytes>::ref_from_bytes(bytes).ok()
}

/// `zerocopy::FromBytes::mut_from_bytes` of a byte array: the same bytes, if there are `N`, and
/// what is written to the array is written to them; else they stay as they are.
#[verifier::external_body]
fn array_from_bytes_mut<const N: usize>(bytes: &mut [u8]) -> (r: Option<&mut [u8; N]>)
    ensures
        match r {
            Some(array) => array@ == old(bytes)@ && final(bytes)@ == final(array)@,
            None => old(bytes)@.len() != N && final(bytes)@ == old(bytes)@,
        },
{
    <[u8; N] as zerocopy::FromBytes>::mut_from_bytes(bytes).ok()
}

/// `zerocopy::FromBytes::ref_from_prefix` of a byte array: the first `N` bytes and those behind
/// them, if there are at least `N`.
#[verifier::external_body]
fn array_from_prefix<const N: usize>(bytes: &[u8]) -> (r: Option<(&[u8; N], &[u8])>)
    ensures
        match r {
            Some((array, rest)) => {
                &&& N <= bytes@.len()
                &&& array@ == bytes@.take(N as int)
                &&& rest@ == bytes@.skip(N as int)
            },
            None => bytes@.len() < N,
        },
{
    <[u8; N] as zerocopy::FromBytes>::ref_from_prefix(bytes).ok()
}

/// `zerocopy::FromBytes::mut_from_prefix` of a byte array: as [`array_from_prefix`], and what is
/// written to the two parts is written to the bytes; without enough bytes they stay as they are.
#[verifier::external_body]
fn array_from_prefix_mut<const N: usize>(bytes: &mut [u8]) -> (r: Option<
    (&mut [u8; N], &mut [u8]),
>)
    ensures
        match r {
            Some((array, rest)) => {
                &&& N <= old(bytes)@.len()
                &&& array@ == old(bytes)@.take(N as int)
                &&& rest@ == old(bytes)@.skip(N as int)
                &&& final(bytes)@ == final(array)@ + final(rest)@
            },
            None => old(bytes)@.len() < N && final(bytes)@ == old(bytes)@,
        },
{
    <[u8; N] as zerocopy::FromBytes>::mut_from_prefix(bytes).ok()
}

impl<const N: usize> ByteLayout for [u8; N] {
    open spec fn size() -> nat {
        N as nat
    }

    open spec fn repr(&self) -> Seq<u8> {
        self@
    }

    fn size_of() -> usize {
        N
    }

    fn new_zeroed() -> Self {
        zeroed_array()
    }

    fn as_bytes(&self) -> &[u8] {
        array_bytes(self)
    }

    fn as_mut_bytes(&mut self) -> &mut [u8] {
        array_bytes_mut(self)
    }

    fn read_from_bytes(bytes: &[u8]) -> Option<Self> {
        match array_from_bytes(bytes) {
            Some(array) => Some(*array),
            None => None,
        }
    }
}

impl<const N: usize> ByteView for [u8; N] {
    fn ref_from_bytes(bytes: &[u8]) -> Option<&Self> {
        array_from_bytes(bytes)
    }

    fn mut_from_bytes(bytes: &mut [u8]) -> Option<&mut Self> {
        array_from_bytes_mut(bytes)
    }

    fn ref_from_prefix(bytes: &[u8]) -> Option<(&Self, &[u8])> {
        array_from_prefix(bytes)
    }

    fn mut_from_prefix(bytes: &mut [u8]) -> Option<(&mut Self, &mut [u8])> {
        array_from_prefix_mut(bytes)
    }
}

impl<const N: usize> SoundLayout for [u8; N] {
    proof fn repr_len(&self) {
    }

    proof fn same_repr(a: &Self, b: &Self) {
        assert(*a =~= *b);
    }
}

/// `zerocopy::IntoBytes::as_bytes` of a byte: a slice that holds just that byte.
#[verifier::external_body]
fn byte_slice(byte: &u8) -> (r: &[u8])
    ensures
        r@ == seq![*byte],
{
    zerocopy::IntoBytes::as_bytes(byte)
}

/// `zerocopy::IntoBytes::as_mut_bytes` of a byte: a slice that holds just that byte, and what is
/// written to the slice is written to the byte.
#[verifier::external_body]
fn byte_slice_mut(byte: &mut u8) -> (r: &mut [u8])
    ensures
        r@ == seq![*old(byte)],
        final(r)@ == seq![*final(byte)],
{
    zerocopy::IntoBytes::as_mut_bytes(byte)
}

impl ByteLayout for u8 {
    open spec fn size() -> nat {
        1
    }

    open spec fn repr(&self) -> Seq<u8> {
        seq![*self]
    }

    fn size_of() -> usize {
        1
    }

    fn new_zeroed() -> Self {
        let byte: u8 = zeroed_array::<1>()[0];
        assert(byte.repr() =~= bits::zero_bytes(1));
        byte
    }

    fn as_bytes(&self) -> &[u8] {
        byte_slice(self)
    }

    fn as_mut_bytes(&mut self) -> &mut [u8] {
        byte_slice_mut(self)
    }

    fn read_from_bytes(bytes: &[u8]) -> Option<Self> {
        match array_from_bytes::<1>(bytes) {
            Some(array) => {
                assert(array@ =~= seq![array@[0]]);
                Some(array[0])
            },
            None => None,
        }
    }
}

impl ByteView for u8 {
    fn ref_from_bytes(bytes: &[u8]) -> Option<&Self> {
        match array_from_bytes::<1>(bytes) {
            Some(array) => {
                assert(array@ =~= seq![array@[0]]);
                Some(&array[0])
            },
            None => None,
        }
    }

    fn mut_from_bytes(bytes: &mut [u8]) -> Option<&mut Self> {
        match array_from_bytes_mut::<1>(bytes) {
            Some(array) => Some(&mut array[0]),
            None => None,
        }
    }

    fn ref_from_prefix(bytes: &[u8]) -> Option<(&Self, &[u8])> {
        match array_from_prefix::<1>(bytes) {
            Some((array, rest)) => Some((&array[0], rest)),
            None => None,
        }
    }

    fn mut_from_prefix(bytes: &mut [u8]) -> Option<(&mut Self, &mut [u8])> {
        match array_from_prefix_mut::<1>(bytes) {
            Some((array, rest)) => Some((&mut array[0], rest)),
            None => None,
        }
    }
}

impl SoundLayout for u8 {
    proof fn repr_len(&self) {
    }

    proof fn same_repr(a: &Self, b: &Self) {
        assert(a.repr()[0] == *a && b.repr()[0] == *b);
    }
}

} // verus!

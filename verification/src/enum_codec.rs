//! Enums that are stored as their discriminants.
//!
//! A derived codec keeps the discriminants of an enum's variants in a table. Reading takes the
//! number that the storage type holds and looks for the variant; writing stores the discriminant. A
//! storage type with a byte order keeps its bytes in that order.
use crate::bit_lemmas;
use crate::bits;
use crate::codec;
use crate::codec::{BitCodec, SoundCodec};
use crate::data_type::endian::order::ByteOrder;
use crate::data_type::endian::unsigned;
use crate::data_type::endian::unsigned::{U16, U32, U64};
use crate::data_type::small::UInt;
use vstd::arithmetic::div_mod;
use vstd::arithmetic::power2;
use vstd::prelude::*;
use vstd::set_lib;

verus! {

/// The position of the first variant from `i` on that has the given discriminant.
pub open spec fn variant_from(discriminants: Seq<u32>, value: nat, i: int) -> Option<int>
    decreases discriminants.len() - i,
{
    if i >= discriminants.len() {
        None
    } else if discriminants[i] == value {
        Some(i)
    } else {
        variant_from(discriminants, value, i + 1)
    }
}

/// An unsigned integer that discriminants can be stored as.
pub trait DiscriminantStorage: BitCodec<Self> {
    /// Whether the type can be used.
    open spec fn supported() -> bool {
        true
    }

    /// The number that is stored.
    open spec fn number(&self) -> nat {
        arbitrary()
    }

    /// The number that is stored.
    fn to_number(&self) -> (r: u64)
        ensures
            r == self.number(),
    ;

    /// The storage value of the low bits of a number, as many as there is room for.
    fn from_low_bits(v: u64) -> (r: Self)
        requires
            Self::supported(),
        ensures
            r.number() == v as nat % power2::pow2(<Self as BitCodec<Self>>::BITS as nat),
    ;
}

/// A storage type that gives back the numbers that were stored.
pub trait SoundStorage: DiscriminantStorage + SoundCodec<Self> {
    /// All stored bits stand for a number that fits.
    proof fn decoded_number_fits(bits: Seq<bool>)
        requires
            Self::supported(),
            bits.len() == <Self as BitCodec<Self>>::BITS,
        ensures
            <Self as BitCodec<Self>>::decode(bits) matches Some(v) && v.number() < power2::pow2(
                bits.len(),
            ),
    ;

    /// A number that fits can be stored.
    proof fn fitting_number_is_storable(&self)
        requires
            Self::supported(),
            self.number() < power2::pow2(<Self as BitCodec<Self>>::BITS as nat),
        ensures
            <Self as BitCodec<Self>>::storable(self),
    ;

    /// The number settles the storage value.
    proof fn same_number(a: &Self, b: &Self)
        requires
            a.number() == b.number(),
        ensures
            *a == *b,
    ;
}

/// The position of the variant that bits stored as an `S` stand for.
pub open spec fn stored_variant<S: DiscriminantStorage>(
    bits: Seq<bool>,
    discriminants: Seq<u32>,
) -> Option<int> {
    match <S as BitCodec<S>>::decode(bits) {
        Some(raw) => variant_from(discriminants, raw.number(), 0),
        None => None,
    }
}

fn find_variant(discriminants: &[u32], value: u64) -> (r: Option<usize>)
    ensures
        match r {
            Some(i) => i < discriminants@.len() && variant_from(discriminants@, value as nat, 0)
                == Some(i as int),
            None => variant_from(discriminants@, value as nat, 0) is None,
        },
{
    let mut i: usize = 0;
    while i < discriminants.len()
        invariant
            i <= discriminants@.len(),
            variant_from(discriminants@, value as nat, 0) == variant_from(
                discriminants@,
                value as nat,
                i as int,
            ),
        decreases discriminants@.len() - i,
    {
        if discriminants[i] as u64 == value {
            return Some(i);
        }
        i += 1;
    }
    None
}

/// The bits of an `S` at an offset.
pub open spec fn stored_bits<S: DiscriminantStorage>(bytes: Seq<u8>, offset: int) -> Seq<bool> {
    bits::bit_seq(bytes, offset, <S as BitCodec<S>>::BITS as nat)
}

/// Reads the position of the variant that is stored as an `S`. Returns the raw storage value if the
/// stored number is that of no variant.
pub fn try_read_variant<S: DiscriminantStorage>(
    src: &[u8],
    bit_offset: usize,
    discriminants: &[u32],
) -> (r: Result<usize, S>)
    requires
        bits::in_range(src@.len(), bit_offset as int, <S as BitCodec<S>>::BITS as int),
        <S as BitCodec<S>>::reachable(bit_offset as int),
        <S as BitCodec<S>>::decode(stored_bits::<S>(src@, bit_offset as int)) is Some,
    ensures
        match r {
            Ok(i) => i < discriminants@.len() && stored_variant::<S>(
                stored_bits::<S>(src@, bit_offset as int),
                discriminants@,
            ) == Some(i as int),
            Err(raw) => stored_variant::<S>(
                stored_bits::<S>(src@, bit_offset as int),
                discriminants@,
            ) is None && <S as BitCodec<S>>::decode(stored_bits::<S>(src@, bit_offset as int))
                == Some(raw),
        },
{
    let raw = <S as BitCodec<S>>::read_bits(src, bit_offset);
    match find_variant(discriminants, raw.to_number()) {
        Some(i) => Ok(i),
        None => Err(raw),
    }
}

/// Reads the position of the variant that is stored as an `S`.
pub fn read_variant<S: DiscriminantStorage>(
    src: &[u8],
    bit_offset: usize,
    discriminants: &[u32],
) -> (r: Option<usize>)
    requires
        bits::in_range(src@.len(), bit_offset as int, <S as BitCodec<S>>::BITS as int),
        <S as BitCodec<S>>::reachable(bit_offset as int),
        <S as BitCodec<S>>::decode(stored_bits::<S>(src@, bit_offset as int)) is Some,
    ensures
        match r {
            Some(i) => i < discriminants@.len() && stored_variant::<S>(
                stored_bits::<S>(src@, bit_offset as int),
                discriminants@,
            ) == Some(i as int),
            None => stored_variant::<S>(
                stored_bits::<S>(src@, bit_offset as int),
                discriminants@,
            ) is None,
        },
{
    match try_read_variant::<S>(src, bit_offset, discriminants) {
        Ok(i) => Some(i),
        Err(_) => None,
    }
}

/// Whether a storage value holds the low bits of a discriminant, as many as there is room for.
pub open spec fn holds_discriminant<S: DiscriminantStorage>(raw: S, discriminant: u32) -> bool {
    raw.number() == discriminant as nat % power2::pow2(<S as BitCodec<S>>::BITS as nat)
}

/// Stores the discriminant of a variant as an `S`.
pub fn write_variant<S: DiscriminantStorage>(dst: &mut [u8], bit_offset: usize, discriminant: u32)
    requires
        S::supported(),
        bits::in_range(old(dst)@.len(), bit_offset as int, <S as BitCodec<S>>::BITS as int),
        <S as BitCodec<S>>::reachable(bit_offset as int),
    ensures
        exists|raw: S|
            #[trigger] holds_discriminant(raw, discriminant) && bits::overwritten(
                final(dst)@,
                old(dst)@,
                bit_offset as int,
                <S as BitCodec<S>>::encode(&raw),
            ),
{
    let raw = S::from_low_bits(discriminant as u64);
    <S as BitCodec<S>>::write_bits(&raw, dst, bit_offset);
    assert(holds_discriminant(raw, discriminant));
}

proof fn first_variant(discriminants: Seq<u32>, i: int, from: int)
    requires
        0 <= from <= i < discriminants.len(),
        forall|j: int| from <= j < i ==> discriminants[j] != discriminants[i],
    ensures
        variant_from(discriminants, discriminants[i] as nat, from) == Some(i),
    decreases i - from,
{
    if from < i {
        first_variant(discriminants, i, from + 1);
    }
}

proof fn found_variant(discriminants: Seq<u32>, value: nat, from: int)
    requires
        0 <= from <= discriminants.len(),
        exists|j: int| from <= j < discriminants.len() && discriminants[j] == value,
    ensures
        variant_from(discriminants, value, from) is Some,
    decreases discriminants.len() - from,
{
    if discriminants[from] != value {
        found_variant(discriminants, value, from + 1);
    }
}

/// A discriminant is stored in one way only.
pub proof fn stored_discriminant_is_settled<S: SoundStorage>(a: S, b: S, discriminant: u32)
    requires
        holds_discriminant(a, discriminant),
        holds_discriminant(b, discriminant),
    ensures
        a == b,
{
    S::same_number(&a, &b);
}

/// A discriminant in an endian-aware integer is stored as the bytes of its number in that order.
pub proof fn stored_discriminant_has_byte_order<O: ByteOrder>(
    short: U16<O>,
    raw: U32<O>,
    long: U64<O>,
    discriminant: u32,
)
    requires
        holds_discriminant(short, discriminant),
        holds_discriminant(raw, discriminant),
        holds_discriminant(long, discriminant),
    ensures
        discriminant < 0x1_0000 ==> short.bytes@ == O::bytes(discriminant as nat, 2),
        raw.bytes@ == O::bytes(discriminant as nat, 4),
        long.bytes@ == O::bytes(discriminant as nat, 8),
{
    unsigned::unsigned_codecs::<O>();
    power2::lemma2_to64();
    power2::lemma2_to64_rest();
    if discriminant < 0x1_0000 {
        div_mod::lemma_small_mod(discriminant as nat, power2::pow2(16));
    }
    div_mod::lemma_small_mod(discriminant as nat, power2::pow2(32));
    div_mod::lemma_small_mod(discriminant as nat, power2::pow2(64));
    O::bytes_of_value(short.bytes@);
    O::bytes_of_value(raw.bytes@);
    O::bytes_of_value(long.bytes@);
}

/// A variant whose discriminant fits the storage is read back as it was written, if no earlier
/// variant has the same discriminant.
pub proof fn written_variant_is_read<S: SoundStorage>(discriminants: Seq<u32>, i: int, raw: S)
    requires
        S::supported(),
        0 <= i < discriminants.len(),
        forall|j: int| 0 <= j < i ==> discriminants[j] != discriminants[i],
        discriminants[i] < power2::pow2(<S as BitCodec<S>>::BITS as nat),
        holds_discriminant(raw, discriminants[i]),
    ensures
        stored_variant::<S>(<S as BitCodec<S>>::encode(&raw), discriminants) == Some(i),
{
    let d = discriminants[i];
    div_mod::lemma_small_mod(d as nat, power2::pow2(<S as BitCodec<S>>::BITS as nat));
    raw.fitting_number_is_storable();
    <S as SoundCodec<S>>::decode_encode(&raw);
    first_variant(discriminants, i, 0);
}

/// If there are as many variants as values of a storage type, and the discriminants are different
/// and fit, all stored bits stand for a variant.
pub proof fn full_enum_reads_everything<S: SoundStorage>(
    discriminants: Seq<u32>,
    stored: Seq<bool>,
)
    requires
        S::supported(),
        stored.len() == <S as BitCodec<S>>::BITS,
        discriminants.len() >= power2::pow2(stored.len()),
        discriminants.no_duplicates(),
        forall|i: int|
            0 <= i < discriminants.len() ==> #[trigger] discriminants[i] < power2::pow2(
                stored.len(),
            ),
    ensures
        stored_variant::<S>(stored, discriminants) is Some,
{
    let n = power2::pow2(stored.len());
    S::decoded_number_fits(stored);
    let value = <S as BitCodec<S>>::decode(stored)->Some_0.number();
    let numbers = discriminants.map_values(|d: u32| d as int);
    assert(numbers.no_duplicates());
    numbers.unique_seq_to_set();
    let all = set_lib::set_int_range(0, n as int);
    set_lib::lemma_int_range(0, n as int);
    assert(numbers.to_set().subset_of(all));
    set_lib::lemma_len_subset(numbers.to_set(), all);
    set_lib::lemma_subset_equality(numbers.to_set(), all);
    assert(all.contains(value as int));
    assert(numbers.to_set().contains(value as int));
    let j = choose|j: int| 0 <= j < numbers.len() && numbers[j] == value as int;
    assert(discriminants[j] == value);
    found_variant(discriminants, value, 0);
}

impl DiscriminantStorage for u8 {
    open spec fn number(&self) -> nat {
        *self as nat
    }

    fn to_number(&self) -> u64 {
        *self as u64
    }

    fn from_low_bits(v: u64) -> u8 {
        proof {
            codec::native_codecs();
            power2::lemma2_to64();
            power2::lemma2_to64_rest();
        }
        (v % 0x100) as u8
    }
}

impl SoundStorage for u8 {
    proof fn decoded_number_fits(bits: Seq<bool>) {
        codec::native_codecs();
        power2::lemma2_to64();
        power2::lemma2_to64_rest();
    }

    proof fn fitting_number_is_storable(&self) {
    }

    proof fn same_number(a: &u8, b: &u8) {
    }
}

impl DiscriminantStorage for u16 {
    open spec fn number(&self) -> nat {
        *self as nat
    }

    fn to_number(&self) -> u64 {
        *self as u64
    }

    fn from_low_bits(v: u64) -> u16 {
        proof {
            codec::native_codecs();
            power2::lemma2_to64();
            power2::lemma2_to64_rest();
        }
        (v % 0x1_0000) as u16
    }
}

impl SoundStorage for u16 {
    proof fn decoded_number_fits(bits: Seq<bool>) {
        codec::native_codecs();
        power2::lemma2_to64();
        power2::lemma2_to64_rest();
    }

    proof fn fitting_number_is_storable(&self) {
    }

    proof fn same_number(a: &u16, b: &u16) {
    }
}

impl DiscriminantStorage for u32 {
    open spec fn number(&self) -> nat {
        *self as nat
    }

    fn to_number(&self) -> u64 {
        *self as u64
    }

    fn from_low_bits(v: u64) -> u32 {
        proof {
            codec::native_codecs();
            power2::lemma2_to64();
            power2::lemma2_to64_rest();
        }
        (v % 0x1_0000_0000) as u32
    }
}

impl SoundStorage for u32 {
    proof fn decoded_number_fits(bits: Seq<bool>) {
        codec::native_codecs();
        power2::lemma2_to64();
        power2::lemma2_to64_rest();
    }

    proof fn fitting_number_is_storable(&self) {
    }

    proof fn same_number(a: &u32, b: &u32) {
    }
}

impl DiscriminantStorage for u64 {
    open spec fn number(&self) -> nat {
        *self as nat
    }

    fn to_number(&self) -> u64 {
        *self as u64
    }

    fn from_low_bits(v: u64) -> u64 {
        proof {
            codec::native_codecs();
            power2::lemma2_to64();
            power2::lemma2_to64_rest();
            div_mod::lemma_small_mod(v as nat, power2::pow2(64));
        }
        v
    }
}

impl SoundStorage for u64 {
    proof fn decoded_number_fits(bits: Seq<bool>) {
        codec::native_codecs();
        power2::lemma2_to64();
        power2::lemma2_to64_rest();
    }

    proof fn fitting_number_is_storable(&self) {
    }

    proof fn same_number(a: &u64, b: &u64) {
    }
}

impl<const W: usize> DiscriminantStorage for UInt<W> {
    open spec fn supported() -> bool {
        0 < W <= 32
    }

    open spec fn number(&self) -> nat {
        self.value as nat
    }

    fn to_number(&self) -> u64 {
        self.value as u64
    }

    fn from_low_bits(v: u64) -> UInt<W> {
        proof {
            Self::codec_width();
            bit_lemmas::power_word(W as u64);
            power2::lemma_pow2_pos(W as nat);
            power2::lemma2_to64();
            if W < 32 {
                power2::lemma_pow2_strictly_increases(W as nat, 32);
            }
        }
        UInt { value: (v % (1u64 << (W as u64))) as u32 }
    }
}

impl<const W: usize> SoundStorage for UInt<W> {
    proof fn decoded_number_fits(bits: Seq<bool>) {
        Self::codec_width();
        Self::decode_fits(bits);
    }

    proof fn fitting_number_is_storable(&self) {
        Self::codec_width();
    }

    proof fn same_number(a: &UInt<W>, b: &UInt<W>) {
    }
}

impl<O: ByteOrder> DiscriminantStorage for U16<O> {
    open spec fn number(&self) -> nat {
        O::value(self.bytes@)
    }

    fn to_number(&self) -> u64 {
        self.get() as u64
    }

    fn from_low_bits(v: u64) -> U16<O> {
        proof {
            unsigned::unsigned_codecs::<O>();
            power2::lemma2_to64();
            power2::lemma2_to64_rest();
        }
        U16::new((v % 0x1_0000) as u16)
    }
}

impl<O: ByteOrder> SoundStorage for U16<O> {
    proof fn decoded_number_fits(bits: Seq<bool>) {
        unsigned::unsigned_codecs::<O>();
        O::value_bound((<U16<O> as BitCodec<U16<O>>>::decode(bits)->Some_0).bytes@);
    }

    proof fn fitting_number_is_storable(&self) {
    }

    proof fn same_number(a: &U16<O>, b: &U16<O>) {
        O::bytes_of_value(a.bytes@);
        O::bytes_of_value(b.bytes@);
        assert(a.bytes =~= b.bytes);
    }
}

impl<O: ByteOrder> DiscriminantStorage for U32<O> {
    open spec fn number(&self) -> nat {
        O::value(self.bytes@)
    }

    fn to_number(&self) -> u64 {
        self.get() as u64
    }

    fn from_low_bits(v: u64) -> U32<O> {
        proof {
            unsigned::unsigned_codecs::<O>();
            power2::lemma2_to64();
            power2::lemma2_to64_rest();
        }
        U32::new((v % 0x1_0000_0000) as u32)
    }
}

impl<O: ByteOrder> SoundStorage for U32<O> {
    proof fn decoded_number_fits(bits: Seq<bool>) {
        unsigned::unsigned_codecs::<O>();
        O::value_bound((<U32<O> as BitCodec<U32<O>>>::decode(bits)->Some_0).bytes@);
    }

    proof fn fitting_number_is_storable(&self) {
    }

    proof fn same_number(a: &U32<O>, b: &U32<O>) {
        O::bytes_of_value(a.bytes@);
        O::bytes_of_value(b.bytes@);
        assert(a.bytes =~= b.bytes);
    }
}

impl<O: ByteOrder> DiscriminantStorage for U64<O> {
    open spec fn number(&self) -> nat {
        O::value(self.bytes@)
    }

    fn to_number(&self) -> u64 {
        self.get() as u64
    }

    fn from_low_bits(v: u64) -> U64<O> {
        proof {
            unsigned::unsigned_codecs::<O>();
            power2::lemma2_to64();
            power2::lemma2_to64_rest();
            div_mod::lemma_small_mod(v as nat, power2::pow2(64));
        }
        U64::new(v)
    }
}

impl<O: ByteOrder> SoundStorage for U64<O> {
    proof fn decoded_number_fits(bits: Seq<bool>) {
        unsigned::unsigned_codecs::<O>();
        O::value_bound((<U64<O> as BitCodec<U64<O>>>::decode(bits)->Some_0).bytes@);
    }

    proof fn fitting_number_is_storable(&self) {
    }

    proof fn same_number(a: &U64<O>, b: &U64<O>) {
        O::bytes_of_value(a.bytes@);
        O::bytes_of_value(b.bytes@);
        assert(a.bytes =~= b.bytes);
    }
}

} // verus!

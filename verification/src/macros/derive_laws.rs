//! What holds of the codecs that are derived for a type.
use crate::macros::codec_plan;
use crate::macros::codec_plan::{DelegationView, DerivePlanView, EnumStorageView};
use crate::macros::error::{ErrorKind, ErrorView};
use crate::macros::names;
use crate::macros::repr;
use crate::macros::repr::ReprState;
use crate::macros::syntax;
use crate::macros::syntax::{BodyView, VariantView};
use crate::macros::token;
use crate::macros::token::Token;
use vstd::arithmetic::power2;
use vstd::prelude::*;

verus! {

/// Whether a storage type with a width and a number of values fits so many variants: reading it can
/// fail exactly if there are fewer variants than values of that width.
pub open spec fn fits(storage: EnumStorageView, name: Seq<char>, bits: nat, count: nat) -> bool {
    &&& storage.name == name
    &&& storage.bits == bits
    &&& bits < 64 ==> storage.fallible == (count < power2::pow2(bits))
    &&& bits >= 64 ==> storage.fallible
}

/// The width that a storage type is made for: those of up to 31 bits, the ones with a byte order,
/// and those of 32 and 64 bits.
pub open spec fn is_enum_storage(
    storage: EnumStorageView,
    least: nat,
    widest: nat,
    count: nat,
) -> bool {
    ||| exists|w: nat|
        least <= w <= widest && 1 <= w <= 31 && #[trigger] fits(
            storage,
            "u"@ + names::decimal(w),
            w,
            count,
        )
    ||| least <= 16 <= widest && fits(storage, "u16_le"@, 16, count)
    ||| least <= 16 <= widest && fits(storage, "u16_be"@, 16, count)
    ||| fits(storage, "u32"@, 32, count)
    ||| fits(storage, "u32_le"@, 32, count)
    ||| fits(storage, "u32_be"@, 32, count)
    ||| fits(storage, "u64"@, 64, count)
    ||| fits(storage, "u64_le"@, 64, count)
    ||| fits(storage, "u64_be"@, 64, count)
}

proof fn narrow_storage(from: nat, to: nat, count: nat, i: int)
    requires
        to <= 31,
        0 <= i < codec_plan::narrow_storages(from, to, count).len(),
    ensures
        ({
            let storage = codec_plan::narrow_storages(from, to, count)[i];
            ||| exists|w: nat|
                from <= w <= to && 1 <= w && #[trigger] fits(
                    storage,
                    "u"@ + names::decimal(w),
                    w,
                    count,
                )
            ||| from <= 16 <= to && fits(storage, "u16_le"@, 16, count)
            ||| from <= 16 <= to && fits(storage, "u16_be"@, 16, count)
        }),
    decreases to,
{
    let before = codec_plan::narrow_storages(from, (to - 1) as nat, count);
    let storage = codec_plan::narrow_storages(from, to, count)[i];
    if i < before.len() {
        narrow_storage(from, (to - 1) as nat, count, i);
        if exists|w: nat|
            from <= w <= to - 1 && 1 <= w && #[trigger] fits(
                storage,
                "u"@ + names::decimal(w),
                w,
                count,
            ) {
            let w = choose|w: nat|
                from <= w <= to - 1 && 1 <= w && #[trigger] fits(
                    storage,
                    "u"@ + names::decimal(w),
                    w,
                    count,
                );
            assert(fits(storage, "u"@ + names::decimal(w), w, count));
        }
    } else if i == before.len() {
        assert(fits(storage, "u"@ + names::decimal(to), to, count));
    }
}

/// An enum has codecs for no other storage types than these.
pub proof fn enum_storages_are_known(least: nat, widest: nat, count: nat, i: int)
    requires
        0 <= i < codec_plan::enum_storages(least, widest, count).len(),
    ensures
        is_enum_storage(codec_plan::enum_storages(least, widest, count)[i], least, widest, count),
{
    let to: nat = if widest < 31 {
        widest
    } else {
        31
    };
    let storage = codec_plan::enum_storages(least, widest, count)[i];
    if i < codec_plan::narrow_storages(least, to, count).len() {
        narrow_storage(least, to, count, i);
        if exists|w: nat|
            least <= w <= to && 1 <= w && #[trigger] fits(
                storage,
                "u"@ + names::decimal(w),
                w,
                count,
            ) {
            let w = choose|w: nat|
                least <= w <= to && 1 <= w && #[trigger] fits(
                    storage,
                    "u"@ + names::decimal(w),
                    w,
                    count,
                );
            assert(fits(storage, "u"@ + names::decimal(w), w, count));
        }
    }
}

/// Whether a list has a storage type of a name and a width for so many variants.
pub open spec fn has_storage(
    list: Seq<EnumStorageView>,
    name: Seq<char>,
    bits: nat,
    count: nat,
) -> bool {
    exists|i: int| 0 <= i < list.len() && fits(#[trigger] list[i], name, bits, count)
}

proof fn narrow_storages_stay(from: nat, middle: nat, to: nat, count: nat)
    requires
        middle <= to,
    ensures
        codec_plan::narrow_storages(from, middle, count).len() <= codec_plan::narrow_storages(
            from,
            to,
            count,
        ).len(),
        forall|i: int|
            0 <= i < codec_plan::narrow_storages(from, middle, count).len()
                ==> #[trigger] codec_plan::narrow_storages(from, to, count)[i]
                == codec_plan::narrow_storages(from, middle, count)[i],
    decreases to - middle,
{
    if middle < to {
        narrow_storages_stay(from, middle, (to - 1) as nat, count);
        if to < from {
            assert(codec_plan::narrow_storages(from, middle, count).len() == 0);
        }
    }
}

/// An enum has a codec for every width in which its variants differ, up to 31 bits and that of its
/// discriminants, for both byte orders of 16 bits where that is such a width, and for 32 and 64
/// bits.
pub proof fn enum_storages_are_complete(least: nat, widest: nat, count: nat, w: nat)
    requires
        1 <= least,
    ensures
        ({
            let list = codec_plan::enum_storages(least, widest, count);
            &&& least <= w <= widest && w <= 31 ==> has_storage(
                list,
                "u"@ + names::decimal(w),
                w,
                count,
            )
            &&& least <= 16 <= widest ==> has_storage(list, "u16_le"@, 16, count) && has_storage(
                list,
                "u16_be"@,
                16,
                count,
            )
            &&& has_storage(list, "u32"@, 32, count)
            &&& has_storage(list, "u32_le"@, 32, count)
            &&& has_storage(list, "u32_be"@, 32, count)
            &&& has_storage(list, "u64"@, 64, count)
            &&& has_storage(list, "u64_le"@, 64, count)
            &&& has_storage(list, "u64_be"@, 64, count)
        }),
{
    let to: nat = if widest < 31 {
        widest
    } else {
        31
    };
    let narrow = codec_plan::narrow_storages(least, to, count);
    let list = codec_plan::enum_storages(least, widest, count);
    let n = narrow.len() as int;
    assert(fits(list[n], "u32"@, 32, count));
    assert(fits(list[n + 1], "u32_le"@, 32, count));
    assert(fits(list[n + 2], "u32_be"@, 32, count));
    assert(fits(list[n + 3], "u64"@, 64, count));
    assert(fits(list[n + 4], "u64_le"@, 64, count));
    assert(fits(list[n + 5], "u64_be"@, 64, count));
    if least <= w <= to {
        let i = codec_plan::narrow_storages(least, (w - 1) as nat, count).len() as int;
        narrow_storages_stay(least, w, to, count);
        assert(codec_plan::narrow_storages(least, w, count)[i] == narrow[i]);
        assert(fits(list[i], "u"@ + names::decimal(w), w, count));
    }
    if least <= 16 <= to {
        let i = codec_plan::narrow_storages(least, 15, count).len() as int;
        narrow_storages_stay(least, 16, to, count);
        assert(codec_plan::narrow_storages(least, 16, count)[i + 1] == narrow[i + 1]);
        assert(codec_plan::narrow_storages(least, 16, count)[i + 2] == narrow[i + 2]);
        assert(fits(list[i + 1], "u16_le"@, 16, count));
        assert(fits(list[i + 2], "u16_be"@, 16, count));
    }
}

/// Whether a variant has no fields and a discriminant.
pub open spec fn is_plain(variant: VariantView) -> bool {
    variant.fields == 0 && variant.discriminant
}

proof fn first_bad_variant(variants: Seq<VariantView>)
    ensures
        match codec_plan::variant_error(variants) {
            None => forall|i: int| 0 <= i < variants.len() ==> is_plain(#[trigger] variants[i]),
            Some(e) => exists|i: int|
                0 <= i < variants.len() && !is_plain(#[trigger] variants[i]) && (forall|j: int|
                    0 <= j < i ==> is_plain(#[trigger] variants[j])) && e == ErrorView::Plain(
                    if variants[i].fields != 0 {
                        ErrorKind::VariantFields
                    } else {
                        ErrorKind::VariantDiscriminant
                    },
                ),
        },
    decreases variants.len(),
{
    if variants.len() > 0 {
        let front = variants.drop_last();
        let last = variants.len() - 1;
        first_bad_variant(front);
        match codec_plan::variant_error(front) {
            None => {
                assert forall|i: int| 0 <= i < last implies is_plain(#[trigger] variants[i]) by {
                    assert(is_plain(front[i]));
                }
                assert(variants.last() == variants[last]);
            },
            Some(e) => {
                let i = choose|i: int|
                    0 <= i < front.len() && !is_plain(#[trigger] front[i]) && (forall|j: int|
                        0 <= j < i ==> is_plain(#[trigger] front[j])) && e == ErrorView::Plain(
                        if front[i].fields != 0 {
                            ErrorKind::VariantFields
                        } else {
                            ErrorKind::VariantDiscriminant
                        },
                    );
                assert forall|j: int| 0 <= j < i implies is_plain(#[trigger] variants[j]) by {
                    assert(is_plain(front[j]));
                }
                assert(!is_plain(variants[i]));
            },
        }
    }
}

/// The codecs of an enum are for all its variants in order, with discriminants as wide as the
/// narrowest integer that is its representation, and for the storage types from the least width on
/// in which the variants differ. There are none if no integer is its representation, or if a
/// variant has fields or no discriminant; of several such variants the first one is named.
pub proof fn enum_plans(state: ReprState, variants: Seq<VariantView>)
    ensures
        match codec_plan::enum_plan(state, variants) {
            Ok(plan) => {
                &&& plan.variants.len() == variants.len()
                &&& forall|i: int|
                    0 <= i < variants.len() ==> #[trigger] plan.variants[i] == variants[i].name
                        && is_plain(variants[i])
                &&& plan.discriminant_bits == 8 <==> state.repr_u8
                &&& plan.discriminant_bits == 16 <==> !state.repr_u8 && state.repr_u16
                &&& plan.discriminant_bits == 32 <==> !state.repr_u8 && !state.repr_u16
                    && state.repr_u32
                &&& plan.discriminant_bits == 8 || plan.discriminant_bits == 16
                    || plan.discriminant_bits == 32
                &&& plan.storages == codec_plan::enum_storages(
                    codec_plan::least_bits(variants.len()),
                    plan.discriminant_bits,
                    variants.len(),
                )
            },
            Err(e) => if !state.repr_u8 && !state.repr_u16 && !state.repr_u32 {
                e == ErrorView::Plain(ErrorKind::EnumRepr)
            } else {
                exists|i: int|
                    0 <= i < variants.len() && !is_plain(#[trigger] variants[i]) && (forall|j: int|
                        0 <= j < i ==> is_plain(#[trigger] variants[j])) && e == ErrorView::Plain(
                        if variants[i].fields != 0 {
                            ErrorKind::VariantFields
                        } else {
                            ErrorKind::VariantDiscriminant
                        },
                    )
            },
        },
{
    first_bad_variant(variants);
}

/// The least width in which so many variants differ: at least one bit, enough for all of them, and
/// one bit less is not enough.
pub proof fn least_width(count: nat, bits: nat)
    requires
        codec_plan::is_min_bits(bits, count),
    ensures
        codec_plan::least_bits(count) == bits,
        1 <= bits,
        count <= power2::pow2(bits),
        bits > 1 ==> count > power2::pow2((bits - 1) as nat),
{
    codec_plan::min_bits_is_unique(bits, codec_plan::least_bits(count), count);
}

/// A newtype with generic parameters passes on the codecs for `bool`, for all widths from 1 to 32
/// bits, for 64 bits and for the integers of 16, 32 and 64 bits in both byte orders, and no others.
/// One without passes on those for every byte order of the native integer that it wraps, if it
/// wraps one of 16, 32 or 64 bits without a sign, and otherwise none.
pub proof fn passed_on_storages(ty: Seq<char>, w: nat)
    ensures
        codec_plan::delegation_of(true, ty) matches DelegationView::Each(list) && {
            &&& list.len() == 40
            &&& list.contains("bool"@)
            &&& 1 <= w <= 32 ==> list.contains("u"@ + names::decimal(w))
            &&& list.contains("u64"@)
            &&& list.contains("u16_le"@)
            &&& list.contains("u16_be"@)
            &&& list.contains("u32_le"@)
            &&& list.contains("u32_be"@)
            &&& list.contains("u64_le"@)
            &&& list.contains("u64_be"@)
        },
        codec_plan::delegation_of(false, ty) == if ty == "u16"@ {
            DelegationView::AnyOrder("U16"@)
        } else if ty == "u32"@ {
            DelegationView::AnyOrder("U32"@)
        } else if ty == "u64"@ {
            DelegationView::AnyOrder("U64"@)
        } else {
            DelegationView::Nothing
        },
{
    let list = codec_plan::delegation_of(true, ty)->Each_0;
    assert(list[0] == "bool"@);
    if 1 <= w <= 32 {
        assert(list[w as int] == "u"@ + names::decimal(w));
    }
    assert(list[33] == "u64"@);
    assert(list[34] == "u16_le"@);
    assert(list[35] == "u16_be"@);
    assert(list[36] == "u32_le"@);
    assert(list[37] == "u32_be"@);
    assert(list[38] == "u64_le"@);
    assert(list[39] == "u64_be"@);
}

/// Codecs are derived for enums and for transparent structs with one field without a name; the
/// codecs of such a struct are for its wrapped type. Everything else is refused, for the first of
/// these reasons: a union; fields of another number or with a name; a mistake in the
/// representation; and a struct that is not transparent.
pub proof fn derived_plans(s: Seq<Token>)
    ensures
        match codec_plan::derive_plan(s) {
            Ok(plan) => {
                &&& syntax::type_item_of(token::text(s)) matches Ok(item)
                &&& codec_plan::head_of(s) matches Ok(head)
                &&& repr::repr_of(head.attrs) matches Ok(state)
                &&& match (item.body, plan) {
                    (BodyView::Enum(variants), DerivePlanView::Enum(found)) => {
                        codec_plan::enum_plan(state, variants) == Ok::<_, ErrorView>(found)
                    },
                    (BodyView::Struct(fields), DerivePlanView::Newtype(found)) => {
                        &&& fields.len() == 1 && !fields[0].named
                        &&& state.repr_transparent
                        &&& codec_plan::wrapped_type(s, head.body) matches Ok(ty)
                        &&& found.ty == token::text(ty)
                        &&& found.delegation == codec_plan::delegation_of(
                            item.generic,
                            token::text(ty),
                        )
                    },
                    _ => false,
                }
            },
            Err(e) => match (syntax::type_item_of(token::text(s)), codec_plan::head_of(s)) {
                (Err(detail), _) => e == ErrorView::Rust(detail),
                (_, Err(first)) => e == first,
                (Ok(item), Ok(head)) => {
                    let found = repr::repr_of(head.attrs);
                    match item.body {
                        BodyView::Union => e == ErrorView::Plain(ErrorKind::NotDerivable),
                        BodyView::Enum(variants) => match found {
                            Err(first) => e == first,
                            Ok(state) => codec_plan::enum_plan(state, variants) == Err::<
                                codec_plan::EnumPlanView,
                                _,
                            >(e),
                        },
                        BodyView::Struct(fields) => if fields.len() != 1 {
                            e == ErrorView::Plain(ErrorKind::FieldCount)
                        } else if fields[0].named {
                            e == ErrorView::Plain(ErrorKind::NamedField)
                        } else {
                            match found {
                                Err(first) => e == first,
                                Ok(state) => if !state.repr_transparent {
                                    e == ErrorView::Plain(ErrorKind::NewtypeRepr)
                                } else {
                                    codec_plan::wrapped_type(s, head.body) == Err::<
                                        Seq<Token>,
                                        _,
                                    >(e)
                                },
                            }
                        },
                    }
                },
            },
        },
{
}

} // verus!

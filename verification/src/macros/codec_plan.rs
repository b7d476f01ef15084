//! The codecs that are derived for enums and newtypes.
use crate::bit_lemmas;
use crate::macros::definition;
use crate::macros::error::{DefinitionError, ErrorKind, ErrorView};
use crate::macros::names;
use crate::macros::pieces;
use crate::macros::pieces::{Attr, AttrView};
use crate::macros::repr;
use crate::macros::repr::ReprState;
use crate::macros::syntax;
use crate::macros::syntax::{
    Body, BodyView, StructField, StructFieldView, TypeItem, TypeItemView, Variant, VariantView,
};
use crate::macros::token;
use crate::macros::token::{Delimiter, Token};
use vstd::arithmetic::power2;
use vstd::prelude::*;

verus! {

/// The width in bits of the discriminants of an enum.
pub open spec fn discriminant_bits(state: ReprState) -> Option<nat> {
    if state.repr_u8 {
        Some(8)
    } else if state.repr_u16 {
        Some(16)
    } else if state.repr_u32 {
        Some(32)
    } else {
        None
    }
}

/// The first mistake in the variants of an enum.
pub open spec fn variant_error(variants: Seq<VariantView>) -> Option<ErrorView>
    decreases variants.len(),
{
    if variants.len() == 0 {
        None
    } else {
        match variant_error(variants.drop_last()) {
            Some(e) => Some(e),
            None => if variants.last().fields != 0 {
                Some(ErrorView::Plain(ErrorKind::VariantFields))
            } else if !variants.last().discriminant {
                Some(ErrorView::Plain(ErrorKind::VariantDiscriminant))
            } else {
                None
            },
        }
    }
}

proof fn variant_error_fails(variants: Seq<VariantView>, n: int)
    requires
        0 <= n <= variants.len(),
        variant_error(variants.take(n)) is Some,
    ensures
        variant_error(variants) == variant_error(variants.take(n)),
    decreases variants.len() - n,
{
    if n == variants.len() {
        assert(variants.take(n) =~= variants);
    } else {
        assert(variants.take(n + 1).drop_last() =~= variants.take(n));
        variant_error_fails(variants, n + 1);
    }
}

fn check_variants(variants: &Vec<Variant>) -> (r: Result<(), DefinitionError>)
    ensures
        match r {
            Ok(_) => variant_error(syntax::variant_views(variants@)) is None,
            Err(e) => variant_error(syntax::variant_views(variants@)) == Some(e@),
        },
{
    let ghost all = syntax::variant_views(variants@);
    let mut i: usize = 0;
    while i < variants.len()
        invariant
            i <= variants@.len(),
            all == syntax::variant_views(variants@),
            variant_error(all.take(i as int)) is None,
        decreases variants@.len() - i,
    {
        proof {
            assert(all.take(i + 1).drop_last() =~= all.take(i as int));
            assert(all.take(i + 1).last() == variants@[i as int]@);
        }
        let variant = &variants[i];
        if variant.fields != 0 {
            proof {
                variant_error_fails(all, i + 1);
            }
            return Err(DefinitionError::new(ErrorKind::VariantFields));
        }
        if !variant.discriminant {
            proof {
                variant_error_fails(all, i + 1);
            }
            return Err(DefinitionError::new(ErrorKind::VariantDiscriminant));
        }
        i += 1;
    }
    assert(all.take(i as int) =~= all);
    Ok(())
}

/// Whether `bits` is the least number of bits, at least one, in which `count` values differ.
pub open spec fn is_min_bits(bits: nat, count: nat) -> bool {
    &&& 1 <= bits
    &&& count <= power2::pow2(bits)
    &&& bits > 1 ==> count > power2::pow2((bits - 1) as nat)
}

/// The least number of bits, at least one, in which `count` values differ.
pub open spec fn least_bits(count: nat) -> nat {
    choose|bits: nat| is_min_bits(bits, count)
}

/// There is only one least number of bits.
pub proof fn min_bits_is_unique(a: nat, b: nat, count: nat)
    requires
        is_min_bits(a, count),
        is_min_bits(b, count),
    ensures
        a == b,
{
    if a < b {
        if a < b - 1 {
            power2::lemma_pow2_strictly_increases(a, (b - 1) as nat);
        }
    } else if b < a {
        if b < a - 1 {
            power2::lemma_pow2_strictly_increases(b, (a - 1) as nat);
        }
    }
}

/// The least number of bits in which `count` values differ.
pub fn min_bits(count: usize) -> (r: usize)
    ensures
        r == least_bits(count as nat),
        is_min_bits(r as nat, count as nat),
{
    let mut bits: usize = 1;
    while bits < 64 && (1u64 << (bits as u64)) < count as u64
        invariant
            1 <= bits <= 64,
            bits > 1 ==> count > power2::pow2((bits - 1) as nat),
        decreases 64 - bits,
    {
        proof {
            bit_lemmas::power_word(bits as u64);
        }
        bits += 1;
    }
    proof {
        power2::lemma2_to64();
        if bits < 64 {
            bit_lemmas::power_word(bits as u64);
        }
        assert(is_min_bits(bits as nat, count as nat));
        min_bits_is_unique(bits as nat, least_bits(count as nat), count as nat);
    }
    bits
}

/// A storage type that an enum gets a codec for, its width, and whether some stored values stand
/// for no variant.
pub struct EnumStorage {
    pub name: String,
    pub bits: usize,
    pub fallible: bool,
}

/// The contents of an [`EnumStorage`].
#[verifier::ext_equal]
pub struct EnumStorageView {
    pub name: Seq<char>,
    pub bits: nat,
    pub fallible: bool,
}

impl View for EnumStorage {
    type V = EnumStorageView;

    open spec fn view(&self) -> EnumStorageView {
        EnumStorageView { name: self.name@, bits: self.bits as nat, fallible: self.fallible }
    }
}

/// The contents of storage types.
pub open spec fn enum_storage_views(list: Seq<EnumStorage>) -> Seq<EnumStorageView> {
    Seq::new(list.len(), |i: int| list[i]@)
}

/// A storage type for an enum of `count` variants. There are values of `bits` bits that stand for
/// no variant if there are fewer variants than such values; 64 bits always have some.
pub open spec fn enum_storage(name: Seq<char>, bits: nat, count: nat) -> EnumStorageView {
    EnumStorageView { name, bits, fallible: bits >= 64 || count < power2::pow2(bits) }
}

/// The storage types of up to 31 bits for an enum of `count` variants: one for each width from
/// `from` to `to`, and those with a byte order behind that of 16 bits.
pub open spec fn narrow_storages(from: nat, to: nat, count: nat) -> Seq<EnumStorageView>
    decreases to,
{
    if to < from || to == 0 {
        Seq::empty()
    } else {
        let before = narrow_storages(from, (to - 1) as nat, count).push(
            enum_storage("u"@ + names::decimal(to), to, count),
        );
        if to == 16 {
            before.push(enum_storage("u16_le"@, 16, count)).push(
                enum_storage("u16_be"@, 16, count),
            )
        } else {
            before
        }
    }
}

/// The storage types for an enum of `count` variants whose discriminants are `max_bits` wide: those
/// in which all variants differ and that are not wider than the discriminants, and in any case
/// those of 32 and 64 bits.
pub open spec fn enum_storages(min_bits: nat, max_bits: nat, count: nat) -> Seq<EnumStorageView> {
    narrow_storages(
        min_bits,
        if max_bits < 31 {
            max_bits
        } else {
            31
        },
        count,
    ) + seq![
        enum_storage("u32"@, 32, count),
        enum_storage("u32_le"@, 32, count),
        enum_storage("u32_be"@, 32, count),
        enum_storage("u64"@, 64, count),
        enum_storage("u64_le"@, 64, count),
        enum_storage("u64_be"@, 64, count),
    ]
}

fn make_storage(name: String, bits: usize, count: usize) -> (r: EnumStorage)
    ensures
        r@ == enum_storage(name@, bits as nat, count as nat),
{
    let fallible = if bits >= 64 {
        true
    } else {
        proof {
            bit_lemmas::power_word(bits as u64);
        }
        (count as u64) < (1u64 << (bits as u64))
    };
    EnumStorage { name, bits, fallible }
}

fn push_storage(list: &mut Vec<EnumStorage>, name: &str, bits: usize, count: usize)
    ensures
        enum_storage_views(final(list)@) == enum_storage_views(old(list)@).push(
            enum_storage(name@, bits as nat, count as nat),
        ),
{
    let ghost before = enum_storage_views(list@);
    let storage = make_storage(name.to_owned(), bits, count);
    let ghost made = storage@;
    list.push(storage);
    assert(enum_storage_views(list@) =~= before.push(made));
}

/// Lists the storage types for an enum of `count` variants whose discriminants are `max_bits` wide.
pub fn list_storages(min_bits: usize, max_bits: usize, count: usize) -> (r: Vec<EnumStorage>)
    requires
        min_bits >= 1,
    ensures
        enum_storage_views(r@) == enum_storages(min_bits as nat, max_bits as nat, count as nat),
{
    let last: usize = if max_bits < 31 {
        max_bits
    } else {
        31
    };
    let mut list: Vec<EnumStorage> = Vec::new();
    let mut bits: usize = min_bits;
    proof {
        assert(enum_storage_views(list@) =~= Seq::empty());
        assert(narrow_storages(min_bits as nat, (min_bits - 1) as nat, count as nat)
            =~= Seq::empty());
    }
    while bits <= last
        invariant
            1 <= min_bits <= bits,
            bits <= last || bits == last + 1 || bits == min_bits,
            last <= 31,
            enum_storage_views(list@) == narrow_storages(
                min_bits as nat,
                (bits - 1) as nat,
                count as nat,
            ),
        decreases last + 1 - bits,
    {
        let name = "u".to_owned().concat(names::decimal_text(bits).as_str());
        push_storage(&mut list, name.as_str(), bits, count);
        if bits == 16 {
            push_storage(&mut list, "u16_le", 16, count);
            push_storage(&mut list, "u16_be", 16, count);
        }
        bits += 1;
    }
    proof {
        if min_bits > last {
            assert(narrow_storages(min_bits as nat, last as nat, count as nat) =~= Seq::empty());
        }
    }
    let ghost narrow = enum_storage_views(list@);
    push_storage(&mut list, "u32", 32, count);
    push_storage(&mut list, "u32_le", 32, count);
    push_storage(&mut list, "u32_be", 32, count);
    push_storage(&mut list, "u64", 64, count);
    push_storage(&mut list, "u64_le", 64, count);
    push_storage(&mut list, "u64_be", 64, count);
    assert(enum_storage_views(list@) =~= enum_storages(
        min_bits as nat,
        max_bits as nat,
        count as nat,
    ));
    list
}

/// The names of variants.
pub open spec fn variant_names(variants: Seq<VariantView>) -> Seq<Seq<char>> {
    Seq::new(variants.len(), |i: int| variants[i].name)
}

fn collect_names(variants: &Vec<Variant>) -> (r: Vec<String>)
    ensures
        syntax::strings(r@) == variant_names(syntax::variant_views(variants@)),
{
    let mut list: Vec<String> = Vec::new();
    let mut i: usize = 0;
    while i < variants.len()
        invariant
            i <= variants@.len(),
            list@.len() == i,
            forall|k: int| 0 <= k < i ==> (#[trigger] list@[k])@ == variants@[k].name@,
        decreases variants@.len() - i,
    {
        list.push(variants[i].name.clone());
        i += 1;
    }
    assert(syntax::strings(list@) =~= variant_names(syntax::variant_views(variants@)));
    list
}

/// The codecs of an enum.
pub struct EnumPlan {
    /// The names of its variants.
    pub variants: Vec<String>,
    /// The width of its discriminants.
    pub discriminant_bits: usize,
    pub storages: Vec<EnumStorage>,
}

/// The contents of an [`EnumPlan`].
#[verifier::ext_equal]
pub struct EnumPlanView {
    pub variants: Seq<Seq<char>>,
    pub discriminant_bits: nat,
    pub storages: Seq<EnumStorageView>,
}

impl View for EnumPlan {
    type V = EnumPlanView;

    open spec fn view(&self) -> EnumPlanView {
        EnumPlanView {
            variants: syntax::strings(self.variants@),
            discriminant_bits: self.discriminant_bits as nat,
            storages: enum_storage_views(self.storages@),
        }
    }
}

/// The codecs of an enum with the given representation and variants.
pub open spec fn enum_plan(state: ReprState, variants: Seq<VariantView>) -> Result<
    EnumPlanView,
    ErrorView,
> {
    match discriminant_bits(state) {
        None => Err(ErrorView::Plain(ErrorKind::EnumRepr)),
        Some(width) => match variant_error(variants) {
            Some(e) => Err(e),
            None => Ok(
                EnumPlanView {
                    variants: variant_names(variants),
                    discriminant_bits: width,
                    storages: enum_storages(least_bits(variants.len()), width, variants.len()),
                },
            ),
        },
    }
}

/// Plans the codecs of an enum.
pub fn plan_enum(state: ReprState, variants: &Vec<Variant>) -> (r: Result<
    EnumPlan,
    DefinitionError,
>)
    ensures
        match r {
            Ok(plan) => enum_plan(state, syntax::variant_views(variants@)) == Ok::<_, ErrorView>(
                plan@,
            ),
            Err(e) => enum_plan(state, syntax::variant_views(variants@)) == Err::<EnumPlanView, _>(
                e@,
            ),
        },
{
    let discriminant_bits: usize = if state.repr_u8 {
        8
    } else if state.repr_u16 {
        16
    } else if state.repr_u32 {
        32
    } else {
        return Err(DefinitionError::new(ErrorKind::EnumRepr));
    };
    match check_variants(variants) {
        Ok(_) => {},
        Err(e) => {
            return Err(e);
        },
    }
    let bits = min_bits(variants.len());
    let storages = list_storages(bits, discriminant_bits, variants.len());
    Ok(EnumPlan { variants: collect_names(variants), discriminant_bits, storages })
}

/// The storage types that a newtype with generic parameters passes on: `bool`, all widths from 1 to
/// 32 bits, 64 bits, and those with a byte order.
pub open spec fn delegated_storage(i: int) -> Seq<char> {
    if i == 0 {
        "bool"@
    } else if i <= 32 {
        "u"@ + names::decimal(i as nat)
    } else if i == 33 {
        "u64"@
    } else if i == 34 {
        "u16_le"@
    } else if i == 35 {
        "u16_be"@
    } else if i == 36 {
        "u32_le"@
    } else if i == 37 {
        "u32_be"@
    } else if i == 38 {
        "u64_le"@
    } else {
        "u64_be"@
    }
}

fn delegated_name(i: usize) -> (r: String)
    ensures
        r@ == delegated_storage(i as int),
{
    if i == 0 {
        "bool".to_owned()
    } else if i <= 32 {
        "u".to_owned().concat(names::decimal_text(i).as_str())
    } else if i == 33 {
        "u64".to_owned()
    } else if i == 34 {
        "u16_le".to_owned()
    } else if i == 35 {
        "u16_be".to_owned()
    } else if i == 36 {
        "u32_le".to_owned()
    } else if i == 37 {
        "u32_be".to_owned()
    } else if i == 38 {
        "u64_le".to_owned()
    } else {
        "u64_be".to_owned()
    }
}

/// The codecs of a newtype besides the one for itself.
pub enum Delegation {
    /// One for each of the storage types.
    Each(Vec<String>),
    /// One for an endian-aware integer in any byte order.
    AnyOrder(&'static str),
    Nothing,
}

/// The contents of a [`Delegation`].
#[verifier::ext_equal]
pub enum DelegationView {
    Each(Seq<Seq<char>>),
    AnyOrder(Seq<char>),
    Nothing,
}

impl View for Delegation {
    type V = DelegationView;

    open spec fn view(&self) -> DelegationView {
        match self {
            Delegation::Each(names) => DelegationView::Each(syntax::strings(names@)),
            Delegation::AnyOrder(name) => DelegationView::AnyOrder(name@),
            Delegation::Nothing => DelegationView::Nothing,
        }
    }
}

/// The codecs that a newtype around a type passes on. Without generic parameters only those can be
/// stated that are known to exist: those of native integers in a byte order.
pub open spec fn delegation_of(generic: bool, ty: Seq<char>) -> DelegationView {
    if generic {
        DelegationView::Each(Seq::new(40, |i: int| delegated_storage(i)))
    } else if ty == "u16"@ {
        DelegationView::AnyOrder("U16"@)
    } else if ty == "u32"@ {
        DelegationView::AnyOrder("U32"@)
    } else if ty == "u64"@ {
        DelegationView::AnyOrder("U64"@)
    } else {
        DelegationView::Nothing
    }
}

fn delegate_each() -> (r: Vec<String>)
    ensures
        syntax::strings(r@) == Seq::new(40, |i: int| delegated_storage(i)),
{
    let mut names: Vec<String> = Vec::new();
    let mut i: usize = 0;
    while i < 40
        invariant
            i <= 40,
            names@.len() == i,
            forall|k: int| 0 <= k < i ==> (#[trigger] names@[k])@ == delegated_storage(k),
        decreases 40 - i,
    {
        names.push(delegated_name(i));
        i += 1;
    }
    assert(syntax::strings(names@) =~= Seq::new(40, |i: int| delegated_storage(i)));
    names
}

/// Finds the codecs that a newtype around a type passes on.
pub fn delegate(generic: bool, ty: &String) -> (r: Delegation)
    ensures
        r@ == delegation_of(generic, ty@),
{
    if generic {
        Delegation::Each(delegate_each())
    } else if *ty == "u16".to_owned() {
        Delegation::AnyOrder("U16")
    } else if *ty == "u32".to_owned() {
        Delegation::AnyOrder("U32")
    } else if *ty == "u64".to_owned() {
        Delegation::AnyOrder("U64")
    } else {
        Delegation::Nothing
    }
}

/// The codecs of a newtype.
pub struct NewtypePlan {
    /// The text of the wrapped type.
    pub ty: String,
    pub delegation: Delegation,
}

/// The contents of a [`NewtypePlan`].
#[verifier::ext_equal]
pub struct NewtypePlanView {
    pub ty: Seq<char>,
    pub delegation: DelegationView,
}

impl View for NewtypePlan {
    type V = NewtypePlanView;

    open spec fn view(&self) -> NewtypePlanView {
        NewtypePlanView { ty: self.ty@, delegation: self.delegation@ }
    }
}

/// The mistake in the fields of a newtype, if there is one.
pub open spec fn newtype_error(fields: Seq<StructFieldView>) -> Option<ErrorView> {
    if fields.len() != 1 {
        Some(ErrorView::Plain(ErrorKind::FieldCount))
    } else if fields[0].named {
        Some(ErrorView::Plain(ErrorKind::NamedField))
    } else {
        None
    }
}

/// Checks the fields of a newtype.
pub fn check_newtype(fields: &Vec<StructField>) -> (r: Result<(), DefinitionError>)
    ensures
        match r {
            Ok(_) => newtype_error(syntax::struct_field_views(fields@)) is None,
            Err(e) => newtype_error(syntax::struct_field_views(fields@)) == Some(e@),
        },
{
    if fields.len() != 1 {
        return Err(DefinitionError::new(ErrorKind::FieldCount));
    }
    assert(syntax::struct_field_views(fields@)[0] == fields@[0]@);
    if fields[0].named {
        return Err(DefinitionError::new(ErrorKind::NamedField));
    }
    Ok(())
}

/// The codecs that are derived for a type.
pub enum DerivePlan {
    Enum(EnumPlan),
    Newtype(NewtypePlan),
}

/// The contents of a [`DerivePlan`].
#[verifier::ext_equal]
pub enum DerivePlanView {
    Enum(EnumPlanView),
    Newtype(NewtypePlanView),
}

impl View for DerivePlan {
    type V = DerivePlanView;

    open spec fn view(&self) -> DerivePlanView {
        match self {
            DerivePlan::Enum(plan) => DerivePlanView::Enum(plan@),
            DerivePlan::Newtype(plan) => DerivePlanView::Newtype(plan@),
        }
    }
}

/// The type of the one field that the parentheses at `body` hold.
pub open spec fn wrapped_type(s: Seq<Token>, body: int) -> Result<Seq<Token>, ErrorView> {
    if pieces::is_group(s, body, Delimiter::Parenthesis) {
        let inner = pieces::inside(s, body);
        let end = if pieces::is_punct(inner, inner.len() - 1, ","@) {
            inner.len() - 1
        } else {
            inner.len() as int
        };
        match pieces::attributes_at(inner, 0) {
            Err(e) => Err(e),
            Ok((_, start)) => match pieces::visibility_at(inner, start) {
                Err(e) => Err(e),
                Ok((_, typed)) => if typed <= end {
                    Ok(inner.subrange(typed, end))
                } else {
                    Err(ErrorView::Plain(ErrorKind::UnexpectedToken))
                },
            },
        }
    } else {
        Err(ErrorView::Plain(ErrorKind::UnexpectedToken))
    }
}

fn find_wrapped_type<'a>(s: &'a [Token], body: usize) -> (r: Result<&'a [Token], DefinitionError>)
    ensures
        match r {
            Ok(ty) => wrapped_type(s@, body as int) == Ok::<_, ErrorView>(ty@),
            Err(e) => wrapped_type(s@, body as int) == Err::<Seq<Token>, _>(e@),
        },
{
    let inner = match pieces::group_at(s, body, Delimiter::Parenthesis) {
        Some(inner) => inner,
        None => {
            return Err(DefinitionError::new(ErrorKind::UnexpectedToken));
        },
    };
    let count = inner.len();
    let end: usize = if count > 0 && pieces::punct_at(inner, count - 1, ",") {
        count - 1
    } else {
        count
    };
    let (_, start) = match pieces::parse_attributes(inner, 0) {
        Ok(found) => found,
        Err(e) => {
            return Err(e);
        },
    };
    let (_, typed) = match pieces::parse_visibility(inner, start) {
        Ok(found) => found,
        Err(e) => {
            return Err(e);
        },
    };
    if typed <= end {
        Ok(pieces::part(inner, typed, end))
    } else {
        Err(DefinitionError::new(ErrorKind::UnexpectedToken))
    }
}

/// The codecs of a newtype around a type with the given tokens.
pub open spec fn newtype_plan(generic: bool, ty: Seq<Token>) -> NewtypePlanView {
    NewtypePlanView {
        ty: token::text(ty),
        delegation: delegation_of(generic, token::text(ty)),
    }
}

/// The codecs of a type whose attributes give the representation `repr`, and whose body stands at
/// `body`. A mistake in a newtype's fields comes before one in its representation, and any other
/// after it.
pub open spec fn item_plan(
    repr: Result<ReprState, ErrorView>,
    item: TypeItemView,
    s: Seq<Token>,
    body: int,
) -> Result<DerivePlanView, ErrorView> {
    match item.body {
        BodyView::Union => Err(ErrorView::Plain(ErrorKind::NotDerivable)),
        BodyView::Enum(variants) => match repr {
            Err(e) => Err(e),
            Ok(state) => match enum_plan(state, variants) {
                Err(e) => Err(e),
                Ok(plan) => Ok(DerivePlanView::Enum(plan)),
            },
        },
        BodyView::Struct(fields) => match newtype_error(fields) {
            Some(e) => Err(e),
            None => match repr {
                Err(e) => Err(e),
                Ok(state) => if !state.repr_transparent {
                    Err(ErrorView::Plain(ErrorKind::NewtypeRepr))
                } else {
                    match wrapped_type(s, body) {
                        Err(e) => Err(e),
                        Ok(ty) => Ok(DerivePlanView::Newtype(newtype_plan(item.generic, ty))),
                    }
                },
            },
        },
    }
}

/// A representation, or what is wrong with it.
pub open spec fn repr_kind(repr: Result<ReprState, DefinitionError>) -> Result<
    ReprState,
    ErrorView,
> {
    match repr {
        Ok(state) => Ok(state),
        Err(e) => Err(e@),
    }
}

/// Plans the codecs of a type whose attributes give the representation `repr`, and whose body
/// stands at `body`.
pub fn plan_item(
    repr: Result<ReprState, DefinitionError>,
    item: &TypeItem,
    s: &[Token],
    body: usize,
) -> (r: Result<DerivePlan, DefinitionError>)
    ensures
        match r {
            Ok(plan) => item_plan(repr_kind(repr), item@, s@, body as int) == Ok::<_, ErrorView>(
                plan@,
            ),
            Err(e) => item_plan(repr_kind(repr), item@, s@, body as int) == Err::<
                DerivePlanView,
                _,
            >(e@),
        },
{
    match &item.body {
        Body::Union => Err(DefinitionError::new(ErrorKind::NotDerivable)),
        Body::Enum(variants) => match repr {
            Err(e) => Err(e),
            Ok(state) => match plan_enum(state, variants) {
                Ok(plan) => Ok(DerivePlan::Enum(plan)),
                Err(e) => Err(e),
            },
        },
        Body::Struct(fields) => {
            match check_newtype(fields) {
                Ok(_) => {},
                Err(e) => {
                    return Err(e);
                },
            }
            match repr {
                Err(e) => Err(e),
                Ok(state) => if !state.repr_transparent {
                    Err(DefinitionError::new(ErrorKind::NewtypeRepr))
                } else {
                    match find_wrapped_type(s, body) {
                        Ok(tokens) => {
                            let ty = token::render(tokens);
                            let delegation = delegate(item.generic, &ty);
                            Ok(DerivePlan::Newtype(NewtypePlan { ty, delegation }))
                        },
                        Err(e) => Err(e),
                    }
                },
            }
        },
    }
}

/// What stands in front of the body of a type.
pub struct Head<'a> {
    pub attrs: Vec<Attr<'a>>,
    pub name: &'a String,
    pub generics: &'a [Token],
    /// Where the body, or a `where` clause in front of it, starts.
    pub body: usize,
}

/// The contents of a [`Head`].
#[verifier::ext_equal]
pub struct HeadView {
    pub attrs: Seq<AttrView>,
    pub name: Seq<char>,
    pub generics: Seq<Token>,
    pub body: int,
}

impl<'a> View for Head<'a> {
    type V = HeadView;

    open spec fn view(&self) -> HeadView {
        HeadView {
            attrs: pieces::attr_views(self.attrs@),
            name: self.name@,
            generics: self.generics@,
            body: self.body as int,
        }
    }
}

/// What stands in front of the body of a type: attributes, a visibility, a keyword, the name and
/// generic parameters.
pub open spec fn head_of(s: Seq<Token>) -> Result<HeadView, ErrorView> {
    match pieces::attributes_at(s, 0) {
        Err(e) => Err(e),
        Ok((attrs, start)) => match pieces::visibility_at(s, start) {
            Err(e) => Err(e),
            Ok((_, keyword)) => match pieces::identifier_at(s, keyword + 1) {
                Err(e) => Err(e),
                Ok((name, named)) => match definition::generics_at(s, named) {
                    Err(e) => Err(e),
                    Ok((generics, _, body)) => Ok(HeadView { attrs, name, generics, body }),
                },
            },
        },
    }
}

/// Finds what stands in front of the body of a type.
pub(crate) fn parse_head<'a>(s: &'a [Token]) -> (r: Result<Head<'a>, DefinitionError>)
    ensures
        match r {
            Ok(head) => head_of(s@) == Ok::<_, ErrorView>(head@),
            Err(e) => head_of(s@) == Err::<HeadView, _>(e@),
        },
{
    let (attrs, start) = match pieces::parse_attributes(s, 0) {
        Ok(found) => found,
        Err(e) => {
            return Err(e);
        },
    };
    let (_, keyword) = match pieces::parse_visibility(s, start) {
        Ok(found) => found,
        Err(e) => {
            return Err(e);
        },
    };
    if keyword >= s.len() {
        return Err(DefinitionError::new(ErrorKind::ExpectedIdentifier));
    }
    let (name, named) = match pieces::parse_identifier(s, keyword + 1) {
        Ok(found) => found,
        Err(e) => {
            return Err(e);
        },
    };
    match definition::parse_generics(s, named) {
        Ok((generics, _, body)) => Ok(Head { attrs, name, generics, body }),
        Err(e) => Err(e),
    }
}

/// The codecs of the type that tokens define.
pub open spec fn derive_plan(s: Seq<Token>) -> Result<DerivePlanView, ErrorView> {
    match syntax::type_item_of(token::text(s)) {
        Err(detail) => Err(ErrorView::Rust(detail)),
        Ok(item) => match head_of(s) {
            Err(e) => Err(e),
            Ok(head) => item_plan(repr::repr_of(head.attrs), item, s, head.body),
        },
    }
}

/// Plans the codecs of the type that tokens define.
pub fn plan_derive(s: &[Token]) -> (r: Result<DerivePlan, DefinitionError>)
    ensures
        match r {
            Ok(plan) => derive_plan(s@) == Ok::<_, ErrorView>(plan@),
            Err(e) => derive_plan(s@) == Err::<DerivePlanView, _>(e@),
        },
{
    let text = token::render(s);
    let item = match syntax::type_item(text.as_str()) {
        Ok(item) => item,
        Err(detail) => {
            return Err(pieces::rust_error(detail));
        },
    };
    match parse_head(s) {
        Ok(head) => plan_item(repr::get_repr_state(&head.attrs), &item, s, head.body),
        Err(e) => Err(e),
    }
}

proof fn narrow_storage_fits(from: nat, to: nat, count: nat, i: int)
    requires
        count <= power2::pow2(from),
        0 <= i < narrow_storages(from, to, count).len(),
    ensures
        count <= power2::pow2(narrow_storages(from, to, count)[i].bits),
        narrow_storages(from, to, count)[i] == enum_storage(
            narrow_storages(from, to, count)[i].name,
            narrow_storages(from, to, count)[i].bits,
            count,
        ),
    decreases to,
{
    let before = narrow_storages(from, (to - 1) as nat, count);
    if from < to {
        power2::lemma_pow2_strictly_increases(from, to);
    }
    if i < before.len() {
        narrow_storage_fits(from, (to - 1) as nat, count, i);
    }
}

/// Every storage type of an enum can hold all its variants, and where its codec cannot fail, there
/// are exactly as many variants as stored values.
pub proof fn storages_hold_all_variants(min_bits: nat, max_bits: nat, count: nat, i: int)
    requires
        is_min_bits(min_bits, count),
        count <= power2::pow2(32),
        0 <= i < enum_storages(min_bits, max_bits, count).len(),
    ensures
        ({
            let storage = enum_storages(min_bits, max_bits, count)[i];
            &&& count <= power2::pow2(storage.bits)
            &&& !storage.fallible ==> count == power2::pow2(storage.bits)
        }),
{
    let last: nat = if max_bits < 31 {
        max_bits
    } else {
        31
    };
    power2::lemma_pow2_strictly_increases(32, 64);
    if i < narrow_storages(min_bits, last, count).len() {
        narrow_storage_fits(min_bits, last, count, i);
    }
}

} // verus!

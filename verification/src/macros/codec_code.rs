//! The code of derived codecs.
use crate::macros::codec_plan;
use crate::macros::codec_plan::{
    Delegation, DelegationView, DerivePlan, DerivePlanView, EnumPlan, EnumStorage, EnumStorageView,
    NewtypePlan, NewtypePlanView,
};
use crate::macros::codec_text;
use crate::macros::error::{DefinitionError, ErrorView};
use crate::macros::generics;
use crate::macros::names;
use crate::macros::pieces;
use crate::macros::syntax;
use crate::macros::token;
use crate::macros::token::Token;
use vstd::prelude::*;

verus! {

/// Where the predicates of a `where` clause start, if one stands at `i` or behind it.
pub open spec fn predicates_start(s: Seq<Token>, i: int) -> int
    decreases s.len() - i,
{
    if i >= s.len() {
        s.len() as int
    } else if pieces::is_word(s, i, "where"@) {
        i + 1
    } else {
        predicates_start(s, i + 1)
    }
}

/// The predicates of the `where` clause of a type whose body, or a clause in front of it, starts at
/// `body`. Behind a clause comes one token: the semicolon or the variants in braces.
pub open spec fn predicates_of(s: Seq<Token>, body: int) -> Seq<Token> {
    let start = predicates_start(s, body);
    if start < s.len() {
        s.subrange(start, s.len() - 1)
    } else {
        Seq::empty()
    }
}

fn find_predicates<'a>(s: &'a [Token], body: usize) -> (r: &'a [Token])
    requires
        body <= s@.len(),
    ensures
        r@ == predicates_of(s@, body as int),
{
    let mut i: usize = body;
    while i < s.len() && !pieces::word_at(s, i, "where")
        invariant
            body <= i <= s@.len(),
            predicates_start(s@, body as int) == predicates_start(s@, i as int),
        decreases s@.len() - i,
    {
        i += 1;
    }
    let count = s.len();
    if count - i > 1 {
        pieces::part(s, i + 1, count - 1)
    } else {
        let none = pieces::part(s, count, count);
        assert(none@ =~= Seq::empty());
        none
    }
}

/// How the impls for a type refer to it.
pub struct TypeHeader {
    pub name: String,
    /// The generic parameters in the header of an impl.
    pub header: String,
    /// The generic parameters as arguments.
    pub arguments: String,
    /// The predicates of the `where` clause.
    pub predicates: String,
}

/// The contents of a [`TypeHeader`].
#[verifier::ext_equal]
pub struct TypeHeaderView {
    pub name: Seq<char>,
    pub header: Seq<char>,
    pub arguments: Seq<char>,
    pub predicates: Seq<char>,
}

impl View for TypeHeader {
    type V = TypeHeaderView;

    open spec fn view(&self) -> TypeHeaderView {
        TypeHeaderView {
            name: self.name@,
            header: self.header@,
            arguments: self.arguments@,
            predicates: self.predicates@,
        }
    }
}

/// How the impls for the type that tokens define refer to it.
pub open spec fn type_header_of(s: Seq<Token>) -> Result<TypeHeaderView, ErrorView> {
    match codec_plan::head_of(s) {
        Err(e) => Err(e),
        Ok(head) => match generics::split_generics(head.generics) {
            Err(e) => Err(e),
            Ok((header, arguments)) => Ok(
                TypeHeaderView {
                    name: head.name,
                    header,
                    arguments,
                    predicates: token::text(predicates_of(s, head.body)),
                },
            ),
        },
    }
}

fn parse_type_header(s: &[Token]) -> (r: Result<TypeHeader, DefinitionError>)
    ensures
        match r {
            Ok(header) => type_header_of(s@) == Ok::<_, ErrorView>(header@),
            Err(e) => type_header_of(s@) == Err::<TypeHeaderView, _>(e@),
        },
{
    let head = match codec_plan::parse_head(s) {
        Ok(head) => head,
        Err(e) => {
            return Err(e);
        },
    };
    match generics::render_generics(head.generics) {
        Ok((header, arguments)) => Ok(
            TypeHeader {
                name: head.name.clone(),
                header,
                arguments,
                predicates: token::render(find_predicates(s, head.body)),
            },
        ),
        Err(e) => Err(e),
    }
}

/// What a codec holds for each variant of an enum.
#[derive(Clone, Copy)]
pub enum VariantLine {
    /// The discriminant, in a table.
    TableEntry,
    /// The arm that turns a position in the table into the variant.
    ReadArm,
    /// The arm that turns a position that was found into the variant.
    CheckedArm,
    /// The arm that turns the variant into its discriminant.
    WriteArm,
}

/// What a codec holds for the variant of an enum that comes at a position.
pub open spec fn variant_line(
    line: VariantLine,
    position: Seq<char>,
    name: Seq<char>,
    variant: Seq<char>,
    repr: Seq<char>,
) -> Seq<char> {
    match line {
        VariantLine::TableEntry => codec_text::table_entry_code(name, variant, repr),
        VariantLine::ReadArm => codec_text::read_arm_code(position, name, variant),
        VariantLine::CheckedArm => codec_text::checked_arm_code(position, name, variant),
        VariantLine::WriteArm => codec_text::write_arm_code(name, variant, repr),
    }
}

/// A line for each variant of an enum.
pub open spec fn variant_lines(
    line: VariantLine,
    name: Seq<char>,
    variants: Seq<Seq<char>>,
    repr: Seq<char>,
) -> Seq<char>
    decreases variants.len(),
{
    if variants.len() == 0 {
        Seq::empty()
    } else {
        variant_lines(line, name, variants.drop_last(), repr) + variant_line(
            line,
            names::decimal((variants.len() - 1) as nat),
            name,
            variants.last(),
            repr,
        )
    }
}

fn render_variant_lines(
    line: VariantLine,
    name: &str,
    variants: &Vec<String>,
    repr: &str,
) -> (r: String)
    ensures
        r@ == variant_lines(line, name@, syntax::strings(variants@), repr@),
{
    let ghost all = syntax::strings(variants@);
    let mut out = String::new();
    let mut i: usize = 0;
    while i < variants.len()
        invariant
            i <= variants@.len(),
            all == syntax::strings(variants@),
            out@ == variant_lines(line, name@, all.take(i as int), repr@),
        decreases variants@.len() - i,
    {
        proof {
            assert(all.take(i + 1).drop_last() =~= all.take(i as int));
            assert(all.take(i + 1).last() == variants@[i as int]@);
        }
        let position = names::decimal_text(i);
        let (position, variant) = (position.as_str(), variants[i].as_str());
        let text = match line {
            VariantLine::TableEntry => codec_text::render_table_entry_code(name, variant, repr),
            VariantLine::ReadArm => codec_text::render_read_arm_code(position, name, variant),
            VariantLine::CheckedArm => codec_text::render_checked_arm_code(position, name, variant),
            VariantLine::WriteArm => codec_text::render_write_arm_code(name, variant, repr),
        };
        out.append(text.as_str());
        i += 1;
    }
    assert(all.take(i as int) =~= all);
    out
}

/// The `where` clause of a type, if it has predicates.
pub open spec fn where_clause(predicates: Seq<char>) -> Seq<char> {
    if predicates.len() == 0 {
        Seq::empty()
    } else {
        codec_text::where_clause_code(predicates)
    }
}

fn render_where_clause(predicates: &str) -> (r: String)
    ensures
        r@ == where_clause(predicates@),
{
    if predicates.unicode_len() == 0 {
        return String::new();
    }
    codec_text::render_where_clause_code(predicates)
}

/// The codec of an enum for one of its storage types.
#[verifier::opaque]
pub open spec fn enum_codec(
    header: TypeHeaderView,
    variants: Seq<Seq<char>>,
    width: nat,
    storage: EnumStorageView,
) -> Seq<char> {
    let repr = "u"@ + names::decimal(width);
    let table = variant_lines(VariantLine::TableEntry, header.name, variants, repr);
    codec_text::enum_codec_code(
        header.name,
        storage.name,
        names::decimal(storage.bits),
        header.header,
        header.arguments,
        where_clause(header.predicates),
        if storage.fallible {
            "true"@
        } else {
            "false"@
        },
        if storage.fallible {
            codec_text::checked_result_code(storage.name)
        } else {
            "Self"@
        },
        if storage.fallible {
            "try_read_bits"@
        } else {
            "read_bits"@
        },
        table,
        variant_lines(VariantLine::ReadArm, header.name, variants, repr),
        if storage.fallible {
            codec_text::checked_read_code(
                storage.name,
                table,
                variant_lines(VariantLine::CheckedArm, header.name, variants, repr),
            )
        } else {
            codec_text::plain_read_code(storage.name)
        },
        variant_lines(VariantLine::WriteArm, header.name, variants, repr),
    )
}

/// Renders the codec of an enum for one of its storage types.
pub fn render_enum_codec(
    header: &TypeHeader,
    variants: &Vec<String>,
    width: usize,
    storage: &EnumStorage,
) -> (r: String)
    ensures
        r@ == enum_codec(header@, syntax::strings(variants@), width as nat, storage@),
{
    proof {
        reveal(enum_codec);
    }
    let repr = "u".to_owned().concat(names::decimal_text(width).as_str());
    let repr = repr.as_str();
    let (name, target) = (header.name.as_str(), storage.name.as_str());
    let bits = names::decimal_text(storage.bits);
    let clause = render_where_clause(header.predicates.as_str());
    let table = render_variant_lines(VariantLine::TableEntry, name, variants, repr);
    let table = table.as_str();
    let read_arms = render_variant_lines(VariantLine::ReadArm, name, variants, repr);
    let write_arms = render_variant_lines(VariantLine::WriteArm, name, variants, repr);
    let (result, checked) = if storage.fallible {
        let arms = render_variant_lines(VariantLine::CheckedArm, name, variants, repr);
        let arms = arms.as_str();
        let result = codec_text::render_checked_result_code(target);
        let checked = codec_text::render_checked_read_code(target, table, arms);
        (result, checked)
    } else {
        let checked = codec_text::render_plain_read_code(target);
        ("Self".to_owned(), checked)
    };
    let (fallible, reader) = if storage.fallible {
        ("true", "try_read_bits")
    } else {
        ("false", "read_bits")
    };
    let (bits, clause) = (bits.as_str(), clause.as_str());
    let (impl_header, arguments) = (header.header.as_str(), header.arguments.as_str());
    let (result, checked) = (result.as_str(), checked.as_str());
    let (read_arms, write_arms) = (read_arms.as_str(), write_arms.as_str());
    codec_text::render_enum_codec_code(
        name,
        target,
        bits,
        impl_header,
        arguments,
        clause,
        fallible,
        result,
        reader,
        table,
        read_arms,
        checked,
        write_arms,
    )
}

/// The codecs of an enum for storage types.
pub open spec fn enum_codecs(
    header: TypeHeaderView,
    variants: Seq<Seq<char>>,
    width: nat,
    storages: Seq<EnumStorageView>,
) -> Seq<char>
    decreases storages.len(),
{
    if storages.len() == 0 {
        Seq::empty()
    } else {
        enum_codecs(header, variants, width, storages.drop_last()) + enum_codec(
            header,
            variants,
            width,
            storages.last(),
        )
    }
}

/// Renders the codecs of an enum.
pub fn render_enum_codecs(header: &TypeHeader, plan: &EnumPlan) -> (r: String)
    ensures
        r@ == enum_codecs(header@, plan@.variants, plan@.discriminant_bits, plan@.storages),
{
    let ghost all = codec_plan::enum_storage_views(plan.storages@);
    let mut out = String::new();
    let mut i: usize = 0;
    while i < plan.storages.len()
        invariant
            i <= plan.storages@.len(),
            all == codec_plan::enum_storage_views(plan.storages@),
            out@ == enum_codecs(
                header@,
                plan@.variants,
                plan@.discriminant_bits,
                all.take(i as int),
            ),
        decreases plan.storages@.len() - i,
    {
        proof {
            assert(all.take(i + 1).drop_last() =~= all.take(i as int));
            assert(all.take(i + 1).last() == plan.storages@[i as int]@);
        }
        let codec = render_enum_codec(
            header,
            &plan.variants,
            plan.discriminant_bits,
            &plan.storages[i],
        );
        out.append(codec.as_str());
        i += 1;
    }
    assert(all.take(i as int) =~= all);
    out
}

/// The codec of a newtype for a storage type that the wrapped type has a codec for.
#[verifier::opaque]
pub open spec fn delegated_codec(
    header: TypeHeaderView,
    ty: Seq<char>,
    storage: Seq<char>,
) -> Seq<char> {
    codec_text::newtype_codec_code(
        header.header,
        storage,
        header.name,
        header.arguments,
        codec_text::codec_bound_code(ty, storage, storage, header.predicates),
        ty,
        storage,
        ""@,
    )
}

/// The codec of a newtype for itself.
pub open spec fn identity_codec(header: TypeHeaderView, ty: Seq<char>) -> Seq<char> {
    let own = codec_text::applied_type_code(header.name, header.arguments);
    codec_text::newtype_codec_code(
        header.header,
        own,
        header.name,
        header.arguments,
        codec_text::codec_bound_code(ty, ty, own, header.predicates),
        ty,
        ty,
        ".map_err(Self)"@,
    )
}

/// The codec of a newtype for an endian-aware integer in any byte order.
pub open spec fn any_order_codec(
    header: TypeHeaderView,
    ty: Seq<char>,
    integer: Seq<char>,
) -> Seq<char> {
    let storage = codec_text::any_order_code(integer);
    codec_text::newtype_codec_code(
        "<E: ByteOrder>"@,
        storage,
        header.name,
        header.arguments,
        ""@,
        ty,
        storage,
        ""@,
    )
}

fn render_bound(ty: &str, storage: &str, target: &str, predicates: &str) -> (r: String)
    ensures
        r@ == codec_text::codec_bound_code(ty@, storage@, target@, predicates@),
{
    codec_text::render_codec_bound_code(ty, storage, target, predicates)
}

fn render_newtype_codec(
    params: &str,
    target: &str,
    header: &TypeHeader,
    clause: &str,
    ty: &str,
    storage: &str,
    raw: &str,
) -> (r: String)
    ensures
        r@ == codec_text::newtype_codec_code(
            params@,
            target@,
            header@.name,
            header@.arguments,
            clause@,
            ty@,
            storage@,
            raw@,
        ),
{
    let (name, arguments) = (header.name.as_str(), header.arguments.as_str());
    codec_text::render_newtype_codec_code(params, target, name, arguments, clause, ty, storage, raw)
}

fn render_delegated(header: &TypeHeader, ty: &str, storage: &str) -> (r: String)
    ensures
        r@ == delegated_codec(header@, ty@, storage@),
{
    proof {
        reveal(delegated_codec);
    }
    let clause = render_bound(ty, storage, storage, header.predicates.as_str());
    render_newtype_codec(
        header.header.as_str(),
        storage,
        header,
        clause.as_str(),
        ty,
        storage,
        "",
    )
}

fn render_identity(header: &TypeHeader, ty: &str) -> (r: String)
    ensures
        r@ == identity_codec(header@, ty@),
{
    let (name, arguments) = (header.name.as_str(), header.arguments.as_str());
    let target = codec_text::render_applied_type_code(name, arguments);
    let clause = render_bound(ty, ty, target.as_str(), header.predicates.as_str());
    render_newtype_codec(
        header.header.as_str(),
        target.as_str(),
        header,
        clause.as_str(),
        ty,
        ty,
        ".map_err(Self)",
    )
}

fn render_any_order(header: &TypeHeader, ty: &str, integer: &str) -> (r: String)
    ensures
        r@ == any_order_codec(header@, ty@, integer@),
{
    let storage = codec_text::render_any_order_code(integer);
    let storage = storage.as_str();
    render_newtype_codec("<E: ByteOrder>", storage, header, "", ty, storage, "")
}

/// The codecs of a newtype for storage types.
pub open spec fn delegated_codecs(
    header: TypeHeaderView,
    ty: Seq<char>,
    storages: Seq<Seq<char>>,
) -> Seq<char>
    decreases storages.len(),
{
    if storages.len() == 0 {
        Seq::empty()
    } else {
        delegated_codecs(header, ty, storages.drop_last()) + delegated_codec(
            header,
            ty,
            storages.last(),
        )
    }
}

fn render_each(header: &TypeHeader, ty: &str, storages: &Vec<String>) -> (r: String)
    ensures
        r@ == delegated_codecs(header@, ty@, syntax::strings(storages@)),
{
    let ghost all = syntax::strings(storages@);
    let mut out = String::new();
    let mut i: usize = 0;
    while i < storages.len()
        invariant
            i <= storages@.len(),
            all == syntax::strings(storages@),
            out@ == delegated_codecs(header@, ty@, all.take(i as int)),
        decreases storages@.len() - i,
    {
        proof {
            assert(all.take(i + 1).drop_last() =~= all.take(i as int));
            assert(all.take(i + 1).last() == storages@[i as int]@);
        }
        out.append(render_delegated(header, ty, storages[i].as_str()).as_str());
        i += 1;
    }
    assert(all.take(i as int) =~= all);
    out
}

/// The codecs of a newtype: the one for itself, and those that are passed on.
pub open spec fn newtype_codecs(header: TypeHeaderView, plan: NewtypePlanView) -> Seq<char> {
    identity_codec(header, plan.ty) + match plan.delegation {
        DelegationView::Each(storages) => delegated_codecs(header, plan.ty, storages),
        DelegationView::AnyOrder(integer) => any_order_codec(header, plan.ty, integer),
        DelegationView::Nothing => Seq::empty(),
    }
}

/// Renders the codecs of a newtype.
pub fn render_newtype_codecs(header: &TypeHeader, plan: &NewtypePlan) -> (r: String)
    ensures
        r@ == newtype_codecs(header@, plan@),
{
    let ty = plan.ty.as_str();
    let identity = render_identity(header, ty);
    let passed_on = match &plan.delegation {
        Delegation::Each(storages) => render_each(header, ty, storages),
        Delegation::AnyOrder(integer) => render_any_order(header, ty, integer),
        Delegation::Nothing => String::new(),
    };
    identity.concat(passed_on.as_str())
}

/// The code of planned codecs.
pub open spec fn codecs_text(plan: DerivePlanView, header: TypeHeaderView) -> Seq<char> {
    match plan {
        DerivePlanView::Enum(plan) => enum_codecs(
            header,
            plan.variants,
            plan.discriminant_bits,
            plan.storages,
        ),
        DerivePlanView::Newtype(plan) => newtype_codecs(header, plan),
    }
}

/// Renders planned codecs.
pub fn render_codecs(plan: &DerivePlan, header: &TypeHeader) -> (r: String)
    ensures
        r@ == codecs_text(plan@, header@),
{
    match plan {
        DerivePlan::Enum(plan) => render_enum_codecs(header, plan),
        DerivePlan::Newtype(plan) => render_newtype_codecs(header, plan),
    }
}

/// The code of the codecs that are derived for the type that tokens define.
pub open spec fn derivation_of(s: Seq<Token>) -> Result<Seq<char>, ErrorView> {
    match codec_plan::derive_plan(s) {
        Err(e) => Err(e),
        Ok(plan) => match type_header_of(s) {
            Err(e) => Err(e),
            Ok(header) => Ok(codecs_text(plan, header)),
        },
    }
}

/// Generates the codecs of an enum or a newtype.
pub fn bitcodec_derive_macro(s: &[Token]) -> (r: Result<String, DefinitionError>)
    ensures
        match r {
            Ok(code) => derivation_of(s@) == Ok::<_, ErrorView>(code@),
            Err(e) => derivation_of(s@) == Err::<Seq<char>, _>(e@),
        },
{
    let plan = match codec_plan::plan_derive(s) {
        Ok(plan) => plan,
        Err(e) => {
            return Err(e);
        },
    };
    match parse_type_header(s) {
        Ok(header) => Ok(render_codecs(&plan, &header)),
        Err(e) => Err(e),
    }
}

} // verus!

//! What holds of the code of derived codecs.
use crate::macros::codec_code;
use crate::macros::codec_code::{TypeHeaderView, VariantLine};
use crate::macros::codec_plan;
use crate::macros::codec_plan::{
    DelegationView, DerivePlanView, EnumStorageView, NewtypePlanView,
};
use crate::macros::names;
use crate::macros::text_laws;
use crate::macros::text_laws::{has_part, Codec};
use crate::macros::token::Token;
use vstd::prelude::*;

verus! {

/// A text for each variant, from the first one to the last.
pub open spec fn for_each(
    variants: Seq<Seq<char>>,
    line: spec_fn(nat, Seq<char>) -> Seq<char>,
) -> Seq<char>
    decreases variants.len(),
{
    if variants.len() == 0 {
        Seq::empty()
    } else {
        for_each(variants.drop_last(), line) + line(
            (variants.len() - 1) as nat,
            variants.last(),
        )
    }
}

/// The path of a variant.
pub open spec fn path(name: Seq<char>, variant: Seq<char>) -> Seq<char> {
    name + "::"@ + variant
}

/// The discriminant of a variant, as a number of the representation type of its enum.
pub open spec fn discriminant(name: Seq<char>, variant: Seq<char>, repr: Seq<char>) -> Seq<char> {
    path(name, variant) + " as "@ + repr
}

/// The table with the discriminant of each variant, in order.
pub open spec fn table(name: Seq<char>, variants: Seq<Seq<char>>, repr: Seq<char>) -> Seq<char> {
    for_each(
        variants,
        |i: nat, variant: Seq<char>| discriminant(name, variant, repr) + " as u32, "@,
    )
}

/// The arms that turn a variant into its discriminant.
pub open spec fn write_arms(
    name: Seq<char>,
    variants: Seq<Seq<char>>,
    repr: Seq<char>,
) -> Seq<char> {
    for_each(
        variants,
        |i: nat, variant: Seq<char>|
            path(name, variant) + " => "@ + discriminant(name, variant, repr) + ", "@,
    )
}

/// The arms that turn a position in the table into the variant there.
pub open spec fn read_arms(name: Seq<char>, variants: Seq<Seq<char>>) -> Seq<char> {
    for_each(
        variants,
        |i: nat, variant: Seq<char>|
            "Some("@ + names::decimal(i) + ") => "@ + path(name, variant) + ", "@,
    )
}

/// The arms that turn a position that was found in the table into the variant there.
pub open spec fn checked_arms(name: Seq<char>, variants: Seq<Seq<char>>) -> Seq<char> {
    for_each(
        variants,
        |i: nat, variant: Seq<char>|
            "Ok("@ + names::decimal(i) + ") => Ok("@ + path(name, variant) + "), "@,
    )
}

/// The codec of an enum for a storage type. What it writes for a variant is the number that the
/// table has for it: its discriminant in the representation type of the enum, `u` and the number of
/// bits. What it reads is the variant at the position in the table that was found. Both the checked
/// and the unchecked read use that table.
pub open spec fn enum_codec(
    header: TypeHeaderView,
    variants: Seq<Seq<char>>,
    repr_bits: nat,
    storage: EnumStorageView,
) -> Codec {
    let name = header.name;
    let stored = storage.name;
    let repr = "u"@ + names::decimal(repr_bits);
    Codec {
        header: header.header,
        target: stored,
        ty: name + " "@ + header.arguments,
        clause: if header.predicates.len() == 0 {
            Seq::empty()
        } else {
            "where "@ + header.predicates
        },
        bits: names::decimal(storage.bits),
        fallible: if storage.fallible {
            "true"@
        } else {
            "false"@
        },
        result: if storage.fallible {
            "Result<Self, "@ + stored + ">"@
        } else {
            "Self"@
        },
        error: stored,
        read_bits: "match ::zorua::enum_codec::read_variant::<"@ + stored
            + ">(src, bit_offset, &["@ + table(name, variants, repr) + "]) {\n            "@
            + read_arms(name, variants)
            + "\n            _ => panic!(\"Invalid discriminant\"),\n        }"@,
        try_read_bits: if storage.fallible {
            "\n        match ::zorua::enum_codec::try_read_variant::<"@ + stored
                + ">(src, bit_offset, &["@ + table(name, variants, repr) + "]) {\n            "@
                + checked_arms(name, variants)
                + "\n            Ok(_) => unreachable!(),\n            Err(raw) => Err(raw),\n        }\n"@
        } else {
            "Ok(<Self as BitCodec<"@ + stored + ">>::read_bits(src, bit_offset))"@
        },
        write_bits: "let discriminant = match self { "@ + write_arms(name, variants, repr)
            + " };\n        ::zorua::enum_codec::write_variant::<"@ + stored
            + ">(dst, bit_offset, discriminant as u32);"@,
        read: "<Self as BitCodec<"@ + stored + ">>::"@ + if storage.fallible {
            "try_read_bits"@
        } else {
            "read_bits"@
        } + "(src, bit_offset)"@,
    }
}

proof fn lines_for_each(
    kind: VariantLine,
    name: Seq<char>,
    variants: Seq<Seq<char>>,
    repr: Seq<char>,
)
    ensures
        codec_code::variant_lines(kind, name, variants, repr) == match kind {
            VariantLine::TableEntry => table(name, variants, repr),
            VariantLine::ReadArm => read_arms(name, variants),
            VariantLine::CheckedArm => checked_arms(name, variants),
            VariantLine::WriteArm => write_arms(name, variants, repr),
        },
    decreases variants.len(),
{
    if variants.len() > 0 {
        lines_for_each(kind, name, variants.drop_last(), repr);
        let i = (variants.len() - 1) as nat;
        let variant = variants.last();
        assert(codec_code::variant_line(kind, names::decimal(i), name, variant, repr) == match kind {
            VariantLine::TableEntry => discriminant(name, variant, repr) + " as u32, "@,
            VariantLine::ReadArm => "Some("@ + names::decimal(i) + ") => "@ + path(name, variant)
                + ", "@,
            VariantLine::CheckedArm => "Ok("@ + names::decimal(i) + ") => Ok("@ + path(
                name,
                variant,
            ) + "), "@,
            VariantLine::WriteArm => path(name, variant) + " => "@ + discriminant(
                name,
                variant,
                repr,
            ) + ", "@,
        }) by {
            broadcast use text_laws::parts_associate;

        }
    }
}

/// The codec that is generated for an enum and a storage type is as described: above all, the
/// number that it writes for a variant is the one that it looks for when it reads.
pub proof fn enum_codecs_agree(
    header: TypeHeaderView,
    variants: Seq<Seq<char>>,
    repr_bits: nat,
    storage: EnumStorageView,
)
    ensures
        codec_code::enum_codec(header, variants, repr_bits, storage) == enum_codec(
            header,
            variants,
            repr_bits,
            storage,
        ).code(),
{
    reveal(codec_code::enum_codec);
    let name = header.name;
    let repr = "u"@ + names::decimal(repr_bits);
    lines_for_each(VariantLine::TableEntry, name, variants, repr);
    lines_for_each(VariantLine::ReadArm, name, variants, repr);
    lines_for_each(VariantLine::CheckedArm, name, variants, repr);
    lines_for_each(VariantLine::WriteArm, name, variants, repr);
    same_text(
        codec_code::enum_codec(header, variants, repr_bits, storage),
        enum_codec(header, variants, repr_bits, storage).code(),
    );
}

proof fn same_text(a: Seq<char>, b: Seq<char>)
    requires
        a == b,
{
}

/// Each variant has one line, at its place: the lines for the first variants come first, and a
/// variant's own line has its position.
pub proof fn variants_follow_each_other(
    variants: Seq<Seq<char>>,
    line: spec_fn(nat, Seq<char>) -> Seq<char>,
    i: int,
)
    requires
        0 <= i < variants.len(),
    ensures
        exists|rest: Seq<char>|
            for_each(variants, line) == #[trigger] (for_each(variants.take(i), line) + line(
                i as nat,
                variants[i],
            ) + rest),
    decreases variants.len(),
{
    let none = Seq::<char>::empty();
    let front = variants.drop_last();
    let own = for_each(variants.take(i), line) + line(i as nat, variants[i]);
    if i == variants.len() - 1 {
        assert(variants.take(i) =~= front);
        assert(for_each(variants, line) =~= own + none);
    } else {
        variants_follow_each_other(front, line, i);
        assert(front.take(i) =~= variants.take(i));
        let rest = choose|rest: Seq<char>|
            for_each(front, line) == #[trigger] (for_each(front.take(i), line) + line(
                i as nat,
                front[i],
            ) + rest);
        let last = line((variants.len() - 1) as nat, variants.last());
        assert(for_each(variants, line) =~= own + (rest + last));
    }
}

proof fn enum_codec_part(
    header: TypeHeaderView,
    variants: Seq<Seq<char>>,
    repr_bits: nat,
    storages: Seq<EnumStorageView>,
    i: int,
)
    requires
        0 <= i < storages.len(),
    ensures
        has_part(
            codec_code::enum_codecs(header, variants, repr_bits, storages),
            enum_codec(header, variants, repr_bits, storages[i]).code(),
        ),
    decreases storages.len(),
{
    let own = enum_codec(header, variants, repr_bits, storages[i]).code();
    let front = storages.drop_last();
    if i < storages.len() - 1 {
        enum_codec_part(header, variants, repr_bits, front, i);
    } else {
        enum_codecs_agree(header, variants, repr_bits, storages[i]);
        text_laws::part_of_itself(own);
    }
    text_laws::part_of_both(
        codec_code::enum_codecs(header, variants, repr_bits, front),
        codec_code::enum_codec(header, variants, repr_bits, storages.last()),
        own,
    );
}

/// The codec of a newtype for a storage type (`target`). Everything is passed on to the codec of
/// the wrapped type for one storage type: the width, whether reading can fail, all reads and
/// writes, and the shape of the public read. What that reads is wrapped, and a raw value turned
/// into one of the newtype's own (`raw`).
pub open spec fn newtype_codec(
    header: TypeHeaderView,
    params: Seq<char>,
    target: Seq<char>,
    clause: Seq<char>,
    ty: Seq<char>,
    storage: Seq<char>,
    raw: Seq<char>,
) -> Codec {
    let wrapped = "<"@ + ty + " as BitCodec<"@ + storage;
    let shape = "<<"@ + ty + " as BitCodec<"@ + storage
        + ">>::Read as ::zorua::codec::ReadShape<"@ + ty + ", "@ + storage + ", Self, "@ + target;
    Codec {
        header: params,
        target,
        ty: header.name + " "@ + header.arguments,
        clause,
        bits: wrapped + ">>::BITS"@,
        fallible: wrapped + ">>::IS_FALLIBLE"@,
        result: shape + ">>::Read"@,
        error: target,
        read_bits: "Self(<"@ + ty + " as BitCodec<"@ + storage
            + ">>::read_bits(src, bit_offset))"@,
        try_read_bits: wrapped + ">>::try_read_bits(src, bit_offset).map(Self) "@ + raw,
        write_bits: wrapped + ">>::write_bits(&self.0, dst, bit_offset);"@,
        read: shape + ">>::shape(\n            <Self as BitCodec<"@ + target
            + ">>::try_read_bits(src, bit_offset))"@,
    }
}

/// The condition that the wrapped type has a codec for a storage type whose public read can be
/// passed on by a codec for `target`, besides the type's own conditions.
pub open spec fn newtype_clause(
    header: TypeHeaderView,
    ty: Seq<char>,
    storage: Seq<char>,
    target: Seq<char>,
) -> Seq<char> {
    "where "@ + ty + ": BitCodec<"@ + storage + ">,\n    <"@ + ty + " as BitCodec<"@ + storage
        + ">>::Read: ::zorua::codec::ReadShape<"@ + ty + ", "@ + storage + ", Self, "@ + target
        + ">, "@ + header.predicates
}

/// A newtype has a codec for itself, which passes on to the wrapped type's codec for itself and
/// wraps raw values.
pub open spec fn own_codec(header: TypeHeaderView, ty: Seq<char>) -> Codec {
    let own = header.name + " "@ + header.arguments;
    newtype_codec(
        header,
        header.header,
        own,
        newtype_clause(header, ty, ty, own),
        ty,
        ty,
        ".map_err(Self)"@,
    )
}

/// The codec of a newtype for a storage type of the wrapped type, which passes on to the wrapped
/// type's codec for the same storage type.
pub open spec fn passed_on_codec(
    header: TypeHeaderView,
    ty: Seq<char>,
    storage: Seq<char>,
) -> Codec {
    newtype_codec(
        header,
        header.header,
        storage,
        newtype_clause(header, ty, storage, storage),
        ty,
        storage,
        ""@,
    )
}

/// The codec of a newtype for an endian-aware integer in every byte order, which passes on to the
/// wrapped type's codec for the same integer in the same byte order.
pub open spec fn endian_codec(
    header: TypeHeaderView,
    ty: Seq<char>,
    integer: Seq<char>,
) -> Codec {
    let storage = integer + "<E>"@;
    newtype_codec(header, "<E: ByteOrder>"@, storage, ""@, ty, storage, ""@)
}

/// The codecs that are generated for a newtype pass everything on.
pub proof fn newtype_codecs_pass_on(header: TypeHeaderView, ty: Seq<char>, storage: Seq<char>)
    ensures
        codec_code::identity_codec(header, ty) == own_codec(header, ty).code(),
        codec_code::delegated_codec(header, ty, storage) == passed_on_codec(
            header,
            ty,
            storage,
        ).code(),
        codec_code::any_order_codec(header, ty, storage) == endian_codec(
            header,
            ty,
            storage,
        ).code(),
{
    reveal(codec_code::delegated_codec);
    same_text(codec_code::identity_codec(header, ty), own_codec(header, ty).code());
    same_text(
        codec_code::delegated_codec(header, ty, storage),
        passed_on_codec(header, ty, storage).code(),
    );
    same_text(
        codec_code::any_order_codec(header, ty, storage),
        endian_codec(header, ty, storage).code(),
    );
}

proof fn passed_on_part(
    header: TypeHeaderView,
    ty: Seq<char>,
    storages: Seq<Seq<char>>,
    i: int,
)
    requires
        0 <= i < storages.len(),
    ensures
        has_part(
            codec_code::delegated_codecs(header, ty, storages),
            codec_code::delegated_codec(header, ty, storages[i]),
        ),
    decreases storages.len(),
{
    let own = codec_code::delegated_codec(header, ty, storages[i]);
    let front = storages.drop_last();
    if i < storages.len() - 1 {
        passed_on_part(header, ty, front, i);
    } else {
        text_laws::part_of_itself(own);
    }
    text_laws::part_of_both(
        codec_code::delegated_codecs(header, ty, front),
        codec_code::delegated_codec(header, ty, storages.last()),
        own,
    );
}

/// The code that is derived for a type has the codec of an enum for each of its storage types; or
/// the codec of a newtype for itself and for each storage type that the wrapped type is known to
/// have a codec for.
pub proof fn derived_codecs_are_there(s: Seq<Token>, i: int)
    ensures
        codec_code::derivation_of(s) matches Ok(code) ==> {
            &&& codec_plan::derive_plan(s) matches Ok(plan)
            &&& codec_code::type_header_of(s) matches Ok(header)
            &&& match plan {
                DerivePlanView::Enum(plan) => 0 <= i < plan.storages.len() ==> has_part(
                    code,
                    enum_codec(
                        header,
                        plan.variants,
                        plan.discriminant_bits,
                        plan.storages[i],
                    ).code(),
                ),
                DerivePlanView::Newtype(plan) => {
                    &&& has_part(code, own_codec(header, plan.ty).code())
                    &&& match plan.delegation {
                        DelegationView::Each(storages) => 0 <= i < storages.len() ==> has_part(
                            code,
                            passed_on_codec(header, plan.ty, storages[i]).code(),
                        ),
                        DelegationView::AnyOrder(integer) => has_part(
                            code,
                            endian_codec(header, plan.ty, integer).code(),
                        ),
                        DelegationView::Nothing => true,
                    }
                },
            }
        },
{
    if let Ok(code) = codec_code::derivation_of(s) {
        let header = codec_code::type_header_of(s)->Ok_0;
        match codec_plan::derive_plan(s)->Ok_0 {
            DerivePlanView::Enum(plan) => {
                if 0 <= i < plan.storages.len() {
                    enum_codec_part(
                        header,
                        plan.variants,
                        plan.discriminant_bits,
                        plan.storages,
                        i,
                    );
                }
            },
            DerivePlanView::Newtype(plan) => {
                newtype_parts(header, plan, i);
            },
        }
    }
}

proof fn newtype_parts(header: TypeHeaderView, plan: NewtypePlanView, i: int)
    ensures
        ({
            let code = codec_code::newtype_codecs(header, plan);
            &&& has_part(code, own_codec(header, plan.ty).code())
            &&& match plan.delegation {
                DelegationView::Each(storages) => 0 <= i < storages.len() ==> has_part(
                    code,
                    passed_on_codec(header, plan.ty, storages[i]).code(),
                ),
                DelegationView::AnyOrder(integer) => has_part(
                    code,
                    endian_codec(header, plan.ty, integer).code(),
                ),
                DelegationView::Nothing => true,
            }
        }),
{
    let identity = codec_code::identity_codec(header, plan.ty);
    newtype_codecs_pass_on(header, plan.ty, Seq::empty());
    text_laws::part_of_itself(identity);
    match plan.delegation {
        DelegationView::Each(storages) => {
            let rest = codec_code::delegated_codecs(header, plan.ty, storages);
            text_laws::part_of_both(identity, rest, identity);
            if 0 <= i < storages.len() {
                let codec = passed_on_codec(header, plan.ty, storages[i]).code();
                passed_on_part(header, plan.ty, storages, i);
                newtype_codecs_pass_on(header, plan.ty, storages[i]);
                text_laws::part_of_both(identity, rest, codec);
            }
        },
        DelegationView::AnyOrder(integer) => {
            let rest = codec_code::any_order_codec(header, plan.ty, integer);
            newtype_codecs_pass_on(header, plan.ty, integer);
            text_laws::part_of_both(identity, rest, identity);
            text_laws::part_of_itself(rest);
            text_laws::part_of_both(identity, rest, rest);
        },
        DelegationView::Nothing => {
            text_laws::part_of_both(identity, Seq::empty(), identity);
        },
    }
}

/// The codecs of an enum come in the order of their storage types, and nothing else is derived.
pub proof fn enum_codecs_follow_each_other(
    header: TypeHeaderView,
    variants: Seq<Seq<char>>,
    repr_bits: nat,
    a: Seq<EnumStorageView>,
    one: EnumStorageView,
    b: Seq<EnumStorageView>,
)
    ensures
        codec_code::enum_codecs(header, variants, repr_bits, seq![one]) == enum_codec(
            header,
            variants,
            repr_bits,
            one,
        ).code(),
        codec_code::enum_codecs(header, variants, repr_bits, a + b) == codec_code::enum_codecs(
            header,
            variants,
            repr_bits,
            a,
        ) + codec_code::enum_codecs(header, variants, repr_bits, b),
    decreases b.len(),
{
    let single = seq![one];
    let code = codec_code::enum_codec(header, variants, repr_bits, one);
    enum_codecs_agree(header, variants, repr_bits, one);
    assert(single.drop_last() =~= Seq::empty());
    reveal_with_fuel(codec_code::enum_codecs, 2);
    assert(Seq::<char>::empty() + code =~= code);
    if b.len() == 0 {
        assert(a + b =~= a);
    } else {
        assert((a + b).drop_last() =~= a + b.drop_last());
        enum_codecs_follow_each_other(header, variants, repr_bits, a, one, b.drop_last());
        text_laws::parts_associate(
            codec_code::enum_codecs(header, variants, repr_bits, a),
            codec_code::enum_codecs(header, variants, repr_bits, b.drop_last()),
            codec_code::enum_codec(header, variants, repr_bits, b.last()),
        );
    }
}

/// The codecs that a newtype passes on come in the order of their storage types.
pub proof fn passed_on_codecs_follow_each_other(
    header: TypeHeaderView,
    ty: Seq<char>,
    a: Seq<Seq<char>>,
    one: Seq<char>,
    b: Seq<Seq<char>>,
)
    ensures
        codec_code::delegated_codecs(header, ty, seq![one]) == passed_on_codec(
            header,
            ty,
            one,
        ).code(),
        codec_code::delegated_codecs(header, ty, a + b) == codec_code::delegated_codecs(
            header,
            ty,
            a,
        ) + codec_code::delegated_codecs(header, ty, b),
    decreases b.len(),
{
    let single = seq![one];
    let code = codec_code::delegated_codec(header, ty, one);
    newtype_codecs_pass_on(header, ty, one);
    assert(single.drop_last() =~= Seq::empty());
    reveal_with_fuel(codec_code::delegated_codecs, 2);
    assert(Seq::<char>::empty() + code =~= code);
    if b.len() == 0 {
        assert(a + b =~= a);
    } else {
        assert((a + b).drop_last() =~= a + b.drop_last());
        passed_on_codecs_follow_each_other(header, ty, a, one, b.drop_last());
        text_laws::parts_associate(
            codec_code::delegated_codecs(header, ty, a),
            codec_code::delegated_codecs(header, ty, b.drop_last()),
            codec_code::delegated_codec(header, ty, b.last()),
        );
    }
}

/// What is derived for a newtype is its codec for itself, then the codecs that it passes on, and
/// nothing else.
pub proof fn newtypes_have_no_other_code(header: TypeHeaderView, plan: NewtypePlanView)
    ensures
        codec_code::newtype_codecs(header, plan) == own_codec(header, plan.ty).code() + match plan.delegation {
            DelegationView::Each(storages) => codec_code::delegated_codecs(
                header,
                plan.ty,
                storages,
            ),
            DelegationView::AnyOrder(integer) => endian_codec(header, plan.ty, integer).code(),
            DelegationView::Nothing => Seq::empty(),
        },
{
    newtype_codecs_pass_on(header, plan.ty, Seq::empty());
    if let DelegationView::AnyOrder(integer) = plan.delegation {
        newtype_codecs_pass_on(header, plan.ty, integer);
    }
}

} // verus!

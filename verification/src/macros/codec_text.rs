//! The texts that the code of derived codecs is put together from.
use crate::macros::struct_text;
use vstd::prelude::*;

verus! {

/// The discriminant of a variant (`variant`) of an enum (`name`) with a representation (`repr`), in
/// a table.
pub open spec fn table_entry_code(
    name: Seq<char>,
    variant: Seq<char>,
    repr: Seq<char>,
) -> Seq<char> {
    name + "::"@ + variant + " as "@ + repr + " as u32, "@
}

/// Renders [`table_entry_code`].
pub fn render_table_entry_code(name: &str, variant: &str, repr: &str) -> (r: String)
    ensures
        r@ == table_entry_code(name@, variant@, repr@),
{
    let mut r = name.to_owned();
    r.append("::");
    r.append(variant);
    r.append(" as ");
    r.append(repr);
    r.append(" as u32, ");
    r
}

/// The arm that turns a position (`position`) into a variant (`variant`) of an enum (`name`).
pub open spec fn read_arm_code(
    position: Seq<char>,
    name: Seq<char>,
    variant: Seq<char>,
) -> Seq<char> {
    "Some("@ + position + ") => "@ + name + "::"@ + variant + ", "@
}

/// Renders [`read_arm_code`].
pub fn render_read_arm_code(position: &str, name: &str, variant: &str) -> (r: String)
    ensures
        r@ == read_arm_code(position@, name@, variant@),
{
    let mut r = "Some(".to_owned();
    r.append(position);
    r.append(") => ");
    r.append(name);
    r.append("::");
    r.append(variant);
    r.append(", ");
    r
}

/// The arm that turns the position (`position`) that was found into a variant (`variant`) of an
/// enum (`name`).
pub open spec fn checked_arm_code(
    position: Seq<char>,
    name: Seq<char>,
    variant: Seq<char>,
) -> Seq<char> {
    "Ok("@ + position + ") => Ok("@ + name + "::"@ + variant + "), "@
}

/// Renders [`checked_arm_code`].
pub fn render_checked_arm_code(position: &str, name: &str, variant: &str) -> (r: String)
    ensures
        r@ == checked_arm_code(position@, name@, variant@),
{
    let mut r = "Ok(".to_owned();
    r.append(position);
    r.append(") => Ok(");
    r.append(name);
    r.append("::");
    r.append(variant);
    r.append("), ");
    r
}

/// The arm that turns a variant (`variant`) of an enum (`name`) into its discriminant of a
/// representation (`repr`).
pub open spec fn write_arm_code(
    name: Seq<char>,
    variant: Seq<char>,
    repr: Seq<char>,
) -> Seq<char> {
    name + "::"@ + variant + " => "@ + name + "::"@ + variant + " as "@ + repr + ", "@
}

/// Renders [`write_arm_code`].
pub fn render_write_arm_code(name: &str, variant: &str, repr: &str) -> (r: String)
    ensures
        r@ == write_arm_code(name@, variant@, repr@),
{
    let mut r = name.to_owned();
    r.append("::");
    r.append(variant);
    r.append(" => ");
    r.append(name);
    r.append("::");
    r.append(variant);
    r.append(" as ");
    r.append(repr);
    r.append(", ");
    r
}

/// The checked read of an enum from a storage type (`storage`) with discriminants in a table
/// (`table`), and what becomes of the position that was found (`arms`).
pub open spec fn checked_read_code(
    storage: Seq<char>,
    table: Seq<char>,
    arms: Seq<char>,
) -> Seq<char> {
    "\n        match ::zorua::enum_codec::try_read_variant::<"@ + storage
        + ">(src, bit_offset, &["@ + table + "]) {\n            "@ + arms
        + "
            Ok(_) => unreachable!(),
            Err(raw) => Err(raw),
        }
"@
}

/// Renders [`checked_read_code`].
pub fn render_checked_read_code(storage: &str, table: &str, arms: &str) -> (r: String)
    ensures
        r@ == checked_read_code(storage@, table@, arms@),
{
    let mut r = "\n        match ::zorua::enum_codec::try_read_variant::<".to_owned();
    r.append(storage);
    r.append(">(src, bit_offset, &[");
    r.append(table);
    r.append("]) {\n            ");
    r.append(arms);
    r.append("
            Ok(_) => unreachable!(),
            Err(raw) => Err(raw),
        }
");
    r
}

/// The checked read of an enum from a storage type (`storage`) that has a variant for every value.
pub open spec fn plain_read_code(storage: Seq<char>) -> Seq<char> {
    "Ok(<Self as BitCodec<"@ + storage + ">>::read_bits(src, bit_offset))"@
}

/// Renders [`plain_read_code`].
pub fn render_plain_read_code(storage: &str) -> (r: String)
    ensures
        r@ == plain_read_code(storage@),
{
    let mut r = "Ok(<Self as BitCodec<".to_owned();
    r.append(storage);
    r.append(">>::read_bits(src, bit_offset))");
    r
}

/// The public result of reading an enum that may have no variant for a value of a storage type
/// (`storage`).
pub open spec fn checked_result_code(storage: Seq<char>) -> Seq<char> {
    "Result<Self, "@ + storage + ">"@
}

/// Renders [`checked_result_code`].
pub fn render_checked_result_code(storage: &str) -> (r: String)
    ensures
        r@ == checked_result_code(storage@),
{
    let mut r = "Result<Self, ".to_owned();
    r.append(storage);
    r.append(">");
    r
}

/// The codec of an enum for a storage type of so many bits. Its generic parameters are `header` in
/// the header of an impl and `arguments` as arguments, under a `where` clause. The public result is
/// read with `reader`. The discriminants are in a table, with arms for reading, a checked read
/// (`checked`) and arms for writing.
pub open spec fn enum_codec_code(
    name: Seq<char>,
    storage: Seq<char>,
    bits: Seq<char>,
    header: Seq<char>,
    arguments: Seq<char>,
    clause: Seq<char>,
    fallible: Seq<char>,
    result: Seq<char>,
    reader: Seq<char>,
    table: Seq<char>,
    read_arms: Seq<char>,
    checked: Seq<char>,
    write_arms: Seq<char>,
) -> Seq<char> {
    struct_text::codec_impl_code(
        header,
        storage,
        name + " "@ + arguments,
        clause,
        bits,
        fallible,
        result,
        storage,
        "match ::zorua::enum_codec::read_variant::<"@ + storage + ">(src, bit_offset, &["@
            + table + "]) {\n            "@ + read_arms
            + "\n            _ => panic!(\"Invalid discriminant\"),\n        }"@,
        checked,
        "let discriminant = match self { "@ + write_arms
            + " };\n        ::zorua::enum_codec::write_variant::<"@ + storage
            + ">(dst, bit_offset, discriminant as u32);"@,
        "<Self as BitCodec<"@ + storage + ">>::"@ + reader + "(src, bit_offset)"@,
    )
}

/// Renders [`enum_codec_code`].
pub fn render_enum_codec_code(
    name: &str,
    storage: &str,
    bits: &str,
    header: &str,
    arguments: &str,
    clause: &str,
    fallible: &str,
    result: &str,
    reader: &str,
    table: &str,
    read_arms: &str,
    checked: &str,
    write_arms: &str,
) -> (r: String)
    ensures
        r@ == enum_codec_code(
            name@,
            storage@,
            bits@,
            header@,
            arguments@,
            clause@,
            fallible@,
            result@,
            reader@,
            table@,
            read_arms@,
            checked@,
            write_arms@,
        ),
{
    let mut ty = name.to_owned();
    ty.append(" ");
    ty.append(arguments);
    let mut read = "match ::zorua::enum_codec::read_variant::<".to_owned();
    read.append(storage);
    read.append(">(src, bit_offset, &[");
    read.append(table);
    read.append("]) {\n            ");
    read.append(read_arms);
    read.append("\n            _ => panic!(\"Invalid discriminant\"),\n        }");
    let mut write = "let discriminant = match self { ".to_owned();
    write.append(write_arms);
    write.append(" };\n        ::zorua::enum_codec::write_variant::<");
    write.append(storage);
    write.append(">(dst, bit_offset, discriminant as u32);");
    let mut public = "<Self as BitCodec<".to_owned();
    public.append(storage);
    public.append(">>::");
    public.append(reader);
    public.append("(src, bit_offset)");
    struct_text::render_codec_impl_code(
        header,
        storage,
        ty.as_str(),
        clause,
        bits,
        fallible,
        result,
        storage,
        read.as_str(),
        checked,
        write.as_str(),
        public.as_str(),
    )
}

/// A `where` clause with predicates (`predicates`).
pub open spec fn where_clause_code(predicates: Seq<char>) -> Seq<char> {
    "where "@ + predicates
}

/// Renders [`where_clause_code`].
pub fn render_where_clause_code(predicates: &str) -> (r: String)
    ensures
        r@ == where_clause_code(predicates@),
{
    let mut r = "where ".to_owned();
    r.append(predicates);
    r
}

/// The codec of a newtype with generic arguments for a storage type (`target`), under generic
/// parameters (`params`) and a `where` clause. It passes everything on to the codec of the wrapped
/// type (`ty`) for a storage type (`storage`), and is read in the same shape; `raw` turns a raw
/// value of that into one of its own.
pub open spec fn newtype_codec_code(
    params: Seq<char>,
    target: Seq<char>,
    name: Seq<char>,
    arguments: Seq<char>,
    clause: Seq<char>,
    ty: Seq<char>,
    storage: Seq<char>,
    raw: Seq<char>,
) -> Seq<char> {
    struct_text::codec_impl_code(
        params,
        target,
        name + " "@ + arguments,
        clause,
        "<"@ + ty + " as BitCodec<"@ + storage + ">>::BITS"@,
        "<"@ + ty + " as BitCodec<"@ + storage + ">>::IS_FALLIBLE"@,
        "<<"@ + ty + " as BitCodec<"@ + storage + ">>::Read as ::zorua::codec::ReadShape<"@
            + ty + ", "@ + storage + ", Self, "@ + target + ">>::Read"@,
        target,
        "Self(<"@ + ty + " as BitCodec<"@ + storage + ">>::read_bits(src, bit_offset))"@,
        "<"@ + ty + " as BitCodec<"@ + storage
            + ">>::try_read_bits(src, bit_offset).map(Self) "@ + raw,
        "<"@ + ty + " as BitCodec<"@ + storage + ">>::write_bits(&self.0, dst, bit_offset);"@,
        "<<"@ + ty + " as BitCodec<"@ + storage + ">>::Read as ::zorua::codec::ReadShape<"@
            + ty + ", "@ + storage + ", Self, "@ + target
            + ">>::shape(\n            <Self as BitCodec<"@ + target
            + ">>::try_read_bits(src, bit_offset))"@,
    )
}

/// Renders [`newtype_codec_code`].
pub fn render_newtype_codec_code(
    params: &str,
    target: &str,
    name: &str,
    arguments: &str,
    clause: &str,
    ty: &str,
    storage: &str,
    raw: &str,
) -> (r: String)
    ensures
        r@ == newtype_codec_code(
            params@,
            target@,
            name@,
            arguments@,
            clause@,
            ty@,
            storage@,
            raw@,
        ),
{
    let mut own_ty = name.to_owned();
    own_ty.append(" ");
    own_ty.append(arguments);
    let mut bits = "<".to_owned();
    bits.append(ty);
    bits.append(" as BitCodec<");
    bits.append(storage);
    bits.append(">>::BITS");
    let mut fallible = "<".to_owned();
    fallible.append(ty);
    fallible.append(" as BitCodec<");
    fallible.append(storage);
    fallible.append(">>::IS_FALLIBLE");
    let mut result = "<<".to_owned();
    result.append(ty);
    result.append(" as BitCodec<");
    result.append(storage);
    result.append(">>::Read as ::zorua::codec::ReadShape<");
    result.append(ty);
    result.append(", ");
    result.append(storage);
    result.append(", Self, ");
    result.append(target);
    result.append(">>::Read");
    let mut read = "Self(<".to_owned();
    read.append(ty);
    read.append(" as BitCodec<");
    read.append(storage);
    read.append(">>::read_bits(src, bit_offset))");
    let mut checked = "<".to_owned();
    checked.append(ty);
    checked.append(" as BitCodec<");
    checked.append(storage);
    checked.append(">>::try_read_bits(src, bit_offset).map(Self) ");
    checked.append(raw);
    let mut write = "<".to_owned();
    write.append(ty);
    write.append(" as BitCodec<");
    write.append(storage);
    write.append(">>::write_bits(&self.0, dst, bit_offset);");
    let mut public = "<<".to_owned();
    public.append(ty);
    public.append(" as BitCodec<");
    public.append(storage);
    public.append(">>::Read as ::zorua::codec::ReadShape<");
    public.append(ty);
    public.append(", ");
    public.append(storage);
    public.append(", Self, ");
    public.append(target);
    public.append(">>::shape(\n            <Self as BitCodec<");
    public.append(target);
    public.append(">>::try_read_bits(src, bit_offset))");
    struct_text::render_codec_impl_code(
        params,
        target,
        own_ty.as_str(),
        clause,
        bits.as_str(),
        fallible.as_str(),
        result.as_str(),
        target,
        read.as_str(),
        checked.as_str(),
        write.as_str(),
        public.as_str(),
    )
}

/// A type (`name`) and its generic arguments (`arguments`).
pub open spec fn applied_type_code(name: Seq<char>, arguments: Seq<char>) -> Seq<char> {
    name + " "@ + arguments
}

/// Renders [`applied_type_code`].
pub fn render_applied_type_code(name: &str, arguments: &str) -> (r: String)
    ensures
        r@ == applied_type_code(name@, arguments@),
{
    let mut r = name.to_owned();
    r.append(" ");
    r.append(arguments);
    r
}

/// An endian-aware integer (`integer`) in any byte order.
pub open spec fn any_order_code(integer: Seq<char>) -> Seq<char> {
    integer + "<E>"@
}

/// Renders [`any_order_code`].
pub fn render_any_order_code(integer: &str) -> (r: String)
    ensures
        r@ == any_order_code(integer@),
{
    let mut r = integer.to_owned();
    r.append("<E>");
    r
}

/// The condition that a type (`ty`) has a codec for a storage type (`storage`) whose shape of
/// reading can be taken over for a storage type (`target`), besides others (`predicates`).
pub open spec fn codec_bound_code(
    ty: Seq<char>,
    storage: Seq<char>,
    target: Seq<char>,
    predicates: Seq<char>,
) -> Seq<char> {
    "where "@ + ty + ": BitCodec<"@ + storage + ">,\n    <"@ + ty + " as BitCodec<"@
        + storage + ">>::Read: ::zorua::codec::ReadShape<"@ + ty + ", "@ + storage + ", Self, "@
        + target + ">, "@ + predicates
}

/// Renders [`codec_bound_code`].
pub fn render_codec_bound_code(
    ty: &str,
    storage: &str,
    target: &str,
    predicates: &str,
) -> (r: String)
    ensures
        r@ == codec_bound_code(ty@, storage@, target@, predicates@),
{
    let mut r = "where ".to_owned();
    r.append(ty);
    r.append(": BitCodec<");
    r.append(storage);
    r.append(">,\n    <");
    r.append(ty);
    r.append(" as BitCodec<");
    r.append(storage);
    r.append(">>::Read: ::zorua::codec::ReadShape<");
    r.append(ty);
    r.append(", ");
    r.append(storage);
    r.append(", Self, ");
    r.append(target);
    r.append(">, ");
    r.append(predicates);
    r
}

} // verus!

//! What holds of the storage that definitions ask for.
use crate::macros::definition::{DefinitionView, FieldItemView, SubfieldItemView};
use crate::macros::error::{ErrorKind, ErrorView};
use crate::macros::layout;
use crate::macros::names;
use crate::macros::pieces;
use crate::macros::pieces::AttrView;
use crate::macros::storage;
use crate::macros::storage::{DefaultEndian, StorageView};
use crate::macros::struct_plan;
use crate::macros::struct_plan::FieldItemPlanView;
use crate::macros::syntax;
use crate::macros::syntax::TypeShapeView;
use crate::macros::token;
use crate::macros::token::{Delimiter, Token};
use vstd::prelude::*;

verus! {

/// Whether attribute `i` is the only one named `endian`, and its argument is the given name.
pub open spec fn names_byte_order(attrs: Seq<AttrView>, i: int, name: Seq<char>) -> bool {
    &&& 0 <= i < attrs.len()
    &&& attrs[i].name == Some("endian"@)
    &&& syntax::identifier_argument_of(token::text(attrs[i].tokens)) == Ok::<_, Seq<char>>(name)
    &&& forall|k: int|
        0 <= k < attrs.len() && k != i ==> (#[trigger] attrs[k]).name != Some("endian"@)
}

/// The byte order of a definition is little-endian exactly if its one `endian` attribute says
/// `little`, big-endian exactly if it says `big`, and there is none exactly if there is no such
/// attribute. Whatever else such attributes hold is refused.
pub proof fn byte_order_is_named(attrs: Seq<AttrView>)
    ensures
        (storage::split_endian(attrs) matches Ok((_, Some(DefaultEndian::Little)))) <==> (exists|
            i: int,
        |
            #[trigger] names_byte_order(attrs, i, "little"@)),
        (storage::split_endian(attrs) matches Ok((_, Some(DefaultEndian::Big)))) <==> (exists|
            i: int,
        |
            #[trigger] names_byte_order(attrs, i, "big"@)),
        (storage::split_endian(attrs) matches Ok((_, None))) <==> (forall|i: int|
            0 <= i < attrs.len() ==> (#[trigger] attrs[i]).name != Some("endian"@)),
    decreases attrs.len(),
{
    reveal_strlit("little");
    reveal_strlit("big");
    assert("little"@.len() == 6 && "big"@.len() == 3);
    if attrs.len() > 0 {
        let front = attrs.drop_last();
        let last = attrs.len() - 1;
        byte_order_is_named(front);
        let found = storage::split_endian(front);
        let all = storage::split_endian(attrs);
        assert forall|i: int, name: Seq<char>|
            #![trigger names_byte_order(attrs, i, name)]
            names_byte_order(attrs, i, name) implies if i == last {
            found matches Ok((_, None))
        } else {
            names_byte_order(front, i, name) && attrs.last().name != Some("endian"@)
        } by {
            if i == last {
                assert forall|k: int| 0 <= k < front.len() implies (#[trigger] front[k]).name
                    != Some("endian"@) by {
                    assert(attrs[k].name != Some("endian"@));
                }
            } else {
                assert(attrs[last].name != Some("endian"@));
                assert forall|k: int| 0 <= k < front.len() && k != i implies (
                #[trigger] front[k]).name != Some("endian"@) by {
                    assert(attrs[k].name != Some("endian"@));
                }
            }
        }
        assert forall|i: int, name: Seq<char>|
            #![trigger names_byte_order(front, i, name)]
            names_byte_order(front, i, name) && attrs.last().name != Some(
                "endian"@,
            ) implies names_byte_order(attrs, i, name) by {
            assert forall|k: int| 0 <= k < attrs.len() && k != i implies (
            #[trigger] attrs[k]).name != Some("endian"@) by {
                if k < last {
                    assert(front[k].name != Some("endian"@));
                }
            }
        }
        if (found matches Ok((_, None))) {
            assert forall|k: int| 0 <= k < last implies (#[trigger] attrs[k]).name != Some(
                "endian"@,
            ) by {
                assert(front[k].name != Some("endian"@));
            }
            if attrs.last().name == Some("endian"@) {
                assert forall|name: Seq<char>|
                    syntax::identifier_argument_of(token::text(attrs[last].tokens)) == Ok::<
                        _,
                        Seq<char>,
                    >(name) implies #[trigger] names_byte_order(attrs, last, name) by {}
                assert(attrs[last].name == Some("endian"@));
                if (all matches Ok((_, Some(DefaultEndian::Little)))) {
                    assert(names_byte_order(attrs, last, "little"@));
                }
                if (all matches Ok((_, Some(DefaultEndian::Big)))) {
                    assert(names_byte_order(attrs, last, "big"@));
                }
            }
        } else {
            let k = choose|k: int|
                0 <= k < front.len() && (#[trigger] front[k]).name == Some("endian"@);
            assert(attrs[k].name == Some("endian"@));
        }
    }
}

/// The native integers of several bytes are those of 16, 32 and 64 bits with and without a sign,
/// written as a path of that one name.
pub proof fn native_integers(ty: Seq<Token>, name: Seq<char>)
    ensures
        storage::native_name(ty) == Some(name) <==> {
            &&& syntax::type_shape_of(token::text(ty)) matches Ok(
                TypeShapeView::Path(qualified, segments),
            ) && !qualified && segments =~= seq![name]
            &&& name == "u16"@ || name == "u32"@ || name == "u64"@ || name == "i16"@ || name
                == "i32"@ || name == "i64"@
        },
{
}

/// An array type is made up of its element type, a semicolon and its length, and the element type
/// has no semicolon outside brackets of its own.
pub proof fn array_type_has_two_parts(ty: Seq<Token>)
    requires
        storage::is_array(ty),
    ensures
        ({
            let inner = pieces::inside(ty, 0);
            let element = storage::array_element(ty);
            &&& ty.len() == 1
            &&& pieces::is_group(ty, 0, Delimiter::Bracket)
            &&& pieces::is_punct(inner, element.len() as int, ";"@)
            &&& inner == element + seq![inner[element.len() as int]] + storage::array_length(ty)
            &&& forall|i: int| 0 <= i < element.len() ==> !pieces::is_punct(element, i, ";"@)
        }),
{
    let inner = pieces::inside(ty, 0);
    first_semicolon(inner, 0);
    assert(inner =~= storage::array_element(ty) + seq![
        inner[storage::array_element(ty).len() as int],
    ] + storage::array_length(ty));
    let element = storage::array_element(ty);
    assert forall|i: int| 0 <= i < element.len() implies !pieces::is_punct(element, i, ";"@) by {
        assert(element[i] == inner[i]);
        assert(!pieces::is_punct(inner, i, ";"@));
    }
}

proof fn first_semicolon(s: Seq<Token>, i: int)
    requires
        0 <= i <= s.len(),
    ensures
        i <= storage::semicolon(s, i) <= s.len(),
        storage::semicolon(s, i) < s.len() ==> pieces::is_punct(
            s,
            storage::semicolon(s, i),
            ";"@,
        ),
        forall|k: int| i <= k < storage::semicolon(s, i) ==> !pieces::is_punct(s, k, ";"@),
    decreases s.len() - i,
{
    if i < s.len() && !pieces::is_punct(s, i, ";"@) {
        first_semicolon(s, i + 1);
    }
}

/// A type is an array exactly if it is one group in brackets with a semicolon in it, and a type.
pub proof fn array_types(ty: Seq<Token>)
    ensures
        storage::is_array(ty) <==> {
            &&& ty.len() == 1
            &&& pieces::is_group(ty, 0, Delimiter::Bracket)
            &&& exists|i: int| #[trigger] pieces::is_punct(pieces::inside(ty, 0), i, ";"@)
            &&& syntax::type_shape_of(token::text(ty)) is Ok
        },
{
    let inner = pieces::inside(ty, 0);
    first_semicolon(inner, 0);
    if exists|i: int| #[trigger] pieces::is_punct(inner, i, ";"@) {
        let i = choose|i: int| #[trigger] pieces::is_punct(inner, i, ";"@);
        if storage::semicolon(inner, 0) == inner.len() {
            assert(!pieces::is_punct(inner, i, ";"@));
        }
    }
}

/// A native integer is stored as the endian-aware integer with its name and the suffix of the byte
/// order, an array as the array of what its elements are stored as, and everything else as it is
/// written.
pub proof fn stored_types(ty: Seq<Token>, order: DefaultEndian)
    ensures
        ({
            let stored = StorageView { written: ty, order: Some(order) }.text();
            let element = StorageView {
                written: storage::array_element(ty),
                order: Some(order),
            }.text();
            let native = storage::native_name(ty);
            &&& native is Some ==> stored == native->Some_0 + match order {
                DefaultEndian::Little => "_le"@,
                DefaultEndian::Big => "_be"@,
            }
            &&& native is Some ==> storage::has_native(ty)
            &&& native is None && storage::is_array(ty) ==> storage::has_native(ty)
                == storage::has_native(storage::array_element(ty))
            &&& native is None && !storage::is_array(ty) ==> !storage::has_native(ty)
            &&& native is None && storage::has_native(ty) ==> stored == "["@ + element + " ; "@
                + token::text(storage::array_length(ty)) + "]"@
            &&& !storage::has_native(ty) ==> stored == token::text(ty)
            &&& StorageView { written: ty, order: None }.text() == token::text(ty)
        }),
{
    storage::endian_text_exists(ty, order);
    if storage::is_array(ty) {
        storage::element_is_smaller(ty);
        storage::endian_text_exists(storage::array_element(ty), order);
    }
}

/// Whether a storage is the one in the attribute, or else the type itself, in the byte order of the
/// definition if it has a native integer and in none otherwise.
pub open spec fn stored_as_defined(
    native: Seq<Token>,
    explicit: Option<Seq<Token>>,
    default: Option<DefaultEndian>,
    found: StorageView,
) -> bool {
    &&& match explicit {
        Some(ty) => found.written == ty,
        None => found.written == native,
    }
    &&& storage::has_native(found.written) ==> default is Some && found.order == default
    &&& !storage::has_native(found.written) ==> found.order is None
}

/// A storage type is missing only where a native integer has no byte order; otherwise it is as
/// defined.
pub proof fn storage_is_as_defined(
    native: Seq<Token>,
    explicit: Option<Seq<Token>>,
    default: Option<DefaultEndian>,
)
    ensures
        match storage::storage_of(native, explicit, default) {
            Ok(found) => stored_as_defined(native, explicit, default, found),
            Err(e) => {
                &&& e == ErrorView::Plain(ErrorKind::NeedsEndian)
                &&& default is None
                &&& match explicit {
                    Some(ty) => storage::has_native(ty),
                    None => storage::has_native(native),
                }
            },
        },
{
}

/// What is generated for a definition follows it field by field. Every field and every packed field
/// is stored in the type in its `storage` attribute, or else in its own type; where that type has a
/// native integer, it has the byte order that the definition's `endian` attribute names, and that
/// of no other type is changed. Unused bytes stay as many as they are.
pub proof fn storage_follows_definition(definition: DefinitionView, i: int, a: int)
    ensures
        struct_plan::plan_of(definition) matches Ok(plan) ==> {
            &&& storage::split_endian(definition.attrs) matches Ok((kept, default)) && {
                &&& plan.attrs == kept
                &&& plan.fields.len() == definition.fields.len()
                &&& 0 <= i < definition.fields.len() ==> match definition.fields[i] {
                    FieldItemView::Padding(len) => plan.fields[i] == FieldItemPlanView::Padding(
                        "__zorua_pad_"@ + names::decimal(i as nat),
                        len,
                    ),
                    FieldItemView::Value(field) => plan.fields[i] matches FieldItemPlanView::Value(
                        found,
                    ) && {
                        &&& found.field == field
                        &&& stored_as_defined(field.native, field.storage, default, found.storage)
                        &&& match (field.subfields, found.packed) {
                            (None, None) => true,
                            (Some(items), Some(packed)) => 0 <= a < packed.accessors.len() ==> {
                                let accessor = packed.accessors[a];
                                let k = accessor.offset.len() as int;
                                &&& 0 <= k < items.len()
                                &&& items[k] == SubfieldItemView::Value(accessor.subfield)
                                &&& stored_as_defined(
                                    accessor.subfield.native,
                                    accessor.subfield.storage,
                                    default,
                                    accessor.storage,
                                )
                            },
                            _ => false,
                        }
                    },
                }
            }
        },
{
    if let Ok(plan) = struct_plan::plan_of(definition) {
        let default = storage::split_endian(definition.attrs)->Ok_0.1;
        if 0 <= i < definition.fields.len() {
            assert(struct_plan::field_valid(definition.fields[i], default));
            if let FieldItemView::Value(field) = definition.fields[i] {
                if let Some(items) = field.subfields {
                    if 0 <= a < struct_plan::accessors_of(items, default, items.len()).len() {
                        struct_plan::accessor_of_item(items, default, items.len(), a);
                        let k = struct_plan::item_of(items, default, items.len(), a);
                        assert(layout::item_valid(items[k], default));
                    }
                }
            }
        }
    }
}

/// The packed fields have accessors one by one and in order, and each of them has accessors.
pub proof fn packed_fields_have_accessors(
    items: Seq<SubfieldItemView>,
    default: Option<DefaultEndian>,
    generic: bool,
    k: int,
)
    requires
        0 <= k < items.len(),
    ensures
        items[k] matches SubfieldItemView::Value(subfield) ==> exists|a: int|
            0 <= a < struct_plan::packed_plan(items, default, generic).accessors.len() && {
                let accessor =
                    #[trigger] struct_plan::packed_plan(items, default, generic).accessors[a];
                accessor.subfield == subfield && accessor.offset.len() == k
            },
        forall|a: int, b: int|
            0 <= a < b < struct_plan::packed_plan(items, default, generic).accessors.len()
                ==> (#[trigger] struct_plan::packed_plan(
                items,
                default,
                generic,
            ).accessors[a]).offset.len() < (#[trigger] struct_plan::packed_plan(
                items,
                default,
                generic,
            ).accessors[b]).offset.len(),
{
    let n = items.len();
    let accessors = struct_plan::packed_plan(items, default, generic).accessors;
    assert forall|a: int, b: int| 0 <= a < b < accessors.len() implies (
    #[trigger] accessors[a]).offset.len() < (#[trigger] accessors[b]).offset.len() by {
        struct_plan::accessor_of_item(items, default, n, a);
        struct_plan::accessor_of_item(items, default, n, b);
        struct_plan::items_in_order(items, default, n, a, b);
    }
    if let SubfieldItemView::Value(subfield) = items[k] {
        accessor_stays(items, default, n, k);
        let a = struct_plan::accessors_of(items, default, k as nat).len() as int;
        assert(accessors[a].subfield == subfield && accessors[a].offset.len() == k);
    }
}

proof fn accessor_stays(
    items: Seq<SubfieldItemView>,
    default: Option<DefaultEndian>,
    n: nat,
    k: int,
)
    requires
        0 <= k < n <= items.len(),
        items[k] is Value,
    ensures
        ({
            let a = struct_plan::accessors_of(items, default, k as nat).len() as int;
            let all = struct_plan::accessors_of(items, default, n);
            &&& a < all.len()
            &&& SubfieldItemView::Value(all[a].subfield) == items[k]
            &&& all[a].offset.len() == k
        }),
    decreases n,
{
    if k < n - 1 {
        accessor_stays(items, default, (n - 1) as nat, k);
    }
}

/// The mistake in the storage of a packed field: its storage type, or else its own, is no type, or
/// has a native integer without a byte order.
pub open spec fn packed_mistake(
    item: SubfieldItemView,
    default: Option<DefaultEndian>,
) -> Option<ErrorView> {
    match item {
        SubfieldItemView::Padding(_) => None,
        SubfieldItemView::Value(subfield) => {
            let written = if subfield.storage is Some {
                subfield.storage->Some_0
            } else {
                subfield.native
            };
            match syntax::type_shape_of(token::text(written)) {
                Err(detail) => Some(ErrorView::Rust(detail)),
                Ok(_) => if storage::has_native(written) && default is None {
                    Some(ErrorView::Plain(ErrorKind::NeedsEndian))
                } else {
                    None
                },
            }
        },
    }
}

proof fn first_packed_mistake(items: Seq<SubfieldItemView>, default: Option<DefaultEndian>)
    ensures
        match struct_plan::packed_error(items, default) {
            None => forall|i: int|
                0 <= i < items.len() ==> packed_mistake(#[trigger] items[i], default) is None,
            Some(e) => exists|i: int|
                0 <= i < items.len() && packed_mistake(#[trigger] items[i], default) == Some(e)
                    && forall|k: int|
                    0 <= k < i ==> packed_mistake(#[trigger] items[k], default) is None,
        },
    decreases items.len(),
{
    if items.len() > 0 {
        let front = items.drop_last();
        let last = items.len() - 1;
        first_packed_mistake(front, default);
        assert(items[last] == items.last());
        match struct_plan::packed_error(front, default) {
            None => {
                assert forall|i: int| 0 <= i < last implies packed_mistake(
                    #[trigger] items[i],
                    default,
                ) is None by {
                    assert(front[i] == items[i]);
                }
                assert(packed_mistake(items[last], default) == struct_plan::packed_error(
                    items,
                    default,
                ));
            },
            Some(e) => {
                let i = choose|i: int|
                    0 <= i < front.len() && packed_mistake(#[trigger] front[i], default) == Some(e)
                        && forall|k: int|
                        0 <= k < i ==> packed_mistake(#[trigger] front[k], default) is None;
                assert(packed_mistake(items[i], default) == Some(e));
                assert forall|k: int| 0 <= k < i implies packed_mistake(
                    #[trigger] items[k],
                    default,
                ) is None by {
                    assert(front[k] == items[k]);
                }
            },
        }
    }
}

/// Whether a mistake is the first one in the storage of a field and its packed fields: its storage
/// type, or else its own, has a native integer without a byte order; or the first mistake in its
/// packed fields.
pub open spec fn is_field_mistake(
    item: FieldItemView,
    default: Option<DefaultEndian>,
    e: ErrorView,
) -> bool {
    item matches FieldItemView::Value(field) && {
        let written = if field.storage is Some {
            field.storage->Some_0
        } else {
            field.native
        };
        if storage::has_native(written) && default is None {
            e == ErrorView::Plain(ErrorKind::NeedsEndian)
        } else {
            field.subfields matches Some(items) && exists|i: int|
                0 <= i < items.len() && packed_mistake(#[trigger] items[i], default) == Some(e)
                    && forall|k: int|
                    0 <= k < i ==> packed_mistake(#[trigger] items[k], default) is None
        }
    }
}

proof fn field_mistake(item: FieldItemView, default: Option<DefaultEndian>, e: ErrorView)
    ensures
        struct_plan::field_error(item, default) == Some(e) ==> is_field_mistake(item, default, e),
        struct_plan::field_error(item, default) is None ==> !is_field_mistake(item, default, e),
{
    if let FieldItemView::Value(field) = item {
        if let Some(items) = field.subfields {
            first_packed_mistake(items, default);
        }
    }
}

proof fn first_field_mistake(
    fields: Seq<FieldItemView>,
    default: Option<DefaultEndian>,
    e: ErrorView,
)
    ensures
        struct_plan::storage_error(fields, default) == Some(e) ==> exists|i: int|
            0 <= i < fields.len() && is_field_mistake(#[trigger] fields[i], default, e) && forall|
                k: int,
                other: ErrorView,
            |
                0 <= k < i ==> !(#[trigger] is_field_mistake(fields[k], default, other)),
        struct_plan::storage_error(fields, default) is None ==> forall|k: int, other: ErrorView|
            0 <= k < fields.len() ==> !(#[trigger] is_field_mistake(fields[k], default, other)),
    decreases fields.len(),
{
    if fields.len() > 0 {
        let front = fields.drop_last();
        let last = fields.len() - 1;
        first_field_mistake(front, default, e);
        assert(fields[last] == fields.last());
        field_mistake(fields[last], default, e);
        assert forall|other: ErrorView|
            struct_plan::field_error(fields[last], default) is None implies !is_field_mistake(
            fields[last],
            default,
            other,
        ) by {
            field_mistake(fields[last], default, other);
        }
        assert forall|k: int, other: ErrorView|
            0 <= k < last && struct_plan::storage_error(front, default)
                is None implies !(#[trigger] is_field_mistake(fields[k], default, other)) by {
            assert(!is_field_mistake(front[k], default, other));
        }
        if struct_plan::storage_error(front, default) == Some(e) {
            let i = choose|i: int|
                0 <= i < front.len() && is_field_mistake(#[trigger] front[i], default, e) && forall|
                    k: int,
                    other: ErrorView,
                |
                    0 <= k < i ==> !(#[trigger] is_field_mistake(front[k], default, other));
            assert(is_field_mistake(fields[i], default, e));
            assert forall|k: int, other: ErrorView| 0 <= k < i implies !(#[trigger] is_field_mistake(fields[k], default, other)) by {
                assert(!is_field_mistake(front[k], default, other));
            }
        }
    }
}

/// Whether accessors cannot be made for a packed field: its type is no type, or is an array that is
/// not stored in one.
pub open spec fn has_no_accessors(item: SubfieldItemView) -> bool {
    item matches SubfieldItemView::Value(subfield) && {
        let written = if subfield.storage is Some {
            subfield.storage->Some_0
        } else {
            subfield.native
        };
        ||| syntax::type_shape_of(token::text(subfield.native)) is Err
        ||| storage::is_array(subfield.native) && !storage::is_array(written)
    }
}

/// Whether accessors cannot be made for packed field `k` of a field.
pub open spec fn lacks_accessors(item: FieldItemView, k: int) -> bool {
    item matches FieldItemView::Value(field) && (field.subfields matches Some(items) && 0 <= k
        < items.len() && has_no_accessors(items[k]))
}

/// A parsed definition is refused for its `endian` attributes; or else for the first mistake in the
/// storage of its fields; or else if a packed field cannot have accessors; and for nothing else.
pub proof fn definition_is_refused_for_storage(definition: DefinitionView)
    ensures
        struct_plan::plan_of(definition) matches Err(e) ==> match storage::split_endian(
            definition.attrs,
        ) {
            Err(first) => e == first,
            Ok((_, default)) => {
                let fields = definition.fields;
                ||| exists|i: int|
                    0 <= i < fields.len() && is_field_mistake(#[trigger] fields[i], default, e)
                        && forall|k: int, other: ErrorView|
                        0 <= k < i ==> !(#[trigger] is_field_mistake(fields[k], default, other))
                ||| {
                    &&& e == ErrorView::Plain(ErrorKind::PackedType)
                    &&& exists|i: int, k: int|
                        0 <= i < fields.len() && #[trigger] lacks_accessors(fields[i], k)
                }
            },
        },
{
    if let Err(e) = struct_plan::plan_of(definition) {
        if let Ok((_, default)) = storage::split_endian(definition.attrs) {
            let fields = definition.fields;
            first_field_mistake(fields, default, e);
            if struct_plan::storage_error(fields, default) is None {
                let i = choose|i: int|
                    0 <= i < fields.len() && !struct_plan::field_valid(
                        #[trigger] fields[i],
                        default,
                    );
                field_mistake(fields[i], default, ErrorView::Plain(ErrorKind::NeedsEndian));
                assert(!is_field_mistake(
                    fields[i],
                    default,
                    ErrorView::Plain(ErrorKind::NeedsEndian),
                ));
                if let FieldItemView::Value(field) = fields[i] {
                    if let Some(items) = field.subfields {
                        first_packed_mistake(items, default);
                        if struct_plan::packed_error(items, default) is Some {
                            let other = struct_plan::packed_error(items, default)->Some_0;
                            assert(!is_field_mistake(fields[i], default, other));
                        }
                        let k = choose|k: int|
                            0 <= k < items.len() && !layout::item_valid(#[trigger] items[k], default);
                        assert(packed_mistake(items[k], default) is None);
                        assert(lacks_accessors(fields[i], k));
                    }
                }
            }
        }
    }
}

/// A definition is refused for an `endian` attribute only if that has no identifier as its
/// argument, if the identifier is neither `little` nor `big`, or if there was one before.
pub proof fn byte_order_is_refused(attrs: Seq<AttrView>)
    ensures
        storage::split_endian(attrs) matches Err(e) ==> exists|i: int|
            0 <= i < attrs.len() && (#[trigger] attrs[i]).name == Some("endian"@)
                && match syntax::identifier_argument_of(token::text(attrs[i].tokens)) {
                Err(detail) => e == ErrorView::Rust(detail),
                Ok(name) => if name != "little"@ && name != "big"@ {
                    e == ErrorView::Plain(ErrorKind::UnknownEndian)
                } else {
                    e == ErrorView::Plain(ErrorKind::DuplicateEndian) && exists|k: int|
                        0 <= k < i && (#[trigger] attrs[k]).name == Some("endian"@)
                },
            },
    decreases attrs.len(),
{
    if attrs.len() > 0 {
        let front = attrs.drop_last();
        let last = attrs.len() - 1;
        byte_order_is_refused(front);
        byte_order_is_named(front);
        assert(attrs[last] == attrs.last());
        match storage::split_endian(front) {
            Err(e) => {
                let i = choose|i: int|
                    0 <= i < front.len() && (#[trigger] front[i]).name == Some("endian"@)
                        && match syntax::identifier_argument_of(token::text(front[i].tokens)) {
                        Err(detail) => e == ErrorView::Rust(detail),
                        Ok(name) => if name != "little"@ && name != "big"@ {
                            e == ErrorView::Plain(ErrorKind::UnknownEndian)
                        } else {
                            e == ErrorView::Plain(ErrorKind::DuplicateEndian) && exists|k: int|
                                0 <= k < i && (#[trigger] front[k]).name == Some("endian"@)
                        },
                    };
                assert(attrs[i] == front[i]);
                if exists|k: int| 0 <= k < i && (#[trigger] front[k]).name == Some("endian"@) {
                    let k = choose|k: int|
                        0 <= k < i && (#[trigger] front[k]).name == Some("endian"@);
                    assert(attrs[k].name == Some("endian"@));
                }
            },
            Ok((_, found)) => {
                if found is Some {
                    let k = choose|k: int|
                        0 <= k < front.len() && (#[trigger] front[k]).name == Some("endian"@);
                    assert(attrs[k].name == Some("endian"@));
                }
            },
        }
    }
}

} // verus!

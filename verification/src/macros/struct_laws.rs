//! What holds of the code of structs.
use crate::macros::definition;
use crate::macros::definition::{
    DefinitionView, FieldItemView, FieldView, SubfieldItemView, SubfieldView,
};
use crate::macros::generics;
use crate::macros::layout;
use crate::macros::layout::WidthView;
use crate::macros::names;
use crate::macros::pieces::AttrView;
use crate::macros::storage;
use crate::macros::storage::{DefaultEndian, StorageView};
use crate::macros::struct_code;
use crate::macros::struct_plan;
use crate::macros::struct_plan::{
    ClaimView, FieldItemPlanView, FieldPlanView, PackedPlanView, PlanView, SubfieldPlanView,
};
use crate::macros::struct_text;
use crate::macros::syntax;
use crate::macros::text_laws;
use crate::macros::text_laws::{has_part, trait_method, Codec};
use crate::macros::token;
use crate::macros::token::Token;
use vstd::prelude::*;

verus! {

/// Whether code has a method with the given attributes, visibility, signature and body.
pub open spec fn has_method(
    code: Seq<char>,
    attrs: Seq<char>,
    vis: Seq<char>,
    signature: Seq<char>,
    body: Seq<char>,
) -> bool {
    has_part(
        code,
        attrs + " "@ + vis + " fn "@ + signature + " {\n        "@ + body + "\n    }\n"@,
    )
}

proof fn method_is_there(attrs: Seq<char>, vis: Seq<char>, signature: Seq<char>, body: Seq<char>)
    ensures
        has_method(
            struct_text::method_code(attrs, vis, signature, body),
            attrs,
            vis,
            signature,
            body,
        ),
{
    let method = attrs + " "@ + vis + " fn "@ + signature + " {\n        "@ + body + "\n    }\n"@;
    assert(struct_text::method_code(attrs, vis, signature, body) == "\n    "@ + method) by {
        broadcast use text_laws::parts_associate;
    }
    text_laws::part_of_itself(method);
    text_laws::part_of_both("\n    "@, method, method);
}

/// A method that reads and one that writes: their signatures and their bodies.
pub struct Accessors {
    pub getter: Seq<char>,
    pub reads: Seq<char>,
    pub setter: Seq<char>,
    pub writes: Seq<char>,
}

/// Whether code has both accessors with the given attributes and visibility.
pub open spec fn has_accessors(
    code: Seq<char>,
    attrs: Seq<char>,
    vis: Seq<char>,
    accessors: Accessors,
) -> bool {
    &&& has_method(code, attrs, vis, accessors.getter, accessors.reads)
    &&& has_method(code, attrs, vis, accessors.setter, accessors.writes)
}

/// The assertion that an explicit offset is where a packed field is.
pub open spec fn checked_offset(subfield: SubfieldView, at: Seq<char>) -> Seq<char> {
    match subfield.offset {
        Some(explicit) => "const { assert!(("@ + token::text(explicit) + ") == "@ + at
            + ", \"explicit bit offset does not match sequential layout\") };"@,
        None => Seq::empty(),
    }
}

/// The accessors for the value of a packed field: both read and write a value of its type in its
/// storage type, at the same place in the same field. Where the two types are the same and there
/// are accessors for what is stored, those do it.
pub open spec fn value_accessors(
    container: Seq<char>,
    subfield: SubfieldView,
    storage: StorageView,
    at: Seq<char>,
) -> Accessors {
    let name = subfield.name;
    let native = token::text(subfield.native);
    let stored = storage.text();
    let delegated = native == stored && (subfield.storage is Some || storage.order is Some);
    Accessors {
        getter: name + "(&self) -> <"@ + native + " as BitCodec<"@ + stored + ">>::Read"@,
        reads: checked_offset(subfield, at) + "\n        "@ + if delegated {
            "self."@ + (name + "_raw"@) + "()"@
        } else {
            "<"@ + native + " as BitCodec<"@ + stored + ">>::read(self."@ + container
                + ".as_bytes(), "@ + at + ")"@
        },
        setter: names::prefixed("set_"@, name, ""@) + "(&mut self, val: "@ + native + ")"@,
        writes: if delegated {
            "self."@ + names::prefixed("set_"@, name, "_raw"@) + "(val);"@
        } else {
            "<"@ + native + " as BitCodec<"@ + stored + ">>::write_bits(&val, self."@ + container
                + ".as_mut_bytes(), "@ + at + ");"@
        },
    }
}

/// The accessors for a packed field that may be absent: both are handed the same types and the same
/// place in the same field.
pub open spec fn option_accessors(
    container: Seq<char>,
    subfield: SubfieldView,
    storage: StorageView,
    at: Seq<char>,
) -> Accessors {
    let native = token::text(subfield.native);
    let stored = storage.text();
    Accessors {
        getter: subfield.name + "(&self) -> Option<"@ + native + ">"@,
        reads: checked_offset(subfield, at) + "\n        ::zorua::views::read_zeroed_option::<"@
            + native + ", "@ + stored + ">(\n            self."@ + container + ".as_bytes(), "@ + at
            + ", <"@ + native + " as BitCodec<"@ + stored + ">>::BITS)"@,
        setter: names::prefixed("set_"@, subfield.name, ""@) + "(&mut self, val: Option<"@ + native
            + ">)"@,
        writes: "::zorua::views::write_zeroed_option::<"@ + native + ", "@ + stored + ">(self."@
            + container + ".as_mut_bytes(), "@ + at + ", val);"@,
    }
}

/// The storage of the elements of an array.
pub open spec fn stored_element(storage: StorageView) -> Seq<char> {
    StorageView { written: storage::array_element(storage.written), order: storage.order }.text()
}

/// The array views of a packed field whose elements may be absent: both have as many elements as
/// the array, as far apart as they are wide, at the same place in the same field.
pub open spec fn option_view_accessors(
    container: Seq<char>,
    subfield: SubfieldView,
    storage: StorageView,
    at: Seq<char>,
) -> Accessors {
    let element = token::text(storage::array_element(subfield.native));
    let stored = stored_element(storage);
    let len = token::text(storage::array_length(subfield.native));
    let width = "<"@ + element + " as BitCodec<"@ + stored + ">>::BITS"@;
    Accessors {
        getter: subfield.name + "(&self) -> ZeroedOptionBitArrayView<'_, "@ + element + ", "@
            + stored + ">"@,
        reads: checked_offset(subfield, at)
            + "\n        ZeroedOptionBitArrayView::new(\n            self."@ + container
            + ".as_bytes(), "@ + at + ", "@ + len + ", "@ + width + ", <"@ + element
            + " as BitCodec<"@ + stored + ">>::BITS)"@,
        setter: names::prefixed(""@, subfield.name, "_mut"@)
            + "(&mut self) -> ZeroedOptionBitArrayViewMut<'_, "@ + element + ", "@ + stored + ">"@,
        writes: "ZeroedOptionBitArrayViewMut::new(\n            self."@ + container
            + ".as_mut_bytes(), "@ + at + ", "@ + len + ", "@ + width + ", <"@ + element
            + " as BitCodec<"@ + stored + ">>::BITS)"@,
    }
}

/// The array views of a packed field: both have as many elements as the array, of its element type
/// in that of the storage, at the same place in the same field. Elements are as far apart as the
/// field says, or else as they are wide.
pub open spec fn view_accessors(
    container: Seq<char>,
    subfield: SubfieldView,
    storage: StorageView,
    at: Seq<char>,
) -> Accessors {
    let element = token::text(storage::array_element(subfield.native));
    let stored = stored_element(storage);
    let len = token::text(storage::array_length(subfield.native));
    let stride = match subfield.stride {
        Some(stride) => token::text(stride),
        None => "<"@ + element + " as BitCodec<"@ + stored + ">>::BITS"@,
    };
    Accessors {
        getter: subfield.name + "(&self) -> BitArrayView<'_, "@ + element + ", "@ + stored + ">"@,
        reads: checked_offset(subfield, at) + "\n        BitArrayView::new(self."@ + container
            + ".as_bytes(), "@ + at + ", "@ + len + ", "@ + stride + ")"@,
        setter: names::prefixed(""@, subfield.name, "_mut"@)
            + "(&mut self) -> BitArrayViewMut<'_, "@ + element + ", "@ + stored + ">"@,
        writes: "BitArrayViewMut::new(self."@ + container + ".as_mut_bytes(), "@ + at + ", "@ + len
            + ", "@ + stride + ")"@,
    }
}

/// The accessors for what a packed field stores: both read and write the storage type as it is, at
/// the same place in the same field.
pub open spec fn raw_accessors(
    container: Seq<char>,
    subfield: SubfieldView,
    storage: StorageView,
    at: Seq<char>,
) -> Accessors {
    let stored = storage.text();
    Accessors {
        getter: subfield.name + "_raw"@ + "(&self) -> "@ + stored,
        reads: "<"@ + stored + " as BitCodec<"@ + stored + ">>::read_bits(self."@ + container
            + ".as_bytes(), "@ + at + ")"@,
        setter: names::prefixed("set_"@, subfield.name, "_raw"@) + "(&mut self, val: "@ + stored
            + ")"@,
        writes: "<"@ + stored + " as BitCodec<"@ + stored + ">>::write_bits(&val, self."@
            + container + ".as_mut_bytes(), "@ + at + ");"@,
    }
}

/// Whether code has all accessors of a packed field that lies in the field `container` where `at`
/// says: for its value, for a value that may be absent or for an array; and for what is stored
/// where that is of another type than the field, may be absent, or is an array without gaps. All of
/// them, whether they read or write, are for the same place.
pub open spec fn has_packed_accessors(
    code: Seq<char>,
    container: Seq<char>,
    subfield: SubfieldView,
    storage: StorageView,
    at: Seq<char>,
) -> bool {
    let attrs = struct_code::attributes_text(subfield.attrs);
    let vis = token::text(subfield.vis);
    let array = storage::is_array(subfield.native);
    let raw = if array {
        !subfield.zeroed && subfield.stride is None
    } else {
        subfield.zeroed || subfield.storage is Some || storage.order is Some
    };
    &&& has_accessors(
        code,
        attrs,
        vis,
        if array && subfield.zeroed {
            option_view_accessors(container, subfield, storage, at)
        } else if array {
            view_accessors(container, subfield, storage, at)
        } else if subfield.zeroed {
            option_accessors(container, subfield, storage, at)
        } else {
            value_accessors(container, subfield, storage, at)
        },
    )
    &&& raw ==> has_accessors(
        code,
        attrs,
        vis,
        raw_accessors(container, subfield, storage, at),
    )
}

/// The code of a method.
pub open spec fn method(
    attrs: Seq<char>,
    vis: Seq<char>,
    signature: Seq<char>,
    body: Seq<char>,
) -> Seq<char> {
    "\n    "@ + attrs + " "@ + vis + " fn "@ + signature + " {\n        "@ + body + "\n    }\n"@
}

/// The code of both accessors.
pub open spec fn accessors_code(
    attrs: Seq<char>,
    vis: Seq<char>,
    accessors: Accessors,
) -> Seq<char> {
    method(attrs, vis, accessors.getter, accessors.reads) + method(
        attrs,
        vis,
        accessors.setter,
        accessors.writes,
    )
}

/// The code of all accessors of a packed field: those for its value, for a value that may be absent
/// or for an array, and those for what is stored, if there are any.
pub open spec fn all_accessors(
    container: Seq<char>,
    subfield: SubfieldView,
    storage: StorageView,
    at: Seq<char>,
) -> Seq<char> {
    let attrs = struct_code::attributes_text(subfield.attrs);
    let vis = token::text(subfield.vis);
    let raw = accessors_code(attrs, vis, raw_accessors(container, subfield, storage, at));
    if storage::is_array(subfield.native) {
        if subfield.zeroed {
            let views = option_view_accessors(container, subfield, storage, at);
            accessors_code(attrs, vis, views)
        } else {
            let views = view_accessors(container, subfield, storage, at);
            if subfield.stride is None {
                accessors_code(attrs, vis, views) + raw
            } else {
                accessors_code(attrs, vis, views)
            }
        }
    } else if subfield.zeroed {
        let option = option_accessors(container, subfield, storage, at);
        accessors_code(attrs, vis, option) + raw
    } else {
        let value = value_accessors(container, subfield, storage, at);
        if subfield.storage is Some || storage.order is Some {
            accessors_code(attrs, vis, value) + raw
        } else {
            accessors_code(attrs, vis, value)
        }
    }
}

proof fn accessors_are_there(
    attrs: Seq<char>,
    vis: Seq<char>,
    accessors: Accessors,
    more: Seq<char>,
)
    ensures
        ({
            let code = accessors_code(attrs, vis, accessors);
            &&& has_accessors(code, attrs, vis, accessors)
            &&& has_accessors(code + more, attrs, vis, accessors)
            &&& has_accessors(more + code, attrs, vis, accessors)
        }),
{
    broadcast use text_laws::part_of_both;

    let getter = struct_text::method_code(attrs, vis, accessors.getter, accessors.reads);
    let setter = struct_text::method_code(attrs, vis, accessors.setter, accessors.writes);
    same_text(getter + setter, accessors_code(attrs, vis, accessors));
    method_is_there(attrs, vis, accessors.getter, accessors.reads);
    method_is_there(attrs, vis, accessors.setter, accessors.writes);
}

proof fn same_text(a: Seq<char>, b: Seq<char>)
    requires
        a == b,
{
}

proof fn value_methods(
    container: Seq<char>,
    subfield: SubfieldView,
    storage: StorageView,
    offset: Seq<WidthView>,
)
    requires
        !storage::is_array(subfield.native),
        !subfield.zeroed,
    ensures
        ({
            let plan = struct_plan::subfield_plan(subfield, storage, offset);
            let at = struct_code::offset_text(plan);
            let code = struct_code::subfield_accessors(container, plan);
            &&& has_packed_accessors(code, container, subfield, storage, at)
            &&& code == all_accessors(container, subfield, storage, at)
        }),
{
    let plan = struct_plan::subfield_plan(subfield, storage, offset);
    let at = struct_code::offset_text(plan);
    let attrs = struct_code::attributes_text(subfield.attrs);
    let vis = token::text(subfield.vis);
    let accessors = value_accessors(container, subfield, storage, at);
    let values = accessors_code(attrs, vis, accessors);
    let code = struct_code::subfield_accessors(container, plan);
    reveal(struct_code::subfield_accessors);
    same_text(struct_code::check_text(plan), checked_offset(subfield, at));
    let raw = raw_accessors(container, subfield, storage, at);
    let more = accessors_code(attrs, vis, raw);
    accessors_are_there(attrs, vis, accessors, more);
    accessors_are_there(attrs, vis, raw, values);
    if plan.raw is Some {
        same_text(code, values + more);
    } else {
        same_text(code, values);
    }
}

proof fn option_methods(
    container: Seq<char>,
    subfield: SubfieldView,
    storage: StorageView,
    offset: Seq<WidthView>,
)
    requires
        !storage::is_array(subfield.native),
        subfield.zeroed,
    ensures
        ({
            let plan = struct_plan::subfield_plan(subfield, storage, offset);
            let at = struct_code::offset_text(plan);
            let code = struct_code::subfield_accessors(container, plan);
            &&& has_packed_accessors(code, container, subfield, storage, at)
            &&& code == all_accessors(container, subfield, storage, at)
        }),
{
    let plan = struct_plan::subfield_plan(subfield, storage, offset);
    let at = struct_code::offset_text(plan);
    let attrs = struct_code::attributes_text(subfield.attrs);
    let vis = token::text(subfield.vis);
    let accessors = option_accessors(container, subfield, storage, at);
    let values = accessors_code(attrs, vis, accessors);
    let code = struct_code::subfield_accessors(container, plan);
    reveal(struct_code::subfield_accessors);
    same_text(struct_code::check_text(plan), checked_offset(subfield, at));
    let raw = raw_accessors(container, subfield, storage, at);
    let more = accessors_code(attrs, vis, raw);
    accessors_are_there(attrs, vis, accessors, more);
    accessors_are_there(attrs, vis, raw, values);
    if plan.raw is Some {
        same_text(code, values + more);
    } else {
        same_text(code, values);
    }
}

proof fn view_methods(
    container: Seq<char>,
    subfield: SubfieldView,
    storage: StorageView,
    offset: Seq<WidthView>,
)
    requires
        storage::is_array(subfield.native),
        !subfield.zeroed,
    ensures
        ({
            let plan = struct_plan::subfield_plan(subfield, storage, offset);
            let at = struct_code::offset_text(plan);
            let code = struct_code::subfield_accessors(container, plan);
            &&& has_packed_accessors(code, container, subfield, storage, at)
            &&& code == all_accessors(container, subfield, storage, at)
        }),
{
    let plan = struct_plan::subfield_plan(subfield, storage, offset);
    let at = struct_code::offset_text(plan);
    let attrs = struct_code::attributes_text(subfield.attrs);
    let vis = token::text(subfield.vis);
    let accessors = view_accessors(container, subfield, storage, at);
    let values = accessors_code(attrs, vis, accessors);
    let code = struct_code::subfield_accessors(container, plan);
    reveal(struct_code::subfield_accessors);
    same_text(struct_code::check_text(plan), checked_offset(subfield, at));
    let raw = raw_accessors(container, subfield, storage, at);
    let more = accessors_code(attrs, vis, raw);
    accessors_are_there(attrs, vis, accessors, more);
    accessors_are_there(attrs, vis, raw, values);
    if plan.raw is Some {
        same_text(code, values + more);
    } else {
        same_text(code, values);
    }
}

proof fn option_view_methods(
    container: Seq<char>,
    subfield: SubfieldView,
    storage: StorageView,
    offset: Seq<WidthView>,
)
    requires
        storage::is_array(subfield.native),
        subfield.zeroed,
    ensures
        ({
            let plan = struct_plan::subfield_plan(subfield, storage, offset);
            let at = struct_code::offset_text(plan);
            let code = struct_code::subfield_accessors(container, plan);
            &&& has_packed_accessors(code, container, subfield, storage, at)
            &&& code == all_accessors(container, subfield, storage, at)
        }),
{
    let plan = struct_plan::subfield_plan(subfield, storage, offset);
    let at = struct_code::offset_text(plan);
    let attrs = struct_code::attributes_text(subfield.attrs);
    let vis = token::text(subfield.vis);
    let accessors = option_view_accessors(container, subfield, storage, at);
    let values = accessors_code(attrs, vis, accessors);
    let code = struct_code::subfield_accessors(container, plan);
    reveal(struct_code::subfield_accessors);
    same_text(struct_code::check_text(plan), checked_offset(subfield, at));
    accessors_are_there(attrs, vis, accessors, Seq::empty());
    same_text(code, values);
}

proof fn packed_methods(
    container: Seq<char>,
    subfield: SubfieldView,
    storage: StorageView,
    offset: Seq<WidthView>,
)
    ensures
        ({
            let plan = struct_plan::subfield_plan(subfield, storage, offset);
            let at = struct_code::offset_text(plan);
            let code = struct_code::subfield_accessors(container, plan);
            &&& has_packed_accessors(code, container, subfield, storage, at)
            &&& code == all_accessors(container, subfield, storage, at)
        }),
{
    if storage::is_array(subfield.native) {
        if subfield.zeroed {
            option_view_methods(container, subfield, storage, offset);
        } else {
            view_methods(container, subfield, storage, offset);
        }
    } else if subfield.zeroed {
        option_methods(container, subfield, storage, offset);
    } else {
        value_methods(container, subfield, storage, offset);
    }
}

proof fn accessors_in_whole(
    code: Seq<char>,
    part: Seq<char>,
    attrs: Seq<char>,
    vis: Seq<char>,
    accessors: Accessors,
)
    requires
        has_part(code, part),
    ensures
        has_accessors(part, attrs, vis, accessors) ==> has_accessors(code, attrs, vis, accessors),
{
    let getter = attrs + " "@ + vis + " fn "@ + accessors.getter + " {\n        "@
        + accessors.reads + "\n    }\n"@;
    let setter = attrs + " "@ + vis + " fn "@ + accessors.setter + " {\n        "@
        + accessors.writes + "\n    }\n"@;
    if has_accessors(part, attrs, vis, accessors) {
        text_laws::part_of_part(code, part, getter);
        text_laws::part_of_part(code, part, setter);
    }
}

proof fn packed_accessors_in_whole(
    code: Seq<char>,
    part: Seq<char>,
    container: Seq<char>,
    subfield: SubfieldView,
    storage: StorageView,
    at: Seq<char>,
)
    requires
        has_part(code, part),
        has_packed_accessors(part, container, subfield, storage, at),
    ensures
        has_packed_accessors(code, container, subfield, storage, at),
{
    let attrs = struct_code::attributes_text(subfield.attrs);
    let vis = token::text(subfield.vis);
    let option_views = option_view_accessors(container, subfield, storage, at);
    let views = view_accessors(container, subfield, storage, at);
    let option = option_accessors(container, subfield, storage, at);
    let value = value_accessors(container, subfield, storage, at);
    let raw = raw_accessors(container, subfield, storage, at);
    accessors_in_whole(code, part, attrs, vis, option_views);
    accessors_in_whole(code, part, attrs, vis, views);
    accessors_in_whole(code, part, attrs, vis, option);
    accessors_in_whole(code, part, attrs, vis, value);
    accessors_in_whole(code, part, attrs, vis, raw);
}

proof fn packed_field_part(container: Seq<char>, plans: Seq<SubfieldPlanView>, a: int)
    requires
        0 <= a < plans.len(),
    ensures
        has_part(
            struct_code::all_subfield_accessors(container, plans),
            struct_code::subfield_accessors(container, plans[a]),
        ),
    decreases plans.len(),
{
    let own = struct_code::subfield_accessors(container, plans[a]);
    if a < plans.len() - 1 {
        packed_field_part(container, plans.drop_last(), a);
    } else {
        text_laws::part_of_itself(own);
    }
    text_laws::part_of_both(
        struct_code::all_subfield_accessors(container, plans.drop_last()),
        struct_code::subfield_accessors(container, plans.last()),
        own,
    );
}

proof fn item_part(items: Seq<FieldItemPlanView>, i: int)
    requires
        0 <= i < items.len(),
    ensures
        has_part(struct_code::items_text(items).0, struct_code::stored_field(items[i])),
        has_part(struct_code::items_text(items).1, struct_code::item_accessors(items[i])),
        has_part(struct_code::items_text(items).2, struct_code::item_claim(items[i])),
    decreases items.len(),
{
    broadcast use text_laws::part_of_both, text_laws::part_of_itself;

    if i < items.len() - 1 {
        item_part(items.drop_last(), i);
    }
}

/// The struct itself and the impl with its accessors.
pub open spec fn declared(
    definition: DefinitionView,
    header: Seq<char>,
    arguments: Seq<char>,
    fields: Seq<char>,
    accessors: Seq<char>,
) -> Seq<char> {
    token::text(definition.vis) + " struct "@ + definition.name + " "@ + token::text(
        definition.generics,
    ) + " { "@ + fields + " }\n\nimpl "@ + header + " "@ + definition.name + " "@ + arguments
        + " { "@ + accessors + " }\n\n"@
}

proof fn struct_parts(
    definition: DefinitionView,
    plan: PlanView,
    header: Seq<char>,
    arguments: Seq<char>,
)
    ensures
        ({
            let code = struct_code::struct_text(definition, plan, header, arguments);
            let (fields, accessors, claims) = struct_code::items_text(plan.fields);
            let codec = struct_code::packed_codec(definition, header, arguments);
            &&& has_part(
                code,
                struct_code::attributes_text(plan.attrs) + " "@ + struct_code::derives_text(
                    plan.derives,
                ) + " "@ + declared(definition, header, arguments, fields, accessors),
            )
            &&& has_part(code, fields)
            &&& has_part(code, accessors)
            &&& has_part(code, claims)
            &&& has_part(code, codec)
            &&& has_part(
                code,
                struct_text::layout_impl_code(definition.name, header, arguments),
            )
            &&& has_part(code, struct_text::view_impl_code(definition.name, header, arguments))
        }),
{
    let (fields, accessors, claims) = struct_code::items_text(plan.fields);
    let codec = struct_code::packed_codec(definition, header, arguments);
    let attrs = struct_code::attributes_text(plan.attrs);
    let derives = struct_code::derives_text(plan.derives);
    let declaration = declared(definition, header, arguments, fields, accessors);
    declaration_parts(definition, header, arguments, fields, accessors);
    let layout = struct_text::layout_impl_code(definition.name, header, arguments);
    let view = struct_text::view_impl_code(definition.name, header, arguments);
    struct_item_parts(attrs, derives, declaration, layout, view, claims, codec);
    let code = struct_code::struct_text(definition, plan, header, arguments);
    same_text(
        code,
        "\n"@ + attrs + " "@ + derives + " "@ + declaration + layout + view + claims + "\n\n"@
            + codec + "\n"@,
    );
    text_laws::part_of_part(code, declaration, fields);
    text_laws::part_of_part(code, declaration, accessors);
}

proof fn declaration_parts(
    definition: DefinitionView,
    header: Seq<char>,
    arguments: Seq<char>,
    fields: Seq<char>,
    accessors: Seq<char>,
)
    ensures
        ({
            let code = declared(definition, header, arguments, fields, accessors);
            &&& has_part(code, fields)
            &&& has_part(code, accessors)
            &&& code == struct_text::declaration_code(
                token::text(definition.vis),
                definition.name,
                token::text(definition.generics),
                fields,
                header,
                arguments,
                accessors,
            )
        }),
{
    broadcast use text_laws::part_of_both, text_laws::part_of_itself;

}

proof fn struct_item_parts(
    attrs: Seq<char>,
    derives: Seq<char>,
    declaration: Seq<char>,
    layout: Seq<char>,
    view: Seq<char>,
    claims: Seq<char>,
    codec: Seq<char>,
)
    ensures
        ({
            let code = "\n"@ + attrs + " "@ + derives + " "@ + declaration + layout + view + claims
                + "\n\n"@ + codec + "\n"@;
            &&& has_part(code, attrs + " "@ + derives + " "@ + declaration)
            &&& has_part(code, declaration)
            &&& has_part(code, layout)
            &&& has_part(code, view)
            &&& has_part(code, claims)
            &&& has_part(code, codec)
        }),
{
    broadcast use text_laws::part_of_both, text_laws::part_of_itself;

    let item = attrs + " "@ + derives + " "@ + declaration;
    text_laws::part_of_both("\n"@, item, item);
    assert("\n"@ + attrs + " "@ + derives + " "@ + declaration == "\n"@ + item) by {
        broadcast use text_laws::parts_associate;

    }
}

/// The accessors of packed fields in the generated code are for the places that the plan gives
/// them: the getter and the setter of a packed field, those for what is stored and its array views
/// all have the same field, the same types and the same offset, whatever a definition holds.
pub proof fn packed_fields_are_accessed_in_place(s: Seq<Token>, i: int, a: int)
    ensures
        struct_code::expansion_of(s) matches Ok(code) ==> {
            &&& definition::definition_of(s) matches Ok(definition)
            &&& struct_plan::plan_of(definition) matches Ok(plan)
            &&& 0 <= i < plan.fields.len() ==> (plan.fields[i] matches FieldItemPlanView::Value(
                field,
            ) ==> (field.packed matches Some(packed) ==> 0 <= a < packed.accessors.len() ==> {
                let accessor = packed.accessors[a];
                has_packed_accessors(
                    code,
                    field.field.name,
                    accessor.subfield,
                    accessor.storage,
                    struct_code::offset_text(accessor),
                )
            }))
        },
{
    if let Ok(code) = struct_code::expansion_of(s) {
        let definition = definition::definition_of(s)->Ok_0;
        let plan = struct_plan::plan_of(definition)->Ok_0;
        let default = storage::split_endian(definition.attrs)->Ok_0.1;
        let (header, arguments) = generics::split_generics(definition.generics)->Ok_0;
        if 0 <= i < plan.fields.len() {
            if let FieldItemPlanView::Value(field) = plan.fields[i] {
                if let Some(packed) = field.packed {
                    let items = field.field.subfields->Some_0;
                    if 0 <= a < packed.accessors.len() {
                        item_in_code(definition, plan, header, arguments, i);
                        packed_field_in_code(
                            code,
                            field.field.name,
                            items,
                            default,
                            definition.generic,
                            a,
                        );
                    }
                }
            }
        }
    }
}

proof fn packed_field_in_code(
    code: Seq<char>,
    container: Seq<char>,
    items: Seq<SubfieldItemView>,
    default: Option<DefaultEndian>,
    generic: bool,
    a: int,
)
    requires
        0 <= a < struct_plan::packed_plan(items, default, generic).accessors.len(),
        has_part(
            code,
            struct_code::all_subfield_accessors(
                container,
                struct_plan::packed_plan(items, default, generic).accessors,
            ),
        ),
    ensures
        ({
            let accessor = struct_plan::packed_plan(items, default, generic).accessors[a];
            has_packed_accessors(
                code,
                container,
                accessor.subfield,
                accessor.storage,
                struct_code::offset_text(accessor),
            )
        }),
{
    let accessors = struct_plan::packed_plan(items, default, generic).accessors;
    let accessor = accessors[a];
    struct_plan::accessor_of_item(items, default, items.len(), a);
    packed_methods(container, accessor.subfield, accessor.storage, accessor.offset);
    packed_field_part(container, accessors, a);
    let own = struct_code::subfield_accessors(container, accessor);
    text_laws::part_of_part(
        code,
        struct_code::all_subfield_accessors(container, accessors),
        own,
    );
    packed_accessors_in_whole(
        code,
        own,
        container,
        accessor.subfield,
        accessor.storage,
        struct_code::offset_text(accessor),
    );
}

/// The assertion that the packed fields of a field in the given storage fill it.
pub open spec fn filled_storage(sum: Seq<char>, stored: Seq<char>) -> Seq<char> {
    "assert!(\n    "@ + sum + " == <"@ + stored + " as BitCodec<"@ + stored
        + ">>::BITS,\n    \"bitfield does not account for every bit in its storage\"\n);"@
}

/// The sum of what explicit offsets claim.
pub open spec fn claimed_sum(claim: ClaimView) -> Seq<char> {
    struct_code::sum_text(
        match claim.offset {
            Some(offset) => "("@ + token::text(offset) + ")"@,
            None => "0usize"@,
        },
        claim.widths,
    )
}

proof fn item_in_code(
    definition: DefinitionView,
    plan: PlanView,
    header: Seq<char>,
    arguments: Seq<char>,
    i: int,
)
    requires
        0 <= i < plan.fields.len(),
    ensures
        ({
            let code = struct_code::struct_text(definition, plan, header, arguments);
            &&& has_part(code, struct_code::stored_field(plan.fields[i]))
            &&& plan.fields[i] matches FieldItemPlanView::Value(field) ==> {
                &&& has_part(code, struct_code::field_accessors(field))
                &&& field.packed matches Some(packed) ==> {
                    &&& has_part(
                        code,
                        struct_code::all_subfield_accessors(field.field.name, packed.accessors),
                    )
                    &&& has_part(
                        code,
                        "const "@ + syntax::uppercase_of("__ZORUA_ASSERT_BITS_"@ + field.field.name)
                            + ": () = { "@ + filled_storage(
                            struct_code::sum_text("0usize"@, packed.coverage),
                            field.storage.text(),
                        ) + " };"@,
                    )
                    &&& packed.claim matches Some(claim) ==> has_part(
                        code,
                        "const _: () = { "@ + filled_storage(
                            claimed_sum(claim),
                            field.storage.text(),
                        ) + " };"@,
                    )
                }
            }
        }),
{
    let code = struct_code::struct_text(definition, plan, header, arguments);
    let (fields, accessors, claims) = struct_code::items_text(plan.fields);
    struct_parts(definition, plan, header, arguments);
    item_part(plan.fields, i);
    text_laws::part_of_part(code, fields, struct_code::stored_field(plan.fields[i]));
    if let FieldItemPlanView::Value(field) = plan.fields[i] {
        item_parts(field);
        let item = struct_code::item_accessors(plan.fields[i]);
        text_laws::part_of_part(code, accessors, item);
        text_laws::part_of_part(code, item, struct_code::field_accessors(field));
        if let Some(packed) = field.packed {
            text_laws::part_of_part(
                code,
                item,
                struct_code::all_subfield_accessors(field.field.name, packed.accessors),
            );
            text_laws::part_of_part(code, item, coverage_constant(field, packed));
            if let Some(claim) = packed.claim {
                let text = "const _: () = { "@ + filled_storage(
                    claimed_sum(claim),
                    field.storage.text(),
                ) + " };"@;
                text_laws::part_of_part(code, claims, text);
            }
        }
    }
}

spec fn coverage_constant(field: FieldPlanView, packed: PackedPlanView) -> Seq<char> {
    "const "@ + syntax::uppercase_of("__ZORUA_ASSERT_BITS_"@ + field.field.name) + ": () = { "@
        + filled_storage(
        struct_code::sum_text("0usize"@, packed.coverage),
        field.storage.text(),
    ) + " };"@
}

proof fn item_parts(field: FieldPlanView)
    ensures
        ({
            let item = FieldItemPlanView::Value(field);
            let code = struct_code::item_accessors(item);
            &&& has_part(code, struct_code::field_accessors(field))
            &&& field.packed matches Some(packed) ==> {
                &&& has_part(
                    code,
                    struct_code::all_subfield_accessors(field.field.name, packed.accessors),
                )
                &&& has_part(code, coverage_constant(field, packed))
                &&& packed.claim matches Some(claim) ==> struct_code::item_claim(item)
                    == "const _: () = { "@ + filled_storage(
                    claimed_sum(claim),
                    field.storage.text(),
                ) + " };"@
            }
        }),
{
    let own = struct_code::field_accessors(field);
    text_laws::part_of_itself(own);
    if let Some(packed) = field.packed {
        let name = field.field.name;
        let all = struct_code::all_subfield_accessors(name, packed.accessors);
        let constant = coverage_constant(field, packed);
        let both = struct_code::packed_accessors(name, field.storage.text(), packed);
        same_text(both, all + constant);
        text_laws::part_of_both(own, both, own);
        text_laws::part_of_itself(all);
        text_laws::part_of_both(all, constant, all);
        text_laws::part_of_both(own, both, all);
        text_laws::part_of_itself(constant);
        text_laws::part_of_both(all, constant, constant);
        text_laws::part_of_both(own, both, constant);
    }
}

/// The accessors for the value of a field that is stored in a type: both read and write a value of
/// its type in the storage type, from the first bit of the field on.
pub open spec fn field_value_accessors(field: FieldView, storage: StorageView) -> Accessors {
    let name = field.name;
    let native = token::text(field.native);
    let stored = storage.text();
    Accessors {
        getter: name + "(&self) -> <"@ + native + " as BitCodec<"@ + stored + ">>::Read"@,
        reads: "<"@ + native + " as BitCodec<"@ + stored + ">>::read(self."@ + name
            + ".as_bytes(), 0)"@,
        setter: names::prefixed("set_"@, name, ""@) + "(&mut self, val: "@ + native + ")"@,
        writes: "<"@ + native + " as BitCodec<"@ + stored + ">>::write_bits(&val, self."@ + name
            + ".as_mut_bytes(), 0);"@,
    }
}

/// The array views of a field: both have as many elements as the array, of its element type in that
/// of the storage, as far apart as they are wide, from the first bit of the field on.
pub open spec fn field_view_accessors(field: FieldView, storage: StorageView) -> Accessors {
    let name = field.name;
    let element = token::text(storage::array_element(field.native));
    let stored = stored_element(storage);
    let len = token::text(storage::array_length(field.native));
    let width = "<"@ + element + " as BitCodec<"@ + stored + ">>::BITS"@;
    Accessors {
        getter: name + "(&self) -> BitArrayView<'_, "@ + element + ", "@ + stored + ">"@,
        reads: "BitArrayView::new(self."@ + name + ".as_bytes(), 0, "@ + len + ", "@ + width
            + ")"@,
        setter: names::prefixed("set_"@, name, ""@) + "(&mut self) -> BitArrayViewMut<'_, "@
            + element + ", "@ + stored + ">"@,
        writes: "BitArrayViewMut::new(self."@ + name + ".as_mut_bytes(), 0, "@ + len + ", "@ + width
            + ")"@,
    }
}

/// The accessors for what a field stores: both read and write the field as it is.
pub open spec fn field_raw_accessors(field: FieldView, storage: StorageView) -> Accessors {
    Accessors {
        getter: field.name + "_raw"@ + "(&self) -> "@ + storage.text(),
        reads: "self."@ + field.name,
        setter: names::prefixed("set_"@, field.name, "_raw"@) + "(&mut self, val: "@
            + storage.text() + ")"@,
        writes: "self."@ + field.name + " = val;"@,
    }
}

/// Whether code has all accessors of a field that is stored in another type than its own: array
/// views if both types are arrays, or else accessors for its value; and accessors for what is
/// stored unless it is an array.
pub open spec fn has_field_accessors(
    code: Seq<char>,
    field: FieldView,
    storage: StorageView,
) -> bool {
    let attrs = struct_code::attributes_text(field.attrs);
    let vis = token::text(field.vis);
    let array = storage::is_array(field.native);
    &&& has_accessors(
        code,
        attrs,
        vis,
        if array && storage::is_array(storage.written) {
            field_view_accessors(field, storage)
        } else {
            field_value_accessors(field, storage)
        },
    )
    &&& !array ==> has_accessors(code, attrs, vis, field_raw_accessors(field, storage))
}

proof fn field_methods(plan: FieldPlanView)
    requires
        plan.access == Some(struct_plan::field_access(plan.field, plan.storage)),
    ensures
        has_field_accessors(struct_code::field_accessors(plan), plan.field, plan.storage),
{
    let attrs = struct_code::attributes_text(plan.field.attrs);
    let vis = token::text(plan.field.vis);
    let code = struct_code::field_accessors(plan);
    let views = field_view_accessors(plan.field, plan.storage);
    let value = field_value_accessors(plan.field, plan.storage);
    let raw = field_raw_accessors(plan.field, plan.storage);
    if storage::is_array(plan.field.native) {
        if storage::is_array(plan.storage.written) {
            accessors_are_there(attrs, vis, views, Seq::empty());
            same_text(code, accessors_code(attrs, vis, views));
        } else {
            accessors_are_there(attrs, vis, value, Seq::empty());
            same_text(code, accessors_code(attrs, vis, value));
        }
    } else {
        accessors_are_there(attrs, vis, value, accessors_code(attrs, vis, raw));
        accessors_are_there(attrs, vis, raw, accessors_code(attrs, vis, value));
        same_text(code, accessors_code(attrs, vis, value) + accessors_code(attrs, vis, raw));
    }
}

proof fn field_accessors_in_whole(
    code: Seq<char>,
    part: Seq<char>,
    field: FieldView,
    storage: StorageView,
)
    requires
        has_part(code, part),
        has_field_accessors(part, field, storage),
    ensures
        has_field_accessors(code, field, storage),
{
    let attrs = struct_code::attributes_text(field.attrs);
    let vis = token::text(field.vis);
    accessors_in_whole(code, part, attrs, vis, field_view_accessors(field, storage));
    accessors_in_whole(code, part, attrs, vis, field_value_accessors(field, storage));
    accessors_in_whole(code, part, attrs, vis, field_raw_accessors(field, storage));
}

/// Whether code has the stored field of an item, and its own accessors if it has any. Unused bytes
/// are stored as an array. A field is stored under its name, with its attributes and in its storage
/// type. One that is stored in another type than its own, or that is packed, is private. One that
/// is stored in another type, and not packed unless its attribute asks for that type, has
/// accessors.
pub open spec fn is_stored(code: Seq<char>, item: FieldItemPlanView) -> bool {
    match item {
        FieldItemPlanView::Padding(name, len) => has_part(
            code,
            name + ": [u8; "@ + token::text(len) + "], "@,
        ),
        FieldItemPlanView::Value(found) => {
            let field = found.field;
            let backed = field.storage is Some || (found.storage.order is Some
                && field.subfields is None);
            let vis = if backed || field.subfields is Some {
                Seq::empty()
            } else {
                token::text(field.vis)
            };
            &&& has_part(
                code,
                struct_code::attributes_text(field.attrs) + " "@ + vis + " "@ + field.name + ": "@
                    + found.storage.text() + ", "@,
            )
            &&& backed ==> has_field_accessors(code, field, found.storage)
        },
    }
}

proof fn item_is_stored(
    code: Seq<char>,
    item: FieldItemView,
    index: nat,
    default: Option<DefaultEndian>,
    generic: bool,
)
    requires
        ({
            let found = struct_plan::item_plan(item, index, default, generic);
            &&& has_part(code, struct_code::stored_field(found))
            &&& found matches FieldItemPlanView::Value(plan) ==> has_part(
                code,
                struct_code::field_accessors(plan),
            )
        }),
    ensures
        is_stored(code, struct_plan::item_plan(item, index, default, generic)),
{
    if let FieldItemPlanView::Value(found) = struct_plan::item_plan(item, index, default, generic) {
        if found.access is Some {
            field_methods(found);
            field_accessors_in_whole(
                code,
                struct_code::field_accessors(found),
                found.field,
                found.storage,
            );
        }
    }
}

/// Every field and every run of unused bytes is in the generated struct.
pub proof fn fields_are_stored(s: Seq<Token>, i: int)
    ensures
        struct_code::expansion_of(s) matches Ok(code) ==> {
            &&& definition::definition_of(s) matches Ok(definition)
            &&& struct_plan::plan_of(definition) matches Ok(plan)
            &&& 0 <= i < plan.fields.len() ==> is_stored(code, plan.fields[i])
        },
{
    if let Ok(code) = struct_code::expansion_of(s) {
        let definition = definition::definition_of(s)->Ok_0;
        let plan = struct_plan::plan_of(definition)->Ok_0;
        let default = storage::split_endian(definition.attrs)->Ok_0.1;
        let (header, arguments) = generics::split_generics(definition.generics)->Ok_0;
        if 0 <= i < plan.fields.len() {
            item_in_code(definition, plan, header, arguments, i);
            item_is_stored(code, definition.fields[i], i as nat, default, definition.generic);
        }
    }
}

/// Fields, accessors and assertions come in the order of the definition: what is generated for
/// items is what is generated for the first of them and then what is generated for the others.
pub proof fn items_follow_each_other(a: Seq<FieldItemPlanView>, b: Seq<FieldItemPlanView>)
    ensures
        struct_code::items_text(a + b).0 == struct_code::items_text(a).0 + struct_code::items_text(
            b,
        ).0,
        struct_code::items_text(a + b).1 == struct_code::items_text(a).1 + struct_code::items_text(
            b,
        ).1,
        struct_code::items_text(a + b).2 == struct_code::items_text(a).2 + struct_code::items_text(
            b,
        ).2,
    decreases b.len(),
{
    if b.len() == 0 {
        assert(a + b =~= a);
    } else {
        assert((a + b).drop_last() =~= a + b.drop_last());
        items_follow_each_other(a, b.drop_last());
        let (fields, accessors, claims) = struct_code::items_text(a);
        let before = struct_code::items_text(b.drop_last());
        let item = b.last();
        text_laws::parts_associate(fields, before.0, struct_code::stored_field(item));
        text_laws::parts_associate(accessors, before.1, struct_code::item_accessors(item));
        text_laws::parts_associate(claims, before.2, struct_code::item_claim(item));
    }
}

/// The attributes of a field come in order, each with a space behind it.
pub proof fn attributes_follow_each_other(a: Seq<AttrView>, attr: AttrView, b: Seq<AttrView>)
    ensures
        struct_code::attributes_text(a + b) == struct_code::attributes_text(a)
            + struct_code::attributes_text(b),
        struct_code::attributes_text(seq![attr]) == token::text(attr.tokens) + " "@,
    decreases b.len(),
{
    assert(seq![attr].drop_last() =~= Seq::empty());
    reveal_with_fuel(struct_code::attributes_text, 2);
    assert(Seq::<char>::empty() + token::text(attr.tokens) =~= token::text(attr.tokens));
    if b.len() == 0 {
        assert(a + b =~= a);
    } else {
        assert((a + b).drop_last() =~= a + b.drop_last());
        attributes_follow_each_other(a, attr, b.drop_last());
        let first = struct_code::attributes_text(a);
        let before = struct_code::attributes_text(b.drop_last());
        let last = token::text(b.last().tokens);
        text_laws::parts_associate(first, before, last);
        text_laws::parts_associate(first, before + last, " "@);
    }
}

/// The generated struct has the definition's attributes, visibility, name and generic parameters,
/// the fields and accessors of its items, their assertions, and its codec.
pub proof fn struct_is_declared(s: Seq<Token>)
    ensures
        struct_code::expansion_of(s) matches Ok(code) ==> {
            &&& definition::definition_of(s) matches Ok(definition)
            &&& struct_plan::plan_of(definition) matches Ok(plan)
            &&& generics::split_generics(definition.generics) matches Ok((header, arguments))
            &&& {
                let (fields, accessors, claims) = struct_code::items_text(plan.fields);
                &&& has_part(
                    code,
                    struct_code::attributes_text(plan.attrs) + " "@ + struct_code::derives_text(
                        plan.derives,
                    ) + " "@ + declared(definition, header, arguments, fields, accessors),
                )
                &&& has_part(code, claims)
                &&& definition.bits matches Some(bits) ==> has_part(
                    code,
                    struct_codec(
                        header,
                        definition.name + " "@ + arguments,
                        token::text(bits),
                    ).code(),
                )
            }
        },
{
    if let Ok(code) = struct_code::expansion_of(s) {
        let definition = definition::definition_of(s)->Ok_0;
        let plan = struct_plan::plan_of(definition)->Ok_0;
        let (header, arguments) = generics::split_generics(definition.generics)->Ok_0;
        struct_parts(definition, plan, header, arguments);
        if let Some(bits) = definition.bits {
            let codec = struct_codec(
                header,
                definition.name + " "@ + arguments,
                token::text(bits),
            );
            struct_codec_text(definition.name, header, arguments, token::text(bits));
        }
    }
}

proof fn struct_codec_text(
    name: Seq<char>,
    header: Seq<char>,
    arguments: Seq<char>,
    bits: Seq<char>,
)
    ensures
        struct_text::packed_codec_code(name, header, arguments, bits) == struct_codec(
            header,
            name + " "@ + arguments,
            bits,
        ).code(),
{
    broadcast use text_laws::parts_associate;

}

/// The codec of a struct that is stored as its first bits: its width is the number of bits that it
/// reads and writes, and reading it never fails.
pub open spec fn struct_codec(header: Seq<char>, ty: Seq<char>, bits: Seq<char>) -> Codec {
    Codec {
        header,
        target: ty,
        ty,
        clause: ""@,
        bits,
        fallible: "false"@,
        result: "Self"@,
        error: "Self"@,
        read_bits: "::zorua::packed::read_packed::<Self>(src, bit_offset, "@ + bits + ")"@,
        try_read_bits: "Ok(<Self as BitCodec<"@ + ty + ">>::read_bits(src, bit_offset))"@,
        write_bits: "::zorua::packed::write_packed::<Self>(self, dst, bit_offset, "@ + bits
            + ");"@,
        read: "<Self as BitCodec<"@ + ty + ">>::read_bits(src, bit_offset)"@,
    }
}

/// The generated code asserts that the widths of the packed fields of a field add up to the width
/// of its storage type; and, without generic parameters, that what explicit offsets claim does.
pub proof fn packed_fields_fill_their_storage(s: Seq<Token>, i: int)
    ensures
        struct_code::expansion_of(s) matches Ok(code) ==> {
            &&& definition::definition_of(s) matches Ok(definition)
            &&& struct_plan::plan_of(definition) matches Ok(plan)
            &&& storage::split_endian(definition.attrs) matches Ok((_, default))
            &&& 0 <= i < plan.fields.len() ==> (plan.fields[i] matches FieldItemPlanView::Value(
                field,
            ) ==> (field.field.subfields matches Some(items) ==> {
                &&& field.packed matches Some(packed)
                &&& packed == struct_plan::packed_plan(items, default, definition.generic)
                &&& has_part(
                    code,
                    "const "@ + syntax::uppercase_of("__ZORUA_ASSERT_BITS_"@ + field.field.name)
                        + ": () = { "@ + filled_storage(
                        struct_code::sum_text("0usize"@, packed.coverage),
                        field.storage.text(),
                    ) + " };"@,
                )
                &&& !definition.generic ==> has_part(
                    code,
                    "const _: () = { "@ + filled_storage(
                        claimed_sum(struct_plan::claim_of(items, default)),
                        field.storage.text(),
                    ) + " };"@,
                )
            }))
        },
{
    if let Ok(code) = struct_code::expansion_of(s) {
        let definition = definition::definition_of(s)->Ok_0;
        let plan = struct_plan::plan_of(definition)->Ok_0;
        let (header, arguments) = generics::split_generics(definition.generics)->Ok_0;
        if 0 <= i < plan.fields.len() {
            item_in_code(definition, plan, header, arguments, i);
        }
    }
}

/// The bytes of a generated struct, as `zerocopy` gives them.
pub open spec fn layout_impl(ty: Seq<char>, header: Seq<char>) -> Seq<char> {
    "impl "@ + header + " ::zorua::byte_repr::ByteLayout for "@ + ty
        + "\nwhere Self: FromBytes + IntoBytes + KnownLayout + Immutable + Unaligned {"@
        + trait_method("size_of() -> usize"@, "::core::mem::size_of::<Self>()"@) + trait_method(
        "new_zeroed() -> Self"@,
        "<Self as FromZeros>::new_zeroed()"@,
    ) + trait_method("as_bytes(&self) -> &[u8]"@, "<Self as IntoBytes>::as_bytes(self)"@)
        + trait_method(
        "as_mut_bytes(&mut self) -> &mut [u8]"@,
        "<Self as IntoBytes>::as_mut_bytes(self)"@,
    ) + trait_method(
        "read_from_bytes(bytes: &[u8]) -> Option<Self>"@,
        "<Self as FromBytes>::read_from_bytes(bytes).ok()"@,
    ) + "}\n\n"@
}

/// The views of bytes as a generated struct, as `zerocopy` gives them.
pub open spec fn view_impl(ty: Seq<char>, header: Seq<char>) -> Seq<char> {
    "impl "@ + header + " ::zorua::byte_repr::ByteView for "@ + ty
        + "\nwhere Self: FromBytes + IntoBytes + KnownLayout + Immutable + Unaligned {"@
        + trait_method(
        "ref_from_bytes(bytes: &[u8]) -> Option<&Self>"@,
        "<Self as FromBytes>::ref_from_bytes(bytes).ok()"@,
    ) + trait_method(
        "mut_from_bytes(bytes: &mut [u8]) -> Option<&mut Self>"@,
        "<Self as FromBytes>::mut_from_bytes(bytes).ok()"@,
    ) + trait_method(
        "ref_from_prefix(bytes: &[u8]) -> Option<(&Self, &[u8])>"@,
        "<Self as FromBytes>::ref_from_prefix(bytes).ok()"@,
    ) + trait_method(
        "mut_from_prefix(bytes: &mut [u8]) -> Option<(&mut Self, &mut [u8])>"@,
        "<Self as FromBytes>::mut_from_prefix(bytes).ok()"@,
    ) + "}\n\n"@
}

proof fn layout_texts(name: Seq<char>, header: Seq<char>, arguments: Seq<char>)
    ensures
        struct_text::layout_impl_code(name, header, arguments) == layout_impl(
            name + " "@ + arguments,
            header,
        ),
        struct_text::view_impl_code(name, header, arguments) == view_impl(
            name + " "@ + arguments,
            header,
        ),
{
    broadcast use text_laws::parts_associate;

    let ty = name + " "@ + arguments;
    let front = "impl "@ + header + " ::zorua::byte_repr::ByteLayout for "@;
    same_text(front + ty, front + name + " "@ + arguments);
    same_text(struct_text::layout_impl_code(name, header, arguments), layout_impl(ty, header));
    let front = "impl "@ + header + " ::zorua::byte_repr::ByteView for "@;
    same_text(front + ty, front + name + " "@ + arguments);
    same_text(struct_text::view_impl_code(name, header, arguments), view_impl(ty, header));
}

/// The generated code has the bytes of the struct and its views, each method by the one of the same
/// name in `zerocopy`.
pub proof fn struct_has_its_bytes(s: Seq<Token>)
    ensures
        struct_code::expansion_of(s) matches Ok(code) ==> {
            &&& definition::definition_of(s) matches Ok(definition)
            &&& generics::split_generics(definition.generics) matches Ok((header, arguments))
            &&& has_part(code, layout_impl(definition.name + " "@ + arguments, header))
            &&& has_part(code, view_impl(definition.name + " "@ + arguments, header))
        },
{
    if let Ok(code) = struct_code::expansion_of(s) {
        let definition = definition::definition_of(s)->Ok_0;
        let plan = struct_plan::plan_of(definition)->Ok_0;
        let (header, arguments) = generics::split_generics(definition.generics)->Ok_0;
        struct_parts(definition, plan, header, arguments);
        layout_texts(definition.name, header, arguments);
    }
}

/// Derived traits are listed in one attribute, in order and each with a comma behind it; there is
/// no attribute without traits.
pub proof fn derived_traits_are_listed(a: Seq<Seq<char>>, name: Seq<char>, b: Seq<Seq<char>>)
    ensures
        struct_code::derives_text(Seq::empty()) == Seq::<char>::empty(),
        a.len() > 0 ==> struct_code::derives_text(a) == "#[derive("@ + struct_code::listed(a)
            + ")]"@,
        struct_code::listed(seq![name]) == name + ", "@,
        struct_code::listed(a + b) == struct_code::listed(a) + struct_code::listed(b),
    decreases b.len(),
{
    let single = seq![name];
    assert(single.drop_last() =~= Seq::empty());
    reveal_with_fuel(struct_code::listed, 2);
    assert(Seq::<char>::empty() + name =~= name);
    if b.len() == 0 {
        assert(a + b =~= a);
    } else {
        assert((a + b).drop_last() =~= a + b.drop_last());
        derived_traits_are_listed(a, name, b.drop_last());
        let before = struct_code::listed(b.drop_last());
        text_laws::parts_associate(struct_code::listed(a), before, b.last());
        text_laws::parts_associate(struct_code::listed(a), before + b.last(), ", "@);
    }
}

/// Whether an attribute that derives traits names the given one, with or without a path in front.
pub open spec fn derives_trait(attr: AttrView, name: Seq<char>) -> bool {
    &&& attr.name == Some("derive"@)
    &&& syntax::path_arguments_of(token::text(attr.tokens)) matches Some(paths) && exists|
        i: int,
    |
        0 <= i < paths.len() && (#[trigger] paths[i]).len() > 0 && paths[i].last() == name
}

/// A generated struct derives exactly those of the five layout traits that its attributes do not.
pub proof fn missing_traits_are_derived(definition: DefinitionView, name: Seq<char>)
    ensures
        struct_plan::plan_of(definition) matches Ok(plan) ==> (plan.derives.contains(name) <==> {
            &&& name == "FromBytes"@ || name == "IntoBytes"@ || name == "KnownLayout"@ || name
                == "Immutable"@ || name == "Unaligned"@
            &&& !(exists|i: int|
                0 <= i < plan.attrs.len() && derives_trait(#[trigger] plan.attrs[i], name))
        }),
{
    if let Ok(plan) = struct_plan::plan_of(definition) {
        let attrs = plan.attrs;
        assert forall|i: int| 0 <= i < attrs.len() implies derives_trait(#[trigger] attrs[i], name)
            == struct_plan::derives_here(attrs[i], name) by {
            if let Some(paths) = syntax::path_arguments_of(token::text(attrs[i].tokens)) {
                if exists|k: int| 0 <= k < paths.len() && struct_plan::ends_with(
                    #[trigger] paths[k],
                    name,
                ) {
                    let k = choose|k: int|
                        0 <= k < paths.len() && struct_plan::ends_with(#[trigger] paths[k], name);
                    assert(paths[k].len() > 0 && paths[k].last() == name);
                }
                if exists|k: int|
                    0 <= k < paths.len() && (#[trigger] paths[k]).len() > 0 && paths[k].last()
                        == name {
                    let k = choose|k: int|
                        0 <= k < paths.len() && (#[trigger] paths[k]).len() > 0 && paths[k].last()
                            == name;
                    assert(struct_plan::ends_with(paths[k], name));
                }
            }
        }
        missing_is_a_layout_trait(attrs, 5, name);
        struct_plan::layout_traits_are_derived_once(attrs, 0);
        struct_plan::layout_traits_are_derived_once(attrs, 1);
        struct_plan::layout_traits_are_derived_once(attrs, 2);
        struct_plan::layout_traits_are_derived_once(attrs, 3);
        struct_plan::layout_traits_are_derived_once(attrs, 4);
        assert(struct_plan::derives(attrs, name) <==> exists|i: int|
            0 <= i < attrs.len() && derives_trait(#[trigger] attrs[i], name));
    }
}

proof fn missing_is_a_layout_trait(attrs: Seq<AttrView>, n: nat, name: Seq<char>)
    requires
        n <= 5,
    ensures
        struct_plan::missing_derives(attrs, n).contains(name) ==> name == "FromBytes"@ || name
            == "IntoBytes"@ || name == "KnownLayout"@ || name == "Immutable"@ || name
            == "Unaligned"@,
    decreases n,
{
    if n > 0 {
        missing_is_a_layout_trait(attrs, (n - 1) as nat, name);
        let all = struct_plan::missing_derives(attrs, n);
        let before = struct_plan::missing_derives(attrs, (n - 1) as nat);
        if all.contains(name) {
            let k = choose|k: int| 0 <= k < all.len() && all[k] == name;
            if k < before.len() {
                assert(before[k] == name);
            }
        }
    }
}

/// What is planned for a packed field: an array has views, whose elements may be absent if the field may
/// be; anything else has a value, which may be absent if the field may be. A field has another
/// storage type if its attribute or its byte order says so, and the same one if the texts agree,
/// those of the elements for an array.
pub proof fn packed_fields_are_planned(
    subfield: SubfieldView,
    storage: StorageView,
    offset: Seq<WidthView>,
)
    ensures
        ({
            let plan = struct_plan::subfield_plan(subfield, storage, offset);
            let array = storage::is_array(subfield.native);
            &&& plan.subfield == subfield && plan.storage == storage && plan.offset == offset
            &&& plan.backed <==> subfield.storage is Some || storage.order is Some
            &&& plan.access is Scalar <==> !array && !subfield.zeroed
            &&& plan.access is Zeroed <==> !array && subfield.zeroed
            &&& plan.access is Array <==> array && !subfield.zeroed
            &&& plan.access is ZeroedArray <==> array && subfield.zeroed
            &&& plan.identity <==> if array {
                token::text(storage::array_element(subfield.native)) == stored_element(storage)
            } else {
                token::text(subfield.native) == storage.text()
            }
            &&& plan.writer == if array {
                names::prefixed(""@, subfield.name, "_mut"@)
            } else {
                names::prefixed("set_"@, subfield.name, ""@)
            }
            &&& plan.raw is Some <==> if array {
                !subfield.zeroed && subfield.stride is None
            } else {
                subfield.zeroed || subfield.storage is Some || storage.order is Some
            }
            &&& plan.raw matches Some(raw) ==> raw.getter == subfield.name + "_raw"@ && raw.setter
                == names::prefixed("set_"@, subfield.name, "_raw"@)
        }),
{
}

/// The code of a packed field is its accessors and nothing else.
pub proof fn packed_fields_have_no_other_code(
    container: Seq<char>,
    subfield: SubfieldView,
    storage: StorageView,
    offset: Seq<WidthView>,
)
    ensures
        ({
            let plan = struct_plan::subfield_plan(subfield, storage, offset);
            struct_code::subfield_accessors(container, plan) == all_accessors(
                container,
                subfield,
                storage,
                struct_code::offset_text(plan),
            )
        }),
{
    packed_methods(container, subfield, storage, offset);
}

/// The accessors of packed fields come in order.
pub proof fn packed_fields_follow_in_order(
    container: Seq<char>,
    a: Seq<SubfieldPlanView>,
    one: SubfieldPlanView,
    b: Seq<SubfieldPlanView>,
)
    ensures
        struct_code::all_subfield_accessors(container, seq![one])
            == struct_code::subfield_accessors(container, one),
        struct_code::all_subfield_accessors(container, a + b)
            == struct_code::all_subfield_accessors(container, a)
            + struct_code::all_subfield_accessors(container, b),
    decreases b.len(),
{
    let single = seq![one];
    let code = struct_code::subfield_accessors(container, one);
    assert(single.drop_last() =~= Seq::empty());
    reveal_with_fuel(struct_code::all_subfield_accessors, 2);
    assert(Seq::<char>::empty() + code =~= code);
    if b.len() == 0 {
        assert(a + b =~= a);
    } else {
        assert((a + b).drop_last() =~= a + b.drop_last());
        packed_fields_follow_in_order(container, a, one, b.drop_last());
        text_laws::parts_associate(
            struct_code::all_subfield_accessors(container, a),
            struct_code::all_subfield_accessors(container, b.drop_last()),
            struct_code::subfield_accessors(container, b.last()),
        );
    }
}

/// What is planned for a field: it has accessors of its own exactly if its attribute asks for a storage
/// type, or if it has a byte order and is not packed; its stored field is private if it has accessors
/// or is packed; and it has packed fields exactly if its definition has. What explicit offsets claim
/// is asserted only without generic parameters.
pub proof fn fields_are_planned(
    field: FieldView,
    storage: StorageView,
    default: Option<DefaultEndian>,
    generic: bool,
)
    ensures
        ({
            let plan = struct_plan::field_plan(field, storage, default, generic);
            let array = storage::is_array(field.native);
            &&& plan.field == field && plan.storage == storage
            &&& plan.access is Some <==> field.storage is Some || (storage.order is Some
                && field.subfields is None)
            &&& plan.hidden <==> plan.access is Some || field.subfields is Some
            &&& plan.packed is Some <==> field.subfields is Some
            &&& plan.packed matches Some(packed) ==> (packed.claim is Some <==> !generic)
            &&& plan.access matches Some(access) ==> {
                &&& access.writer == names::prefixed("set_"@, field.name, ""@)
                &&& access.elements is Some <==> array && storage::is_array(storage.written)
                &&& access.raw is Some <==> !array
                &&& access.raw matches Some(raw) ==> raw.getter == field.name + "_raw"@
                    && raw.setter == names::prefixed("set_"@, field.name, "_raw"@)
            }
        }),
{
}

/// The code of a field is its own accessors, if it has any, those of its packed fields and the
/// assertion that these fill it, and nothing else.
pub proof fn fields_have_no_other_code(plan: FieldPlanView)
    requires
        plan.access matches Some(access) ==> access == struct_plan::field_access(
            plan.field,
            plan.storage,
        ),
    ensures
        ({
            let attrs = struct_code::attributes_text(plan.field.attrs);
            let vis = token::text(plan.field.vis);
            let array = storage::is_array(plan.field.native);
            let own = struct_code::field_accessors(plan);
            &&& plan.access is None ==> own.len() == 0
            &&& plan.access is Some ==> own == if array && storage::is_array(
                plan.storage.written,
            ) {
                accessors_code(attrs, vis, field_view_accessors(plan.field, plan.storage))
            } else if array {
                accessors_code(attrs, vis, field_value_accessors(plan.field, plan.storage))
            } else {
                accessors_code(attrs, vis, field_value_accessors(plan.field, plan.storage))
                    + accessors_code(attrs, vis, field_raw_accessors(plan.field, plan.storage))
            }
            &&& struct_code::item_accessors(FieldItemPlanView::Value(plan)) == match plan.packed {
                None => own,
                Some(packed) => own + (struct_code::all_subfield_accessors(
                    plan.field.name,
                    packed.accessors,
                ) + ("const "@ + syntax::uppercase_of("__ZORUA_ASSERT_BITS_"@ + plan.field.name)
                    + ": () = { "@ + filled_storage(
                    struct_code::sum_text("0usize"@, packed.coverage),
                    plan.storage.text(),
                ) + " };"@)),
            }
        }),
{
    let attrs = struct_code::attributes_text(plan.field.attrs);
    let vis = token::text(plan.field.vis);
    let own = struct_code::field_accessors(plan);
    let views = accessors_code(attrs, vis, field_view_accessors(plan.field, plan.storage));
    let value = accessors_code(attrs, vis, field_value_accessors(plan.field, plan.storage));
    let raw = accessors_code(attrs, vis, field_raw_accessors(plan.field, plan.storage));
    if plan.access is Some {
        if storage::is_array(plan.field.native) {
            if storage::is_array(plan.storage.written) {
                same_text(own, views);
            } else {
                same_text(own, value);
            }
        } else {
            same_text(own, value + raw);
        }
    }
    if let Some(packed) = plan.packed {
        let all = struct_code::all_subfield_accessors(plan.field.name, packed.accessors);
        same_text(
            struct_code::packed_accessors(plan.field.name, plan.storage.text(), packed),
            all + coverage_constant(plan, packed),
        );
    }
}

/// Unused bytes have no accessors, and assertions on explicit offsets are there only where they are
/// planned.
pub proof fn plain_items_have_no_code(item: FieldItemPlanView)
    ensures
        item is Padding ==> struct_code::item_accessors(item).len() == 0,
        item is Padding ==> struct_code::item_claim(item).len() == 0,
        item matches FieldItemPlanView::Value(plan) ==> (plan.packed is None
            ==> struct_code::item_claim(item).len() == 0),
        item matches FieldItemPlanView::Value(plan) ==> (plan.packed matches Some(packed) ==> (
        packed.claim is None ==> struct_code::item_claim(item).len() == 0)),
{
}

/// The generated code is the struct with its attributes and derived traits, the impl with its
/// accessors, its bytes and their views, the assertions and the codec if it has a width, in that
/// order, and nothing else.
pub proof fn structs_have_no_other_code(
    definition: DefinitionView,
    plan: PlanView,
    header: Seq<char>,
    arguments: Seq<char>,
)
    ensures
        ({
            let (fields, accessors, claims) = struct_code::items_text(plan.fields);
            let ty = definition.name + " "@ + arguments;
            struct_code::struct_text(definition, plan, header, arguments) == "\n"@
                + struct_code::attributes_text(plan.attrs) + " "@ + struct_code::derives_text(
                plan.derives,
            ) + " "@ + declared(definition, header, arguments, fields, accessors) + layout_impl(
                ty,
                header,
            ) + view_impl(ty, header) + claims + "\n\n"@ + match definition.bits {
                Some(bits) => struct_codec(header, ty, token::text(bits)).code(),
                None => Seq::empty(),
            } + "\n"@
        }),
{
    let (fields, accessors, claims) = struct_code::items_text(plan.fields);
    let ty = definition.name + " "@ + arguments;
    declaration_parts(definition, header, arguments, fields, accessors);
    layout_texts(definition.name, header, arguments);
    let codec = match definition.bits {
        Some(bits) => struct_codec(header, ty, token::text(bits)).code(),
        None => Seq::empty(),
    };
    if let Some(bits) = definition.bits {
        struct_codec_text(definition.name, header, arguments, token::text(bits));
    }
    same_text(codec, struct_code::packed_codec(definition, header, arguments));
    let layout = layout_impl(ty, header);
    let view = view_impl(ty, header);
    same_text(
        struct_code::struct_text(definition, plan, header, arguments),
        "\n"@ + struct_code::attributes_text(plan.attrs) + " "@ + struct_code::derives_text(
            plan.derives,
        ) + " "@ + declared(definition, header, arguments, fields, accessors) + layout + view
            + claims + "\n\n"@ + codec + "\n"@,
    );
}

} // verus!

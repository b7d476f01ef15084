//! The code of planned structs.
use crate::macros::definition;
use crate::macros::definition::{Definition, DefinitionView};
use crate::macros::error::{DefinitionError, ErrorView};
use crate::macros::generics;
use crate::macros::layout;
use crate::macros::layout::{Width, WidthView};
use crate::macros::pieces;
use crate::macros::pieces::{Attr, AttrView};
use crate::macros::struct_plan;
use crate::macros::struct_plan::{
    Access, AccessView, Claim, ClaimView, Elements, ElementsView, FieldItemPlan, FieldItemPlanView,
    FieldPlan, FieldPlanView, PackedPlan, PackedPlanView, Plan, PlanView, SubfieldPlan,
    SubfieldPlanView,
};
use crate::macros::storage;
use crate::macros::struct_text;
use crate::macros::syntax;
use crate::macros::template;
use crate::macros::token;
use crate::macros::token::Token;
use vstd::prelude::*;

verus! {

/// The number of bits of a width.
pub open spec fn width_text(width: WidthView) -> Seq<char> {
    match width {
        WidthView::Bits(bits) => struct_text::operand_code(token::text(bits)),
        WidthView::Codec(native, storage) => codec_width(token::text(native), storage.text()),
        WidthView::Elements(len, native, storage) => struct_text::elements_width_code(
            token::text(len),
            codec_width(token::text(native), storage.text()),
        ),
        WidthView::Steps(len, stride) => struct_text::steps_width_code(
            token::text(len),
            token::text(stride),
        ),
    }
}

/// The width of the codec of a type for a storage type.
pub open spec fn codec_width(native: Seq<char>, storage: Seq<char>) -> Seq<char> {
    struct_text::codec_width_code(native, storage)
}

fn render_codec_width(native: &str, storage: &str) -> (r: String)
    ensures
        r@ == codec_width(native@, storage@),
{
    struct_text::render_codec_width_code(native, storage)
}

/// Renders the number of bits of a width.
pub fn render_width(width: &Width) -> (r: String)
    ensures
        r@ == width_text(width@),
{
    match width {
        Width::Bits(bits) => {
            let bits = token::render(bits);
            let bits = bits.as_str();
            struct_text::render_operand_code(bits)
        },
        Width::Codec(native, storage) => {
            let (native, storage) = (token::render(native), storage.text());
            render_codec_width(native.as_str(), storage.as_str())
        },
        Width::Elements(len, native, storage) => {
            let (len, native) = (token::render(len), token::render(native));
            let storage = storage.text();
            let one = render_codec_width(native.as_str(), storage.as_str());
            let (len, one) = (len.as_str(), one.as_str());
            struct_text::render_elements_width_code(len, one)
        },
        Width::Steps(len, stride) => {
            let (len, stride) = (token::render(len), token::render(stride));
            let (len, stride) = (len.as_str(), stride.as_str());
            struct_text::render_steps_width_code(len, stride)
        },
    }
}

/// A first number of bits and widths behind it, added up.
pub open spec fn sum_text(first: Seq<char>, widths: Seq<WidthView>) -> Seq<char>
    decreases widths.len(),
{
    if widths.len() == 0 {
        first
    } else {
        sum_text(first, widths.drop_last()) + " + "@ + width_text(widths.last())
    }
}

fn render_sum(first: String, widths: &Vec<Width>) -> (r: String)
    ensures
        r@ == sum_text(first@, layout::width_views(widths@)),
{
    let ghost all = layout::width_views(widths@);
    let ghost start = first@;
    let mut out = first;
    let mut i: usize = 0;
    while i < widths.len()
        invariant
            i <= widths@.len(),
            all == layout::width_views(widths@),
            out@ == sum_text(start, all.take(i as int)),
        decreases widths@.len() - i,
    {
        proof {
            assert(all.take(i + 1).drop_last() =~= all.take(i as int));
            assert(all.take(i + 1).last() == widths@[i as int]@);
        }
        out.append(" + ");
        out.append(render_width(&widths[i]).as_str());
        i += 1;
    }
    assert(all.take(i as int) =~= all);
    out
}

/// Attributes one after the other.
pub open spec fn attributes_text(attrs: Seq<AttrView>) -> Seq<char>
    decreases attrs.len(),
{
    if attrs.len() == 0 {
        Seq::empty()
    } else {
        attributes_text(attrs.drop_last()) + token::text(attrs.last().tokens) + " "@
    }
}

fn render_attributes(attrs: &Vec<Attr>) -> (r: String)
    ensures
        r@ == attributes_text(pieces::attr_views(attrs@)),
{
    let ghost all = pieces::attr_views(attrs@);
    let mut out = String::new();
    let mut i: usize = 0;
    while i < attrs.len()
        invariant
            i <= attrs@.len(),
            all == pieces::attr_views(attrs@),
            out@ == attributes_text(all.take(i as int)),
        decreases attrs@.len() - i,
    {
        proof {
            assert(all.take(i + 1).drop_last() =~= all.take(i as int));
            assert(all.take(i + 1).last() == attrs@[i as int]@);
        }
        out.append(token::render(attrs[i].tokens).as_str());
        out.append(" ");
        i += 1;
    }
    assert(all.take(i as int) =~= all);
    out
}

fn render_attribute_refs(attrs: &Vec<&Attr>) -> (r: String)
    ensures
        r@ == attributes_text(storage::attr_ref_views(attrs@)),
{
    let ghost all = storage::attr_ref_views(attrs@);
    let mut out = String::new();
    let mut i: usize = 0;
    while i < attrs.len()
        invariant
            i <= attrs@.len(),
            all == storage::attr_ref_views(attrs@),
            out@ == attributes_text(all.take(i as int)),
        decreases attrs@.len() - i,
    {
        proof {
            assert(all.take(i + 1).drop_last() =~= all.take(i as int));
            assert(all.take(i + 1).last() == attrs@[i as int]@);
        }
        out.append(token::render(attrs[i].tokens).as_str());
        out.append(" ");
        i += 1;
    }
    assert(all.take(i as int) =~= all);
    out
}

/// The distance of elements: the explicit one, or else their width.
pub open spec fn stride_text(elements: ElementsView) -> Seq<char> {
    match elements.stride {
        Some(stride) => token::text(stride),
        None => codec_width(token::text(elements.native), elements.storage.text()),
    }
}

fn render_stride(elements: &Elements) -> (r: String)
    ensures
        r@ == stride_text(elements@),
{
    match elements.stride {
        Some(stride) => token::render(stride),
        None => {
            let (native, storage) = (token::render(elements.native), elements.storage.text());
            render_codec_width(native.as_str(), storage.as_str())
        },
    }
}

/// The accessors of a field itself.
pub open spec fn field_accessors(plan: FieldPlanView) -> Seq<char> {
    match plan.access {
        None => Seq::empty(),
        Some(access) => {
            let attrs = attributes_text(plan.field.attrs);
            let vis = token::text(plan.field.vis);
            let name = plan.field.name;
            let storage = plan.storage.text();
            let values = match access.elements {
                Some(elements) => struct_text::field_views_code(
                    attrs,
                    vis,
                    name,
                    token::text(elements.native),
                    elements.storage.text(),
                    token::text(elements.len),
                    stride_text(elements),
                    access.writer,
                ),
                None => struct_text::field_value_code(
                    attrs,
                    vis,
                    name,
                    token::text(plan.field.native),
                    storage,
                    access.writer,
                ),
            };
            match access.raw {
                None => values,
                Some(raw) => values + struct_text::field_raw_code(
                    attrs,
                    vis,
                    name,
                    storage,
                    raw.getter,
                    raw.setter,
                ),
            }
        },
    }
}

/// Renders the accessors of a field itself.
pub fn render_field_accessors(plan: &FieldPlan) -> (r: String)
    ensures
        r@ == field_accessors(plan@),
{
    let access = match &plan.access {
        None => {
            return String::new();
        },
        Some(access) => access,
    };
    let attrs = render_attributes(&plan.field.attrs);
    let vis = token::render(plan.field.vis);
    let storage = plan.storage.text();
    let (attrs, vis, storage) = (attrs.as_str(), vis.as_str(), storage.as_str());
    let (name, writer) = (plan.field.name.as_str(), access.writer.as_str());
    let values = match &access.elements {
        Some(elements) => {
            let (native, stored) = (token::render(elements.native), elements.storage.text());
            let (len, stride) = (token::render(elements.len), render_stride(elements));
            let (native, stored) = (native.as_str(), stored.as_str());
            let (len, stride) = (len.as_str(), stride.as_str());
            struct_text::render_field_views_code(
                attrs,
                vis,
                name,
                native,
                stored,
                len,
                stride,
                writer,
            )
        },
        None => {
            let native = token::render(plan.field.native);
            let native = native.as_str();
            struct_text::render_field_value_code(attrs, vis, name, native, storage, writer)
        },
    };
    match &access.raw {
        None => values,
        Some(raw) => {
            let (getter, setter) = (raw.getter.as_str(), raw.setter.as_str());
            let r = struct_text::render_field_raw_code(attrs, vis, name, storage, getter, setter);
            values.concat(r.as_str())
        },
    }
}

/// Where a packed field starts: behind everything in front of it.
pub open spec fn offset_text(plan: SubfieldPlanView) -> Seq<char> {
    sum_text("0usize"@, plan.offset)
}

/// The assertion on the explicit offset of a packed field, if it has one.
pub open spec fn check_text(plan: SubfieldPlanView) -> Seq<char> {
    match plan.subfield.offset {
        Some(explicit) => struct_text::offset_check_code(token::text(explicit), offset_text(plan)),
        None => Seq::empty(),
    }
}

fn render_check(plan: &SubfieldPlan, offset: &str) -> (r: String)
    requires
        offset@ == offset_text(plan@),
    ensures
        r@ == check_text(plan@),
{
    match plan.subfield.offset {
        Some(explicit) => {
            let explicit = token::render(explicit);
            let explicit = explicit.as_str();
            struct_text::render_offset_check_code(explicit, offset)
        },
        None => String::new(),
    }
}

/// How the value of a packed field in the field `container` is read and written: through the
/// accessors for what is stored, where that has the same type.
pub open spec fn value_access(container: Seq<char>, plan: SubfieldPlanView) -> (
    Seq<char>,
    Seq<char>,
) {
    if plan.identity && plan.raw is Some {
        let raw = plan.raw->Some_0;
        (
            struct_text::delegated_read_code(raw.getter),
            struct_text::delegated_write_code(raw.setter),
        )
    } else {
        let native = token::text(plan.subfield.native);
        let storage = plan.storage.text();
        let offset = offset_text(plan);
        (
            struct_text::packed_read_code(native, storage, container, offset),
            struct_text::packed_write_code(native, storage, container, offset),
        )
    }
}

/// The accessors of a packed field in the field `container`.
#[verifier::opaque]
pub open spec fn subfield_accessors(container: Seq<char>, plan: SubfieldPlanView) -> Seq<char> {
    let attrs = attributes_text(plan.subfield.attrs);
    let vis = token::text(plan.subfield.vis);
    let name = plan.subfield.name;
    let native = token::text(plan.subfield.native);
    let storage = plan.storage.text();
    let check = check_text(plan);
    let offset = offset_text(plan);
    let values = match plan.access {
        AccessView::Scalar => {
            let (read, write) = value_access(container, plan);
            struct_text::packed_value_code(
                attrs,
                vis,
                name,
                native,
                storage,
                check,
                read,
                plan.writer,
                write,
            )
        },
        AccessView::Zeroed => struct_text::packed_option_code(
            attrs,
            vis,
            name,
            native,
            storage,
            check,
            container,
            offset,
            plan.writer,
        ),
        AccessView::Array(elements) => packed_views(
            view_holes(attrs, vis, name, elements, check, container, offset, plan.writer),
        ),
        AccessView::ZeroedArray(elements) => packed_option_views(
            view_holes(attrs, vis, name, elements, check, container, offset, plan.writer),
        ),
    };
    match plan.raw {
        None => values,
        Some(raw) => values + struct_text::packed_raw_code(
            attrs,
            vis,
            storage,
            raw.getter,
            raw.setter,
            container,
            offset,
        ),
    }
}

/// The array views of a packed field, put together from their parts.
pub open spec fn packed_views(parts: Seq<Seq<char>>) -> Seq<char> {
    struct_text::packed_views_code(
        parts[0],
        parts[1],
        parts[2],
        parts[3],
        parts[4],
        parts[5],
        parts[6],
        parts[7],
        parts[8],
        parts[9],
        parts[10],
    )
}

/// The array views of a packed field whose elements may be absent, put together from their parts.
pub open spec fn packed_option_views(parts: Seq<Seq<char>>) -> Seq<char> {
    struct_text::packed_option_views_code(
        parts[0],
        parts[1],
        parts[2],
        parts[3],
        parts[4],
        parts[5],
        parts[6],
        parts[7],
        parts[8],
        parts[9],
        parts[10],
    )
}

/// The parts of array views.
pub open spec fn view_holes(
    attrs: Seq<char>,
    vis: Seq<char>,
    name: Seq<char>,
    elements: ElementsView,
    check: Seq<char>,
    container: Seq<char>,
    offset: Seq<char>,
    writer: Seq<char>,
) -> Seq<Seq<char>> {
    seq![
        attrs,
        vis,
        name,
        token::text(elements.native),
        elements.storage.text(),
        token::text(elements.len),
        stride_text(elements),
        check,
        container,
        offset,
        writer,
    ]
}

fn render_value_access(container: &str, plan: &SubfieldPlan, offset: &str) -> (r: (String, String))
    requires
        offset@ == offset_text(plan@),
    ensures
        (r.0@, r.1@) == value_access(container@, plan@),
{
    if plan.identity {
        if let Some(raw) = &plan.raw {
            let (getter, setter) = (raw.getter.as_str(), raw.setter.as_str());
            let read = struct_text::render_delegated_read_code(getter);
            let write = struct_text::render_delegated_write_code(setter);
            return (read, write);
        }
    }
    let (native, storage) = (token::render(plan.subfield.native), plan.storage.text());
    let (native, storage) = (native.as_str(), storage.as_str());
    let read = struct_text::render_packed_read_code(native, storage, container, offset);
    let write = struct_text::render_packed_write_code(native, storage, container, offset);
    (read, write)
}

fn render_views(
    optional: bool,
    container: &str,
    plan: &SubfieldPlan,
    elements: &Elements,
    offset: &str,
) -> (r: String)
    requires
        offset@ == offset_text(plan@),
    ensures
        ({
            let parts = view_holes(
                attributes_text(plan@.subfield.attrs),
                token::text(plan@.subfield.vis),
                plan@.subfield.name,
                elements@,
                check_text(plan@),
                container@,
                offset@,
                plan@.writer,
            );
            r@ == if optional {
                packed_option_views(parts)
            } else {
                packed_views(parts)
            }
        }),
{
    let attrs = render_attributes(&plan.subfield.attrs);
    let vis = token::render(plan.subfield.vis);
    let check = render_check(plan, offset);
    let (native, stored) = (token::render(elements.native), elements.storage.text());
    let (len, stride) = (token::render(elements.len), render_stride(elements));
    let (attrs, vis, check) = (attrs.as_str(), vis.as_str(), check.as_str());
    let (native, stored) = (native.as_str(), stored.as_str());
    let (len, stride) = (len.as_str(), stride.as_str());
    let (name, writer) = (plan.subfield.name.as_str(), plan.writer.as_str());
    if optional {
        struct_text::render_packed_option_views_code(
            attrs,
            vis,
            name,
            native,
            stored,
            len,
            stride,
            check,
            container,
            offset,
            writer,
        )
    } else {
        struct_text::render_packed_views_code(
            attrs,
            vis,
            name,
            native,
            stored,
            len,
            stride,
            check,
            container,
            offset,
            writer,
        )
    }
}

/// Renders the accessors of a packed field in the field `container`.
pub fn render_subfield_accessors(container: &str, plan: &SubfieldPlan) -> (r: String)
    ensures
        r@ == subfield_accessors(container@, plan@),
{
    proof {
        reveal(subfield_accessors);
    }
    let attrs = render_attributes(&plan.subfield.attrs);
    let vis = token::render(plan.subfield.vis);
    let native = token::render(plan.subfield.native);
    let storage = plan.storage.text();
    let offset = render_sum("0usize".to_owned(), &plan.offset);
    let check = render_check(plan, offset.as_str());
    let (attrs, vis, check) = (attrs.as_str(), vis.as_str(), check.as_str());
    let (native, storage, offset) = (native.as_str(), storage.as_str(), offset.as_str());
    let (name, writer) = (plan.subfield.name.as_str(), plan.writer.as_str());
    let values = match &plan.access {
        Access::Scalar => {
            let (read, write) = render_value_access(container, plan, offset);
            let (read, write) = (read.as_str(), write.as_str());
            struct_text::render_packed_value_code(
                attrs,
                vis,
                name,
                native,
                storage,
                check,
                read,
                writer,
                write,
            )
        },
        Access::Zeroed => {
            struct_text::render_packed_option_code(
                attrs,
                vis,
                name,
                native,
                storage,
                check,
                container,
                offset,
                writer,
            )
        },
        Access::Array(elements) => render_views(false, container, plan, elements, offset),
        Access::ZeroedArray(elements) => render_views(true, container, plan, elements, offset),
    };
    match &plan.raw {
        None => values,
        Some(raw) => {
            let (getter, setter) = (raw.getter.as_str(), raw.setter.as_str());
            let r = struct_text::render_packed_raw_code(
                attrs,
                vis,
                storage,
                getter,
                setter,
                container,
                offset,
            );
            values.concat(r.as_str())
        },
    }
}

/// The assertion that a number of bits is the width of a storage type.
pub open spec fn coverage_text(bits: Seq<char>, storage: Seq<char>) -> Seq<char> {
    struct_text::coverage_code(bits, storage)
}

fn render_coverage(bits: &str, storage: &str) -> (r: String)
    ensures
        r@ == coverage_text(bits@, storage@),
{
    struct_text::render_coverage_code(bits, storage)
}

/// The assertion that what explicit offsets claim is the width of a storage type.
pub open spec fn claim_text(claim: ClaimView, storage: Seq<char>) -> Seq<char> {
    let first = match claim.offset {
        Some(offset) => struct_text::operand_code(token::text(offset)),
        None => "0usize"@,
    };
    struct_text::claim_code(coverage_text(sum_text(first, claim.widths), storage))
}

/// Renders the assertion that what explicit offsets claim is the width of a storage type.
pub fn render_claim(claim: &Claim, storage: &str) -> (r: String)
    ensures
        r@ == claim_text(claim@, storage@),
{
    let first = match claim.offset {
        Some(offset) => {
            let offset = token::render(offset);
            let offset = offset.as_str();
            struct_text::render_operand_code(offset)
        },
        None => "0usize".to_owned(),
    };
    let bits = render_sum(first, &claim.widths);
    let assertion = render_coverage(bits.as_str(), storage);
    let assertion = assertion.as_str();
    struct_text::render_claim_code(assertion)
}

/// The accessors of packed fields of the field `container`.
pub open spec fn all_subfield_accessors(
    container: Seq<char>,
    plans: Seq<SubfieldPlanView>,
) -> Seq<char>
    decreases plans.len(),
{
    if plans.len() == 0 {
        Seq::empty()
    } else {
        all_subfield_accessors(container, plans.drop_last()) + subfield_accessors(
            container,
            plans.last(),
        )
    }
}

/// The name of the constant that asserts that the packed fields of a field fill its storage.
pub open spec fn assertion_name(field: Seq<char>) -> Seq<char> {
    syntax::uppercase_of("__ZORUA_ASSERT_BITS_"@ + field)
}

/// The accessors of the packed fields of a field, and the assertion that they fill its storage.
pub open spec fn packed_accessors(
    container: Seq<char>,
    storage: Seq<char>,
    packed: PackedPlanView,
) -> Seq<char> {
    all_subfield_accessors(container, packed.accessors) + struct_text::named_assertion_code(
        assertion_name(container),
        coverage_text(sum_text("0usize"@, packed.coverage), storage),
    )
}

/// Renders the accessors of the packed fields of a field.
pub fn render_packed_accessors(container: &str, storage: &str, packed: &PackedPlan) -> (r: String)
    ensures
        r@ == packed_accessors(container@, storage@, packed@),
{
    let ghost all = struct_plan::subfield_plan_views(packed.accessors@);
    let mut out = String::new();
    let mut i: usize = 0;
    while i < packed.accessors.len()
        invariant
            i <= packed.accessors@.len(),
            all == struct_plan::subfield_plan_views(packed.accessors@),
            out@ == all_subfield_accessors(container@, all.take(i as int)),
        decreases packed.accessors@.len() - i,
    {
        proof {
            assert(all.take(i + 1).drop_last() =~= all.take(i as int));
            assert(all.take(i + 1).last() == packed.accessors@[i as int]@);
        }
        out.append(render_subfield_accessors(container, &packed.accessors[i]).as_str());
        i += 1;
    }
    assert(all.take(i as int) =~= all);
    let name = syntax::uppercase("__ZORUA_ASSERT_BITS_".to_owned().concat(container).as_str());
    let bits = render_sum("0usize".to_owned(), &packed.coverage);
    let assertion = render_coverage(bits.as_str(), storage);
    let (name, assertion) = (name.as_str(), assertion.as_str());
    let r = struct_text::render_named_assertion_code(name, assertion);
    out.concat(r.as_str())
}

/// The stored field of an item.
pub open spec fn stored_field(item: FieldItemPlanView) -> Seq<char> {
    match item {
        FieldItemPlanView::Padding(name, len) => struct_text::padding_field_code(
            name,
            token::text(len),
        ),
        FieldItemPlanView::Value(plan) => struct_text::value_field_code(
            attributes_text(plan.field.attrs),
            if plan.hidden {
                Seq::empty()
            } else {
                token::text(plan.field.vis)
            },
            plan.field.name,
            plan.storage.text(),
        ),
    }
}

/// Renders the stored field of an item.
pub fn render_stored_field(item: &FieldItemPlan) -> (r: String)
    ensures
        r@ == stored_field(item@),
{
    match item {
        FieldItemPlan::Padding(name, len) => {
            let len = token::render(len);
            let (name, len) = (name.as_str(), len.as_str());
            struct_text::render_padding_field_code(name, len)
        },
        FieldItemPlan::Value(plan) => {
            let attrs = render_attributes(&plan.field.attrs);
            let vis = if plan.hidden {
                String::new()
            } else {
                token::render(plan.field.vis)
            };
            let storage = plan.storage.text();
            let (attrs, vis, storage) = (attrs.as_str(), vis.as_str(), storage.as_str());
            let name = plan.field.name.as_str();
            struct_text::render_value_field_code(attrs, vis, name, storage)
        },
    }
}

/// The accessors of an item.
pub open spec fn item_accessors(item: FieldItemPlanView) -> Seq<char> {
    match item {
        FieldItemPlanView::Padding(_, _) => Seq::empty(),
        FieldItemPlanView::Value(plan) => match plan.packed {
            None => field_accessors(plan),
            Some(packed) => field_accessors(plan) + packed_accessors(
                plan.field.name,
                plan.storage.text(),
                packed,
            ),
        },
    }
}

fn render_item_accessors(item: &FieldItemPlan) -> (r: String)
    ensures
        r@ == item_accessors(item@),
{
    match item {
        FieldItemPlan::Padding(_, _) => String::new(),
        FieldItemPlan::Value(plan) => {
            let own = render_field_accessors(plan);
            match &plan.packed {
                None => own,
                Some(packed) => {
                    let storage = plan.storage.text();
                    let name = plan.field.name.as_str();
                    let accessors = render_packed_accessors(name, storage.as_str(), packed);
                    own.concat(accessors.as_str())
                },
            }
        },
    }
}

/// The assertion on the explicit offsets of an item's packed fields, if there is one.
pub open spec fn item_claim(item: FieldItemPlanView) -> Seq<char> {
    match item {
        FieldItemPlanView::Padding(_, _) => Seq::empty(),
        FieldItemPlanView::Value(plan) => match plan.packed {
            None => Seq::empty(),
            Some(packed) => match packed.claim {
                None => Seq::empty(),
                Some(claim) => claim_text(claim, plan.storage.text()),
            },
        },
    }
}

fn render_item_claim(item: &FieldItemPlan) -> (r: String)
    ensures
        r@ == item_claim(item@),
{
    match item {
        FieldItemPlan::Padding(_, _) => String::new(),
        FieldItemPlan::Value(plan) => match &plan.packed {
            None => String::new(),
            Some(packed) => match &packed.claim {
                None => String::new(),
                Some(claim) => {
                    let storage = plan.storage.text();
                    render_claim(claim, storage.as_str())
                },
            },
        },
    }
}

/// The stored fields, the accessors and the assertions of items.
pub open spec fn items_text(items: Seq<FieldItemPlanView>) -> (Seq<char>, Seq<char>, Seq<char>)
    decreases items.len(),
{
    if items.len() == 0 {
        (Seq::empty(), Seq::empty(), Seq::empty())
    } else {
        let (fields, accessors, claims) = items_text(items.drop_last());
        (
            fields + stored_field(items.last()),
            accessors + item_accessors(items.last()),
            claims + item_claim(items.last()),
        )
    }
}

fn render_items(items: &Vec<FieldItemPlan>) -> (r: (String, String, String))
    ensures
        (r.0@, r.1@, r.2@) == items_text(Seq::new(items@.len(), |i: int| items@[i]@)),
{
    let ghost all = Seq::new(items@.len(), |i: int| items@[i]@);
    let mut fields = String::new();
    let mut accessors = String::new();
    let mut claims = String::new();
    let mut i: usize = 0;
    while i < items.len()
        invariant
            i <= items@.len(),
            all == Seq::new(items@.len(), |i: int| items@[i]@),
            (fields@, accessors@, claims@) == items_text(all.take(i as int)),
        decreases items@.len() - i,
    {
        proof {
            assert(all.take(i + 1).drop_last() =~= all.take(i as int));
            assert(all.take(i + 1).last() == items@[i as int]@);
        }
        fields.append(render_stored_field(&items[i]).as_str());
        accessors.append(render_item_accessors(&items[i]).as_str());
        claims.append(render_item_claim(&items[i]).as_str());
        i += 1;
    }
    assert(all.take(i as int) =~= all);
    (fields, accessors, claims)
}

/// Names with a comma behind each.
pub open spec fn listed(names: Seq<Seq<char>>) -> Seq<char>
    decreases names.len(),
{
    if names.len() == 0 {
        Seq::empty()
    } else {
        listed(names.drop_last()) + names.last() + ", "@
    }
}

/// The attribute that derives the traits that a definition does not, if there are any.
pub open spec fn derives_text(names: Seq<Seq<char>>) -> Seq<char> {
    if names.len() == 0 {
        Seq::empty()
    } else {
        struct_text::derives_code(listed(names))
    }
}

fn render_derives(names: &Vec<&'static str>) -> (r: String)
    ensures
        r@ == derives_text(template::str_views(names@)),
{
    if names.len() == 0 {
        return String::new();
    }
    let ghost all = template::str_views(names@);
    let mut out = String::new();
    let mut i: usize = 0;
    while i < names.len()
        invariant
            i <= names@.len(),
            all == template::str_views(names@),
            out@ == listed(all.take(i as int)),
        decreases names@.len() - i,
    {
        proof {
            assert(all.take(i + 1).drop_last() =~= all.take(i as int));
            assert(all.take(i + 1).last() == names@[i as int]@);
        }
        out.append(names[i]);
        out.append(", ");
        i += 1;
    }
    assert(all.take(i as int) =~= all);
    let out = out.as_str();
    struct_text::render_derives_code(out)
}

/// The codec of a struct that has a width, if it has one.
pub open spec fn packed_codec(
    definition: DefinitionView,
    header: Seq<char>,
    arguments: Seq<char>,
) -> Seq<char> {
    match definition.bits {
        None => Seq::empty(),
        Some(bits) => struct_text::packed_codec_code(
            definition.name,
            header,
            arguments,
            token::text(bits),
        ),
    }
}

/// The code of a planned struct whose generic parameters have the given texts in the header of an
/// impl and as arguments.
pub open spec fn struct_text(
    definition: DefinitionView,
    plan: PlanView,
    header: Seq<char>,
    arguments: Seq<char>,
) -> Seq<char> {
    let (fields, accessors, claims) = items_text(plan.fields);
    struct_text::struct_item_code(
        attributes_text(plan.attrs),
        derives_text(plan.derives),
        token::text(definition.vis),
        definition.name,
        token::text(definition.generics),
        fields,
        header,
        arguments,
        accessors,
        claims,
        packed_codec(definition, header, arguments),
    )
}

/// Renders a planned struct.
pub fn render_struct(definition: &Definition, plan: &Plan, header: &str, arguments: &str) -> (r:
    String)
    ensures
        r@ == struct_text(definition@, plan@, header@, arguments@),
{
    let attrs = render_attribute_refs(&plan.attrs);
    let derives = render_derives(&plan.derives);
    let (vis, generics) = (token::render(definition.vis), token::render(definition.generics));
    let (fields, accessors, claims) = render_items(&plan.fields);
    let name = definition.name.as_str();
    let codec = match definition.bits {
        None => String::new(),
        Some(bits) => {
            let bits = token::render(bits);
            let bits = bits.as_str();
            struct_text::render_packed_codec_code(name, header, arguments, bits)
        },
    };
    let (attrs, derives, vis) = (attrs.as_str(), derives.as_str(), vis.as_str());
    let (generics, fields) = (generics.as_str(), fields.as_str());
    let (accessors, claims, codec) = (accessors.as_str(), claims.as_str(), codec.as_str());
    struct_text::render_struct_item_code(
        attrs,
        derives,
        vis,
        name,
        generics,
        fields,
        header,
        arguments,
        accessors,
        claims,
        codec,
    )
}

/// The code that a definition stands for.
pub open spec fn expansion_of(s: Seq<Token>) -> Result<Seq<char>, ErrorView> {
    match definition::definition_of(s) {
        Err(e) => Err(e),
        Ok(definition) => match struct_plan::plan_of(definition) {
            Err(e) => Err(e),
            Ok(plan) => match generics::split_generics(definition.generics) {
                Err(e) => Err(e),
                Ok((header, arguments)) => Ok(struct_text(definition, plan, header, arguments)),
            },
        },
    }
}

/// Generates the struct that a definition describes, with its accessors and layout assertions.
pub fn bitstruct(s: &[Token]) -> (r: Result<String, DefinitionError>)
    ensures
        match r {
            Ok(code) => expansion_of(s@) == Ok::<_, ErrorView>(code@),
            Err(e) => expansion_of(s@) == Err::<Seq<char>, _>(e@),
        },
{
    let definition = match definition::parse_definition(s) {
        Ok(definition) => definition,
        Err(e) => {
            return Err(e);
        },
    };
    let plan = match struct_plan::plan_definition(&definition) {
        Ok(plan) => plan,
        Err(e) => {
            return Err(e);
        },
    };
    match generics::render_generics(definition.generics) {
        Ok((header, arguments)) => Ok(
            render_struct(&definition, &plan, header.as_str(), arguments.as_str()),
        ),
        Err(e) => Err(e),
    }
}

} // verus!

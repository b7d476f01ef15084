//! What the offsets in the code of structs add up to.
//!
//! Offsets and widths are expressions in the generated code. Whatever numbers the compiler takes
//! the widths for, the laws here say which numbers it then takes the offsets for.
use crate::bits;
use crate::codec::SoundCodec;
use crate::macros::definition::{SubfieldItemView, SubfieldView};
use crate::macros::layout;
use crate::macros::layout::WidthView;
use crate::macros::storage;
use crate::macros::storage::{DefaultEndian, StorageView};
use crate::macros::struct_code;
use crate::macros::struct_laws;
use crate::macros::struct_plan;
use crate::macros::token;
use vstd::prelude::*;

verus! {

/// The expression for the width of a packed field: so many times the width or the distance of its
/// elements for an array, and the width of its codec for anything else.
pub open spec fn packed_width(
    subfield: SubfieldView,
    storage: StorageView,
) -> Seq<char> {
    let len = token::text(storage::array_length(subfield.native));
    if !storage::is_array(subfield.native) {
        "<"@ + token::text(subfield.native) + " as BitCodec<"@ + storage.text() + ">>::BITS"@
    } else if subfield.stride is Some {
        "("@ + len + ") * ("@ + token::text(subfield.stride->Some_0) + ")"@
    } else {
        "("@ + len + ") * "@ + ("<"@ + token::text(storage::array_element(subfield.native))
            + " as BitCodec<"@ + struct_laws::stored_element(storage) + ">>::BITS"@)
    }
}

/// The expression for the width of an item: of a packed field, or of unused bits.
pub open spec fn item_expression(
    item: SubfieldItemView,
    default: Option<DefaultEndian>,
) -> Seq<char> {
    match item {
        SubfieldItemView::Padding(bits) => "("@ + token::text(bits) + ")"@,
        SubfieldItemView::Value(subfield) => packed_width(
            subfield,
            layout::packed_storage(subfield, default)->Ok_0,
        ),
    }
}

/// The numbers for the items from `from` up to `to`, added up.
pub open spec fn bits_between(
    value: spec_fn(Seq<char>) -> nat,
    items: Seq<SubfieldItemView>,
    default: Option<DefaultEndian>,
    from: int,
    to: int,
) -> nat
    decreases to - from,
{
    if from >= to {
        0
    } else {
        bits_between(value, items, default, from, to - 1) + value(
            item_expression(items[to - 1], default),
        )
    }
}

/// Whether sums that begin with an expression are taken for the sum of what is in them.
pub open spec fn adds_to(value: spec_fn(Seq<char>) -> nat, first: Seq<char>) -> bool {
    forall|widths: Seq<WidthView>, width: WidthView|
        #![trigger struct_code::sum_text(first, widths), struct_code::width_text(width)]
        value(
            struct_code::sum_text(first, widths) + " + "@ + struct_code::width_text(width),
        ) == value(struct_code::sum_text(first, widths)) + value(struct_code::width_text(width))
}

/// Whether expressions are taken for numbers as the compiler does: `0usize` for zero, and a sum for
/// the sum of its parts.
pub open spec fn reads_sums(value: spec_fn(Seq<char>) -> nat) -> bool {
    &&& value("0usize"@) == 0
    &&& adds_to(value, "0usize"@)
    &&& forall|text: Seq<char>| adds_to(value, #[trigger] ("("@ + text + ")"@))
}

proof fn item_expressions(item: SubfieldItemView, default: Option<DefaultEndian>)
    ensures
        struct_code::width_text(layout::item_width(item, default)) == item_expression(
            item,
            default,
        ),
{
}

proof fn sum_of_items(
    value: spec_fn(Seq<char>) -> nat,
    first: Seq<char>,
    items: Seq<SubfieldItemView>,
    default: Option<DefaultEndian>,
    from: int,
    to: int,
)
    requires
        adds_to(value, first),
        0 <= from <= to <= items.len(),
    ensures
        value(struct_code::sum_text(first, layout::item_widths(items, default, from, to))) == value(
            first,
        ) + bits_between(value, items, default, from, to),
    decreases to - from,
{
    let widths = layout::item_widths(items, default, from, to);
    if from < to {
        assert(widths.drop_last() =~= layout::item_widths(items, default, from, to - 1));
        sum_of_items(value, first, items, default, from, to - 1);
        item_expressions(items[to - 1], default);
        let before = struct_code::sum_text(first, widths.drop_last());
        assert(value(before + " + "@ + struct_code::width_text(widths.last())) == value(before)
            + value(struct_code::width_text(widths.last())));
    }
}

proof fn between_splits(
    value: spec_fn(Seq<char>) -> nat,
    items: Seq<SubfieldItemView>,
    default: Option<DefaultEndian>,
    from: int,
    middle: int,
    to: int,
)
    requires
        from <= middle <= to,
    ensures
        bits_between(value, items, default, from, to) == bits_between(
            value,
            items,
            default,
            from,
            middle,
        ) + bits_between(value, items, default, middle, to),
    decreases to - middle,
{
    if middle < to {
        between_splits(value, items, default, from, middle, to - 1);
    }
}

/// The offset in the accessors of a packed field is the sum of the widths of all items in front of
/// it, and what is asserted to be the width of the storage is the sum of the widths of all items.
pub proof fn offsets_add_up(
    value: spec_fn(Seq<char>) -> nat,
    items: Seq<SubfieldItemView>,
    default: Option<DefaultEndian>,
    generic: bool,
    a: int,
)
    requires
        reads_sums(value),
        0 <= a < struct_plan::packed_plan(items, default, generic).accessors.len(),
    ensures
        ({
            let packed = struct_plan::packed_plan(items, default, generic);
            let accessor = packed.accessors[a];
            let i = accessor.offset.len() as int;
            &&& 0 <= i < items.len()
            &&& items[i] == SubfieldItemView::Value(accessor.subfield)
            &&& value(struct_code::offset_text(accessor)) == bits_between(
                value,
                items,
                default,
                0,
                i,
            )
            &&& value(struct_code::sum_text("0usize"@, packed.coverage)) == bits_between(
                value,
                items,
                default,
                0,
                items.len() as int,
            )
        }),
{
    let accessor = struct_plan::packed_plan(items, default, generic).accessors[a];
    struct_plan::accessor_of_item(items, default, items.len(), a);
    sum_of_items(value, "0usize"@, items, default, 0, accessor.offset.len() as int);
    sum_of_items(value, "0usize"@, items, default, 0, items.len() as int);
}

/// The bits that the accessors of a packed field read and write begin where its offset says, and
/// end at or before the offset in the accessors of every later packed field, and inside the sum
/// that is asserted to be the width of the storage.
pub proof fn offsets_are_apart(
    value: spec_fn(Seq<char>) -> nat,
    items: Seq<SubfieldItemView>,
    default: Option<DefaultEndian>,
    generic: bool,
    a: int,
    b: int,
)
    requires
        reads_sums(value),
        0 <= a < struct_plan::packed_plan(items, default, generic).accessors.len(),
        0 <= b < struct_plan::packed_plan(items, default, generic).accessors.len(),
    ensures
        ({
            let packed = struct_plan::packed_plan(items, default, generic);
            let first = packed.accessors[a];
            let second = packed.accessors[b];
            let end = value(struct_code::offset_text(first)) + value(
                packed_width(first.subfield, first.storage),
            );
            &&& a < b ==> end <= value(struct_code::offset_text(second))
            &&& end <= value(struct_code::sum_text("0usize"@, packed.coverage))
        }),
{
    let packed = struct_plan::packed_plan(items, default, generic);
    let n = items.len() as int;
    offsets_add_up(value, items, default, generic, a);
    offsets_add_up(value, items, default, generic, b);
    struct_plan::accessor_of_item(items, default, items.len(), a);
    let i = packed.accessors[a].offset.len() as int;
    let j = packed.accessors[b].offset.len() as int;
    between_splits(value, items, default, 0, i, i + 1);
    between_splits(value, items, default, 0, i + 1, n);
    if a < b {
        struct_plan::accessor_of_item(items, default, items.len(), b);
        struct_plan::items_in_order(items, default, items.len(), a, b);
        between_splits(value, items, default, 0, i + 1, j);
    }
}

/// What the generated setter of a packed field wrote is what its generated getter reads, and
/// nothing else changes: writing a value at the offset in the setter, and reading at the offset in
/// the getter, which is the same, gives the value back; all bits outside that place stay as they
/// were, those that other packed fields read among them. This holds whatever numbers the widths are
/// taken for, if the assertion on their sum holds of the storage, which `before` and `after` hold.
pub proof fn set_field_is_read_in_place<T: SoundCodec<S>, S>(
    value: spec_fn(Seq<char>) -> nat,
    items: Seq<SubfieldItemView>,
    default: Option<DefaultEndian>,
    generic: bool,
    before: Seq<u8>,
    after: Seq<u8>,
    a: int,
    written: T,
)
    requires
        reads_sums(value),
        0 <= a < struct_plan::packed_plan(items, default, generic).accessors.len(),
        value(
            struct_code::sum_text(
                "0usize"@,
                struct_plan::packed_plan(items, default, generic).coverage,
            ),
        ) <= 8 * before.len(),
        ({
            let accessor = struct_plan::packed_plan(items, default, generic).accessors[a];
            &&& value(packed_width(accessor.subfield, accessor.storage)) == T::BITS
            &&& written.storable()
            &&& bits::overwritten(
                after,
                before,
                value(struct_code::offset_text(accessor)) as int,
                written.encode(),
            )
        }),
    ensures
        ({
            let accessor = struct_plan::packed_plan(items, default, generic).accessors[a];
            let offset = value(struct_code::offset_text(accessor)) as int;
            let stored = bits::bit_seq(after, offset, T::BITS as nat);
            &&& T::decode(stored) == Some(written)
            &&& T::try_decode(stored) == Some(Ok::<T, S>(written))
            &&& T::read_value(stored) matches Some(read) && T::as_result(read) == Ok::<T, S>(
                written,
            )
            &&& after.len() == before.len()
            &&& forall|i: int|
                0 <= i < 8 * before.len() && !(offset <= i < offset + T::BITS)
                    ==> #[trigger] bits::bit_at(after, i) == bits::bit_at(before, i)
        }),
        forall|b: int|
            0 <= b < struct_plan::packed_plan(items, default, generic).accessors.len() && b != a
                ==> {
                let other =
                    #[trigger] struct_plan::packed_plan(items, default, generic).accessors[b];
                let offset = value(struct_code::offset_text(other)) as int;
                let width = value(packed_width(other.subfield, other.storage));
                bits::bit_seq(after, offset, width) == bits::bit_seq(before, offset, width)
            },
{
    let packed = struct_plan::packed_plan(items, default, generic);
    let accessor = packed.accessors[a];
    let offset = value(struct_code::offset_text(accessor)) as int;
    offsets_are_apart(value, items, default, generic, a, a);
    written.encode_len();
    crate::laws::written_codec_value_is_read::<T, S>(written, after, before, offset);
    assert forall|b: int| 0 <= b < packed.accessors.len() && b != a implies {
        let other = #[trigger] packed.accessors[b];
        let start = value(struct_code::offset_text(other)) as int;
        let width = value(packed_width(other.subfield, other.storage));
        bits::bit_seq(after, start, width) == bits::bit_seq(before, start, width)
    } by {
        offsets_are_apart(value, items, default, generic, a, b);
        offsets_are_apart(value, items, default, generic, b, a);
        let other = packed.accessors[b];
        crate::laws::write_keeps_other_bits(
            after,
            before,
            offset,
            written.encode(),
            value(struct_code::offset_text(other)) as int,
            value(packed_width(other.subfield, other.storage)),
        );
    }
}

/// The explicit offset of an item.
pub open spec fn explicit(item: SubfieldItemView) -> Option<Seq<token::Token>> {
    match item {
        SubfieldItemView::Padding(_) => None,
        SubfieldItemView::Value(subfield) => subfield.offset,
    }
}

/// What explicit offsets claim to be the end of the packed fields: the last explicit offset and the
/// widths of the items from there on, or the widths of all items if there is none.
pub proof fn claims_add_up(
    value: spec_fn(Seq<char>) -> nat,
    items: Seq<SubfieldItemView>,
    default: Option<DefaultEndian>,
)
    requires
        reads_sums(value),
    ensures
        ({
            let claim = struct_plan::claim_of(items, default);
            let claimed = value(struct_laws::claimed_sum(claim));
            let n = items.len() as int;
            let i = n - claim.widths.len();
            &&& 0 <= i <= n
            &&& match claim.offset {
                None => {
                    &&& forall|k: int| 0 <= k < n ==> explicit(#[trigger] items[k]) is None
                    &&& claimed == bits_between(value, items, default, 0, n)
                },
                Some(offset) => {
                    &&& i < n && explicit(items[i]) == Some(offset)
                    &&& forall|k: int| i < k < n ==> explicit(#[trigger] items[k]) is None
                    &&& claimed == value("("@ + token::text(offset) + ")"@) + bits_between(
                        value,
                        items,
                        default,
                        i,
                        n,
                    )
                },
            }
        }),
{
    let n = items.len() as int;
    last_explicit_is_last(items);
    let from = layout::last_explicit(items) - 1;
    if from < 0 {
        sum_of_items(value, "0usize"@, items, default, 0, n);
    } else {
        let offset = explicit(items[from])->Some_0;
        let first = "("@ + token::text(offset) + ")"@;
        assert(adds_to(value, first));
        sum_of_items(value, first, items, default, from, n);
    }
}

proof fn last_explicit_is_last(items: Seq<SubfieldItemView>)
    ensures
        ({
            let from = layout::last_explicit(items) - 1;
            &&& -1 <= from < items.len()
            &&& from >= 0 ==> explicit(items[from]) is Some
            &&& forall|k: int| from < k < items.len() ==> explicit(#[trigger] items[k]) is None
        }),
    decreases items.len(),
{
    if items.len() > 0 && layout::explicit_offset(items.last()) is None {
        let front = items.drop_last();
        last_explicit_is_last(front);
        let from = layout::last_explicit(items) - 1;
        assert forall|k: int| from < k < items.len() implies explicit(#[trigger] items[k])
            is None by {
            if k < front.len() {
                assert(front[k] == items[k]);
            }
        }
    }
}

} // verus!

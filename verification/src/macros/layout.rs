//! Where packed fields lie in their storage.
//!
//! Packed fields follow each other from the first bit of their storage on and have to fill it;
//! `pad` stands for bits that are not used.
use crate::macros::definition;
use crate::macros::definition::{Subfield, SubfieldItem, SubfieldItemView, SubfieldView};
use crate::macros::error::{DefinitionError, ErrorKind, ErrorView};
use crate::macros::pieces;
use crate::macros::storage;
use crate::macros::storage::{DefaultEndian, Storage, StorageView};
use crate::macros::syntax;
use crate::macros::token;
use crate::macros::token::Token;
use vstd::prelude::*;

verus! {

/// How many bits a packed field takes up, as the definition gives it.
#[derive(Clone, Copy)]
pub enum Width<'a> {
    /// As many as an expression says.
    Bits(&'a [Token]),
    /// As many as the codec of a native type for a storage type.
    Codec(&'a [Token], Storage<'a>),
    /// As many as so many elements of a native type in a storage type.
    Elements(&'a [Token], &'a [Token], Storage<'a>),
    /// As many as so many steps of a given size.
    Steps(&'a [Token], &'a [Token]),
}

/// The contents of a [`Width`].
pub enum WidthView {
    Bits(Seq<Token>),
    Codec(Seq<Token>, StorageView),
    Elements(Seq<Token>, Seq<Token>, StorageView),
    Steps(Seq<Token>, Seq<Token>),
}

impl<'a> View for Width<'a> {
    type V = WidthView;

    open spec fn view(&self) -> WidthView {
        match self {
            Width::Bits(bits) => WidthView::Bits(bits@),
            Width::Codec(native, storage) => WidthView::Codec(native@, storage@),
            Width::Elements(len, native, storage) => WidthView::Elements(
                len@,
                native@,
                storage@,
            ),
            Width::Steps(len, stride) => WidthView::Steps(len@, stride@),
        }
    }
}

/// The contents of widths.
pub open spec fn width_views(widths: Seq<Width>) -> Seq<WidthView> {
    Seq::new(widths.len(), |i: int| widths[i]@)
}

/// The storage of a packed field.
pub open spec fn packed_storage(
    subfield: SubfieldView,
    default: Option<DefaultEndian>,
) -> Result<StorageView, ErrorView> {
    let written = match subfield.storage {
        Some(ty) => ty,
        None => subfield.native,
    };
    match syntax::type_shape_of(token::text(written)) {
        Err(detail) => Err(ErrorView::Rust(detail)),
        Ok(_) => storage::storage_of(subfield.native, subfield.storage, default),
    }
}

/// Whether the storage type of a packed field is another than its own type.
pub open spec fn is_backed(subfield: SubfieldView, storage: StorageView) -> bool {
    subfield.storage is Some || storage.order is Some
}

/// The storage of the elements of an array that is stored as a whole in `storage`.
pub open spec fn element_storage(storage: StorageView) -> StorageView {
    StorageView { written: storage::array_element(storage.written), order: storage.order }
}

/// Whether accessors can be made for a packed field: its own type is a type, and an array is
/// stored in an array.
pub open spec fn is_accessible(subfield: SubfieldView, storage: StorageView) -> bool {
    &&& syntax::type_shape_of(token::text(subfield.native)) is Ok
    &&& storage::is_array(subfield.native) ==> storage::is_array(storage.written)
}

/// How many bits a packed field in the given storage takes up.
pub open spec fn width_of(subfield: SubfieldView, storage: StorageView) -> WidthView {
    if storage::is_array(subfield.native) {
        let len = storage::array_length(subfield.native);
        match subfield.stride {
            Some(stride) => WidthView::Steps(len, stride),
            None => WidthView::Elements(
                len,
                storage::array_element(subfield.native),
                element_storage(storage),
            ),
        }
    } else {
        WidthView::Codec(subfield.native, storage)
    }
}

/// How many bits an item of a packed storage takes up.
pub open spec fn item_width(item: SubfieldItemView, default: Option<DefaultEndian>) -> WidthView {
    match item {
        SubfieldItemView::Padding(bits) => WidthView::Bits(bits),
        SubfieldItemView::Value(subfield) => width_of(
            subfield,
            packed_storage(subfield, default)->Ok_0,
        ),
    }
}

/// Whether an item of a packed storage has a storage and can have accessors.
pub open spec fn item_valid(item: SubfieldItemView, default: Option<DefaultEndian>) -> bool {
    match item {
        SubfieldItemView::Padding(_) => true,
        SubfieldItemView::Value(subfield) => match packed_storage(subfield, default) {
            Ok(storage) => is_accessible(subfield, storage),
            Err(_) => false,
        },
    }
}

/// The widths of all items from `from` up to `to`.
pub open spec fn item_widths(
    items: Seq<SubfieldItemView>,
    default: Option<DefaultEndian>,
    from: int,
    to: int,
) -> Seq<WidthView> {
    Seq::new((to - from) as nat, |i: int| item_width(items[from + i], default))
}

/// The explicit offset of an item.
pub open spec fn explicit_offset(item: SubfieldItemView) -> Option<Seq<Token>> {
    match item {
        SubfieldItemView::Padding(_) => None,
        SubfieldItemView::Value(subfield) => subfield.offset,
    }
}

/// The number of items up to and with the last one that has an explicit offset.
pub open spec fn last_explicit(items: Seq<SubfieldItemView>) -> int
    decreases items.len(),
{
    if items.len() == 0 {
        0
    } else if explicit_offset(items.last()) is Some {
        items.len() as int
    } else {
        last_explicit(items.drop_last())
    }
}

/// What widths add up to when each stands for a number of bits.
pub open spec fn total(widths: Seq<WidthView>, bits: spec_fn(WidthView) -> nat) -> nat
    decreases widths.len(),
{
    if widths.len() == 0 {
        0
    } else {
        total(widths.drop_last(), bits) + bits(widths.last())
    }
}

/// Where item `i` starts when each width stands for a number of bits.
pub open spec fn start_of(
    items: Seq<SubfieldItemView>,
    default: Option<DefaultEndian>,
    bits: spec_fn(WidthView) -> nat,
    i: int,
) -> nat {
    total(item_widths(items, default, 0, i), bits)
}

proof fn start_step(
    items: Seq<SubfieldItemView>,
    default: Option<DefaultEndian>,
    bits: spec_fn(WidthView) -> nat,
    i: int,
)
    requires
        0 <= i < items.len(),
    ensures
        start_of(items, default, bits, i + 1) == start_of(items, default, bits, i) + bits(
            item_width(items[i], default),
        ),
{
    assert(item_widths(items, default, 0, i + 1).drop_last() =~= item_widths(
        items,
        default,
        0,
        i,
    ));
}

proof fn start_monotonic(
    items: Seq<SubfieldItemView>,
    default: Option<DefaultEndian>,
    bits: spec_fn(WidthView) -> nat,
    i: int,
    j: int,
)
    requires
        0 <= i <= j <= items.len(),
    ensures
        start_of(items, default, bits, i) <= start_of(items, default, bits, j),
    decreases j - i,
{
    if i < j {
        start_step(items, default, bits, j - 1);
        start_monotonic(items, default, bits, i, j - 1);
    }
}

/// Finds the storage of a packed field.
pub fn resolve_packed<'a>(subfield: &Subfield<'a>, default: Option<DefaultEndian>) -> (r: Result<
    Storage<'a>,
    DefinitionError,
>)
    ensures
        match r {
            Ok(found) => packed_storage(subfield@, default) == Ok::<_, ErrorView>(found@),
            Err(e) => packed_storage(subfield@, default) == Err::<StorageView, _>(e@),
        },
{
    let written = match subfield.storage {
        Some(ty) => ty,
        None => subfield.native,
    };
    let text = token::render(written);
    match syntax::type_shape(text.as_str()) {
        Ok(_) => storage::resolve_storage(subfield.native, subfield.storage, default),
        Err(detail) => Err(pieces::rust_error(detail)),
    }
}

/// Whether accessors can be made for a packed field.
pub fn has_accessors<'a>(subfield: &Subfield<'a>, storage: &Storage<'a>) -> (r: bool)
    ensures
        r == is_accessible(subfield@, storage@),
{
    let text = token::render(subfield.native);
    match syntax::type_shape(text.as_str()) {
        Ok(_) => storage::deconstruct_array(subfield.native).is_none()
            || storage::deconstruct_array(storage.written).is_some(),
        Err(_) => false,
    }
}

fn packed_width<'a>(subfield: &Subfield<'a>, storage: Storage<'a>) -> (r: Width<'a>)
    requires
        is_accessible(subfield@, storage@),
    ensures
        r@ == width_of(subfield@, storage@),
{
    match storage::deconstruct_array(subfield.native) {
        Some((element, len)) => match subfield.stride {
            Some(stride) => Width::Steps(len, stride),
            None => {
                let (written, _) = storage::deconstruct_array(storage.written).unwrap();
                Width::Elements(len, element, Storage { written, order: storage.order })
            },
        },
        None => Width::Codec(subfield.native, storage),
    }
}

/// How many bits an item of a packed storage takes up.
pub fn field_bits_expr<'a>(item: &SubfieldItem<'a>, default: Option<DefaultEndian>) -> (r: Width<
    'a,
>)
    requires
        item_valid(item@, default),
    ensures
        r@ == item_width(item@, default),
{
    match item {
        SubfieldItem::Padding(bits) => Width::Bits(bits),
        SubfieldItem::Value(subfield) => {
            let storage = resolve_packed(subfield, default).unwrap();
            packed_width(subfield, storage)
        },
    }
}

/// The widths of all items from `from` up to `to`.
pub fn widths_between<'a>(
    items: &Vec<SubfieldItem<'a>>,
    default: Option<DefaultEndian>,
    from: usize,
    to: usize,
) -> (r: Vec<Width<'a>>)
    requires
        from <= to <= items@.len(),
        forall|i: int| from <= i < to ==> item_valid(#[trigger] items@[i]@, default),
    ensures
        width_views(r@) == item_widths(
            definition::subfield_views(items@),
            default,
            from as int,
            to as int,
        ),
{
    let mut widths: Vec<Width<'a>> = Vec::new();
    let mut i: usize = from;
    while i < to
        invariant
            from <= i <= to <= items@.len(),
            forall|i: int| from <= i < to ==> item_valid(#[trigger] items@[i]@, default),
            widths@.len() == i - from,
            forall|k: int| 0 <= k < i - from ==> (#[trigger] widths@[k])@ == item_width(
                items@[from + k]@,
                default,
            ),
        decreases to - i,
    {
        widths.push(field_bits_expr(&items[i], default));
        i += 1;
    }
    assert(width_views(widths@) =~= item_widths(
        definition::subfield_views(items@),
        default,
        from as int,
        to as int,
    ));
    widths
}

pub(crate) proof fn item_ends_inside(
    items: Seq<SubfieldItemView>,
    default: Option<DefaultEndian>,
    bits: spec_fn(WidthView) -> nat,
    i: int,
)
    requires
        0 <= i < items.len(),
    ensures
        start_of(items, default, bits, i) + bits(item_width(items[i], default)) <= total(
            item_widths(items, default, 0, items.len() as int),
            bits,
        ),
{
    start_step(items, default, bits, i);
    start_monotonic(items, default, bits, i + 1, items.len() as int);
}

/// Packed fields follow each other without gaps: each starts where the one before it ends, no two
/// of them share a bit, and together they end where the storage ends.
pub proof fn packed_fields_partition_storage(
    items: Seq<SubfieldItemView>,
    default: Option<DefaultEndian>,
    bits: spec_fn(WidthView) -> nat,
    storage_bits: nat,
    i: int,
    j: int,
)
    requires
        0 <= i < j < items.len(),
        total(item_widths(items, default, 0, items.len() as int), bits) == storage_bits,
    ensures
        start_of(items, default, bits, 0) == 0,
        start_of(items, default, bits, i + 1) == start_of(items, default, bits, i) + bits(
            item_width(items[i], default),
        ),
        start_of(items, default, bits, i) + bits(item_width(items[i], default)) <= start_of(
            items,
            default,
            bits,
            j,
        ),
        start_of(items, default, bits, j) + bits(item_width(items[j], default)) <= storage_bits,
        start_of(items, default, bits, items.len() as int) == storage_bits,
{
    start_step(items, default, bits, i);
    start_step(items, default, bits, j);
    start_monotonic(items, default, bits, i + 1, j);
    start_monotonic(items, default, bits, j + 1, items.len() as int);
}

proof fn total_of_both(a: Seq<WidthView>, b: Seq<WidthView>, bits: spec_fn(WidthView) -> nat)
    ensures
        total(a + b, bits) == total(a, bits) + total(b, bits),
    decreases b.len(),
{
    if b.len() == 0 {
        assert(a + b =~= a);
    } else {
        assert((a + b).drop_last() =~= a + b.drop_last());
        total_of_both(a, b.drop_last(), bits);
    }
}

proof fn last_explicit_bounds(items: Seq<SubfieldItemView>)
    ensures
        0 <= last_explicit(items) <= items.len(),
        last_explicit(items) > 0 ==> explicit_offset(items[last_explicit(items) - 1]) is Some,
    decreases items.len(),
{
    if items.len() > 0 && explicit_offset(items.last()) is None {
        last_explicit_bounds(items.drop_last());
    }
}

/// Where the last item ends when the explicit offsets are believed: counted from the last of them.
pub open spec fn claimed_end(
    items: Seq<SubfieldItemView>,
    default: Option<DefaultEndian>,
    bits: spec_fn(WidthView) -> nat,
    value: spec_fn(Seq<Token>) -> nat,
) -> nat {
    let from = last_explicit(items) - 1;
    if from < 0 {
        start_of(items, default, bits, items.len() as int)
    } else {
        value(explicit_offset(items[from])->Some_0) + total(
            item_widths(items, default, from, items.len() as int),
            bits,
        )
    }
}

/// If each explicit offset is where its field starts anyway, counting from the last of them finds
/// the same end as counting from the first field.
pub proof fn explicit_offsets_move_nothing(
    items: Seq<SubfieldItemView>,
    default: Option<DefaultEndian>,
    bits: spec_fn(WidthView) -> nat,
    value: spec_fn(Seq<Token>) -> nat,
)
    requires
        forall|i: int|
            0 <= i < items.len() ==> (explicit_offset(#[trigger] items[i]) matches Some(offset)
                ==> value(offset) == start_of(items, default, bits, i)),
    ensures
        claimed_end(items, default, bits, value) == start_of(
            items,
            default,
            bits,
            items.len() as int,
        ),
{
    last_explicit_bounds(items);
    let from = last_explicit(items) - 1;
    if from >= 0 {
        let all = item_widths(items, default, 0, items.len() as int);
        let before = item_widths(items, default, 0, from);
        let after = item_widths(items, default, from, items.len() as int);
        assert(before + after =~= all);
        total_of_both(before, after, bits);
        assert(explicit_offset(items[from]) is Some);
    }
}

} // verus!

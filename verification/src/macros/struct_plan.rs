//! What is generated for a definition.
use crate::bits;
use crate::codec::{BitCodec, SoundCodec};
use crate::laws;
use crate::macros::definition;
use crate::macros::definition::{
    Definition, DefinitionView, Field, FieldItem, FieldItemView, FieldView, Subfield, SubfieldItem,
    SubfieldItemView, SubfieldView,
};
use crate::macros::error::{DefinitionError, ErrorKind, ErrorView};
use crate::macros::layout;
use crate::macros::layout::{Width, WidthView};
use crate::macros::names;
use crate::macros::pieces;
use crate::macros::pieces::{Attr, AttrView};
use crate::macros::storage;
use crate::macros::storage::{DefaultEndian, Storage, StorageView};
use crate::macros::syntax;
use crate::macros::template;
use crate::macros::token;
use crate::macros::token::Token;
use vstd::prelude::*;

verus! {

/// Whether attributes derive a trait of the given name.
pub open spec fn derives(attrs: Seq<AttrView>, name: Seq<char>) -> bool {
    exists|i: int| 0 <= i < attrs.len() && derives_here(#[trigger] attrs[i], name)
}

/// Whether an attribute derives a trait of the given name: one of the paths in it ends with the
/// name.
pub open spec fn derives_here(attr: AttrView, name: Seq<char>) -> bool {
    &&& attr.name == Some("derive"@)
    &&& syntax::path_arguments_of(token::text(attr.tokens)) matches Some(paths)
    &&& some_path_ends_with(paths, name)
}

/// Whether one of the paths ends with a name.
pub open spec fn some_path_ends_with(paths: Seq<Seq<Seq<char>>>, name: Seq<char>) -> bool {
    exists|i: int| 0 <= i < paths.len() && ends_with(#[trigger] paths[i], name)
}

/// Whether a name is the last segment of a path.
pub open spec fn ends_with(path: Seq<Seq<char>>, name: Seq<char>) -> bool {
    path.len() > 0 && path.last() == name
}

/// Whether one of the paths ends with a name.
pub fn lists_name(paths: &Vec<Vec<String>>, name: &str) -> (r: bool)
    ensures
        r == some_path_ends_with(syntax::string_lists(paths@), name@),
{
    let ghost all = syntax::string_lists(paths@);
    let mut i: usize = 0;
    while i < paths.len()
        invariant
            i <= paths@.len(),
            all == syntax::string_lists(paths@),
            forall|k: int| 0 <= k < i ==> !ends_with(#[trigger] all[k], name@),
        decreases paths@.len() - i,
    {
        let count = paths[i].len();
        assert(all[i as int] == syntax::strings(paths@[i as int]@));
        if count > 0 && paths[i][count - 1] == name.to_owned() {
            assert(ends_with(all[i as int], name@));
            return true;
        }
        i += 1;
    }
    false
}

/// Whether attributes derive a trait of the given name.
pub fn has_derive(attrs: &Vec<&Attr>, name: &str) -> (r: bool)
    ensures
        r == derives(storage::attr_ref_views(attrs@), name@),
{
    let ghost all = storage::attr_ref_views(attrs@);
    let mut i: usize = 0;
    while i < attrs.len()
        invariant
            i <= attrs@.len(),
            all == storage::attr_ref_views(attrs@),
            forall|k: int| 0 <= k < i ==> !derives_here(#[trigger] all[k], name@),
        decreases attrs@.len() - i,
    {
        let attr = attrs[i];
        assert(all[i as int] == attr@);
        if pieces::named(attr, "derive") {
            let text = token::render(attr.tokens);
            if let Some(paths) = syntax::path_arguments(text.as_str()) {
                if lists_name(&paths, name) {
                    assert(derives_here(all[i as int], name@));
                    return true;
                }
            }
        }
        i += 1;
    }
    false
}

/// The names of a pair of accessors for the stored value.
pub struct RawNames {
    pub getter: String,
    pub setter: String,
}

/// The contents of [`RawNames`].
#[verifier::ext_equal]
pub struct RawNamesView {
    pub getter: Seq<char>,
    pub setter: Seq<char>,
}

impl View for RawNames {
    type V = RawNamesView;

    open spec fn view(&self) -> RawNamesView {
        RawNamesView { getter: self.getter@, setter: self.setter@ }
    }
}

/// The names of the accessors for the stored value of a field.
pub open spec fn raw_names(name: Seq<char>) -> RawNamesView {
    RawNamesView { getter: name + "_raw"@, setter: names::prefixed("set_"@, name, "_raw"@) }
}

fn name_raw(name: &String) -> (r: RawNames)
    ensures
        r@ == raw_names(name@),
{
    RawNames {
        getter: name.as_str().to_owned().concat("_raw"),
        setter: names::prefixed_name("set_", name.as_str(), "_raw"),
    }
}

/// How a packed field is accessed.
pub enum Access<'a> {
    /// As a value.
    Scalar,
    /// As a value that is absent while its bits are clear.
    Zeroed,
    /// Through array views.
    Array(Elements<'a>),
    /// Through array views whose elements are absent while their bits are clear.
    ZeroedArray(Elements<'a>),
}

/// The elements of an array field: their type, their storage and their number.
pub struct Elements<'a> {
    pub native: &'a [Token],
    pub storage: Storage<'a>,
    pub len: &'a [Token],
    /// Their distance in bits, where it is not their width.
    pub stride: Option<&'a [Token]>,
}

/// The contents of [`Elements`].
#[verifier::ext_equal]
pub struct ElementsView {
    pub native: Seq<Token>,
    pub storage: StorageView,
    pub len: Seq<Token>,
    pub stride: Option<Seq<Token>>,
}

/// The contents of an [`Access`].
#[verifier::ext_equal]
pub enum AccessView {
    Scalar,
    Zeroed,
    Array(ElementsView),
    ZeroedArray(ElementsView),
}

impl<'a> View for Elements<'a> {
    type V = ElementsView;

    open spec fn view(&self) -> ElementsView {
        ElementsView {
            native: self.native@,
            storage: self.storage@,
            len: self.len@,
            stride: pieces::optional(self.stride),
        }
    }
}

impl<'a> View for Access<'a> {
    type V = AccessView;

    open spec fn view(&self) -> AccessView {
        match self {
            Access::Scalar => AccessView::Scalar,
            Access::Zeroed => AccessView::Zeroed,
            Access::Array(elements) => AccessView::Array(elements@),
            Access::ZeroedArray(elements) => AccessView::ZeroedArray(elements@),
        }
    }
}

/// The elements of an array that is stored in an array.
pub open spec fn elements_of(
    native: Seq<Token>,
    storage: StorageView,
    stride: Option<Seq<Token>>,
) -> ElementsView {
    ElementsView {
        native: storage::array_element(native),
        storage: layout::element_storage(storage),
        len: storage::array_length(native),
        stride,
    }
}

/// How a packed field in the given storage is accessed. Elements that may be absent always follow
/// each other without gaps.
pub open spec fn access_of(subfield: SubfieldView, storage: StorageView) -> AccessView {
    if storage::is_array(subfield.native) {
        if subfield.zeroed {
            AccessView::ZeroedArray(elements_of(subfield.native, storage, None))
        } else {
            AccessView::Array(elements_of(subfield.native, storage, subfield.stride))
        }
    } else if subfield.zeroed {
        AccessView::Zeroed
    } else {
        AccessView::Scalar
    }
}

/// Finds out how a packed field in the given storage is accessed.
pub fn choose_access<'a>(subfield: &Subfield<'a>, storage: Storage<'a>) -> (r: Access<'a>)
    requires
        layout::is_accessible(subfield@, storage@),
    ensures
        r@ == access_of(subfield@, storage@),
{
    match storage::deconstruct_array(subfield.native) {
        Some((native, len)) => {
            let (written, _) = storage::deconstruct_array(storage.written).unwrap();
            let storage = Storage { written, order: storage.order };
            if subfield.zeroed {
                Access::ZeroedArray(Elements { native, storage, len, stride: None })
            } else {
                Access::Array(Elements { native, storage, len, stride: subfield.stride })
            }
        },
        None => if subfield.zeroed {
            Access::Zeroed
        } else {
            Access::Scalar
        },
    }
}

/// The accessors of a packed field.
pub struct SubfieldPlan<'d, 'a> {
    pub subfield: &'d Subfield<'a>,
    pub storage: Storage<'a>,
    /// Whether the storage type is not the field's own by default.
    pub backed: bool,
    /// Whether the type of the field, or of its elements, and that of the storage are the same.
    pub identity: bool,
    pub access: Access<'a>,
    /// The widths of everything in front of the field.
    pub offset: Vec<Width<'a>>,
    /// The name of the setter, or of the accessor for the mutable view.
    pub writer: String,
    pub raw: Option<RawNames>,
}

/// The contents of a [`SubfieldPlan`].
#[verifier::ext_equal]
pub struct SubfieldPlanView {
    pub subfield: SubfieldView,
    pub storage: StorageView,
    pub backed: bool,
    pub identity: bool,
    pub access: AccessView,
    pub offset: Seq<WidthView>,
    pub writer: Seq<char>,
    pub raw: Option<RawNamesView>,
}

/// The contents of optional names.
pub open spec fn optional_names(raw: Option<RawNames>) -> Option<RawNamesView> {
    match raw {
        Some(names) => Some(names@),
        None => None,
    }
}

impl<'d, 'a> View for SubfieldPlan<'d, 'a> {
    type V = SubfieldPlanView;

    open spec fn view(&self) -> SubfieldPlanView {
        SubfieldPlanView {
            subfield: self.subfield@,
            storage: self.storage@,
            backed: self.backed,
            identity: self.identity,
            access: self.access@,
            offset: layout::width_views(self.offset@),
            writer: self.writer@,
            raw: optional_names(self.raw),
        }
    }
}

/// The accessors of a packed field with the given storage, behind fields of the given widths.
///
/// The stored value itself is accessible where the field has a storage type, where it may be
/// absent, and where it is an array without an explicit distance of its elements.
pub open spec fn subfield_plan(
    subfield: SubfieldView,
    storage: StorageView,
    offset: Seq<WidthView>,
) -> SubfieldPlanView {
    let access = access_of(subfield, storage);
    let backed = layout::is_backed(subfield, storage);
    SubfieldPlanView {
        subfield,
        storage,
        backed,
        identity: match access {
            AccessView::Scalar | AccessView::Zeroed => token::text(subfield.native)
                == storage.text(),
            AccessView::Array(elements) | AccessView::ZeroedArray(elements) => token::text(
                elements.native,
            ) == elements.storage.text(),
        },
        access,
        offset,
        writer: match access {
            AccessView::Scalar | AccessView::Zeroed => names::prefixed(
                "set_"@,
                subfield.name,
                ""@,
            ),
            AccessView::Array(_) | AccessView::ZeroedArray(_) => names::prefixed(
                ""@,
                subfield.name,
                "_mut"@,
            ),
        },
        raw: if match access {
            AccessView::Scalar => backed,
            AccessView::Zeroed => true,
            AccessView::Array(_) => subfield.stride is None,
            AccessView::ZeroedArray(_) => false,
        } {
            Some(raw_names(subfield.name))
        } else {
            None
        },
    }
}

fn same_text(native: &[Token], storage: &Storage) -> (r: bool)
    ensures
        r == (token::text(native@) == storage@.text()),
{
    token::render(native) == storage.text()
}

/// Plans the accessors of a packed field.
pub fn plan_subfield<'d, 'a>(
    subfield: &'d Subfield<'a>,
    storage: Storage<'a>,
    offset: Vec<Width<'a>>,
) -> (r: SubfieldPlan<'d, 'a>)
    requires
        layout::is_accessible(subfield@, storage@),
    ensures
        r@ == subfield_plan(subfield@, storage@, layout::width_views(offset@)),
{
    let access = choose_access(subfield, storage);
    let backed = subfield.storage.is_some() || storage.order.is_some();
    let (identity, array, raw) = match &access {
        Access::Scalar => (same_text(subfield.native, &storage), false, backed),
        Access::Zeroed => (same_text(subfield.native, &storage), false, true),
        Access::Array(elements) => (
            same_text(elements.native, &elements.storage),
            true,
            subfield.stride.is_none(),
        ),
        Access::ZeroedArray(elements) => (
            same_text(elements.native, &elements.storage),
            true,
            false,
        ),
    };
    let writer = if array {
        names::prefixed_name("", subfield.name.as_str(), "_mut")
    } else {
        names::prefixed_name("set_", subfield.name.as_str(), "")
    };
    let raw = if raw {
        Some(name_raw(subfield.name))
    } else {
        None
    };
    SubfieldPlan { subfield, storage, backed, identity, access, offset, writer, raw }
}

/// The accessors of the packed fields of a field, and the assertions that they fill its storage.
pub struct PackedPlan<'d, 'a> {
    pub accessors: Vec<SubfieldPlan<'d, 'a>>,
    /// The widths that must add up to the width of the storage.
    pub coverage: Vec<Width<'a>>,
    /// What must be the width of the storage when explicit offsets are believed; only stated where
    /// there are no generic parameters.
    pub claim: Option<Claim<'a>>,
}

/// A number of bits: an explicit offset, if there is one, and the widths behind it.
pub struct Claim<'a> {
    pub offset: Option<&'a [Token]>,
    pub widths: Vec<Width<'a>>,
}

/// The contents of a [`Claim`].
#[verifier::ext_equal]
pub struct ClaimView {
    pub offset: Option<Seq<Token>>,
    pub widths: Seq<WidthView>,
}

/// The contents of a [`PackedPlan`].
#[verifier::ext_equal]
pub struct PackedPlanView {
    pub accessors: Seq<SubfieldPlanView>,
    pub coverage: Seq<WidthView>,
    pub claim: Option<ClaimView>,
}

impl<'a> View for Claim<'a> {
    type V = ClaimView;

    open spec fn view(&self) -> ClaimView {
        ClaimView {
            offset: pieces::optional(self.offset),
            widths: layout::width_views(self.widths@),
        }
    }
}

/// The contents of accessors.
pub open spec fn subfield_plan_views(plans: Seq<SubfieldPlan>) -> Seq<SubfieldPlanView> {
    Seq::new(plans.len(), |i: int| plans[i]@)
}

impl<'d, 'a> View for PackedPlan<'d, 'a> {
    type V = PackedPlanView;

    open spec fn view(&self) -> PackedPlanView {
        PackedPlanView {
            accessors: subfield_plan_views(self.accessors@),
            coverage: layout::width_views(self.coverage@),
            claim: match self.claim {
                Some(claim) => Some(claim@),
                None => None,
            },
        }
    }
}

/// The accessors of the first `n` items of a packed storage; unused bits have none.
pub open spec fn accessors_of(
    items: Seq<SubfieldItemView>,
    default: Option<DefaultEndian>,
    n: nat,
) -> Seq<SubfieldPlanView>
    decreases n,
{
    if n == 0 {
        Seq::empty()
    } else {
        let before = accessors_of(items, default, (n - 1) as nat);
        match items[n - 1] {
            SubfieldItemView::Padding(_) => before,
            SubfieldItemView::Value(subfield) => before.push(
                subfield_plan(
                    subfield,
                    layout::packed_storage(subfield, default)->Ok_0,
                    layout::item_widths(items, default, 0, n - 1),
                ),
            ),
        }
    }
}

/// The end of the packed fields when explicit offsets are believed.
pub open spec fn claim_of(
    items: Seq<SubfieldItemView>,
    default: Option<DefaultEndian>,
) -> ClaimView {
    let from = layout::last_explicit(items) - 1;
    if from < 0 {
        ClaimView {
            offset: None,
            widths: layout::item_widths(items, default, 0, items.len() as int),
        }
    } else {
        ClaimView {
            offset: layout::explicit_offset(items[from]),
            widths: layout::item_widths(items, default, from, items.len() as int),
        }
    }
}

/// What is generated for the packed fields of a field.
pub open spec fn packed_plan(
    items: Seq<SubfieldItemView>,
    default: Option<DefaultEndian>,
    generic: bool,
) -> PackedPlanView {
    PackedPlanView {
        accessors: accessors_of(items, default, items.len()),
        coverage: layout::item_widths(items, default, 0, items.len() as int),
        claim: if generic {
            None
        } else {
            Some(claim_of(items, default))
        },
    }
}

fn claim_end<'a>(items: &Vec<SubfieldItem<'a>>, default: Option<DefaultEndian>) -> (r: Claim<'a>)
    requires
        forall|i: int| 0 <= i < items@.len() ==> layout::item_valid(#[trigger] items@[i]@, default),
    ensures
        r@ == claim_of(definition::subfield_views(items@), default),
{
    let ghost all = definition::subfield_views(items@);
    let mut n: usize = items.len();
    assert(all.take(n as int) =~= all);
    while n > 0
        invariant
            n <= items@.len(),
            all == definition::subfield_views(items@),
            forall|i: int|
                0 <= i < items@.len() ==> layout::item_valid(#[trigger] items@[i]@, default),
            layout::last_explicit(all) == layout::last_explicit(all.take(n as int)),
        decreases n,
    {
        proof {
            assert(all.take(n as int).drop_last() =~= all.take(n - 1));
            assert(all.take(n as int).last() == items@[n - 1]@);
        }
        if let SubfieldItem::Value(subfield) = &items[n - 1] {
            if subfield.offset.is_some() {
                return Claim {
                    offset: subfield.offset,
                    widths: layout::widths_between(items, default, n - 1, items.len()),
                };
            }
        }
        n -= 1;
    }
    Claim { offset: None, widths: layout::widths_between(items, default, 0, items.len()) }
}

/// Plans the accessors of packed fields.
pub fn plan_packed<'d, 'a>(
    items: &'d Vec<SubfieldItem<'a>>,
    default: Option<DefaultEndian>,
    generic: bool,
) -> (r: PackedPlan<'d, 'a>)
    requires
        forall|i: int| 0 <= i < items@.len() ==> layout::item_valid(#[trigger] items@[i]@, default),
    ensures
        r@ == packed_plan(definition::subfield_views(items@), default, generic),
{
    let ghost all = definition::subfield_views(items@);
    let mut accessors: Vec<SubfieldPlan<'d, 'a>> = Vec::new();
    let mut i: usize = 0;
    assert(subfield_plan_views(accessors@) =~= Seq::empty());
    while i < items.len()
        invariant
            i <= items@.len(),
            all == definition::subfield_views(items@),
            forall|i: int|
                0 <= i < items@.len() ==> layout::item_valid(#[trigger] items@[i]@, default),
            subfield_plan_views(accessors@) == accessors_of(all, default, i as nat),
        decreases items@.len() - i,
    {
        assert(all[i as int] == items@[i as int]@);
        if let SubfieldItem::Value(subfield) = &items[i] {
            let ghost before = subfield_plan_views(accessors@);
            let storage = layout::resolve_packed(subfield, default).unwrap();
            let offset = layout::widths_between(items, default, 0, i);
            let plan = plan_subfield(subfield, storage, offset);
            let ghost planned = plan@;
            accessors.push(plan);
            assert(subfield_plan_views(accessors@) =~= before.push(planned));
        }
        i += 1;
    }
    PackedPlan {
        accessors,
        coverage: layout::widths_between(items, default, 0, items.len()),
        claim: if generic {
            None
        } else {
            Some(claim_end(items, default))
        },
    }
}

/// The accessors of a field that is not packed.
pub struct FieldAccess<'a> {
    /// The name of the setter, or of the accessor for the mutable view.
    pub writer: String,
    /// The elements, where the field is accessed through array views.
    pub elements: Option<Elements<'a>>,
    pub raw: Option<RawNames>,
}

/// The contents of a [`FieldAccess`].
#[verifier::ext_equal]
pub struct FieldAccessView {
    pub writer: Seq<char>,
    pub elements: Option<ElementsView>,
    pub raw: Option<RawNamesView>,
}

impl<'a> View for FieldAccess<'a> {
    type V = FieldAccessView;

    open spec fn view(&self) -> FieldAccessView {
        FieldAccessView {
            writer: self.writer@,
            elements: match self.elements {
                Some(elements) => Some(elements@),
                None => None,
            },
            raw: optional_names(self.raw),
        }
    }
}

/// The accessors of a field in the given storage: through array views if both its type and the
/// storage type are arrays, and to the stored value unless the field is an array.
pub open spec fn field_access(field: FieldView, storage: StorageView) -> FieldAccessView {
    FieldAccessView {
        writer: names::prefixed("set_"@, field.name, ""@),
        elements: if storage::is_array(field.native) && storage::is_array(storage.written) {
            Some(elements_of(field.native, storage, None))
        } else {
            None
        },
        raw: if storage::is_array(field.native) {
            None
        } else {
            Some(raw_names(field.name))
        },
    }
}

fn plan_access<'a>(field: &Field<'a>, storage: Storage<'a>) -> (r: FieldAccess<'a>)
    ensures
        r@ == field_access(field@, storage@),
{
    let writer = names::prefixed_name("set_", field.name.as_str(), "");
    match storage::deconstruct_array(field.native) {
        Some((native, len)) => FieldAccess {
            writer,
            elements: match storage::deconstruct_array(storage.written) {
                Some((written, _)) => Some(
                    Elements {
                        native,
                        storage: Storage { written, order: storage.order },
                        len,
                        stride: None,
                    },
                ),
                None => None,
            },
            raw: None,
        },
        None => FieldAccess { writer, elements: None, raw: Some(name_raw(field.name)) },
    }
}

/// What is generated for a field.
pub struct FieldPlan<'d, 'a> {
    pub field: &'d Field<'a>,
    pub storage: Storage<'a>,
    /// Whether the stored field is private whatever visibility the definition gives it.
    pub hidden: bool,
    pub access: Option<FieldAccess<'a>>,
    pub packed: Option<PackedPlan<'d, 'a>>,
}

/// What is generated for a field or for unused bytes.
pub enum FieldItemPlan<'d, 'a> {
    /// Unused bytes: the name of the field that holds them, and their number.
    Padding(String, &'a [Token]),
    Value(FieldPlan<'d, 'a>),
}

/// The contents of a [`FieldPlan`].
#[verifier::ext_equal]
pub struct FieldPlanView {
    pub field: FieldView,
    pub storage: StorageView,
    pub hidden: bool,
    pub access: Option<FieldAccessView>,
    pub packed: Option<PackedPlanView>,
}

/// The contents of a [`FieldItemPlan`].
#[verifier::ext_equal]
pub enum FieldItemPlanView {
    Padding(Seq<char>, Seq<Token>),
    Value(FieldPlanView),
}

impl<'d, 'a> View for FieldPlan<'d, 'a> {
    type V = FieldPlanView;

    open spec fn view(&self) -> FieldPlanView {
        FieldPlanView {
            field: self.field@,
            storage: self.storage@,
            hidden: self.hidden,
            access: match self.access {
                Some(access) => Some(access@),
                None => None,
            },
            packed: match self.packed {
                Some(packed) => Some(packed@),
                None => None,
            },
        }
    }
}

impl<'d, 'a> View for FieldItemPlan<'d, 'a> {
    type V = FieldItemPlanView;

    open spec fn view(&self) -> FieldItemPlanView {
        match self {
            FieldItemPlan::Padding(name, len) => FieldItemPlanView::Padding(name@, len@),
            FieldItemPlan::Value(plan) => FieldItemPlanView::Value(plan@),
        }
    }
}

/// The storage of a field.
pub open spec fn field_storage(
    field: FieldView,
    default: Option<DefaultEndian>,
) -> Result<StorageView, ErrorView> {
    storage::storage_of(field.native, field.storage, default)
}

/// What is generated for a field in the given storage. A field has accessors of its own if it has a
/// storage type, or else if a byte order was chosen for it and it is not packed.
pub open spec fn field_plan(
    field: FieldView,
    storage: StorageView,
    default: Option<DefaultEndian>,
    generic: bool,
) -> FieldPlanView {
    let backed = field.storage is Some || (storage.order is Some && field.subfields is None);
    FieldPlanView {
        field,
        storage,
        hidden: backed || field.subfields is Some,
        access: if backed {
            Some(field_access(field, storage))
        } else {
            None
        },
        packed: match field.subfields {
            Some(items) => Some(packed_plan(items, default, generic)),
            None => None,
        },
    }
}

/// What is generated for the item at `index`.
pub open spec fn item_plan(
    item: FieldItemView,
    index: nat,
    default: Option<DefaultEndian>,
    generic: bool,
) -> FieldItemPlanView {
    match item {
        FieldItemView::Padding(len) => FieldItemPlanView::Padding(
            "__zorua_pad_"@ + names::decimal(index),
            len,
        ),
        FieldItemView::Value(field) => FieldItemPlanView::Value(
            field_plan(field, field_storage(field, default)->Ok_0, default, generic),
        ),
    }
}

/// Whether a field and its packed fields have a storage and can have accessors.
pub open spec fn field_valid(item: FieldItemView, default: Option<DefaultEndian>) -> bool {
    match item {
        FieldItemView::Padding(_) => true,
        FieldItemView::Value(field) => {
            &&& field_storage(field, default) is Ok
            &&& field.subfields matches Some(items) ==> forall|i: int|
                0 <= i < items.len() ==> layout::item_valid(#[trigger] items[i], default)
        },
    }
}

fn plan_item<'d, 'a>(
    item: &'d FieldItem<'a>,
    index: usize,
    default: Option<DefaultEndian>,
    generic: bool,
) -> (r: FieldItemPlan<'d, 'a>)
    requires
        field_valid(item@, default),
    ensures
        r@ == item_plan(item@, index as nat, default, generic),
{
    match item {
        FieldItem::Padding(len) => FieldItemPlan::Padding(
            "__zorua_pad_".to_owned().concat(names::decimal_text(index).as_str()),
            len,
        ),
        FieldItem::Value(field) => {
            let storage = storage::resolve_storage(field.native, field.storage, default).unwrap();
            let backed = field.storage.is_some() || (storage.order.is_some()
                && field.subfields.is_none());
            FieldItemPlan::Value(
                FieldPlan {
                    field,
                    storage,
                    hidden: backed || field.subfields.is_some(),
                    access: if backed {
                        Some(plan_access(field, storage))
                    } else {
                        None
                    },
                    packed: match &field.subfields {
                        Some(items) => {
                            proof {
                                let all = definition::subfield_views(items@);
                                assert forall|i: int| 0 <= i < items@.len() implies
                                    layout::item_valid(#[trigger] items@[i]@, default) by {
                                    assert(layout::item_valid(all[i], default));
                                }
                            }
                            Some(plan_packed(items, default, generic))
                        },
                        None => None,
                    },
                },
            )
        },
    }
}

/// The first mistake in the storage of packed fields.
pub open spec fn packed_error(
    items: Seq<SubfieldItemView>,
    default: Option<DefaultEndian>,
) -> Option<ErrorView>
    decreases items.len(),
{
    if items.len() == 0 {
        None
    } else {
        match packed_error(items.drop_last(), default) {
            Some(e) => Some(e),
            None => match items.last() {
                SubfieldItemView::Padding(_) => None,
                SubfieldItemView::Value(subfield) => match layout::packed_storage(
                    subfield,
                    default,
                ) {
                    Ok(_) => None,
                    Err(e) => Some(e),
                },
            },
        }
    }
}

/// The first mistake in the storage of a field or of its packed fields.
pub open spec fn field_error(
    item: FieldItemView,
    default: Option<DefaultEndian>,
) -> Option<ErrorView> {
    match item {
        FieldItemView::Padding(_) => None,
        FieldItemView::Value(field) => match field_storage(field, default) {
            Err(e) => Some(e),
            Ok(_) => match field.subfields {
                Some(items) => packed_error(items, default),
                None => None,
            },
        },
    }
}

/// The first mistake in the storage of fields.
pub open spec fn storage_error(
    fields: Seq<FieldItemView>,
    default: Option<DefaultEndian>,
) -> Option<ErrorView>
    decreases fields.len(),
{
    if fields.len() == 0 {
        None
    } else {
        match storage_error(fields.drop_last(), default) {
            Some(e) => Some(e),
            None => field_error(fields.last(), default),
        }
    }
}

proof fn packed_error_fails(
    items: Seq<SubfieldItemView>,
    default: Option<DefaultEndian>,
    n: int,
)
    requires
        0 <= n <= items.len(),
        packed_error(items.take(n), default) is Some,
    ensures
        packed_error(items, default) == packed_error(items.take(n), default),
    decreases items.len() - n,
{
    if n == items.len() {
        assert(items.take(n) =~= items);
    } else {
        assert(items.take(n + 1).drop_last() =~= items.take(n));
        packed_error_fails(items, default, n + 1);
    }
}

proof fn storage_error_fails(fields: Seq<FieldItemView>, default: Option<DefaultEndian>, n: int)
    requires
        0 <= n <= fields.len(),
        storage_error(fields.take(n), default) is Some,
    ensures
        storage_error(fields, default) == storage_error(fields.take(n), default),
    decreases fields.len() - n,
{
    if n == fields.len() {
        assert(fields.take(n) =~= fields);
    } else {
        assert(fields.take(n + 1).drop_last() =~= fields.take(n));
        storage_error_fails(fields, default, n + 1);
    }
}

/// Looks for the first mistake in the storage of packed fields, and tells whether they can all
/// have accessors.
fn check_packed(items: &Vec<SubfieldItem>, default: Option<DefaultEndian>) -> (r: Result<
    bool,
    DefinitionError,
>)
    ensures
        match r {
            Ok(valid) => packed_error(definition::subfield_views(items@), default) is None && valid
                == forall|i: int|
                0 <= i < items@.len() ==> layout::item_valid(#[trigger] items@[i]@, default),
            Err(e) => packed_error(definition::subfield_views(items@), default) == Some(e@),
        },
{
    let ghost all = definition::subfield_views(items@);
    let mut valid = true;
    let mut i: usize = 0;
    while i < items.len()
        invariant
            i <= items@.len(),
            all == definition::subfield_views(items@),
            packed_error(all.take(i as int), default) is None,
            valid == forall|k: int|
                0 <= k < i ==> layout::item_valid(#[trigger] items@[k]@, default),
        decreases items@.len() - i,
    {
        proof {
            assert(all.take(i + 1).drop_last() =~= all.take(i as int));
            assert(all.take(i + 1).last() == items@[i as int]@);
        }
        if let SubfieldItem::Value(subfield) = &items[i] {
            match layout::resolve_packed(subfield, default) {
                Ok(storage) => {
                    if !layout::has_accessors(subfield, &storage) {
                        assert(!layout::item_valid(items@[i as int]@, default));
                        valid = false;
                    }
                },
                Err(e) => {
                    proof {
                        packed_error_fails(all, default, i + 1);
                    }
                    return Err(e);
                },
            }
        }
        i += 1;
    }
    assert(all.take(i as int) =~= all);
    Ok(valid)
}

fn check_field(item: &FieldItem, default: Option<DefaultEndian>) -> (r: Result<
    bool,
    DefinitionError,
>)
    ensures
        match r {
            Ok(valid) => field_error(item@, default) is None && valid == field_valid(
                item@,
                default,
            ),
            Err(e) => field_error(item@, default) == Some(e@),
        },
{
    match item {
        FieldItem::Padding(_) => Ok(true),
        FieldItem::Value(field) => match storage::resolve_storage(
            field.native,
            field.storage,
            default,
        ) {
            Err(e) => Err(e),
            Ok(_) => match &field.subfields {
                Some(items) => {
                    let checked = check_packed(items, default);
                    proof {
                        let all = definition::subfield_views(items@);
                        if let Ok(valid) = checked {
                            if valid {
                                assert forall|i: int| 0 <= i < all.len() implies layout::item_valid(
                                    #[trigger] all[i],
                                    default,
                                ) by {
                                    assert(layout::item_valid(items@[i]@, default));
                                }
                            } else {
                                let i = choose|i: int|
                                    0 <= i < items@.len() && !layout::item_valid(
                                        #[trigger] items@[i]@,
                                        default,
                                    );
                                assert(!layout::item_valid(all[i], default));
                            }
                        }
                    }
                    checked
                },
                None => Ok(true),
            },
        },
    }
}

/// Looks for the first mistake in the storage of fields, and tells whether they can all have
/// accessors.
fn check_fields(fields: &Vec<FieldItem>, default: Option<DefaultEndian>) -> (r: Result<
    bool,
    DefinitionError,
>)
    ensures
        match r {
            Ok(valid) => storage_error(definition::field_views(fields@), default) is None && valid
                == forall|i: int|
                0 <= i < fields@.len() ==> field_valid(#[trigger] fields@[i]@, default),
            Err(e) => storage_error(definition::field_views(fields@), default) == Some(e@),
        },
{
    let ghost all = definition::field_views(fields@);
    let mut valid = true;
    let mut i: usize = 0;
    while i < fields.len()
        invariant
            i <= fields@.len(),
            all == definition::field_views(fields@),
            storage_error(all.take(i as int), default) is None,
            valid == forall|k: int| 0 <= k < i ==> field_valid(#[trigger] fields@[k]@, default),
        decreases fields@.len() - i,
    {
        proof {
            assert(all.take(i + 1).drop_last() =~= all.take(i as int));
            assert(all.take(i + 1).last() == fields@[i as int]@);
        }
        match check_field(&fields[i], default) {
            Ok(ok) => {
                if !ok {
                    assert(!field_valid(fields@[i as int]@, default));
                    valid = false;
                }
            },
            Err(e) => {
                proof {
                    storage_error_fails(all, default, i + 1);
                }
                return Err(e);
            },
        }
        i += 1;
    }
    assert(all.take(i as int) =~= all);
    Ok(valid)
}

/// The traits of `zerocopy` that every generated struct derives.
pub open spec fn layout_trait(i: int) -> Seq<char> {
    if i == 0 {
        "FromBytes"@
    } else if i == 1 {
        "IntoBytes"@
    } else if i == 2 {
        "KnownLayout"@
    } else if i == 3 {
        "Immutable"@
    } else {
        "Unaligned"@
    }
}

/// Those of the first `n` traits that attributes do not derive.
pub open spec fn missing_derives(attrs: Seq<AttrView>, n: nat) -> Seq<Seq<char>>
    decreases n,
{
    if n == 0 {
        Seq::empty()
    } else {
        let before = missing_derives(attrs, (n - 1) as nat);
        if derives(attrs, layout_trait(n - 1)) {
            before
        } else {
            before.push(layout_trait(n - 1))
        }
    }
}

fn find_missing_derives(attrs: &Vec<&Attr>) -> (r: Vec<&'static str>)
    ensures
        template::str_views(r@) == missing_derives(storage::attr_ref_views(attrs@), 5),
{
    let mut missing: Vec<&'static str> = Vec::new();
    let mut i: usize = 0;
    assert(template::str_views(missing@) =~= Seq::empty());
    while i < 5
        invariant
            i <= 5,
            template::str_views(missing@) == missing_derives(storage::attr_ref_views(attrs@), i as nat),
        decreases 5 - i,
    {
        let name = if i == 0 {
            "FromBytes"
        } else if i == 1 {
            "IntoBytes"
        } else if i == 2 {
            "KnownLayout"
        } else if i == 3 {
            "Immutable"
        } else {
            "Unaligned"
        };
        if !has_derive(attrs, name) {
            let ghost before = template::str_views(missing@);
            missing.push(name);
            assert(template::str_views(missing@) =~= before.push(name@));
        }
        i += 1;
    }
    missing
}

/// What is generated for a definition.
pub struct Plan<'d, 'a> {
    /// The attributes of the struct, and the traits that are derived besides.
    pub attrs: Vec<&'d Attr<'a>>,
    pub derives: Vec<&'static str>,
    pub fields: Vec<FieldItemPlan<'d, 'a>>,
}

/// The contents of a [`Plan`].
#[verifier::ext_equal]
pub struct PlanView {
    pub attrs: Seq<AttrView>,
    pub derives: Seq<Seq<char>>,
    pub fields: Seq<FieldItemPlanView>,
}

impl<'d, 'a> View for Plan<'d, 'a> {
    type V = PlanView;

    open spec fn view(&self) -> PlanView {
        PlanView {
            attrs: storage::attr_ref_views(self.attrs@),
            derives: template::str_views(self.derives@),
            fields: Seq::new(self.fields@.len(), |i: int| self.fields@[i]@),
        }
    }
}

/// What is generated for a definition: first its byte order is settled, then the storage of all
/// fields, and last their accessors.
pub open spec fn plan_of(definition: DefinitionView) -> Result<PlanView, ErrorView> {
    match storage::split_endian(definition.attrs) {
        Err(e) => Err(e),
        Ok((attrs, default)) => match storage_error(definition.fields, default) {
            Some(e) => Err(e),
            None => if exists|i: int|
                0 <= i < definition.fields.len() && !field_valid(
                    #[trigger] definition.fields[i],
                    default,
                ) {
                Err(ErrorView::Plain(ErrorKind::PackedType))
            } else {
                Ok(
                    PlanView {
                        attrs,
                        derives: missing_derives(attrs, 5),
                        fields: Seq::new(
                            definition.fields.len(),
                            |i: int|
                                item_plan(
                                    definition.fields[i],
                                    i as nat,
                                    default,
                                    definition.generic,
                                ),
                        ),
                    },
                )
            },
        },
    }
}

/// Plans what is generated for a definition.
pub fn plan_definition<'d, 'a>(definition: &'d Definition<'a>) -> (r: Result<
    Plan<'d, 'a>,
    DefinitionError,
>)
    ensures
        match r {
            Ok(plan) => plan_of(definition@) == Ok::<_, ErrorView>(plan@),
            Err(e) => plan_of(definition@) == Err::<PlanView, _>(e@),
        },
{
    let (attrs, default) = match storage::extract_default_endian(&definition.attrs) {
        Ok(found) => found,
        Err(e) => {
            return Err(e);
        },
    };
    assert forall|i: int| 0 <= i < definition.fields@.len() implies #[trigger] definition@.fields[i]
        == definition.fields@[i]@ by {}
    let valid = match check_fields(&definition.fields, default) {
        Ok(valid) => valid,
        Err(e) => {
            return Err(e);
        },
    };
    if !valid {
        proof {
            let i = choose|i: int|
                0 <= i < definition.fields@.len() && !field_valid(
                    #[trigger] definition.fields@[i]@,
                    default,
                );
            assert(!field_valid(definition@.fields[i], default));
        }
        return Err(DefinitionError::new(ErrorKind::PackedType));
    }
    let derives = find_missing_derives(&attrs);
    let mut fields: Vec<FieldItemPlan<'d, 'a>> = Vec::new();
    let mut i: usize = 0;
    while i < definition.fields.len()
        invariant
            i <= definition.fields@.len(),
            forall|k: int|
                0 <= k < definition.fields@.len() ==> field_valid(
                    #[trigger] definition.fields@[k]@,
                    default,
                ),
            fields@.len() == i,
            forall|k: int|
                0 <= k < i ==> (#[trigger] fields@[k])@ == item_plan(
                    definition.fields@[k]@,
                    k as nat,
                    default,
                    definition.generic,
                ),
        decreases definition.fields@.len() - i,
    {
        fields.push(plan_item(&definition.fields[i], i, default, definition.generic));
        i += 1;
    }
    let plan = Plan { attrs, derives, fields };
    proof {
        let planned = Seq::new(
            definition@.fields.len(),
            |i: int| item_plan(definition@.fields[i], i as nat, default, definition@.generic),
        );
        assert(plan@.fields =~= planned);
    }
    Ok(plan)
}

/// Which of the first `n` items the accessor number `a` belongs to.
pub(crate) open spec fn item_of(
    items: Seq<SubfieldItemView>,
    default: Option<DefaultEndian>,
    n: nat,
    a: int,
) -> int
    decreases n,
{
    if n == 0 {
        0
    } else if a < accessors_of(items, default, (n - 1) as nat).len() {
        item_of(items, default, (n - 1) as nat, a)
    } else {
        n - 1
    }
}

pub(crate) proof fn accessor_of_item(
    items: Seq<SubfieldItemView>,
    default: Option<DefaultEndian>,
    n: nat,
    a: int,
)
    requires
        n <= items.len(),
        0 <= a < accessors_of(items, default, n).len(),
    ensures
        ({
            let i = item_of(items, default, n, a);
            let plan = accessors_of(items, default, n)[a];
            &&& 0 <= i < n
            &&& items[i] == SubfieldItemView::Value(plan.subfield)
            &&& plan == subfield_plan(
                plan.subfield,
                layout::packed_storage(plan.subfield, default)->Ok_0,
                layout::item_widths(items, default, 0, i),
            )
            &&& plan.offset == layout::item_widths(items, default, 0, i)
            &&& layout::width_of(plan.subfield, plan.storage) == layout::item_width(
                items[i],
                default,
            )
        }),
    decreases n,
{
    if a < accessors_of(items, default, (n - 1) as nat).len() {
        accessor_of_item(items, default, (n - 1) as nat, a);
    }
}

pub(crate) proof fn items_in_order(
    items: Seq<SubfieldItemView>,
    default: Option<DefaultEndian>,
    n: nat,
    a: int,
    b: int,
)
    requires
        n <= items.len(),
        0 <= a < b < accessors_of(items, default, n).len(),
    ensures
        item_of(items, default, n, a) < item_of(items, default, n, b),
    decreases n,
{
    let before = accessors_of(items, default, (n - 1) as nat).len();
    if b < before {
        items_in_order(items, default, (n - 1) as nat, a, b);
    } else {
        accessor_of_item(items, default, (n - 1) as nat, a);
    }
}

/// Accessors of packed fields never touch each other's bits: whatever widths the types turn out to
/// have, if they add up to the width of the storage, each accessor's bits end before those of any
/// later one start, and all lie inside the storage.
pub proof fn accessors_are_disjoint(
    items: Seq<SubfieldItemView>,
    default: Option<DefaultEndian>,
    generic: bool,
    bits: spec_fn(WidthView) -> nat,
    storage_bits: nat,
    a: int,
    b: int,
)
    requires
        0 <= a < b < packed_plan(items, default, generic).accessors.len(),
        layout::total(packed_plan(items, default, generic).coverage, bits) == storage_bits,
    ensures
        ({
            let first = packed_plan(items, default, generic).accessors[a];
            let second = packed_plan(items, default, generic).accessors[b];
            &&& layout::total(first.offset, bits) + bits(
                layout::width_of(first.subfield, first.storage),
            ) <= layout::total(second.offset, bits)
            &&& layout::total(second.offset, bits) + bits(
                layout::width_of(second.subfield, second.storage),
            ) <= storage_bits
        }),
{
    let i = item_of(items, default, items.len(), a);
    let j = item_of(items, default, items.len(), b);
    accessor_of_item(items, default, items.len(), a);
    accessor_of_item(items, default, items.len(), b);
    items_in_order(items, default, items.len(), a, b);
    layout::packed_fields_partition_storage(items, default, bits, storage_bits, i, j);
}

/// What a packed field was set to is read, and nothing else in the storage changes: no other packed
/// field, and no unused bit. This holds for whatever widths the types turn out to have, if they add
/// up to the width of the storage, which `before` and `after` hold.
pub proof fn set_packed_field_is_read<T: SoundCodec<S>, S>(
    items: Seq<SubfieldItemView>,
    default: Option<DefaultEndian>,
    generic: bool,
    bits: spec_fn(WidthView) -> nat,
    storage_bits: nat,
    before: Seq<u8>,
    after: Seq<u8>,
    a: int,
    value: T,
)
    requires
        0 <= a < packed_plan(items, default, generic).accessors.len(),
        layout::total(packed_plan(items, default, generic).coverage, bits) == storage_bits,
        storage_bits <= 8 * before.len(),
        ({
            let plan = packed_plan(items, default, generic).accessors[a];
            &&& bits(layout::width_of(plan.subfield, plan.storage)) == T::BITS
            &&& value.storable()
            &&& bits::overwritten(
                after,
                before,
                layout::total(plan.offset, bits) as int,
                value.encode(),
            )
        }),
    ensures
        ({
            let plan = packed_plan(items, default, generic).accessors[a];
            let offset = layout::total(plan.offset, bits) as int;
            let stored = bits::bit_seq(after, offset, T::BITS as nat);
            &&& T::decode(stored) == Some(value)
            &&& T::try_decode(stored) == Some(Ok::<T, S>(value))
            &&& T::read_value(stored) matches Some(read) && T::as_result(read) == Ok::<T, S>(value)
            &&& after.len() == before.len()
            &&& forall|i: int|
                0 <= i < 8 * before.len() && !(offset <= i < offset + T::BITS)
                    ==> #[trigger] bits::bit_at(after, i) == bits::bit_at(before, i)
        }),
        forall|b: int|
            0 <= b < packed_plan(items, default, generic).accessors.len() && b != a ==> {
                let other = #[trigger] packed_plan(items, default, generic).accessors[b];
                let offset = layout::total(other.offset, bits) as int;
                let width = bits(layout::width_of(other.subfield, other.storage));
                bits::bit_seq(after, offset, width) == bits::bit_seq(before, offset, width)
            },
{
    let accessors = packed_plan(items, default, generic).accessors;
    let plan = accessors[a];
    let offset = layout::total(plan.offset, bits) as int;
    accessor_inside(items, default, generic, bits, storage_bits, a);
    value.encode_len();
    laws::written_codec_value_is_read::<T, S>(value, after, before, offset);
    assert forall|b: int| 0 <= b < accessors.len() && b != a implies {
        let other = #[trigger] accessors[b];
        let start = layout::total(other.offset, bits) as int;
        let width = bits(layout::width_of(other.subfield, other.storage));
        bits::bit_seq(after, start, width) == bits::bit_seq(before, start, width)
    } by {
        accessor_inside(items, default, generic, bits, storage_bits, b);
        if a < b {
            accessors_are_disjoint(items, default, generic, bits, storage_bits, a, b);
        } else {
            accessors_are_disjoint(items, default, generic, bits, storage_bits, b, a);
        }
        let other = accessors[b];
        laws::write_keeps_other_bits(
            after,
            before,
            offset,
            value.encode(),
            layout::total(other.offset, bits) as int,
            bits(layout::width_of(other.subfield, other.storage)),
        );
    }
}

proof fn accessor_inside(
    items: Seq<SubfieldItemView>,
    default: Option<DefaultEndian>,
    generic: bool,
    bits: spec_fn(WidthView) -> nat,
    storage_bits: nat,
    a: int,
)
    requires
        0 <= a < packed_plan(items, default, generic).accessors.len(),
        layout::total(packed_plan(items, default, generic).coverage, bits) == storage_bits,
    ensures
        ({
            let plan = packed_plan(items, default, generic).accessors[a];
            layout::total(plan.offset, bits) + bits(
                layout::width_of(plan.subfield, plan.storage),
            ) <= storage_bits
        }),
{
    accessor_of_item(items, default, items.len(), a);
    layout::item_ends_inside(
        items,
        default,
        bits,
        item_of(items, default, items.len(), a),
    );
}

proof fn accessor_has_byte_order(
    items: Seq<SubfieldItemView>,
    default: Option<DefaultEndian>,
    n: nat,
    a: int,
)
    requires
        n <= items.len(),
        forall|i: int| 0 <= i < items.len() ==> layout::item_valid(#[trigger] items[i], default),
        0 <= a < accessors_of(items, default, n).len(),
    ensures
        storage::has_native(accessors_of(items, default, n)[a].storage.written)
            ==> accessors_of(items, default, n)[a].storage.order is Some,
    decreases n,
{
    assert(layout::item_valid(items[n - 1], default));
    if a < accessors_of(items, default, (n - 1) as nat).len() {
        accessor_has_byte_order(items, default, (n - 1) as nat, a);
    }
}

/// Native multi-byte integers are never stored as they are: wherever a storage type has one, a byte
/// order was chosen for it.
pub proof fn native_storage_has_a_byte_order(definition: DefinitionView, i: int, a: int)
    ensures
        plan_of(definition) matches Ok(plan) ==> 0 <= i < plan.fields.len() ==> (plan.fields[i]
            matches FieldItemPlanView::Value(field) ==> {
            &&& storage::has_native(field.storage.written) ==> field.storage.order is Some
            &&& field.packed matches Some(packed) ==> 0 <= a < packed.accessors.len() ==> (
            storage::has_native(packed.accessors[a].storage.written)
                ==> packed.accessors[a].storage.order is Some)
        }),
{
    if let Ok(plan) = plan_of(definition) {
        let default = storage::split_endian(definition.attrs)->Ok_0.1;
        if 0 <= i < plan.fields.len() {
            assert(field_valid(definition.fields[i], default));
            if let FieldItemView::Value(field) = definition.fields[i] {
                if let Some(items) = field.subfields {
                    if 0 <= a < accessors_of(items, default, items.len()).len() {
                        accessor_has_byte_order(items, default, items.len(), a);
                    }
                }
            }
        }
    }
}

/// A generated struct derives each layout trait once: those that its definition derives are not
/// derived again, and all others are.
pub proof fn layout_traits_are_derived_once(attrs: Seq<AttrView>, i: int)
    requires
        0 <= i < 5,
    ensures
        missing_derives(attrs, 5).contains(layout_trait(i)) == !derives(attrs, layout_trait(i)),
{
    if missing_derives(attrs, 5).contains(layout_trait(i)) {
        missing_is_not_derived(attrs, 5, layout_trait(i));
    }
    if !derives(attrs, layout_trait(i)) {
        not_derived_is_missing(attrs, 5, i);
    }
}

proof fn missing_is_not_derived(attrs: Seq<AttrView>, n: nat, name: Seq<char>)
    requires
        missing_derives(attrs, n).contains(name),
    ensures
        !derives(attrs, name),
    decreases n,
{
    let all = missing_derives(attrs, n);
    let k = choose|k: int| 0 <= k < all.len() && all[k] == name;
    if n > 0 {
        let before = missing_derives(attrs, (n - 1) as nat);
        if k < before.len() {
            assert(before[k] == name);
            missing_is_not_derived(attrs, (n - 1) as nat, name);
        }
    }
}

proof fn not_derived_is_missing(attrs: Seq<AttrView>, n: nat, i: int)
    requires
        0 <= i < n,
        !derives(attrs, layout_trait(i)),
    ensures
        missing_derives(attrs, n).contains(layout_trait(i)),
    decreases n,
{
    let all = missing_derives(attrs, n);
    if i < n - 1 {
        not_derived_is_missing(attrs, (n - 1) as nat, i);
        let before = missing_derives(attrs, (n - 1) as nat);
        let k = choose|k: int| 0 <= k < before.len() && before[k] == layout_trait(i);
        assert(all[k] == layout_trait(i));
    } else {
        assert(all[all.len() - 1] == layout_trait(i));
    }
}

} // verus!

//! Definitions and their grammar.
//!
//! ```text
//! struct   = attribute* visibility "struct" name generics [ "(" "bits" expr ")" ]
//!            "{" field { "," field } [ "," ] "}"
//! field    = attribute* ( "pad" expr
//!          | [ "bits" ] visibility name ":" type [ "{" subfield { "," subfield } [ "," ] "}" ] )
//! subfield = attribute* ( "pad" expr
//!          | visibility name ":" type [ "@" expr ] [ "stride" expr ] )
//! ```
use crate::macros::error::{DefinitionError, ErrorKind, ErrorView};
use crate::macros::pieces;
use crate::macros::pieces::{Attr, AttrView};
use crate::macros::syntax;
use crate::macros::token;
use crate::macros::token::{Delimiter, Token};
use vstd::prelude::*;

verus! {

/// A packed field inside the storage of a field.
pub struct Subfield<'a> {
    pub attrs: Vec<Attr<'a>>,
    pub vis: &'a [Token],
    pub name: &'a String,
    pub native: &'a [Token],
    /// The type in `#[storage(...)]`.
    pub storage: Option<&'a [Token]>,
    /// Whether clear bits mean that there is no value.
    pub zeroed: bool,
    /// The explicit bit offset.
    pub offset: Option<&'a [Token]>,
    /// The explicit distance of the elements of an array.
    pub stride: Option<&'a [Token]>,
}

/// A packed field or a number of unused bits.
pub enum SubfieldItem<'a> {
    Padding(&'a [Token]),
    Value(Subfield<'a>),
}

/// The contents of a [`Subfield`].
#[verifier::ext_equal]
pub struct SubfieldView {
    pub attrs: Seq<AttrView>,
    pub vis: Seq<Token>,
    pub name: Seq<char>,
    pub native: Seq<Token>,
    pub storage: Option<Seq<Token>>,
    pub zeroed: bool,
    pub offset: Option<Seq<Token>>,
    pub stride: Option<Seq<Token>>,
}

/// The contents of a [`SubfieldItem`].
pub enum SubfieldItemView {
    Padding(Seq<Token>),
    Value(SubfieldView),
}

impl<'a> View for Subfield<'a> {
    type V = SubfieldView;

    open spec fn view(&self) -> SubfieldView {
        SubfieldView {
            attrs: pieces::attr_views(self.attrs@),
            vis: self.vis@,
            name: self.name@,
            native: self.native@,
            storage: pieces::optional(self.storage),
            zeroed: self.zeroed,
            offset: pieces::optional(self.offset),
            stride: pieces::optional(self.stride),
        }
    }
}

impl<'a> View for SubfieldItem<'a> {
    type V = SubfieldItemView;

    open spec fn view(&self) -> SubfieldItemView {
        match self {
            SubfieldItem::Padding(bits) => SubfieldItemView::Padding(bits@),
            SubfieldItem::Value(subfield) => SubfieldItemView::Value(subfield@),
        }
    }
}

/// The contents of packed fields.
pub open spec fn subfield_views(items: Seq<SubfieldItem>) -> Seq<SubfieldItemView> {
    Seq::new(items.len(), |i: int| items[i]@)
}

/// Whether the type of a field, or of a packed field, ends in front of the token at `i`.
pub open spec fn ends_type(s: Seq<Token>, i: int, packed: bool) -> bool {
    ||| pieces::is_word(s, i, "as"@)
    ||| pieces::is_punct(s, i, ","@)
    ||| if packed {
        pieces::is_punct(s, i, "@"@)
    } else {
        pieces::is_group(s, i, Delimiter::Brace)
    }
}

/// Where a type that starts at `i` ends: at the first token outside angle brackets that ends it.
pub open spec fn type_end(s: Seq<Token>, i: int, depth: int, packed: bool) -> int
    decreases s.len() - i,
{
    if i >= s.len() || (depth == 0 && ends_type(s, i, packed)) {
        i
    } else if pieces::is_punct(s, i, "<"@) {
        type_end(s, i + 1, depth + 1, packed)
    } else if pieces::is_punct(s, i, ">"@) {
        type_end(s, i + 1, depth - 1, packed)
    } else {
        type_end(s, i + 1, depth, packed)
    }
}

fn skip_type(s: &[Token], pos: usize, packed: bool) -> (end: usize)
    requires
        pos <= s@.len(),
    ensures
        pos <= end <= s@.len(),
        end == type_end(s@, pos as int, 0, packed),
{
    let mut i: usize = pos;
    let mut depth: i128 = 0;
    while i < s.len()
        invariant
            pos <= i <= s.len(),
            -(i - pos) <= depth <= i - pos,
            type_end(s@, pos as int, 0, packed) == type_end(s@, i as int, depth as int, packed),
        ensures
            pos <= i <= s.len(),
            i == type_end(s@, pos as int, 0, packed),
        decreases s.len() - i,
    {
        if depth == 0 && (pieces::word_at(s, i, "as") || pieces::punct_at(s, i, ",") || if packed {
            pieces::punct_at(s, i, "@")
        } else {
            pieces::group_at(s, i, Delimiter::Brace).is_some()
        }) {
            break;
        }
        if pieces::punct_at(s, i, "<") {
            depth += 1;
        } else if pieces::punct_at(s, i, ">") {
            depth -= 1;
        }
        i += 1;
    }
    i
}

/// The attributes of a field, without those of the definition language: whether it is marked
/// `#[zeroedoption]`, and the type in `#[storage(...)]`.
pub open spec fn field_attributes(s: Seq<Token>, pos: int) -> Result<
    (Seq<AttrView>, bool, Option<Seq<Token>>, int),
    ErrorView,
> {
    match pieces::attributes_at(s, pos) {
        Err(e) => Err(e),
        Ok((all, end)) => if pieces::has_attr(all, "fallible"@) {
            Err(ErrorView::Plain(ErrorKind::FallibleAttribute))
        } else {
            match pieces::split_storage(pieces::without_attr(all, "zeroedoption"@)) {
                Err(e) => Err(e),
                Ok((attrs, storage)) => Ok(
                    (attrs, pieces::has_attr(all, "zeroedoption"@), storage, end),
                ),
            }
        },
    }
}

fn parse_field_attributes<'a>(s: &'a [Token], pos: usize) -> (r: Result<
    (Vec<Attr<'a>>, bool, Option<&'a [Token]>, usize),
    DefinitionError,
>)
    requires
        pos <= s@.len(),
    ensures
        match r {
            Ok((attrs, zeroed, storage, end)) => field_attributes(s@, pos as int) == Ok::<
                _,
                ErrorView,
            >((pieces::attr_views(attrs@), zeroed, pieces::optional(storage), end as int)),
            Err(e) => field_attributes(s@, pos as int) == Err::<
                (Seq<AttrView>, bool, Option<Seq<Token>>, int),
                _,
            >(e@),
        },
{
    let (all, end) = match pieces::parse_attributes(s, pos) {
        Ok(found) => found,
        Err(e) => {
            return Err(e);
        },
    };
    if pieces::find_attr(&all, "fallible") {
        return Err(DefinitionError::new(ErrorKind::FallibleAttribute));
    }
    let zeroed = pieces::find_attr(&all, "zeroedoption");
    match pieces::extract_storage_attr(pieces::drop_attr(all, "zeroedoption")) {
        Ok((attrs, storage)) => Ok((attrs, zeroed, storage, end)),
        Err(e) => Err(e),
    }
}

/// A field name and the `:` behind it, at `pos`.
pub open spec fn name_and_colon(s: Seq<Token>, pos: int) -> Result<(Seq<char>, int), ErrorView> {
    match pieces::identifier_at(s, pos) {
        Err(e) => Err(e),
        Ok((name, end)) => if pieces::is_punct(s, end, ":"@) {
            Ok((name, end + 1))
        } else {
            Err(ErrorView::Plain(ErrorKind::ExpectedColon))
        },
    }
}

fn parse_name_and_colon<'a>(s: &'a [Token], pos: usize) -> (r: Result<
    (&'a String, usize),
    DefinitionError,
>)
    ensures
        match r {
            Ok((name, end)) => name_and_colon(s@, pos as int) == Ok::<_, ErrorView>(
                (name@, end as int),
            ),
            Err(e) => name_and_colon(s@, pos as int) == Err::<(Seq<char>, int), _>(e@),
        },
{
    match pieces::parse_identifier(s, pos) {
        Ok((name, end)) => if pieces::punct_at(s, end, ":") {
            Ok((name, end + 1))
        } else {
            Err(DefinitionError::new(ErrorKind::ExpectedColon))
        },
        Err(e) => Err(e),
    }
}

/// The packed field at `pos`.
pub open spec fn subfield_at(s: Seq<Token>, pos: int) -> Result<
    (SubfieldItemView, int),
    ErrorView,
> {
    match field_attributes(s, pos) {
        Err(e) => Err(e),
        Ok((attrs, zeroed, storage, start)) => if pieces::is_word(s, start, "pad"@) {
            match pieces::expression_at(s, start + 1) {
                Err(e) => Err(e),
                Ok((bits, end)) => Ok((SubfieldItemView::Padding(bits), end)),
            }
        } else {
            match pieces::visibility_at(s, start) {
                Err(e) => Err(e),
                Ok((vis, named)) => match name_and_colon(s, named) {
                    Err(e) => Err(e),
                    Ok((name, typed)) => subfield_tail(
                        s,
                        typed,
                        SubfieldView {
                            attrs,
                            vis,
                            name,
                            native: Seq::empty(),
                            storage,
                            zeroed,
                            offset: None,
                            stride: None,
                        },
                    ),
                },
            }
        },
    }
}

/// What follows the `:` of a packed field: its type, and where its bits lie.
pub open spec fn subfield_tail(s: Seq<Token>, typed: int, head: SubfieldView) -> Result<
    (SubfieldItemView, int),
    ErrorView,
> {
    let placed = type_end(s, typed, 0, true);
    if pieces::is_word(s, placed, "as"@) {
        Err(ErrorView::Plain(ErrorKind::AsSyntax))
    } else {
        match pieces::announced_expression(s, placed, pieces::is_punct(s, placed, "@"@)) {
            Err(e) => Err(e),
            Ok((offset, spaced)) => match pieces::announced_expression(
                s,
                spaced,
                pieces::is_word(s, spaced, "stride"@),
            ) {
                Err(e) => Err(e),
                Ok((stride, end)) => Ok(
                    (
                        SubfieldItemView::Value(
                            SubfieldView {
                                native: s.subrange(typed, placed),
                                offset,
                                stride,
                                ..head
                            },
                        ),
                        end,
                    ),
                ),
            },
        }
    }
}

fn parse_subfield<'a>(s: &'a [Token], pos: usize) -> (r: Result<
    (SubfieldItem<'a>, usize),
    DefinitionError,
>)
    requires
        pos <= s@.len(),
    ensures
        match r {
            Ok((item, end)) => subfield_at(s@, pos as int) == Ok::<_, ErrorView>(
                (item@, end as int),
            ),
            Err(e) => subfield_at(s@, pos as int) == Err::<(SubfieldItemView, int), _>(e@),
        },
{
    let (attrs, zeroed, storage, start) = match parse_field_attributes(s, pos) {
        Ok(found) => found,
        Err(e) => {
            return Err(e);
        },
    };
    if pieces::word_at(s, start, "pad") {
        return match pieces::parse_expression(s, start + 1) {
            Ok((bits, end)) => Ok((SubfieldItem::Padding(bits), end)),
            Err(e) => Err(e),
        };
    }
    let (vis, named) = match pieces::parse_visibility(s, start) {
        Ok(found) => found,
        Err(e) => {
            return Err(e);
        },
    };
    let (name, typed) = match parse_name_and_colon(s, named) {
        Ok(found) => found,
        Err(e) => {
            return Err(e);
        },
    };
    let placed = skip_type(s, typed, true);
    let native = pieces::part(s, typed, placed);
    if pieces::word_at(s, placed, "as") {
        return Err(DefinitionError::new(ErrorKind::AsSyntax));
    }
    let at = pieces::punct_at(s, placed, "@");
    let (offset, spaced) = match pieces::parse_announced(s, placed, at) {
        Ok(found) => found,
        Err(e) => {
            return Err(e);
        },
    };
    let strided = pieces::word_at(s, spaced, "stride");
    let (stride, end) = match pieces::parse_announced(s, spaced, strided) {
        Ok(found) => found,
        Err(e) => {
            return Err(e);
        },
    };
    Ok(
        (
            SubfieldItem::Value(
                Subfield { attrs, vis, name, native, storage, zeroed, offset, stride },
            ),
            end,
        ),
    )
}

proof fn type_end_bounds(s: Seq<Token>, i: int, depth: int, packed: bool)
    requires
        0 <= i <= s.len(),
    ensures
        i <= type_end(s, i, depth, packed) <= s.len(),
    decreases s.len() - i,
{
    if i < s.len() && !(depth == 0 && ends_type(s, i, packed)) {
        type_end_bounds(s, i + 1, depth + 1, packed);
        type_end_bounds(s, i + 1, depth - 1, packed);
        type_end_bounds(s, i + 1, depth, packed);
    }
}

/// Parsing a packed field consumes tokens.
pub proof fn subfield_advances(s: Seq<Token>, pos: int)
    requires
        0 <= pos <= s.len(),
    ensures
        subfield_at(s, pos) matches Ok((_, end)) ==> pos < end <= s.len(),
{
    if let Ok((attrs, zeroed, storage, start)) = field_attributes(s, pos) {
        if let Ok((vis, named)) = pieces::visibility_at(s, start) {
            if let Ok((name, typed)) = name_and_colon(s, named) {
                type_end_bounds(s, typed, 0, true);
            }
        }
    }
}

/// The packed fields from `pos` on, with `,` between them and possibly behind the last.
pub open spec fn subfields_from(s: Seq<Token>, pos: nat) -> Result<
    Seq<SubfieldItemView>,
    ErrorView,
>
    decreases s.len() - pos,
{
    if pos >= s.len() {
        Ok(Seq::empty())
    } else {
        proof {
            subfield_advances(s, pos as int);
        }
        match subfield_at(s, pos as int) {
            Err(e) => Err(e),
            Ok((item, end)) => if end >= s.len() {
                Ok(seq![item])
            } else if !pieces::is_punct(s, end, ","@) {
                Err(ErrorView::Plain(ErrorKind::ExpectedComma))
            } else {
                match subfields_from(s, (end + 1) as nat) {
                    Err(e) => Err(e),
                    Ok(rest) => Ok(seq![item] + rest),
                }
            },
        }
    }
}

/// What the items found so far and those still to come make up.
pub open spec fn joined<T>(found: Seq<T>, rest: Result<Seq<T>, ErrorView>) -> Result<
    Seq<T>,
    ErrorView,
> {
    match rest {
        Ok(rest) => Ok(found + rest),
        Err(e) => Err(e),
    }
}

fn parse_subfields<'a>(s: &'a [Token]) -> (r: Result<Vec<SubfieldItem<'a>>, DefinitionError>)
    ensures
        match r {
            Ok(items) => subfields_from(s@, 0) == Ok::<_, ErrorView>(subfield_views(items@)),
            Err(e) => subfields_from(s@, 0) == Err::<Seq<SubfieldItemView>, _>(e@),
        },
{
    let mut items: Vec<SubfieldItem<'a>> = Vec::new();
    let mut pos: usize = 0;
    proof {
        if let Ok(all) = subfields_from(s@, 0) {
            assert(subfield_views(items@) + all =~= all);
        }
    }
    while pos < s.len()
        invariant_except_break
            pos <= s.len(),
            subfields_from(s@, 0) == joined(
                subfield_views(items@),
                subfields_from(s@, pos as nat),
            ),
        ensures
            subfields_from(s@, 0) == Ok::<_, ErrorView>(subfield_views(items@)),
        decreases s.len() - pos,
    {
        proof {
            subfield_advances(s@, pos as int);
        }
        let ghost found = subfield_views(items@);
        let (item, end) = match parse_subfield(s, pos) {
            Ok(found) => found,
            Err(e) => {
                return Err(e);
            },
        };
        items.push(item);
        assert(subfield_views(items@) =~= found.push(item@));
        if end >= s.len() {
            assert(subfield_views(items@) =~= found + seq![item@]);
            break;
        }
        if !pieces::punct_at(s, end, ",") {
            return Err(DefinitionError::new(ErrorKind::ExpectedComma));
        }
        pos = end + 1;
        proof {
            if let Ok(rest) = subfields_from(s@, pos as nat) {
                assert(found + (seq![item@] + rest) =~= subfield_views(items@) + rest);
            }
        }
    }
    Ok(items)
}

/// A field of a definition.
pub struct Field<'a> {
    pub attrs: Vec<Attr<'a>>,
    pub vis: &'a [Token],
    pub name: &'a String,
    pub native: &'a [Token],
    /// The type in `#[storage(...)]`.
    pub storage: Option<&'a [Token]>,
    /// The packed fields that share the storage of the field.
    pub subfields: Option<Vec<SubfieldItem<'a>>>,
}

/// A field or a number of unused bytes.
pub enum FieldItem<'a> {
    Padding(&'a [Token]),
    Value(Field<'a>),
}

/// The contents of a [`Field`].
#[verifier::ext_equal]
pub struct FieldView {
    pub attrs: Seq<AttrView>,
    pub vis: Seq<Token>,
    pub name: Seq<char>,
    pub native: Seq<Token>,
    pub storage: Option<Seq<Token>>,
    pub subfields: Option<Seq<SubfieldItemView>>,
}

/// The contents of a [`FieldItem`].
pub enum FieldItemView {
    Padding(Seq<Token>),
    Value(FieldView),
}

impl<'a> View for Field<'a> {
    type V = FieldView;

    open spec fn view(&self) -> FieldView {
        FieldView {
            attrs: pieces::attr_views(self.attrs@),
            vis: self.vis@,
            name: self.name@,
            native: self.native@,
            storage: pieces::optional(self.storage),
            subfields: match self.subfields {
                Some(items) => Some(subfield_views(items@)),
                None => None,
            },
        }
    }
}

impl<'a> View for FieldItem<'a> {
    type V = FieldItemView;

    open spec fn view(&self) -> FieldItemView {
        match self {
            FieldItem::Padding(len) => FieldItemView::Padding(len@),
            FieldItem::Value(field) => FieldItemView::Value(field@),
        }
    }
}

/// The contents of fields.
pub open spec fn field_views(items: Seq<FieldItem>) -> Seq<FieldItemView> {
    Seq::new(items.len(), |i: int| items[i]@)
}

/// The visibility of a field that starts at `pos`; there is none behind `bits`.
pub open spec fn field_visibility(s: Seq<Token>, pos: int) -> Result<
    (Seq<Token>, int),
    ErrorView,
> {
    if pieces::is_word(s, pos, "bits"@) {
        Ok((Seq::empty(), pos + 1))
    } else {
        pieces::visibility_at(s, pos)
    }
}

fn parse_field_visibility<'a>(s: &'a [Token], pos: usize) -> (r: Result<
    (&'a [Token], usize),
    DefinitionError,
>)
    requires
        pos <= s@.len(),
    ensures
        match r {
            Ok((vis, end)) => field_visibility(s@, pos as int) == Ok::<_, ErrorView>(
                (vis@, end as int),
            ),
            Err(e) => field_visibility(s@, pos as int) == Err::<(Seq<Token>, int), _>(e@),
        },
{
    if pieces::word_at(s, pos, "bits") {
        let none = pieces::part(s, pos, pos);
        assert(none@ =~= Seq::empty());
        Ok((none, pos + 1))
    } else {
        pieces::parse_visibility(s, pos)
    }
}

/// The packed fields in the braces at `pos`, if there are braces.
pub open spec fn braced_subfields(s: Seq<Token>, pos: int) -> Result<
    (Option<Seq<SubfieldItemView>>, int),
    ErrorView,
> {
    if pieces::is_group(s, pos, Delimiter::Brace) {
        match subfields_from(pieces::inside(s, pos), 0) {
            Err(e) => Err(e),
            Ok(items) => Ok((Some(items), pos + 1)),
        }
    } else {
        Ok((None, pos))
    }
}

/// The field at `pos`.
pub open spec fn field_at(s: Seq<Token>, pos: int) -> Result<(FieldItemView, int), ErrorView> {
    match field_attributes(s, pos) {
        Err(e) => Err(e),
        Ok((attrs, _, storage, start)) => if pieces::is_word(s, start, "pad"@) {
            match pieces::expression_at(s, start + 1) {
                Err(e) => Err(e),
                Ok((len, end)) => Ok((FieldItemView::Padding(len), end)),
            }
        } else {
            match field_visibility(s, start) {
                Err(e) => Err(e),
                Ok((vis, named)) => match name_and_colon(s, named) {
                    Err(e) => Err(e),
                    Ok((name, typed)) => field_tail(
                        s,
                        typed,
                        FieldView {
                            attrs,
                            vis,
                            name,
                            native: Seq::empty(),
                            storage,
                            subfields: None,
                        },
                    ),
                },
            }
        },
    }
}

/// What follows the `:` of a field: its type and its packed fields.
pub open spec fn field_tail(s: Seq<Token>, typed: int, head: FieldView) -> Result<
    (FieldItemView, int),
    ErrorView,
> {
    let packed = type_end(s, typed, 0, false);
    let native = s.subrange(typed, packed);
    match syntax::type_shape_of(token::text(native)) {
        Err(detail) => Err(ErrorView::NativeType(detail)),
        Ok(_) => if pieces::is_word(s, packed, "as"@) {
            Err(ErrorView::Plain(ErrorKind::AsSyntax))
        } else {
            match braced_subfields(s, packed) {
                Err(e) => Err(e),
                Ok((subfields, end)) => Ok(
                    (FieldItemView::Value(FieldView { native, subfields, ..head }), end),
                ),
            }
        },
    }
}

fn parse_field<'a>(s: &'a [Token], pos: usize) -> (r: Result<
    (FieldItem<'a>, usize),
    DefinitionError,
>)
    requires
        pos <= s@.len(),
    ensures
        match r {
            Ok((item, end)) => field_at(s@, pos as int) == Ok::<_, ErrorView>((item@, end as int)),
            Err(e) => field_at(s@, pos as int) == Err::<(FieldItemView, int), _>(e@),
        },
{
    let (attrs, _, storage, start) = match parse_field_attributes(s, pos) {
        Ok(found) => found,
        Err(e) => {
            return Err(e);
        },
    };
    if pieces::word_at(s, start, "pad") {
        return match pieces::parse_expression(s, start + 1) {
            Ok((len, end)) => Ok((FieldItem::Padding(len), end)),
            Err(e) => Err(e),
        };
    }
    let (vis, named) = match parse_field_visibility(s, start) {
        Ok(found) => found,
        Err(e) => {
            return Err(e);
        },
    };
    let (name, typed) = match parse_name_and_colon(s, named) {
        Ok(found) => found,
        Err(e) => {
            return Err(e);
        },
    };
    let packed = skip_type(s, typed, false);
    let native = pieces::part(s, typed, packed);
    let text = token::render(native);
    match syntax::type_shape(text.as_str()) {
        Ok(_) => {},
        Err(detail) => {
            return Err(DefinitionError::NativeType(detail));
        },
    }
    if pieces::word_at(s, packed, "as") {
        return Err(DefinitionError::new(ErrorKind::AsSyntax));
    }
    match pieces::group_at(s, packed, Delimiter::Brace) {
        Some(inner) => match parse_subfields(inner) {
            Ok(items) => Ok(
                (
                    FieldItem::Value(
                        Field { attrs, vis, name, native, storage, subfields: Some(items) },
                    ),
                    packed + 1,
                ),
            ),
            Err(e) => Err(e),
        },
        None => Ok(
            (
                FieldItem::Value(Field { attrs, vis, name, native, storage, subfields: None }),
                packed,
            ),
        ),
    }
}

/// Parsing a field consumes tokens.
pub proof fn field_advances(s: Seq<Token>, pos: int)
    requires
        0 <= pos <= s.len(),
    ensures
        field_at(s, pos) matches Ok((_, end)) ==> pos < end <= s.len(),
{
    if let Ok((attrs, zeroed, storage, start)) = field_attributes(s, pos) {
        if let Ok((vis, named)) = field_visibility(s, start) {
            if let Ok((name, typed)) = name_and_colon(s, named) {
                type_end_bounds(s, typed, 0, false);
            }
        }
    }
}

/// The fields from `pos` on, with `,` between them and possibly behind the last.
pub open spec fn fields_from(s: Seq<Token>, pos: nat) -> Result<Seq<FieldItemView>, ErrorView>
    decreases s.len() - pos,
{
    if pos >= s.len() {
        Ok(Seq::empty())
    } else {
        proof {
            field_advances(s, pos as int);
        }
        match field_at(s, pos as int) {
            Err(e) => Err(e),
            Ok((item, end)) => if end >= s.len() {
                Ok(seq![item])
            } else if !pieces::is_punct(s, end, ","@) {
                Err(ErrorView::Plain(ErrorKind::ExpectedComma))
            } else {
                match fields_from(s, (end + 1) as nat) {
                    Err(e) => Err(e),
                    Ok(rest) => Ok(seq![item] + rest),
                }
            },
        }
    }
}

fn parse_fields<'a>(s: &'a [Token]) -> (r: Result<Vec<FieldItem<'a>>, DefinitionError>)
    ensures
        match r {
            Ok(items) => fields_from(s@, 0) == Ok::<_, ErrorView>(field_views(items@)),
            Err(e) => fields_from(s@, 0) == Err::<Seq<FieldItemView>, _>(e@),
        },
{
    let mut items: Vec<FieldItem<'a>> = Vec::new();
    let mut pos: usize = 0;
    proof {
        if let Ok(all) = fields_from(s@, 0) {
            assert(field_views(items@) + all =~= all);
        }
    }
    while pos < s.len()
        invariant_except_break
            pos <= s.len(),
            fields_from(s@, 0) == joined(field_views(items@), fields_from(s@, pos as nat)),
        ensures
            fields_from(s@, 0) == Ok::<_, ErrorView>(field_views(items@)),
        decreases s.len() - pos,
    {
        proof {
            field_advances(s@, pos as int);
        }
        let ghost found = field_views(items@);
        let (item, end) = match parse_field(s, pos) {
            Ok(found) => found,
            Err(e) => {
                return Err(e);
            },
        };
        items.push(item);
        assert(field_views(items@) =~= found.push(item@));
        if end >= s.len() {
            assert(field_views(items@) =~= found + seq![item@]);
            break;
        }
        if !pieces::punct_at(s, end, ",") {
            return Err(DefinitionError::new(ErrorKind::ExpectedComma));
        }
        pos = end + 1;
        proof {
            if let Ok(rest) = fields_from(s@, pos as nat) {
                assert(found + (seq![item@] + rest) =~= field_views(items@) + rest);
            }
        }
    }
    Ok(items)
}

/// A definition.
pub struct Definition<'a> {
    pub attrs: Vec<Attr<'a>>,
    pub vis: &'a [Token],
    pub name: &'a String,
    pub generics: &'a [Token],
    /// Whether there are generic parameters.
    pub generic: bool,
    /// The width in `(bits ...)`.
    pub bits: Option<&'a [Token]>,
    pub fields: Vec<FieldItem<'a>>,
}

/// The contents of a [`Definition`].
#[verifier::ext_equal]
pub struct DefinitionView {
    pub attrs: Seq<AttrView>,
    pub vis: Seq<Token>,
    pub name: Seq<char>,
    pub generics: Seq<Token>,
    pub generic: bool,
    pub bits: Option<Seq<Token>>,
    pub fields: Seq<FieldItemView>,
}

impl<'a> View for Definition<'a> {
    type V = DefinitionView;

    open spec fn view(&self) -> DefinitionView {
        DefinitionView {
            attrs: pieces::attr_views(self.attrs@),
            vis: self.vis@,
            name: self.name@,
            generics: self.generics@,
            generic: self.generic,
            bits: pieces::optional(self.bits),
            fields: field_views(self.fields@),
        }
    }
}

/// The generic parameters at `pos`, and whether there are any.
pub open spec fn generics_at(s: Seq<Token>, pos: int) -> Result<
    (Seq<Token>, bool, int),
    ErrorView,
> {
    match syntax::left_behind_generics(token::text(s.skip(pos))) {
        Err(detail) => Err(ErrorView::Rust(detail)),
        Ok((left, any)) => match pieces::consumed(s, pos, left) {
            Err(e) => Err(e),
            Ok((tokens, end)) => Ok((tokens, any, end)),
        },
    }
}

pub(crate) fn parse_generics<'a>(s: &'a [Token], pos: usize) -> (r: Result<
    (&'a [Token], bool, usize),
    DefinitionError,
>)
    requires
        pos <= s@.len(),
    ensures
        match r {
            Ok((tokens, any, end)) => generics_at(s@, pos as int) == Ok::<_, ErrorView>(
                (tokens@, any, end as int),
            ),
            Err(e) => generics_at(s@, pos as int) == Err::<(Seq<Token>, bool, int), _>(e@),
        },
{
    let text = pieces::text_from(s, pos);
    match syntax::generics(text.as_str()) {
        Ok((left, any)) => match pieces::take_consumed(s, pos, left) {
            Ok((tokens, end)) => Ok((tokens, any, end)),
            Err(e) => Err(e),
        },
        Err(detail) => Err(pieces::rust_error(detail)),
    }
}

/// The width annotation at `pos`, if there is one: the expression behind `bits`, and whether it
/// fills the parentheses.
pub open spec fn width_annotation(s: Seq<Token>, pos: int) -> Result<
    (Option<Seq<Token>>, bool, int),
    ErrorView,
> {
    if pieces::is_group(s, pos, Delimiter::Parenthesis) {
        let inner = pieces::inside(s, pos);
        if pieces::is_word(inner, 0, "bits"@) {
            match pieces::expression_at(inner, 1) {
                Err(e) => Err(e),
                Ok((bits, end)) => Ok((Some(bits), end == inner.len(), pos + 1)),
            }
        } else {
            Err(ErrorView::Plain(ErrorKind::ExpectedBits))
        }
    } else {
        Ok((None, true, pos))
    }
}

fn parse_width<'a>(s: &'a [Token], pos: usize) -> (r: Result<
    (Option<&'a [Token]>, bool, usize),
    DefinitionError,
>)
    requires
        pos <= s@.len(),
    ensures
        match r {
            Ok((bits, filled, end)) => width_annotation(s@, pos as int) == Ok::<_, ErrorView>(
                (pieces::optional(bits), filled, end as int),
            ),
            Err(e) => width_annotation(s@, pos as int) == Err::<
                (Option<Seq<Token>>, bool, int),
                _,
            >(e@),
        },
{
    match pieces::group_at(s, pos, Delimiter::Parenthesis) {
        Some(inner) => if pieces::word_at(inner, 0, "bits") {
            match pieces::parse_expression(inner, 1) {
                Ok((bits, end)) => Ok((Some(bits), end == inner.len(), pos + 1)),
                Err(e) => Err(e),
            }
        } else {
            Err(DefinitionError::new(ErrorKind::ExpectedBits))
        },
        None => Ok((None, true, pos)),
    }
}

/// The definition that the tokens are.
pub open spec fn definition_of(s: Seq<Token>) -> Result<DefinitionView, ErrorView> {
    match pieces::attributes_at(s, 0) {
        Err(e) => Err(e),
        Ok((attrs, start)) => match pieces::visibility_at(s, start) {
            Err(e) => Err(e),
            Ok((vis, keyword)) => if !pieces::is_word(s, keyword, "struct"@) {
                Err(ErrorView::Plain(ErrorKind::ExpectedStruct))
            } else {
                match pieces::identifier_at(s, keyword + 1) {
                    Err(e) => Err(e),
                    Ok((name, named)) => match generics_at(s, named) {
                        Err(e) => Err(e),
                        Ok((generics, generic, wide)) => match width_annotation(s, wide) {
                            Err(e) => Err(e),
                            Ok((bits, filled, body)) => if !pieces::is_group(
                                s,
                                body,
                                Delimiter::Brace,
                            ) {
                                Err(ErrorView::Plain(ErrorKind::ExpectedBraces))
                            } else {
                                match fields_from(pieces::inside(s, body), 0) {
                                    Err(e) => Err(e),
                                    Ok(fields) => if !filled || body + 1 != s.len() {
                                        Err(ErrorView::Plain(ErrorKind::UnexpectedToken))
                                    } else {
                                        Ok(
                                            DefinitionView {
                                                attrs,
                                                vis,
                                                name,
                                                generics,
                                                generic,
                                                bits,
                                                fields,
                                            },
                                        )
                                    },
                                }
                            },
                        },
                    },
                }
            },
        },
    }
}

/// Parses a definition.
pub fn parse_definition<'a>(s: &'a [Token]) -> (r: Result<Definition<'a>, DefinitionError>)
    ensures
        match r {
            Ok(definition) => definition_of(s@) == Ok::<_, ErrorView>(definition@),
            Err(e) => definition_of(s@) == Err::<DefinitionView, _>(e@),
        },
{
    let (attrs, start) = match pieces::parse_attributes(s, 0) {
        Ok(found) => found,
        Err(e) => {
            return Err(e);
        },
    };
    let (vis, keyword) = match pieces::parse_visibility(s, start) {
        Ok(found) => found,
        Err(e) => {
            return Err(e);
        },
    };
    if !pieces::word_at(s, keyword, "struct") {
        return Err(DefinitionError::new(ErrorKind::ExpectedStruct));
    }
    let (name, named) = match pieces::parse_identifier(s, keyword + 1) {
        Ok(found) => found,
        Err(e) => {
            return Err(e);
        },
    };
    let (generics, generic, wide) = match parse_generics(s, named) {
        Ok(found) => found,
        Err(e) => {
            return Err(e);
        },
    };
    let (bits, filled, body) = match parse_width(s, wide) {
        Ok(found) => found,
        Err(e) => {
            return Err(e);
        },
    };
    let inner = match pieces::group_at(s, body, Delimiter::Brace) {
        Some(inner) => inner,
        None => {
            return Err(DefinitionError::new(ErrorKind::ExpectedBraces));
        },
    };
    let fields = match parse_fields(inner) {
        Ok(fields) => fields,
        Err(e) => {
            return Err(e);
        },
    };
    if !filled || body + 1 != s.len() {
        return Err(DefinitionError::new(ErrorKind::UnexpectedToken));
    }
    Ok(Definition { attrs, vis, name, generics, generic, bits, fields })
}

/// The attributes that a field keeps are not those of the definition language.
pub proof fn field_keeps_foreign_attributes(s: Seq<Token>, pos: int)
    ensures
        field_attributes(s, pos) matches Ok((attrs, _, _, _)) ==> {
            &&& !pieces::has_attr(attrs, "fallible"@)
            &&& !pieces::has_attr(attrs, "zeroedoption"@)
            &&& !pieces::has_attr(attrs, "storage"@)
        },
{
    reveal_strlit("fallible");
    reveal_strlit("zeroedoption");
    reveal_strlit("storage");
    assert("fallible"@.len() != "zeroedoption"@.len());
    assert("storage"@.len() != "zeroedoption"@.len());
    assert("storage"@.len() != "fallible"@.len());
    if let Ok((all, _)) = pieces::attributes_at(s, pos) {
        let rest = pieces::without_attr(all, "zeroedoption"@);
        pieces::removed_attr_is_gone(all, "zeroedoption"@, "fallible"@);
        pieces::storage_is_taken_out(rest);
        pieces::removed_attr_is_gone(rest, "storage"@, "fallible"@);
        pieces::removed_attr_is_gone(rest, "storage"@, "zeroedoption"@);
    }
}

} // verus!

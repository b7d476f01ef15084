//! The storage that a definition asks for: which types are native multi-byte integers, and the
//! endian-aware types that stand in for them.
use crate::macros::error::{DefinitionError, ErrorKind, ErrorView};
use crate::macros::pieces;
use crate::macros::pieces::{Attr, AttrView};
use crate::macros::syntax;
use crate::macros::syntax::{TypeShape, TypeShapeView};
use crate::macros::token;
use crate::macros::token::{Delimiter, Token};
use vstd::prelude::*;

verus! {

/// The byte order that a definition gives its native multi-byte integers.
#[derive(Clone, Copy, Debug, PartialEq, Eq, Structural)]
pub enum DefaultEndian {
    Little,
    Big,
}

/// The byte order that a name stands for.
pub open spec fn named_endian(name: Seq<char>) -> Option<DefaultEndian> {
    if name == "little"@ {
        Some(DefaultEndian::Little)
    } else if name == "big"@ {
        Some(DefaultEndian::Big)
    } else {
        None
    }
}

/// The byte order that a name stands for.
pub fn endian_named(name: &String) -> (r: Option<DefaultEndian>)
    ensures
        r == named_endian(name@),
{
    if *name == "little".to_owned() {
        Some(DefaultEndian::Little)
    } else if *name == "big".to_owned() {
        Some(DefaultEndian::Big)
    } else {
        None
    }
}

/// Splits `#[endian(...)]` off the attributes; there may be one, and it names a byte order.
pub open spec fn split_endian(attrs: Seq<AttrView>) -> Result<
    (Seq<AttrView>, Option<DefaultEndian>),
    ErrorView,
>
    decreases attrs.len(),
{
    if attrs.len() == 0 {
        Ok((Seq::empty(), None))
    } else {
        let attr = attrs.last();
        match split_endian(attrs.drop_last()) {
            Err(e) => Err(e),
            Ok((kept, endian)) => if attr.name != Some("endian"@) {
                Ok((kept.push(attr), endian))
            } else {
                match syntax::identifier_argument_of(token::text(attr.tokens)) {
                    Err(detail) => Err(ErrorView::Rust(detail)),
                    Ok(name) => match named_endian(name) {
                        None => Err(ErrorView::Plain(ErrorKind::UnknownEndian)),
                        Some(order) => if endian is Some {
                            Err(ErrorView::Plain(ErrorKind::DuplicateEndian))
                        } else {
                            Ok((kept, Some(order)))
                        },
                    },
                }
            },
        }
    }
}

/// A mistake in the first attributes is the mistake of all.
proof fn split_endian_fails(attrs: Seq<AttrView>, n: int)
    requires
        0 <= n <= attrs.len(),
        split_endian(attrs.take(n)) is Err,
    ensures
        split_endian(attrs) == split_endian(attrs.take(n)),
    decreases attrs.len() - n,
{
    if n == attrs.len() {
        assert(attrs.take(n) =~= attrs);
    } else {
        assert(attrs.take(n + 1).drop_last() =~= attrs.take(n));
        split_endian_fails(attrs, n + 1);
    }
}

/// The contents of borrowed attributes.
pub open spec fn attr_ref_views(attrs: Seq<&Attr>) -> Seq<AttrView> {
    Seq::new(attrs.len(), |i: int| attrs[i]@)
}

/// Tells `#[endian(...)]` apart from the other attributes.
pub fn extract_default_endian<'d, 'a>(attrs: &'d Vec<Attr<'a>>) -> (r: Result<
    (Vec<&'d Attr<'a>>, Option<DefaultEndian>),
    DefinitionError,
>)
    ensures
        match r {
            Ok((kept, endian)) => split_endian(pieces::attr_views(attrs@)) == Ok::<_, ErrorView>(
                (attr_ref_views(kept@), endian),
            ),
            Err(e) => split_endian(pieces::attr_views(attrs@)) == Err::<
                (Seq<AttrView>, Option<DefaultEndian>),
                _,
            >(e@),
        },
{
    let ghost all = pieces::attr_views(attrs@);
    let mut kept: Vec<&'d Attr<'a>> = Vec::new();
    let mut endian: Option<DefaultEndian> = None;
    let mut i: usize = 0;
    assert(attr_ref_views(kept@) =~= Seq::empty());
    while i < attrs.len()
        invariant
            i <= attrs@.len(),
            all == pieces::attr_views(attrs@),
            split_endian(all.take(i as int)) == Ok::<_, ErrorView>(
                (attr_ref_views(kept@), endian),
            ),
        decreases attrs@.len() - i,
    {
        let attr = &attrs[i];
        proof {
            assert(all.take(i + 1).drop_last() =~= all.take(i as int));
            assert(all.take(i + 1).last() == attr@);
        }
        if !pieces::named(attr, "endian") {
            let ghost old_kept = attr_ref_views(kept@);
            kept.push(attr);
            assert(attr_ref_views(kept@) =~= old_kept.push(attr@));
        } else {
            let text = token::render(attr.tokens);
            let name = match syntax::identifier_argument(text.as_str()) {
                Ok(name) => name,
                Err(detail) => {
                    proof {
                        split_endian_fails(all, i + 1);
                    }
                    return Err(pieces::rust_error(detail));
                },
            };
            let order = match endian_named(&name) {
                Some(order) => order,
                None => {
                    proof {
                        split_endian_fails(all, i + 1);
                    }
                    return Err(DefinitionError::new(ErrorKind::UnknownEndian));
                },
            };
            if endian.is_some() {
                proof {
                    split_endian_fails(all, i + 1);
                }
                return Err(DefinitionError::new(ErrorKind::DuplicateEndian));
            }
            endian = Some(order);
        }
        i += 1;
    }
    assert(all.take(i as int) =~= all);
    Ok((kept, endian))
}

/// Whether a name is that of a native integer of several bytes.
pub open spec fn is_native_name(name: Seq<char>) -> bool {
    ||| name == "u16"@
    ||| name == "u32"@
    ||| name == "u64"@
    ||| name == "i16"@
    ||| name == "i32"@
    ||| name == "i64"@
}

/// The native multi-byte integer that a type is, if it is one.
pub open spec fn native_name(ty: Seq<Token>) -> Option<Seq<char>> {
    match syntax::type_shape_of(token::text(ty)) {
        Ok(shape) => native_name_in(shape),
        Err(_) => None,
    }
}

/// The native multi-byte integer that a type of the given shape is, if it is one.
pub open spec fn native_name_in(shape: TypeShapeView) -> Option<Seq<char>> {
    match shape {
        TypeShapeView::Path(qualified, segments) => if !qualified && segments.len() == 1
            && is_native_name(segments[0]) {
            Some(segments[0])
        } else {
            None
        },
        TypeShapeView::Other => None,
    }
}

/// The position of the first `;`, or the number of tokens.
pub open spec fn semicolon(s: Seq<Token>, i: int) -> int
    decreases s.len() - i,
{
    if i >= s.len() || pieces::is_punct(s, i, ";"@) {
        i
    } else {
        semicolon(s, i + 1)
    }
}

/// Whether a type is an array: a type, `;` and a length in brackets.
pub open spec fn is_array(ty: Seq<Token>) -> bool {
    &&& ty.len() == 1
    &&& pieces::is_group(ty, 0, Delimiter::Bracket)
    &&& semicolon(pieces::inside(ty, 0), 0) < pieces::inside(ty, 0).len()
    &&& syntax::type_shape_of(token::text(ty)) is Ok
}

/// The element type of an array type.
pub open spec fn array_element(ty: Seq<Token>) -> Seq<Token> {
    let inner = pieces::inside(ty, 0);
    inner.subrange(0, semicolon(inner, 0))
}

/// The length of an array type.
pub open spec fn array_length(ty: Seq<Token>) -> Seq<Token> {
    let inner = pieces::inside(ty, 0);
    inner.subrange(semicolon(inner, 0) + 1, inner.len() as int)
}

proof fn semicolon_bounds(s: Seq<Token>, i: int)
    requires
        0 <= i <= s.len(),
    ensures
        i <= semicolon(s, i) <= s.len(),
    decreases s.len() - i,
{
    if i < s.len() && !pieces::is_punct(s, i, ";"@) {
        semicolon_bounds(s, i + 1);
    }
}

/// The element type is a smaller part of an array type.
pub proof fn element_is_smaller(ty: Seq<Token>)
    requires
        is_array(ty),
    ensures
        decreases_to!(ty => array_element(ty)),
{
    semicolon_bounds(pieces::inside(ty, 0), 0);
    match ty[0] {
        Token::Group(_, inner) => {
            assert(decreases_to!(ty => ty[0]));
            assert(decreases_to!(ty[0] => inner));
            assert(decreases_to!(inner => inner@));
            assert(decreases_to!(inner@ => inner@.subrange(0, semicolon(inner@, 0))));
        },
        _ => {},
    }
}

/// Whether a type is a native multi-byte integer or an array of such.
pub open spec fn has_native(ty: Seq<Token>) -> bool
    decreases ty,
{
    if native_name(ty) is Some {
        true
    } else if is_array(ty) {
        proof {
            element_is_smaller(ty);
        }
        has_native(array_element(ty))
    } else {
        false
    }
}

/// The text of a type with its native multi-byte integer replaced by the endian-aware one of the
/// given byte order; `None` if there is nothing to replace.
pub open spec fn endian_text(ty: Seq<Token>, order: DefaultEndian) -> Option<Seq<char>>
    decreases ty,
{
    match native_name(ty) {
        Some(name) => Some(
            name + match order {
                DefaultEndian::Little => "_le"@,
                DefaultEndian::Big => "_be"@,
            },
        ),
        None => if is_array(ty) {
            proof {
                element_is_smaller(ty);
            }
            match endian_text(array_element(ty), order) {
                Some(element) => Some(
                    "["@ + element + " ; "@ + token::text(array_length(ty)) + "]"@,
                ),
                None => None,
            }
        } else {
            None
        },
    }
}

/// There is something to replace in a type exactly if it has a native multi-byte integer.
pub proof fn endian_text_exists(ty: Seq<Token>, order: DefaultEndian)
    ensures
        endian_text(ty, order) is Some == has_native(ty),
    decreases ty,
{
    if native_name(ty) is None && is_array(ty) {
        element_is_smaller(ty);
        endian_text_exists(array_element(ty), order);
    }
}

fn is_native(name: &String) -> (r: bool)
    ensures
        r == is_native_name(name@),
{
    *name == "u16".to_owned() || *name == "u32".to_owned() || *name == "u64".to_owned() || *name
        == "i16".to_owned() || *name == "i32".to_owned() || *name == "i64".to_owned()
}

/// The name of the native multi-byte integer that a type is, if it is one.
fn native_multibyte_name(ty: &[Token]) -> (r: Option<String>)
    ensures
        match r {
            Some(name) => native_name(ty@) == Some(name@),
            None => native_name(ty@) is None,
        },
{
    let text = token::render(ty);
    match syntax::type_shape(text.as_str()) {
        Ok(shape) => native_multibyte_in(shape),
        Err(_) => None,
    }
}

/// The name of the native multi-byte integer that a type of the given shape is, if it is one.
pub fn native_multibyte_in(shape: TypeShape) -> (r: Option<String>)
    ensures
        match r {
            Some(name) => native_name_in(shape.view()) == Some(name@),
            None => native_name_in(shape.view()) is None,
        },
{
    match shape {
        TypeShape::Path(qualified, segments) => {
            if !qualified && segments.len() == 1 && is_native(&segments[0]) {
                let mut segments = segments;
                Some(segments.swap_remove(0))
            } else {
                None
            }
        },
        TypeShape::Other => None,
    }
}

/// Whether a type is a native multi-byte integer.
pub fn is_native_multibyte(ty: &[Token]) -> (r: bool)
    ensures
        r == (native_name(ty@) is Some),
{
    native_multibyte_name(ty).is_some()
}

/// The element type and the length of an array type.
pub fn deconstruct_array<'a>(ty: &'a [Token]) -> (r: Option<(&'a [Token], &'a [Token])>)
    ensures
        match r {
            Some((element, length)) => is_array(ty@) && element@ == array_element(ty@)
                && length@ == array_length(ty@),
            None => !is_array(ty@),
        },
{
    if ty.len() != 1 {
        return None;
    }
    let inner = match pieces::group_at(ty, 0, Delimiter::Bracket) {
        Some(inner) => inner,
        None => {
            return None;
        },
    };
    let mut i: usize = 0;
    while i < inner.len() && !pieces::punct_at(inner, i, ";")
        invariant
            i <= inner.len(),
            semicolon(inner@, 0) == semicolon(inner@, i as int),
        decreases inner.len() - i,
    {
        i += 1;
    }
    if i >= inner.len() {
        return None;
    }
    let text = token::render(ty);
    match syntax::type_shape(text.as_str()) {
        Ok(_) => Some((pieces::part(inner, 0, i), pieces::part(inner, i + 1, inner.len()))),
        Err(_) => None,
    }
}

/// Whether a type is a native multi-byte integer or an array of such.
pub fn contains_native_multibyte(ty: &[Token]) -> (r: bool)
    ensures
        r == has_native(ty@),
    decreases ty@,
{
    if is_native_multibyte(ty) {
        return true;
    }
    match deconstruct_array(ty) {
        Some((element, _)) => {
            proof {
                element_is_smaller(ty@);
            }
            contains_native_multibyte(element)
        },
        None => false,
    }
}

/// The text of a type with its native multi-byte integer replaced by the endian-aware one.
pub fn endian_storage_type(ty: &[Token], order: DefaultEndian) -> (r: Option<String>)
    ensures
        match r {
            Some(text) => endian_text(ty@, order) == Some(text@),
            None => endian_text(ty@, order) is None,
        },
    decreases ty@,
{
    match native_multibyte_name(ty) {
        Some(name) => {
            let suffix = match order {
                DefaultEndian::Little => "_le",
                DefaultEndian::Big => "_be",
            };
            Some(name.concat(suffix))
        },
        None => match deconstruct_array(ty) {
            Some((element, length)) => {
                proof {
                    element_is_smaller(ty@);
                }
                match endian_storage_type(element, order) {
                    Some(element) => {
                        let length = token::render(length);
                        let text = "[".to_owned().concat(element.as_str()).concat(" ; ").concat(
                            length.as_str(),
                        ).concat("]");
                        Some(text)
                    },
                    None => None,
                }
            },
            None => None,
        },
    }
}

/// A storage type: a type as it is written, or with its native multi-byte integer replaced.
#[derive(Clone, Copy)]
pub struct Storage<'a> {
    pub written: &'a [Token],
    pub order: Option<DefaultEndian>,
}

/// The contents of a [`Storage`].
#[verifier::ext_equal]
pub struct StorageView {
    pub written: Seq<Token>,
    pub order: Option<DefaultEndian>,
}

impl<'a> View for Storage<'a> {
    type V = StorageView;

    open spec fn view(&self) -> StorageView {
        StorageView { written: self.written@, order: self.order }
    }
}

impl StorageView {
    /// The text of the storage type.
    pub open spec fn text(self) -> Seq<char> {
        match self.order {
            None => token::text(self.written),
            Some(order) => match endian_text(self.written, order) {
                Some(text) => text,
                None => token::text(self.written),
            },
        }
    }
}

impl<'a> Storage<'a> {
    /// The text of the storage type.
    pub fn text(&self) -> (r: String)
        ensures
            r@ == self@.text(),
    {
        match self.order {
            None => token::render(self.written),
            Some(order) => match endian_storage_type(self.written, order) {
                Some(text) => text,
                None => token::render(self.written),
            },
        }
    }
}

/// The storage of a field: the type in `#[storage(...)]` or else its own, in the definition's
/// byte order if it has a native multi-byte integer, for which there must be one.
pub open spec fn storage_of(
    native: Seq<Token>,
    storage: Option<Seq<Token>>,
    default: Option<DefaultEndian>,
) -> Result<StorageView, ErrorView> {
    let written = match storage {
        Some(ty) => ty,
        None => native,
    };
    if !has_native(written) {
        Ok(StorageView { written, order: None })
    } else if default is None {
        Err(ErrorView::Plain(ErrorKind::NeedsEndian))
    } else {
        Ok(StorageView { written, order: default })
    }
}

/// The storage of a field.
pub fn resolve_storage<'a>(
    native: &'a [Token],
    storage: Option<&'a [Token]>,
    default: Option<DefaultEndian>,
) -> (r: Result<Storage<'a>, DefinitionError>)
    ensures
        match r {
            Ok(found) => storage_of(native@, pieces::optional(storage), default) == Ok::<
                _,
                ErrorView,
            >(found@),
            Err(e) => storage_of(native@, pieces::optional(storage), default) == Err::<
                StorageView,
                _,
            >(e@),
        },
{
    let written = match storage {
        Some(ty) => ty,
        None => native,
    };
    if !contains_native_multibyte(written) {
        Ok(Storage { written, order: None })
    } else if default.is_none() {
        Err(DefinitionError::new(ErrorKind::NeedsEndian))
    } else {
        Ok(Storage { written, order: default })
    }
}

/// Splitting the byte order off leaves exactly the other attributes in order, and there is a byte
/// order exactly if there was such an attribute.
pub proof fn endian_is_taken_out(attrs: Seq<AttrView>)
    ensures
        split_endian(attrs) matches Ok((kept, endian)) ==> {
            &&& kept == pieces::without_attr(attrs, "endian"@)
            &&& endian is Some == pieces::has_attr(attrs, "endian"@)
        },
    decreases attrs.len(),
{
    reveal(Seq::filter);
    if attrs.len() > 0 {
        endian_is_taken_out(attrs.drop_last());
        pieces::has_attr_last(attrs, "endian"@);
    }
}

} // verus!

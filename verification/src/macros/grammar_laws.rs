//! What holds of parsed definitions: their parts are the tokens that they were parsed from, one
//! behind the other.
use crate::macros::definition;
use crate::macros::definition::{FieldItemView, SubfieldItemView};
use crate::macros::error::{ErrorKind, ErrorView};
use crate::macros::pieces;
use crate::macros::pieces::AttrView;
use crate::macros::syntax;
use crate::macros::token;
use crate::macros::token::{Delimiter, Token};
use vstd::prelude::*;

verus! {

/// Whether tokens are those from `pos` up to `end`.
pub open spec fn lies_at(tokens: Seq<Token>, s: Seq<Token>, pos: int, end: int) -> bool {
    &&& 0 <= pos <= end <= s.len()
    &&& tokens.len() == end - pos
    &&& forall|i: int| 0 <= i < tokens.len() ==> #[trigger] tokens[i] == s[pos + i]
}

/// A visibility is the tokens from where it starts up to where as many are left as the parser of
/// Rust's syntax leaves behind it.
pub proof fn visibility_lies_at(s: Seq<Token>, pos: int)
    requires
        0 <= pos <= s.len(),
    ensures
        match pieces::visibility_at(s, pos) {
            Ok((tokens, end)) => lies_at(tokens, s, pos, end) && syntax::left_behind_visibility(
                token::text(s.skip(pos)),
            ) == Ok::<nat, Seq<char>>((s.len() - end) as nat),
            Err(e) => match syntax::left_behind_visibility(token::text(s.skip(pos))) {
                Ok(left) => left > s.len() - pos && e == ErrorView::Plain(
                    ErrorKind::UnexpectedToken,
                ),
                Err(detail) => e == ErrorView::Rust(detail),
            },
        },
{
}

/// An expression is the tokens from where it starts up to where as many are left as the parser of
/// Rust's syntax leaves behind it.
pub proof fn expression_lies_at(s: Seq<Token>, pos: int)
    requires
        0 <= pos <= s.len(),
    ensures
        match pieces::expression_at(s, pos) {
            Ok((tokens, end)) => lies_at(tokens, s, pos, end) && syntax::left_behind_expression(
                token::text(s.skip(pos)),
            ) == Ok::<nat, Seq<char>>((s.len() - end) as nat),
            Err(e) => match syntax::left_behind_expression(token::text(s.skip(pos))) {
                Ok(left) => left > s.len() - pos && e == ErrorView::Plain(
                    ErrorKind::UnexpectedToken,
                ),
                Err(detail) => e == ErrorView::Rust(detail),
            },
        },
{
}

/// Generic parameters are the tokens from where they start up to where as many are left as the
/// parser of Rust's syntax leaves behind them, and there are any if it says so.
pub proof fn generics_lie_at(s: Seq<Token>, pos: int)
    requires
        0 <= pos <= s.len(),
    ensures
        match definition::generics_at(s, pos) {
            Ok((tokens, any, end)) => lies_at(tokens, s, pos, end) && syntax::left_behind_generics(
                token::text(s.skip(pos)),
            ) == Ok::<(nat, bool), Seq<char>>(((s.len() - end) as nat, any)),
            Err(e) => match syntax::left_behind_generics(token::text(s.skip(pos))) {
                Ok((left, _)) => left > s.len() - pos && e == ErrorView::Plain(
                    ErrorKind::UnexpectedToken,
                ),
                Err(detail) => e == ErrorView::Rust(detail),
            },
        },
{
}

/// A name is one token that the parser of Rust's syntax takes for an identifier.
pub proof fn identifier_lies_at(s: Seq<Token>, pos: int)
    ensures
        match pieces::identifier_at(s, pos) {
            Ok((name, end)) => {
                &&& 0 <= pos < s.len() && end == pos + 1
                &&& s[pos] matches Token::Ident(found) && found@ == name
                &&& syntax::is_identifier(name)
            },
            Err(e) => {
                &&& e == ErrorView::Plain(ErrorKind::ExpectedIdentifier)
                &&& 0 <= pos < s.len() ==> !(s[pos] matches Token::Ident(found)
                    && syntax::is_identifier(found@))
            },
        },
{
}

/// Attributes are two tokens each, one behind the other, with the names that the parser of Rust's
/// syntax finds.
pub proof fn attributes_lie_at(s: Seq<Token>, pos: int)
    requires
        0 <= pos <= s.len(),
    ensures
        match pieces::attributes_at(s, pos) {
            Ok((attrs, end)) => {
                &&& syntax::outer_attribute_names(token::text(s.skip(pos))) matches Ok(names)
                &&& names.len() == attrs.len()
                &&& end == pos + 2 * attrs.len() && end <= s.len()
                &&& forall|k: int|
                    0 <= k < attrs.len() ==> (#[trigger] attrs[k]).name == names[k] && lies_at(
                        attrs[k].tokens,
                        s,
                        pos + 2 * k,
                        pos + 2 * k + 2,
                    )
            },
            Err(e) => match syntax::outer_attribute_names(token::text(s.skip(pos))) {
                Ok(names) => pos + 2 * names.len() > s.len() && e == ErrorView::Plain(
                    ErrorKind::UnexpectedToken,
                ),
                Err(detail) => e == ErrorView::Rust(detail),
            },
        },
{
}

/// Whether attribute `i` is the only one named `storage`, and its last group has the given tokens.
pub open spec fn holds_storage(attrs: Seq<AttrView>, i: int, ty: Seq<Token>) -> bool {
    &&& 0 <= i < attrs.len()
    &&& attrs[i].name == Some("storage"@)
    &&& attrs[i].tokens.len() == 2
    &&& attrs[i].tokens[1] matches Token::Group(_, content) && content@.len() > 0 && (
    content@.last() matches Token::Group(_, arguments) && arguments@ == ty)
    &&& syntax::type_argument_of(token::text(attrs[i].tokens)) is Ok
    &&& forall|k: int|
        0 <= k < attrs.len() && k != i ==> (#[trigger] attrs[k]).name != Some("storage"@)
}

/// The storage type of a field is the argument of its one `storage` attribute, and there is none
/// exactly if there is no such attribute.
pub proof fn storage_is_named(attrs: Seq<AttrView>)
    ensures
        pieces::split_storage(attrs) matches Ok((_, Some(ty))) ==> exists|i: int|
            #[trigger] holds_storage(attrs, i, ty),
        pieces::split_storage(attrs) matches Ok((_, None)) ==> forall|i: int|
            0 <= i < attrs.len() ==> (#[trigger] attrs[i]).name != Some("storage"@),
    decreases attrs.len(),
{
    if attrs.len() > 0 {
        let front = attrs.drop_last();
        let last = attrs.len() - 1;
        storage_is_named(front);
        match pieces::split_storage(front) {
            Err(_) => {},
            Ok((_, found)) => {
                match found {
                    Some(ty) => {
                        let i = choose|i: int| #[trigger] holds_storage(front, i, ty);
                        if attrs.last().name != Some("storage"@) {
                            assert forall|k: int| 0 <= k < attrs.len() && k != i implies (
                            #[trigger] attrs[k]).name != Some("storage"@) by {
                                if k < last {
                                    assert(front[k].name != Some("storage"@));
                                }
                            }
                            assert(holds_storage(attrs, i, ty));
                        }
                    },
                    None => {
                        assert forall|k: int| 0 <= k < last implies (#[trigger] attrs[k]).name
                            != Some("storage"@) by {
                            assert(front[k].name != Some("storage"@));
                        }
                        if let Ok((_, Some(ty))) = pieces::split_storage(attrs) {
                            assert(holds_storage(attrs, last, ty));
                        }
                    },
                }
            },
        }
    }
}

/// How many angle brackets are open in front of token `i` of a type that starts at `from`.
pub open spec fn open_brackets(s: Seq<Token>, from: int, i: int) -> int
    decreases i - from,
{
    if i <= from {
        0
    } else {
        open_brackets(s, from, i - 1) + if pieces::is_punct(s, i - 1, "<"@) {
            1int
        } else if pieces::is_punct(s, i - 1, ">"@) {
            -1int
        } else {
            0int
        }
    }
}

/// Whether a type that starts at `from` cannot go on at token `i`: no angle bracket is open, and
/// the token is `as`, a comma, or what announces an offset or packed fields.
pub open spec fn type_stops(s: Seq<Token>, from: int, i: int, packed: bool) -> bool {
    &&& open_brackets(s, from, i) == 0
    &&& {
        ||| pieces::is_word(s, i, "as"@)
        ||| pieces::is_punct(s, i, ","@)
        ||| packed && pieces::is_punct(s, i, "@"@)
        ||| !packed && pieces::is_group(s, i, Delimiter::Brace)
    }
}

proof fn type_goes_on(s: Seq<Token>, from: int, i: int, packed: bool)
    requires
        0 <= from <= i <= s.len(),
    ensures
        ({
            let end = definition::type_end(s, i, open_brackets(s, from, i), packed);
            &&& i <= end <= s.len()
            &&& end < s.len() ==> type_stops(s, from, end, packed)
            &&& forall|k: int| i <= k < end ==> !type_stops(s, from, k, packed)
        }),
    decreases s.len() - i,
{
    if i < s.len() && !type_stops(s, from, i, packed) {
        type_goes_on(s, from, i + 1, packed);
    }
}

/// A type goes on up to the first token at which it stops, or to the end.
pub proof fn type_ends(s: Seq<Token>, from: int, packed: bool)
    requires
        0 <= from <= s.len(),
    ensures
        ({
            let end = definition::type_end(s, from, 0, packed);
            &&& from <= end <= s.len()
            &&& end < s.len() ==> type_stops(s, from, end, packed)
            &&& forall|k: int| from <= k < end ==> !type_stops(s, from, k, packed)
        }),
{
    type_goes_on(s, from, from, packed);
}

/// The attributes of a field that are not those of the definition language stay, in order. A field
/// may be absent exactly if it has the attribute `zeroedoption`, and is refused if it has
/// `fallible`.
pub proof fn field_attributes_lie_at(s: Seq<Token>, pos: int)
    ensures
        definition::field_attributes(s, pos) matches Ok((attrs, zeroed, storage, end)) ==> {
            &&& pieces::attributes_at(s, pos) matches Ok((all, all_end))
            &&& all_end == end
            &&& zeroed <==> exists|i: int|
                0 <= i < all.len() && (#[trigger] all[i]).name == Some("zeroedoption"@)
            &&& forall|i: int| 0 <= i < all.len() ==> (#[trigger] all[i]).name != Some("fallible"@)
            &&& pieces::split_storage(
                all.filter(|attr: AttrView| attr.name != Some("zeroedoption"@)),
            ) == Ok::<_, ErrorView>((attrs, storage))
        },
        definition::field_attributes(s, pos) matches Err(e) ==> (pieces::attributes_at(
            s,
            pos,
        ) matches Ok((all, _)) ==> ((exists|i: int|
            0 <= i < all.len() && (#[trigger] all[i]).name == Some("fallible"@)) ==> e
            == ErrorView::Plain(ErrorKind::FallibleAttribute))),
{
    if let Ok((all, _)) = pieces::attributes_at(s, pos) {
        assert(pieces::without_attr(all, "zeroedoption"@) == all.filter(
            |attr: AttrView| attr.name != Some("zeroedoption"@),
        ));
    }
}

/// Whether an expression lies behind a token that announces it, or there is none and nothing
/// announces one.
pub open spec fn announced_at(
    found: Option<Seq<Token>>,
    s: Seq<Token>,
    pos: int,
    end: int,
    announced: bool,
) -> bool {
    match found {
        Some(tokens) => announced && lies_at(tokens, s, pos + 1, end),
        None => !announced && end == pos,
    }
}

/// A packed field is its attributes, a visibility, a name and `:`, a type, and possibly `@` and an
/// offset and `stride` and a distance; or, behind `pad`, a number of unused bits. Nothing is left
/// out in between.
pub proof fn packed_field_lies_at(s: Seq<Token>, pos: int)
    requires
        0 <= pos <= s.len(),
    ensures
        definition::subfield_at(s, pos) matches Ok((item, end)) ==> {
            &&& definition::field_attributes(s, pos) matches Ok((attrs, zeroed, storage, start))
            &&& match item {
                SubfieldItemView::Padding(bits) => pieces::is_word(s, start, "pad"@) && lies_at(
                    bits,
                    s,
                    start + 1,
                    end,
                ),
                SubfieldItemView::Value(field) => {
                    let named = start + field.vis.len();
                    let typed = named + 2;
                    let placed = typed + field.native.len();
                    let spaced = match field.offset {
                        Some(offset) => placed + 1 + offset.len(),
                        None => placed,
                    };
                    &&& !pieces::is_word(s, start, "pad"@)
                    &&& field.attrs == attrs && field.zeroed == zeroed && field.storage == storage
                    &&& lies_at(field.vis, s, start, named)
                    &&& pieces::identifier_at(s, named) == Ok::<_, ErrorView>(
                        (field.name, named + 1),
                    )
                    &&& pieces::is_punct(s, named + 1, ":"@)
                    &&& lies_at(field.native, s, typed, placed)
                    &&& placed < s.len() ==> type_stops(s, typed, placed, true)
                    &&& forall|k: int| typed <= k < placed ==> !type_stops(s, typed, k, true)
                    &&& announced_at(
                        field.offset,
                        s,
                        placed,
                        spaced,
                        pieces::is_punct(s, placed, "@"@),
                    )
                    &&& announced_at(
                        field.stride,
                        s,
                        spaced,
                        end,
                        pieces::is_word(s, spaced, "stride"@),
                    )
                },
            }
        },
{
    if let Ok((item, end)) = definition::subfield_at(s, pos) {
        let (attrs, zeroed, storage, start) = definition::field_attributes(s, pos)->Ok_0;
        if pieces::is_word(s, start, "pad"@) {
            expression_lies_at(s, start + 1);
        } else {
            visibility_lies_at(s, start);
            let (vis, named) = pieces::visibility_at(s, start)->Ok_0;
            let (name, typed) = definition::name_and_colon(s, named)->Ok_0;
            type_ends(s, typed, true);
            let placed = definition::type_end(s, typed, 0, true);
            if pieces::is_punct(s, placed, "@"@) {
                expression_lies_at(s, placed + 1);
            }
            let spaced = pieces::announced_expression(
                s,
                placed,
                pieces::is_punct(s, placed, "@"@),
            )->Ok_0.1;
            if pieces::is_word(s, spaced, "stride"@) {
                expression_lies_at(s, spaced + 1);
            }
        }
    }
}

/// A field is its attributes, a visibility or `bits`, a name and `:`, a type, and possibly its
/// packed fields in braces; or, behind `pad`, a number of unused bytes. Nothing is left out in
/// between.
pub proof fn field_lies_at(s: Seq<Token>, pos: int)
    requires
        0 <= pos <= s.len(),
    ensures
        definition::field_at(s, pos) matches Ok((item, end)) ==> {
            &&& definition::field_attributes(s, pos) matches Ok((attrs, _, storage, start))
            &&& match item {
                FieldItemView::Padding(len) => pieces::is_word(s, start, "pad"@) && lies_at(
                    len,
                    s,
                    start + 1,
                    end,
                ),
                FieldItemView::Value(field) => {
                    let bits = pieces::is_word(s, start, "bits"@);
                    let named = if bits {
                        start + 1
                    } else {
                        start + field.vis.len()
                    };
                    let typed = named + 2;
                    let packed = typed + field.native.len();
                    &&& !pieces::is_word(s, start, "pad"@)
                    &&& field.attrs == attrs && field.storage == storage
                    &&& if bits {
                        field.vis.len() == 0
                    } else {
                        lies_at(field.vis, s, start, named)
                    }
                    &&& pieces::identifier_at(s, named) == Ok::<_, ErrorView>(
                        (field.name, named + 1),
                    )
                    &&& pieces::is_punct(s, named + 1, ":"@)
                    &&& lies_at(field.native, s, typed, packed)
                    &&& packed < s.len() ==> type_stops(s, typed, packed, false)
                    &&& forall|k: int| typed <= k < packed ==> !type_stops(s, typed, k, false)
                    &&& match field.subfields {
                        Some(items) => {
                            &&& pieces::is_group(s, packed, Delimiter::Brace)
                            &&& definition::subfields_from(pieces::inside(s, packed), 0) == Ok::<
                                _,
                                ErrorView,
                            >(items)
                            &&& end == packed + 1
                        },
                        None => !pieces::is_group(s, packed, Delimiter::Brace) && end == packed,
                    }
                },
            }
        },
{
    if let Ok((item, end)) = definition::field_at(s, pos) {
        let (attrs, zeroed, storage, start) = definition::field_attributes(s, pos)->Ok_0;
        if pieces::is_word(s, start, "pad"@) {
            expression_lies_at(s, start + 1);
        } else {
            if !pieces::is_word(s, start, "bits"@) {
                visibility_lies_at(s, start);
            }
            let (vis, named) = definition::field_visibility(s, start)->Ok_0;
            let (name, typed) = definition::name_and_colon(s, named)->Ok_0;
            type_ends(s, typed, false);
        }
    }
}

/// Packed fields are parsed one behind the other, with a comma between them and possibly behind the
/// last one.
pub proof fn packed_fields_follow_each_other(s: Seq<Token>, pos: nat)
    ensures
        definition::subfields_from(s, pos) matches Ok(items) ==> if pos >= s.len() {
            items.len() == 0
        } else {
            &&& definition::subfield_at(s, pos as int) matches Ok((item, end))
            &&& items.len() > 0 && items[0] == item
            &&& end < s.len() ==> pieces::is_punct(s, end, ","@) && definition::subfields_from(
                s,
                (end + 1) as nat,
            ) == Ok::<_, ErrorView>(items.skip(1))
            &&& end >= s.len() ==> items.len() == 1
        },
{
    if pos < s.len() {
        definition::subfield_advances(s, pos as int);
        if let Ok((item, end)) = definition::subfield_at(s, pos as int) {
            if end < s.len() {
                if let Ok(rest) = definition::subfields_from(s, (end + 1) as nat) {
                    assert((seq![item] + rest).skip(1) =~= rest);
                }
            }
        }
    }
}

/// Fields are parsed one behind the other, with a comma between them and possibly behind the last
/// one.
pub proof fn fields_follow_each_other(s: Seq<Token>, pos: nat)
    ensures
        definition::fields_from(s, pos) matches Ok(items) ==> if pos >= s.len() {
            items.len() == 0
        } else {
            &&& definition::field_at(s, pos as int) matches Ok((item, end))
            &&& items.len() > 0 && items[0] == item
            &&& end < s.len() ==> pieces::is_punct(s, end, ","@) && definition::fields_from(
                s,
                (end + 1) as nat,
            ) == Ok::<_, ErrorView>(items.skip(1))
            &&& end >= s.len() ==> items.len() == 1
        },
{
    if pos < s.len() {
        definition::field_advances(s, pos as int);
        if let Ok((item, end)) = definition::field_at(s, pos as int) {
            if end < s.len() {
                if let Ok(rest) = definition::fields_from(s, (end + 1) as nat) {
                    assert((seq![item] + rest).skip(1) =~= rest);
                }
            }
        }
    }
}

/// A definition is its attributes, a visibility, `struct`, a name, generic parameters, possibly a
/// width in parentheses behind `bits`, and its fields in braces; there is nothing else.
pub proof fn definition_lies_at(s: Seq<Token>)
    ensures
        definition::definition_of(s) matches Ok(definition) ==> {
            let start = 2 * definition.attrs.len() as int;
            let keyword: int = start + definition.vis.len();
            let named: int = keyword + 2;
            let wide: int = named + definition.generics.len();
            let body: int = s.len() - 1;
            &&& pieces::attributes_at(s, 0) == Ok::<_, ErrorView>(
                (definition.attrs, start),
            )
            &&& lies_at(definition.vis, s, start, keyword)
            &&& pieces::is_word(s, keyword, "struct"@)
            &&& pieces::identifier_at(s, keyword + 1) == Ok::<_, ErrorView>(
                (definition.name, named),
            )
            &&& definition::generics_at(s, named) == Ok::<_, ErrorView>(
                (definition.generics, definition.generic, wide),
            )
            &&& match definition.bits {
                Some(bits) => {
                    &&& pieces::is_group(s, wide, Delimiter::Parenthesis)
                    &&& pieces::is_word(pieces::inside(s, wide), 0, "bits"@)
                    &&& bits =~= pieces::inside(s, wide).skip(1)
                    &&& body == wide + 1
                },
                None => !pieces::is_group(s, wide, Delimiter::Parenthesis) && body == wide,
            }
            &&& pieces::is_group(s, body, Delimiter::Brace)
            &&& definition::fields_from(pieces::inside(s, body), 0) == Ok::<_, ErrorView>(
                definition.fields,
            )
        },
{
    if let Ok(definition) = definition::definition_of(s) {
        attributes_lie_at(s, 0);
        let (attrs, start) = pieces::attributes_at(s, 0)->Ok_0;
        visibility_lies_at(s, start);
        let (vis, keyword) = pieces::visibility_at(s, start)->Ok_0;
        let (name, named) = pieces::identifier_at(s, keyword + 1)->Ok_0;
        generics_lie_at(s, named);
        let (generics, generic, wide) = definition::generics_at(s, named)->Ok_0;
        if pieces::is_group(s, wide, Delimiter::Parenthesis) {
            let inner = pieces::inside(s, wide);
            expression_lies_at(inner, 1);
            let (bits, end) = pieces::expression_at(inner, 1)->Ok_0;
            assert(bits =~= inner.skip(1));
        }
    }
}

/// A packed field is refused only for a mistake in its parts, the first one: in its attributes, the
/// number of unused bits, the visibility or the name; for a missing `:`; for `as` behind its type;
/// or in its offset or its distance.
pub proof fn packed_field_is_refused(s: Seq<Token>, pos: int)
    ensures
        definition::subfield_at(s, pos) matches Err(e) ==> {
            ||| definition::field_attributes(s, pos) == Err::<
                (Seq<AttrView>, bool, Option<Seq<Token>>, int),
                _,
            >(e)
            ||| definition::field_attributes(s, pos) matches Ok((_, _, _, start)) && if pieces::is_word(
                s,
                start,
                "pad"@,
            ) {
                pieces::expression_at(s, start + 1) == Err::<(Seq<Token>, int), _>(e)
            } else {
                ||| pieces::visibility_at(s, start) == Err::<(Seq<Token>, int), _>(e)
                ||| pieces::visibility_at(s, start) matches Ok((_, named)) && {
                    let placed = definition::type_end(s, named + 2, 0, true);
                    let offset = pieces::is_punct(s, placed, "@"@);
                    let spaced = if offset {
                        pieces::expression_at(s, placed + 1)->Ok_0.1
                    } else {
                        placed
                    };
                    if pieces::identifier_at(s, named) is Err {
                        pieces::identifier_at(s, named) == Err::<(Seq<char>, int), _>(e)
                    } else if !pieces::is_punct(s, named + 1, ":"@) {
                        e == ErrorView::Plain(ErrorKind::ExpectedColon)
                    } else if pieces::is_word(s, placed, "as"@) {
                        e == ErrorView::Plain(ErrorKind::AsSyntax)
                    } else if offset && pieces::expression_at(s, placed + 1) is Err {
                        pieces::expression_at(s, placed + 1) == Err::<(Seq<Token>, int), _>(e)
                    } else {
                        &&& pieces::is_word(s, spaced, "stride"@)
                        &&& pieces::expression_at(s, spaced + 1) == Err::<(Seq<Token>, int), _>(e)
                    }
                }
            }
        },
{
}

/// A field is refused only for a mistake in its parts, the first one: in its attributes, the number
/// of unused bytes, the visibility or the name; for a missing `:`; in its type; for `as` behind
/// that; or in its packed fields.
pub proof fn field_is_refused(s: Seq<Token>, pos: int)
    ensures
        definition::field_at(s, pos) matches Err(e) ==> {
            ||| definition::field_attributes(s, pos) == Err::<
                (Seq<AttrView>, bool, Option<Seq<Token>>, int),
                _,
            >(e)
            ||| definition::field_attributes(s, pos) matches Ok((_, _, _, start)) && if pieces::is_word(
                s,
                start,
                "pad"@,
            ) {
                pieces::expression_at(s, start + 1) == Err::<(Seq<Token>, int), _>(e)
            } else if !pieces::is_word(s, start, "bits"@) && pieces::visibility_at(s, start) is Err {
                pieces::visibility_at(s, start) == Err::<(Seq<Token>, int), _>(e)
            } else {
                let named = if pieces::is_word(s, start, "bits"@) {
                    start + 1
                } else {
                    pieces::visibility_at(s, start)->Ok_0.1
                };
                let packed = definition::type_end(s, named + 2, 0, false);
                let shape = syntax::type_shape_of(token::text(s.subrange(named + 2, packed)));
                if pieces::identifier_at(s, named) is Err {
                    pieces::identifier_at(s, named) == Err::<(Seq<char>, int), _>(e)
                } else if !pieces::is_punct(s, named + 1, ":"@) {
                    e == ErrorView::Plain(ErrorKind::ExpectedColon)
                } else if shape is Err {
                    e == ErrorView::NativeType(shape->Err_0)
                } else if pieces::is_word(s, packed, "as"@) {
                    e == ErrorView::Plain(ErrorKind::AsSyntax)
                } else {
                    &&& pieces::is_group(s, packed, Delimiter::Brace)
                    &&& definition::subfields_from(pieces::inside(s, packed), 0) == Err::<
                        Seq<SubfieldItemView>,
                        _,
                    >(e)
                }
            }
        },
{
}

/// Packed fields are refused only for a mistake in one of them or for a missing comma.
pub proof fn packed_fields_are_refused(s: Seq<Token>, pos: nat)
    ensures
        definition::subfields_from(s, pos) matches Err(e) ==> pos < s.len() && match definition::subfield_at(
            s,
            pos as int,
        ) {
            Err(first) => e == first,
            Ok((_, end)) => end < s.len() && if pieces::is_punct(s, end, ","@) {
                definition::subfields_from(s, (end + 1) as nat) == Err::<
                    Seq<SubfieldItemView>,
                    _,
                >(e)
            } else {
                e == ErrorView::Plain(ErrorKind::ExpectedComma)
            },
        },
{
    if pos < s.len() {
        definition::subfield_advances(s, pos as int);
    }
}

/// Fields are refused only for a mistake in one of them or for a missing comma.
pub proof fn fields_are_refused(s: Seq<Token>, pos: nat)
    ensures
        definition::fields_from(s, pos) matches Err(e) ==> pos < s.len() && match definition::field_at(
            s,
            pos as int,
        ) {
            Err(first) => e == first,
            Ok((_, end)) => end < s.len() && if pieces::is_punct(s, end, ","@) {
                definition::fields_from(s, (end + 1) as nat) == Err::<Seq<FieldItemView>, _>(e)
            } else {
                e == ErrorView::Plain(ErrorKind::ExpectedComma)
            },
        },
{
    if pos < s.len() {
        definition::field_advances(s, pos as int);
    }
}

/// A definition is refused only for a mistake in its parts, the first one: in its attributes or its
/// visibility; for a missing `struct`; in its name or its generic parameters; for a missing `bits`
/// in parentheses, or in the width behind it; for missing braces; in its fields; or for tokens that
/// are left over.
pub proof fn definition_is_refused(s: Seq<Token>)
    ensures
        definition::definition_of(s) matches Err(e) ==> {
            ||| pieces::attributes_at(s, 0) == Err::<(Seq<AttrView>, int), _>(e)
            ||| pieces::attributes_at(s, 0) matches Ok((_, start)) && match pieces::visibility_at(
                s,
                start,
            ) {
                Err(first) => e == first,
                Ok((_, keyword)) => if !pieces::is_word(s, keyword, "struct"@) {
                    e == ErrorView::Plain(ErrorKind::ExpectedStruct)
                } else if pieces::identifier_at(s, keyword + 1) is Err {
                    pieces::identifier_at(s, keyword + 1) == Err::<(Seq<char>, int), _>(e)
                } else {
                    match definition::generics_at(s, keyword + 2) {
                        Err(first) => e == first,
                        Ok((_, _, wide)) => {
                            let inner = pieces::inside(s, wide);
                            let annotated = pieces::is_group(s, wide, Delimiter::Parenthesis);
                            let body = if annotated {
                                wide + 1
                            } else {
                                wide
                            };
                            if annotated && !pieces::is_word(inner, 0, "bits"@) {
                                e == ErrorView::Plain(ErrorKind::ExpectedBits)
                            } else if annotated && pieces::expression_at(inner, 1) is Err {
                                pieces::expression_at(inner, 1) == Err::<(Seq<Token>, int), _>(e)
                            } else if !pieces::is_group(s, body, Delimiter::Brace) {
                                e == ErrorView::Plain(ErrorKind::ExpectedBraces)
                            } else if definition::fields_from(pieces::inside(s, body), 0) is Err {
                                definition::fields_from(pieces::inside(s, body), 0) == Err::<
                                    Seq<FieldItemView>,
                                    _,
                                >(e)
                            } else {
                                &&& e == ErrorView::Plain(ErrorKind::UnexpectedToken)
                                &&& body + 1 != s.len() || (annotated && pieces::expression_at(
                                    inner,
                                    1,
                                )->Ok_0.1 != inner.len())
                            }
                        },
                    }
                },
            }
        },
{
}

/// A field with a `storage` attribute is refused for it only if there are two, or if its argument
/// is no type or not in a group.
pub proof fn storage_is_refused(attrs: Seq<AttrView>)
    ensures
        pieces::split_storage(attrs) matches Err(e) ==> exists|i: int|
            0 <= i < attrs.len() && (#[trigger] attrs[i]).name == Some("storage"@) && {
                ||| e == ErrorView::Plain(ErrorKind::DuplicateStorage) && exists|k: int|
                    0 <= k < i && (#[trigger] attrs[k]).name == Some("storage"@)
                ||| syntax::type_argument_of(token::text(attrs[i].tokens)) matches Err(detail) && e
                    == ErrorView::Rust(detail)
                ||| e == ErrorView::Plain(ErrorKind::UnexpectedToken) && pieces::argument_tokens(
                    attrs[i],
                ) is None
            },
    decreases attrs.len(),
{
    if attrs.len() > 0 {
        let front = attrs.drop_last();
        let last = attrs.len() - 1;
        storage_is_refused(front);
        match pieces::split_storage(front) {
            Err(e) => {
                let i = choose|i: int|
                    0 <= i < front.len() && (#[trigger] front[i]).name == Some("storage"@) && {
                        ||| e == ErrorView::Plain(ErrorKind::DuplicateStorage) && exists|k: int|
                            0 <= k < i && (#[trigger] front[k]).name == Some("storage"@)
                        ||| syntax::type_argument_of(token::text(front[i].tokens)) matches Err(
                            detail,
                        ) && e == ErrorView::Rust(detail)
                        ||| e == ErrorView::Plain(ErrorKind::UnexpectedToken)
                            && pieces::argument_tokens(front[i]) is None
                    };
                assert(attrs[i] == front[i]);
                if exists|k: int| 0 <= k < i && (#[trigger] front[k]).name == Some("storage"@) {
                    let k = choose|k: int|
                        0 <= k < i && (#[trigger] front[k]).name == Some("storage"@);
                    assert(attrs[k].name == Some("storage"@));
                }
            },
            Ok((_, found)) => {
                assert(attrs[last] == attrs.last());
                if let Some(ty) = found {
                    storage_is_named(front);
                    let k = choose|k: int| #[trigger] holds_storage(front, k, ty);
                    assert(attrs[k].name == Some("storage"@));
                }
            },
        }
    }
}

} // verus!

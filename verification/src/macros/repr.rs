//! The representation that `#[repr(...)]` gives a type.
use crate::macros::error::{DefinitionError, ErrorKind, ErrorView};
use crate::macros::pieces;
use crate::macros::pieces::{Attr, AttrView};
use crate::macros::syntax;
use crate::macros::token;
use crate::macros::token::{Delimiter, Token};
use vstd::prelude::*;

verus! {

/// The representation of a type.
#[derive(Clone, Copy, Debug, PartialEq, Eq, Structural)]
pub struct ReprState {
    pub repr_c: bool,
    pub repr_u8: bool,
    pub repr_u16: bool,
    pub repr_u32: bool,
    pub repr_transparent: bool,
    pub repr_packed: Option<usize>,
}

/// The representation of a type without `#[repr(...)]`.
pub open spec fn unspecified() -> ReprState {
    ReprState {
        repr_c: false,
        repr_u8: false,
        repr_u16: false,
        repr_u32: false,
        repr_transparent: false,
        repr_packed: None,
    }
}

/// An item of `#[repr(...)]`: its name, if its path is one, and the text of its argument.
pub struct ReprItem {
    pub name: Option<String>,
    pub argument: Option<String>,
}

/// The contents of a [`ReprItem`].
#[verifier::ext_equal]
pub struct ReprItemView {
    pub name: Option<Seq<char>>,
    pub argument: Option<Seq<char>>,
}

impl View for ReprItem {
    type V = ReprItemView;

    open spec fn view(&self) -> ReprItemView {
        ReprItemView {
            name: syntax::optional_string(self.name),
            argument: syntax::optional_string(self.argument),
        }
    }
}

/// The item that names and an argument make up: there has to be exactly one name, or one path that
/// is no name.
pub open spec fn item_named(names: Seq<Option<Seq<char>>>, argument: Option<Seq<char>>) -> Result<
    ReprItemView,
    ErrorView,
> {
    if names.len() == 1 {
        Ok(ReprItemView { name: names[0], argument })
    } else {
        Err(ErrorView::Plain(ErrorKind::ExpectedIdentifier))
    }
}

/// The item that tokens without commas make up: a path, and possibly an argument in parentheses.
pub open spec fn item_of(s: Seq<Token>) -> Result<ReprItemView, ErrorView> {
    let (path, argument) = if pieces::is_group(s, s.len() - 1, Delimiter::Parenthesis) {
        (s.drop_last(), Some(token::text(pieces::inside(s, s.len() - 1))))
    } else {
        (s, None)
    };
    match syntax::meta_names_of(token::text(path)) {
        Err(detail) => Err(ErrorView::Rust(detail)),
        Ok(names) => item_named(names, argument),
    }
}

/// The words for an integer that no `usize` can hold.
pub const TOO_LARGE: &'static str = "number too large to fit in target type";

/// A representation with one more item; only `packed` may have an argument, an integer. Unknown
/// items do not matter.
pub open spec fn with_item(state: ReprState, item: ReprItemView) -> Result<
    ReprState,
    ErrorView,
> {
    if item.name == Some("packed"@) {
        match item.argument {
            None => Ok(ReprState { repr_packed: Some(1), ..state }),
            Some(text) => match syntax::integer_of(text) {
                Ok(n) => if n <= usize::MAX {
                    Ok(ReprState { repr_packed: Some(n as usize), ..state })
                } else {
                    Err(ErrorView::Rust(TOO_LARGE@))
                },
                Err(detail) => Err(ErrorView::Rust(detail)),
            },
        }
    } else if item.argument is Some {
        Err(ErrorView::Plain(ErrorKind::ExpectedComma))
    } else if item.name == Some("C"@) {
        Ok(ReprState { repr_c: true, ..state })
    } else if item.name == Some("u8"@) {
        Ok(ReprState { repr_u8: true, ..state })
    } else if item.name == Some("u16"@) {
        Ok(ReprState { repr_u16: true, ..state })
    } else if item.name == Some("u32"@) {
        Ok(ReprState { repr_u32: true, ..state })
    } else if item.name == Some("transparent"@) {
        Ok(ReprState { repr_transparent: true, ..state })
    } else {
        Ok(state)
    }
}

/// Where the next comma from `i` on is.
pub open spec fn comma_from(s: Seq<Token>, i: int) -> int
    decreases s.len() - i,
{
    if i >= s.len() || pieces::is_punct(s, i, ","@) {
        i
    } else {
        comma_from(s, i + 1)
    }
}

/// A representation with the items of an argument list from `pos` on, which commas separate.
pub open spec fn with_items(state: ReprState, s: Seq<Token>, pos: nat) -> Result<
    ReprState,
    ErrorView,
>
    decreases s.len() + 1 - pos,
{
    let end = comma_from(s, pos as int);
    if pos >= s.len() || !(pos <= end <= s.len()) {
        Ok(state)
    } else {
        match item_of(s.subrange(pos as int, end)) {
            Err(e) => Err(e),
            Ok(item) => match with_item(state, item) {
                Err(e) => Err(e),
                Ok(next) => with_items(next, s, (end + 1) as nat),
            },
        }
    }
}

/// The argument list of an attribute whose path is one name.
pub open spec fn listed_arguments(attr: AttrView) -> Option<Seq<Token>> {
    let content = pieces::inside(attr.tokens, 1);
    if attr.tokens.len() == 2 && content.len() == 2 {
        match content[1] {
            Token::Group(_, arguments) => Some(arguments@),
            _ => None,
        }
    } else {
        None
    }
}

/// A representation with those of one `#[repr(...)]`.
pub open spec fn with_attribute(state: ReprState, attr: AttrView) -> Result<
    ReprState,
    ErrorView,
> {
    match listed_arguments(attr) {
        None => Err(ErrorView::Plain(ErrorKind::UnexpectedToken)),
        Some(arguments) => with_items(state, arguments, 0),
    }
}

/// The representation that attributes give.
pub open spec fn repr_of(attrs: Seq<AttrView>) -> Result<ReprState, ErrorView>
    decreases attrs.len(),
{
    if attrs.len() == 0 {
        Ok(unspecified())
    } else {
        match repr_of(attrs.drop_last()) {
            Err(e) => Err(e),
            Ok(before) => if attrs.last().name == Some("repr"@) {
                with_attribute(before, attrs.last())
            } else {
                Ok(before)
            },
        }
    }
}

proof fn repr_of_fails(attrs: Seq<AttrView>, n: int)
    requires
        0 <= n <= attrs.len(),
        repr_of(attrs.take(n)) is Err,
    ensures
        repr_of(attrs) == repr_of(attrs.take(n)),
    decreases attrs.len() - n,
{
    if n == attrs.len() {
        assert(attrs.take(n) =~= attrs);
    } else {
        assert(attrs.take(n + 1).drop_last() =~= attrs.take(n));
        repr_of_fails(attrs, n + 1);
    }
}

fn is_named(item: &ReprItem, name: &str) -> (r: bool)
    ensures
        r == (item@.name == Some(name@)),
{
    match &item.name {
        Some(own) => *own == name.to_owned(),
        None => false,
    }
}

/// Adds an item to a representation.
pub fn add_item(state: ReprState, item: &ReprItem) -> (r: Result<ReprState, DefinitionError>)
    ensures
        match r {
            Ok(state_after) => with_item(state, item@) == Ok::<_, ErrorView>(state_after),
            Err(e) => with_item(state, item@) == Err::<ReprState, _>(e@),
        },
{
    if is_named(item, "packed") {
        return match &item.argument {
            None => Ok(ReprState { repr_packed: Some(1), ..state }),
            Some(text) => match syntax::integer(text.as_str()) {
                Ok(n) => if n <= usize::MAX as u64 {
                    Ok(ReprState { repr_packed: Some(n as usize), ..state })
                } else {
                    Err(pieces::rust_error(TOO_LARGE.to_owned()))
                },
                Err(detail) => Err(pieces::rust_error(detail)),
            },
        };
    }
    if item.argument.is_some() {
        return Err(DefinitionError::new(ErrorKind::ExpectedComma));
    }
    if is_named(item, "C") {
        Ok(ReprState { repr_c: true, ..state })
    } else if is_named(item, "u8") {
        Ok(ReprState { repr_u8: true, ..state })
    } else if is_named(item, "u16") {
        Ok(ReprState { repr_u16: true, ..state })
    } else if is_named(item, "u32") {
        Ok(ReprState { repr_u32: true, ..state })
    } else if is_named(item, "transparent") {
        Ok(ReprState { repr_transparent: true, ..state })
    } else {
        Ok(state)
    }
}

/// Makes an item of names and an argument.
pub fn name_item(names: Vec<Option<String>>, argument: Option<String>) -> (r: Result<
    ReprItem,
    DefinitionError,
>)
    ensures
        match r {
            Ok(item) => item_named(
                syntax::optional_strings(names@),
                syntax::optional_string(argument),
            ) == Ok::<_, ErrorView>(item@),
            Err(e) => item_named(
                syntax::optional_strings(names@),
                syntax::optional_string(argument),
            ) == Err::<ReprItemView, _>(e@),
        },
{
    if names.len() != 1 {
        return Err(DefinitionError::new(ErrorKind::ExpectedIdentifier));
    }
    let ghost all = syntax::optional_strings(names@);
    let mut names = names;
    let name = names.swap_remove(0);
    assert(syntax::optional_string(name) == all[0]);
    Ok(ReprItem { name, argument })
}

fn parse_item(s: &[Token]) -> (r: Result<ReprItem, DefinitionError>)
    ensures
        match r {
            Ok(item) => item_of(s@) == Ok::<_, ErrorView>(item@),
            Err(e) => item_of(s@) == Err::<ReprItemView, _>(e@),
        },
{
    let count = s.len();
    let argument = if count > 0 {
        pieces::group_at(s, count - 1, Delimiter::Parenthesis)
    } else {
        None
    };
    let (path, argument) = match argument {
        Some(inner) => {
            let path = pieces::part(s, 0, count - 1);
            assert(path@ =~= s@.drop_last());
            (path, Some(token::render(inner)))
        },
        None => (s, None),
    };
    match syntax::meta_names(token::render(path).as_str()) {
        Ok(names) => name_item(names, argument),
        Err(detail) => Err(pieces::rust_error(detail)),
    }
}

fn find_comma(s: &[Token], pos: usize) -> (end: usize)
    requires
        pos <= s@.len(),
    ensures
        pos <= end <= s@.len(),
        end == comma_from(s@, pos as int),
{
    let mut i: usize = pos;
    while i < s.len() && !pieces::punct_at(s, i, ",")
        invariant
            pos <= i <= s@.len(),
            comma_from(s@, pos as int) == comma_from(s@, i as int),
        decreases s@.len() - i,
    {
        i += 1;
    }
    i
}

/// Adds the items of an argument list to a representation.
pub fn add_items(state: ReprState, arguments: &[Token]) -> (r: Result<ReprState, DefinitionError>)
    ensures
        match r {
            Ok(state_after) => with_items(state, arguments@, 0) == Ok::<_, ErrorView>(state_after),
            Err(e) => with_items(state, arguments@, 0) == Err::<ReprState, _>(e@),
        },
{
    let mut now = state;
    let mut pos: usize = 0;
    while pos < arguments.len()
        invariant
            with_items(state, arguments@, 0) == with_items(now, arguments@, pos as nat),
        decreases arguments@.len() - pos,
    {
        let end = find_comma(arguments, pos);
        let added = match parse_item(pieces::part(arguments, pos, end)) {
            Ok(item) => add_item(now, &item),
            Err(e) => Err(e),
        };
        match added {
            Ok(next) => {
                now = next;
            },
            Err(e) => {
                return Err(e);
            },
        }
        if end >= arguments.len() {
            assert(with_items(now, arguments@, (end + 1) as nat) == Ok::<_, ErrorView>(now));
            return Ok(now);
        }
        pos = end + 1;
    }
    Ok(now)
}

/// Adds the items of one `#[repr(...)]` to a representation.
fn add_attribute(state: ReprState, attr: &Attr) -> (r: Result<ReprState, DefinitionError>)
    ensures
        match r {
            Ok(state_after) => with_attribute(state, attr@) == Ok::<_, ErrorView>(state_after),
            Err(e) => with_attribute(state, attr@) == Err::<ReprState, _>(e@),
        },
{
    if attr.tokens.len() == 2 {
        if let Token::Group(_, content) = &attr.tokens[1] {
            if content.len() == 2 {
                if let Token::Group(_, arguments) = &content[1] {
                    return add_items(state, arguments.as_slice());
                }
            }
        }
    }
    Err(DefinitionError::new(ErrorKind::UnexpectedToken))
}

/// Finds the representation that attributes give.
pub fn get_repr_state(attrs: &Vec<Attr>) -> (r: Result<ReprState, DefinitionError>)
    ensures
        match r {
            Ok(state) => repr_of(pieces::attr_views(attrs@)) == Ok::<_, ErrorView>(state),
            Err(e) => repr_of(pieces::attr_views(attrs@)) == Err::<ReprState, _>(e@),
        },
{
    let ghost all = pieces::attr_views(attrs@);
    let mut state = ReprState {
        repr_c: false,
        repr_u8: false,
        repr_u16: false,
        repr_u32: false,
        repr_transparent: false,
        repr_packed: None,
    };
    let mut i: usize = 0;
    while i < attrs.len()
        invariant
            i <= attrs@.len(),
            all == pieces::attr_views(attrs@),
            repr_of(all.take(i as int)) == Ok::<_, ErrorView>(state),
        decreases attrs@.len() - i,
    {
        proof {
            assert(all.take(i + 1).drop_last() =~= all.take(i as int));
            assert(all.take(i + 1).last() == attrs@[i as int]@);
        }
        if pieces::named(&attrs[i], "repr") {
            match add_attribute(state, &attrs[i]) {
                Ok(next) => {
                    state = next;
                },
                Err(e) => {
                    proof {
                        repr_of_fails(all, i + 1);
                    }
                    return Err(e);
                },
            }
        }
        i += 1;
    }
    assert(all.take(i as int) =~= all);
    Ok(state)
}

} // verus!

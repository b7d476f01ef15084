//! What holds of the representation that attributes give a type.
use crate::macros::error::{ErrorKind, ErrorView};
use crate::macros::pieces;
use crate::macros::pieces::AttrView;
use crate::macros::repr;
use crate::macros::repr::{ReprItemView, ReprState};
use crate::macros::syntax;
use crate::macros::token;
use crate::macros::token::{Delimiter, Token};
use vstd::prelude::*;

verus! {

/// Whether a representation has what an item without an argument stands for.
pub open spec fn has_item(state: ReprState, name: Seq<char>) -> bool {
    ||| name == "C"@ && state.repr_c
    ||| name == "u8"@ && state.repr_u8
    ||| name == "u16"@ && state.repr_u16
    ||| name == "u32"@ && state.repr_u32
    ||| name == "transparent"@ && state.repr_transparent
}

/// The items without an argument that matter.
pub open spec fn is_known(name: Seq<char>) -> bool {
    name == "C"@ || name == "u8"@ || name == "u16"@ || name == "u32"@ || name == "transparent"@
}

proof fn names_differ()
    ensures
        "C"@ != "u8"@,
        "C"@ != "u16"@,
        "C"@ != "u32"@,
        "C"@ != "transparent"@,
        "C"@ != "packed"@,
        "u8"@ != "u16"@,
        "u8"@ != "u32"@,
        "u8"@ != "transparent"@,
        "u8"@ != "packed"@,
        "u16"@ != "u32"@,
        "u16"@ != "transparent"@,
        "u16"@ != "packed"@,
        "u32"@ != "transparent"@,
        "u32"@ != "packed"@,
        "transparent"@ != "packed"@,
{
    reveal_strlit("C");
    reveal_strlit("u8");
    reveal_strlit("u16");
    reveal_strlit("u32");
    reveal_strlit("transparent");
    reveal_strlit("packed");
    assert("C"@.len() == 1 && "u8"@.len() == 2 && "u16"@.len() == 3 && "u32"@.len() == 3);
    assert("transparent"@.len() == 11 && "packed"@.len() == 6);
    assert("u16"@[1] == '1');
    assert("u32"@[1] == '3');
}

/// An item adds what it stands for and changes nothing else. Only `packed` may have an argument,
/// which has to be an integer that a `usize` can hold, and is 1 without one.
pub proof fn item_adds_itself(state: ReprState, item: ReprItemView, name: Seq<char>)
    ensures
        match repr::with_item(state, item) {
            Ok(next) => {
                &&& is_known(name) ==> has_item(next, name) == (has_item(state, name) || item.name
                    == Some(name))
                &&& item.name == Some("packed"@) ==> match item.argument {
                    None => next.repr_packed == Some(1usize),
                    Some(text) => syntax::integer_of(text) matches Ok(n) && n <= usize::MAX
                        && next.repr_packed == Some(n as usize),
                }
                &&& item.name != Some("packed"@) ==> item.argument is None && next.repr_packed
                    == state.repr_packed
            },
            Err(e) => item.argument matches Some(text) && if item.name == Some("packed"@) {
                match syntax::integer_of(text) {
                    Ok(n) => n > usize::MAX && e == ErrorView::Rust(
                        "number too large to fit in target type"@,
                    ),
                    Err(detail) => e == ErrorView::Rust(detail),
                }
            } else {
                e == ErrorView::Plain(ErrorKind::ExpectedComma)
            },
        },
{
    names_differ();
}

/// Whether tokens from `i` up to `j` are one item of an argument list from `pos` on: there is no
/// comma in them, and a comma or the end of the list on either side.
pub open spec fn is_item(s: Seq<Token>, pos: int, i: int, j: int) -> bool {
    &&& pos <= i < s.len()
    &&& i <= j <= s.len()
    &&& i == pos || pieces::is_punct(s, i - 1, ","@)
    &&& j == s.len() || pieces::is_punct(s, j, ","@)
    &&& forall|k: int| i <= k < j ==> !pieces::is_punct(s, k, ","@)
}

/// Whether one item of an argument list from `pos` on has the given name.
pub open spec fn lists_item(s: Seq<Token>, pos: int, name: Seq<char>) -> bool {
    exists|i: int, j: int|
        #[trigger] is_item(s, pos, i, j) && (repr::item_of(s.subrange(i, j)) matches Ok(item)
            && item.name == Some(name))
}

proof fn next_comma(s: Seq<Token>, i: int)
    requires
        0 <= i <= s.len(),
    ensures
        i <= repr::comma_from(s, i) <= s.len(),
        repr::comma_from(s, i) < s.len() ==> pieces::is_punct(s, repr::comma_from(s, i), ","@),
        forall|k: int| i <= k < repr::comma_from(s, i) ==> !pieces::is_punct(s, k, ","@),
    decreases s.len() - i,
{
    if i < s.len() && !pieces::is_punct(s, i, ","@) {
        next_comma(s, i + 1);
    }
}

proof fn items_add_themselves(state: ReprState, s: Seq<Token>, pos: nat, name: Seq<char>)
    requires
        is_known(name),
        pos <= s.len() + 1,
    ensures
        repr::with_items(state, s, pos) matches Ok(next) ==> has_item(next, name) == (has_item(
            state,
            name,
        ) || lists_item(s, pos as int, name)),
    decreases s.len() + 1 - pos,
{
    if pos < s.len() {
        let end = repr::comma_from(s, pos as int);
        next_comma(s, pos as int);
        assert(is_item(s, pos as int, pos as int, end));
        if let Ok(item) = repr::item_of(s.subrange(pos as int, end)) {
            item_adds_itself(state, item, name);
            if let Ok(next) = repr::with_item(state, item) {
                items_add_themselves(next, s, (end + 1) as nat, name);
                assert forall|i: int, j: int|
                    #[trigger] is_item(s, pos as int, i, j) implies (i == pos && j == end)
                    || is_item(s, end + 1, i, j) by {
                    if i == pos {
                        if j < end {
                            assert(!pieces::is_punct(s, j, ","@));
                        }
                        if j > end {
                            assert(!pieces::is_punct(s, end, ","@));
                        }
                    } else if i <= end {
                        assert(!pieces::is_punct(s, i - 1, ","@));
                    }
                }
                assert forall|i: int, j: int|
                    #[trigger] is_item(s, end + 1, i, j) implies is_item(s, pos as int, i, j) by {}
            }
        }
    }
}

/// Whether attribute `k` is `repr` with an item of the given name.
pub open spec fn gives_item(attrs: Seq<AttrView>, k: int, name: Seq<char>) -> bool {
    &&& 0 <= k < attrs.len()
    &&& attrs[k].name == Some("repr"@)
    &&& repr::listed_arguments(attrs[k]) matches Some(arguments) && lists_item(arguments, 0, name)
}

/// A type has a representation exactly if an item of one of its `repr` attributes says so.
pub proof fn representation_is_listed(attrs: Seq<AttrView>, name: Seq<char>)
    requires
        is_known(name),
    ensures
        repr::repr_of(attrs) matches Ok(state) ==> (has_item(state, name) <==> exists|k: int|
            #[trigger] gives_item(attrs, k, name)),
    decreases attrs.len(),
{
    if attrs.len() > 0 {
        let front = attrs.drop_last();
        let last = attrs.len() - 1;
        representation_is_listed(front, name);
        assert forall|k: int| #[trigger] gives_item(attrs, k, name) implies k == last || gives_item(
            front,
            k,
            name,
        ) by {}
        assert forall|k: int| #[trigger] gives_item(front, k, name) implies gives_item(
            attrs,
            k,
            name,
        ) by {}
        if let Ok(before) = repr::repr_of(front) {
            if attrs.last().name == Some("repr"@) {
                if let Some(arguments) = repr::listed_arguments(attrs.last()) {
                    items_add_themselves(before, arguments, 0, name);
                    assert(lists_item(arguments, 0, name) ==> gives_item(attrs, last, name));
                }
            }
        }
    }
}

/// An item is a path, and an argument if parentheses come last.
pub proof fn items_are_paths(s: Seq<Token>)
    ensures
        repr::item_of(s) matches Ok(item) ==> {
            let last = s.len() - 1;
            if s.len() > 0 && pieces::is_group(s, last, Delimiter::Parenthesis) {
                &&& syntax::meta_names_of(token::text(s.take(last))) == Ok::<_, Seq<char>>(
                    seq![item.name],
                )
                &&& item.argument == Some(token::text(pieces::inside(s, last)))
            } else {
                &&& syntax::meta_names_of(token::text(s)) == Ok::<_, Seq<char>>(seq![item.name])
                &&& item.argument is None
            }
        },
{
    let last = s.len() - 1;
    if s.len() > 0 {
        assert(s.take(last) =~= s.drop_last());
    }
    if let Ok(item) = repr::item_of(s) {
        let path = if pieces::is_group(s, last, Delimiter::Parenthesis) {
            s.drop_last()
        } else {
            s
        };
        let names = syntax::meta_names_of(token::text(path))->Ok_0;
        assert(names =~= seq![item.name]);
    }
}

/// Whether tokens are an item that is refused, and why: they are no item, or an item whose argument
/// is refused.
pub open spec fn is_refused(tokens: Seq<Token>, e: ErrorView) -> bool {
    match repr::item_of(tokens) {
        Err(first) => e == first,
        Ok(item) => item.argument matches Some(text) && if item.name == Some("packed"@) {
            match syntax::integer_of(text) {
                Ok(n) => n > usize::MAX && e == ErrorView::Rust(
                    "number too large to fit in target type"@,
                ),
                Err(detail) => e == ErrorView::Rust(detail),
            }
        } else {
            e == ErrorView::Plain(ErrorKind::ExpectedComma)
        },
    }
}

/// Whether one item of an argument list from `pos` on is refused.
pub open spec fn lists_refused(s: Seq<Token>, pos: int, e: ErrorView) -> bool {
    exists|i: int, j: int| #[trigger] is_item(s, pos, i, j) && is_refused(s.subrange(i, j), e)
}

proof fn items_are_refused(state: ReprState, s: Seq<Token>, pos: nat)
    requires
        pos <= s.len() + 1,
    ensures
        repr::with_items(state, s, pos) matches Err(e) ==> lists_refused(s, pos as int, e),
    decreases s.len() + 1 - pos,
{
    if pos < s.len() {
        let end = repr::comma_from(s, pos as int);
        next_comma(s, pos as int);
        assert(is_item(s, pos as int, pos as int, end));
        if let Err(e) = repr::with_items(state, s, pos) {
            if let Ok(item) = repr::item_of(s.subrange(pos as int, end)) {
                item_adds_itself(state, item, Seq::empty());
                if let Ok(next) = repr::with_item(state, item) {
                    items_are_refused(next, s, (end + 1) as nat);
                    let (i, j) = choose|i: int, j: int|
                        #[trigger] is_item(s, end + 1, i, j) && is_refused(s.subrange(i, j), e);
                    assert(is_item(s, pos as int, i, j));
                }
            }
        }
    }
}

/// A type is refused for a `repr` attribute only if that has no argument list, or for an item in
/// it.
pub proof fn representation_is_refused(attrs: Seq<AttrView>)
    ensures
        repr::repr_of(attrs) matches Err(e) ==> exists|k: int|
            0 <= k < attrs.len() && (#[trigger] attrs[k]).name == Some("repr"@)
                && match repr::listed_arguments(attrs[k]) {
                None => e == ErrorView::Plain(ErrorKind::UnexpectedToken),
                Some(arguments) => lists_refused(arguments, 0, e),
            },
    decreases attrs.len(),
{
    if attrs.len() > 0 {
        let front = attrs.drop_last();
        let last = attrs.len() - 1;
        representation_is_refused(front);
        assert(attrs[last] == attrs.last());
        match repr::repr_of(front) {
            Err(e) => {
                let k = choose|k: int|
                    0 <= k < front.len() && (#[trigger] front[k]).name == Some("repr"@)
                        && match repr::listed_arguments(front[k]) {
                        None => e == ErrorView::Plain(ErrorKind::UnexpectedToken),
                        Some(arguments) => lists_refused(arguments, 0, e),
                    };
                assert(attrs[k] == front[k]);
            },
            Ok(before) => {
                if attrs.last().name == Some("repr"@) {
                    if let Some(arguments) = repr::listed_arguments(attrs.last()) {
                        items_are_refused(before, arguments, 0);
                    }
                }
            },
        }
    }
}

/// The argument list of an attribute is that of its last group, if its path is one name and nothing
/// else is in its brackets.
pub proof fn argument_lists(attr: AttrView)
    ensures
        match repr::listed_arguments(attr) {
            Some(arguments) => {
                &&& attr.tokens.len() == 2
                &&& attr.tokens[1] matches Token::Group(_, content) && content@.len() == 2 && (
                content@[1] matches Token::Group(_, list) && list@ == arguments)
            },
            None => !(attr.tokens.len() == 2 && (attr.tokens[1] matches Token::Group(_, content)
                && content@.len() == 2 && content@[1] is Group)),
        },
{
}

} // verus!

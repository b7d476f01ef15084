//! The pieces that definitions are made of: names, expressions and attributes between punctuation.
use crate::macros::error::{DefinitionError, ErrorKind, ErrorView};
use crate::macros::syntax;
use crate::macros::token;
use crate::macros::token::{Delimiter, Token};
use vstd::prelude::*;

verus! {

/// An attribute: its name, if its path is one, and its tokens.
pub struct Attr<'a> {
    pub name: Option<String>,
    pub tokens: &'a [Token],
}

/// The contents of an [`Attr`].
#[verifier::ext_equal]
pub struct AttrView {
    pub name: Option<Seq<char>>,
    pub tokens: Seq<Token>,
}

impl<'a> View for Attr<'a> {
    type V = AttrView;

    open spec fn view(&self) -> AttrView {
        AttrView {
            name: match self.name {
                Some(name) => Some(name@),
                None => None,
            },
            tokens: self.tokens@,
        }
    }
}

/// The contents of attributes.
pub open spec fn attr_views(attrs: Seq<Attr>) -> Seq<AttrView> {
    Seq::new(attrs.len(), |i: int| attrs[i]@)
}

/// Whether the token at `i` is the punctuation character `mark`.
pub open spec fn is_punct(s: Seq<Token>, i: int, mark: Seq<char>) -> bool {
    0 <= i < s.len() && match s[i] {
        Token::Punct(m, _) => m@ == mark,
        _ => false,
    }
}

/// Whether the token at `i` is the identifier or keyword `word`.
pub open spec fn is_word(s: Seq<Token>, i: int, word: Seq<char>) -> bool {
    0 <= i < s.len() && match s[i] {
        Token::Ident(w) => w@ == word,
        _ => false,
    }
}

/// Whether the token at `i` is a group in the given brackets.
pub open spec fn is_group(s: Seq<Token>, i: int, delimiter: Delimiter) -> bool {
    0 <= i < s.len() && match s[i] {
        Token::Group(d, _) => d == delimiter,
        _ => false,
    }
}

/// The tokens inside the group at `i`.
pub open spec fn inside(s: Seq<Token>, i: int) -> Seq<Token> {
    match s[i] {
        Token::Group(_, inner) => inner@,
        _ => Seq::empty(),
    }
}

pub(crate) fn punct_at(s: &[Token], i: usize, mark: &str) -> (r: bool)
    ensures
        r == is_punct(s@, i as int, mark@),
        r ==> i < s.len(),
{
    if i < s.len() {
        match &s[i] {
            Token::Punct(m, _) => *m == mark.to_owned(),
            _ => false,
        }
    } else {
        false
    }
}

pub(crate) fn word_at(s: &[Token], i: usize, word: &str) -> (r: bool)
    ensures
        r == is_word(s@, i as int, word@),
        r ==> i < s.len(),
{
    if i < s.len() {
        match &s[i] {
            Token::Ident(w) => *w == word.to_owned(),
            _ => false,
        }
    } else {
        false
    }
}

pub(crate) fn group_at<'a>(s: &'a [Token], i: usize, delimiter: Delimiter) -> (r: Option<
    &'a [Token],
>)
    ensures
        match r {
            Some(inner) => i < s.len() && is_group(s@, i as int, delimiter) && inner@ == inside(
                s@,
                i as int,
            ),
            None => !is_group(s@, i as int, delimiter),
        },
{
    if i < s.len() {
        match &s[i] {
            Token::Group(d, inner) => if *d == delimiter {
                Some(inner.as_slice())
            } else {
                None
            },
            _ => None,
        }
    } else {
        None
    }
}

pub(crate) fn part<'a>(s: &'a [Token], from: usize, to: usize) -> (r: &'a [Token])
    requires
        from <= to <= s@.len(),
    ensures
        r@ == s@.subrange(from as int, to as int),
{
    vstd::slice::slice_subrange(s, from, to)
}

pub(crate) fn text_from(s: &[Token], pos: usize) -> (r: String)
    requires
        pos <= s@.len(),
    ensures
        r@ == token::text(s@.skip(pos as int)),
{
    let rest = part(s, pos, s.len());
    assert(rest@ =~= s@.skip(pos as int));
    token::render(rest)
}

/// Tokens from `pos` on such that `left` remain, and where they end.
pub open spec fn consumed(s: Seq<Token>, pos: int, left: nat) -> Result<
    (Seq<Token>, int),
    ErrorView,
> {
    if left <= s.len() - pos {
        Ok((s.subrange(pos, s.len() - left), s.len() - left))
    } else {
        Err(ErrorView::Plain(ErrorKind::UnexpectedToken))
    }
}

/// The visibility at `pos`.
pub open spec fn visibility_at(s: Seq<Token>, pos: int) -> Result<(Seq<Token>, int), ErrorView> {
    match syntax::left_behind_visibility(token::text(s.skip(pos))) {
        Ok(left) => consumed(s, pos, left),
        Err(detail) => Err(ErrorView::Rust(detail)),
    }
}

/// The expression at `pos`.
pub open spec fn expression_at(s: Seq<Token>, pos: int) -> Result<(Seq<Token>, int), ErrorView> {
    match syntax::left_behind_expression(token::text(s.skip(pos))) {
        Ok(left) => consumed(s, pos, left),
        Err(detail) => Err(ErrorView::Rust(detail)),
    }
}

/// The expression behind the token at `pos`, if that token announces one.
pub open spec fn announced_expression(s: Seq<Token>, pos: int, announced: bool) -> Result<
    (Option<Seq<Token>>, int),
    ErrorView,
> {
    if announced {
        match expression_at(s, pos + 1) {
            Ok((tokens, end)) => Ok((Some(tokens), end)),
            Err(e) => Err(e),
        }
    } else {
        Ok((None, pos))
    }
}

/// The name at `pos`.
pub open spec fn identifier_at(s: Seq<Token>, pos: int) -> Result<(Seq<char>, int), ErrorView> {
    if 0 <= pos < s.len() {
        match s[pos] {
            Token::Ident(name) => if syntax::is_identifier(name@) {
                Ok((name@, pos + 1))
            } else {
                Err(ErrorView::Plain(ErrorKind::ExpectedIdentifier))
            },
            _ => Err(ErrorView::Plain(ErrorKind::ExpectedIdentifier)),
        }
    } else {
        Err(ErrorView::Plain(ErrorKind::ExpectedIdentifier))
    }
}

/// The attributes at `pos`: each is a `#` and a group in brackets.
pub open spec fn attributes_at(s: Seq<Token>, pos: int) -> Result<
    (Seq<AttrView>, int),
    ErrorView,
> {
    match syntax::outer_attribute_names(token::text(s.skip(pos))) {
        Ok(names) => attributes_named(s, pos, names),
        Err(detail) => Err(ErrorView::Rust(detail)),
    }
}

/// The attributes at `pos` when they have the given names.
pub open spec fn attributes_named(s: Seq<Token>, pos: int, names: Seq<Option<Seq<char>>>) -> Result<
    (Seq<AttrView>, int),
    ErrorView,
> {
    if pos + 2 * names.len() <= s.len() {
        Ok(
            (
                Seq::new(
                    names.len(),
                    |k: int|
                        AttrView {
                            name: names[k],
                            tokens: s.subrange(pos + 2 * k, pos + 2 * k + 2),
                        },
                ),
                pos + 2 * names.len(),
            ),
        )
    } else {
        Err(ErrorView::Plain(ErrorKind::UnexpectedToken))
    }
}

pub(crate) fn rust_error(detail: String) -> (r: DefinitionError)
    ensures
        r@ == ErrorView::Rust(detail@),
{
    DefinitionError::Rust(detail)
}

/// Takes tokens from `pos` on such that `left` remain.
pub fn take_consumed<'a>(s: &'a [Token], pos: usize, left: usize) -> (r: Result<
    (&'a [Token], usize),
    DefinitionError,
>)
    requires
        pos <= s@.len(),
    ensures
        match r {
            Ok((tokens, end)) => consumed(s@, pos as int, left as nat) == Ok::<_, ErrorView>(
                (tokens@, end as int),
            ),
            Err(e) => consumed(s@, pos as int, left as nat) == Err::<(Seq<Token>, int), _>(e@),
        },
{
    if left <= s.len() - pos {
        let end: usize = s.len() - left;
        Ok((part(s, pos, end), end))
    } else {
        Err(DefinitionError::new(ErrorKind::UnexpectedToken))
    }
}

pub(crate) fn parse_visibility<'a>(s: &'a [Token], pos: usize) -> (r: Result<
    (&'a [Token], usize),
    DefinitionError,
>)
    requires
        pos <= s@.len(),
    ensures
        match r {
            Ok((tokens, end)) => visibility_at(s@, pos as int) == Ok::<_, ErrorView>(
                (tokens@, end as int),
            ),
            Err(e) => visibility_at(s@, pos as int) == Err::<(Seq<Token>, int), _>(e@),
        },
{
    let text = text_from(s, pos);
    match syntax::visibility(text.as_str()) {
        Ok(left) => take_consumed(s, pos, left),
        Err(detail) => Err(rust_error(detail)),
    }
}

pub(crate) fn parse_expression<'a>(s: &'a [Token], pos: usize) -> (r: Result<
    (&'a [Token], usize),
    DefinitionError,
>)
    requires
        pos <= s@.len(),
    ensures
        match r {
            Ok((tokens, end)) => expression_at(s@, pos as int) == Ok::<_, ErrorView>(
                (tokens@, end as int),
            ),
            Err(e) => expression_at(s@, pos as int) == Err::<(Seq<Token>, int), _>(e@),
        },
{
    let text = text_from(s, pos);
    match syntax::expression(text.as_str()) {
        Ok(left) => take_consumed(s, pos, left),
        Err(detail) => Err(rust_error(detail)),
    }
}

/// The contents of an optional slice.
pub open spec fn optional(tokens: Option<&[Token]>) -> Option<Seq<Token>> {
    match tokens {
        Some(tokens) => Some(tokens@),
        None => None,
    }
}

pub(crate) fn parse_announced<'a>(s: &'a [Token], pos: usize, announced: bool) -> (r: Result<
    (Option<&'a [Token]>, usize),
    DefinitionError,
>)
    requires
        pos <= s@.len(),
        announced ==> pos < s.len(),
    ensures
        match r {
            Ok((tokens, end)) => announced_expression(s@, pos as int, announced) == Ok::<
                _,
                ErrorView,
            >((optional(tokens), end as int)),
            Err(e) => announced_expression(s@, pos as int, announced) == Err::<
                (Option<Seq<Token>>, int),
                _,
            >(e@),
        },
{
    if announced {
        match parse_expression(s, pos + 1) {
            Ok((tokens, end)) => Ok((Some(tokens), end)),
            Err(e) => Err(e),
        }
    } else {
        Ok((None, pos))
    }
}

pub(crate) fn parse_identifier<'a>(s: &'a [Token], pos: usize) -> (r: Result<
    (&'a String, usize),
    DefinitionError,
>)
    ensures
        match r {
            Ok((name, end)) => identifier_at(s@, pos as int) == Ok::<_, ErrorView>(
                (name@, end as int),
            ),
            Err(e) => identifier_at(s@, pos as int) == Err::<(Seq<char>, int), _>(e@),
        },
{
    if pos < s.len() {
        match &s[pos] {
            Token::Ident(name) => if syntax::identifier(name.as_str()) {
                Ok((name, pos + 1))
            } else {
                Err(DefinitionError::new(ErrorKind::ExpectedIdentifier))
            },
            _ => Err(DefinitionError::new(ErrorKind::ExpectedIdentifier)),
        }
    } else {
        Err(DefinitionError::new(ErrorKind::ExpectedIdentifier))
    }
}

pub(crate) fn parse_attributes<'a>(s: &'a [Token], pos: usize) -> (r: Result<
    (Vec<Attr<'a>>, usize),
    DefinitionError,
>)
    requires
        pos <= s@.len(),
    ensures
        match r {
            Ok((attrs, end)) => attributes_at(s@, pos as int) == Ok::<_, ErrorView>(
                (attr_views(attrs@), end as int),
            ),
            Err(e) => attributes_at(s@, pos as int) == Err::<(Seq<AttrView>, int), _>(e@),
        },
{
    let text = text_from(s, pos);
    match syntax::outer_attributes(text.as_str()) {
        Ok(names) => take_attributes(s, pos, names),
        Err(detail) => Err(rust_error(detail)),
    }
}

/// Takes the attributes at `pos` when they have the given names.
pub fn take_attributes<'a>(s: &'a [Token], pos: usize, names: Vec<Option<String>>) -> (r: Result<
    (Vec<Attr<'a>>, usize),
    DefinitionError,
>)
    requires
        pos <= s@.len(),
    ensures
        match r {
            Ok((attrs, end)) => attributes_named(
                s@,
                pos as int,
                syntax::optional_strings(names@),
            ) == Ok::<_, ErrorView>((attr_views(attrs@), end as int)),
            Err(e) => attributes_named(s@, pos as int, syntax::optional_strings(names@)) == Err::<
                (Seq<AttrView>, int),
                _,
            >(e@),
        },
{
    let mut names = names;
    let count = names.len();
    if count > (s.len() - pos) / 2 {
        return Err(DefinitionError::new(ErrorKind::UnexpectedToken));
    }
    let ghost all = names@;
    let mut attrs: Vec<Attr<'a>> = Vec::new();
    let mut k: usize = 0;
    while k < count
        invariant
            k <= count,
            pos + 2 * count <= s@.len(),
            s@.len() <= usize::MAX,
            count == all.len(),
            names@ == all.skip(k as int),
            attrs@.len() == k,
            forall|j: int|
                0 <= j < k ==> #[trigger] attrs@[j]@ == (AttrView {
                    name: syntax::optional_strings(all)[j],
                    tokens: s@.subrange(pos + 2 * j, pos + 2 * j + 2),
                }),
        decreases count - k,
    {
        let name = names.remove(0);
        let from: usize = pos + 2 * k;
        attrs.push(Attr { name, tokens: part(s, from, from + 2) });
        assert(names@ =~= all.skip(k + 1));
        k += 1;
    }
    let ghost expected = attributes_named(s@, pos as int, syntax::optional_strings(all));
    assert(attr_views(attrs@) =~= expected->Ok_0.0);
    Ok((attrs, pos + 2 * count))
}

/// Whether one of the attributes has the given name.
pub open spec fn has_attr(attrs: Seq<AttrView>, name: Seq<char>) -> bool {
    exists|i: int| 0 <= i < attrs.len() && (#[trigger] attrs[i]).name == Some(name)
}

/// The attributes that do not have the given name.
pub open spec fn without_attr(attrs: Seq<AttrView>, name: Seq<char>) -> Seq<AttrView> {
    attrs.filter(|attr: AttrView| attr.name != Some(name))
}

/// The tokens of an attribute's argument list.
pub open spec fn argument_tokens(attr: AttrView) -> Option<Seq<Token>> {
    let content = inside(attr.tokens, 1);
    if attr.tokens.len() == 2 && content.len() > 0 {
        match content.last() {
            Token::Group(_, arguments) => Some(arguments@),
            _ => None,
        }
    } else {
        None
    }
}

/// Splits `#[storage(...)]` off the attributes; there may be one, and its argument is a type.
pub open spec fn split_storage(attrs: Seq<AttrView>) -> Result<
    (Seq<AttrView>, Option<Seq<Token>>),
    ErrorView,
>
    decreases attrs.len(),
{
    if attrs.len() == 0 {
        Ok((Seq::empty(), None))
    } else {
        let attr = attrs.last();
        match split_storage(attrs.drop_last()) {
            Err(e) => Err(e),
            Ok((kept, storage)) => if attr.name != Some("storage"@) {
                Ok((kept.push(attr), storage))
            } else if storage is Some {
                Err(ErrorView::Plain(ErrorKind::DuplicateStorage))
            } else {
                match syntax::type_argument_of(token::text(attr.tokens)) {
                    Err(detail) => Err(ErrorView::Rust(detail)),
                    Ok(_) => match argument_tokens(attr) {
                        Some(tokens) => Ok((kept, Some(tokens))),
                        None => Err(ErrorView::Plain(ErrorKind::UnexpectedToken)),
                    },
                }
            },
        }
    }
}

pub(crate) fn named(attr: &Attr, name: &str) -> (r: bool)
    ensures
        r == (attr@.name == Some(name@)),
{
    match &attr.name {
        Some(n) => *n == name.to_owned(),
        None => false,
    }
}

pub(crate) fn find_attr(attrs: &Vec<Attr>, name: &str) -> (r: bool)
    ensures
        r == has_attr(attr_views(attrs@), name@),
{
    let mut i: usize = 0;
    while i < attrs.len()
        invariant
            i <= attrs@.len(),
            forall|j: int| 0 <= j < i ==> (#[trigger] attr_views(attrs@)[j]).name != Some(name@),
        decreases attrs@.len() - i,
    {
        assert(attr_views(attrs@)[i as int] == attrs@[i as int]@);
        if named(&attrs[i], name) {
            return true;
        }
        i += 1;
    }
    false
}

/// Drops the attributes with the given name.
pub(crate) fn drop_attr<'a>(attrs: Vec<Attr<'a>>, name: &str) -> (r: Vec<Attr<'a>>)
    ensures
        attr_views(r@) == without_attr(attr_views(attrs@), name@),
{
    let mut rest = attrs;
    let ghost all = attr_views(attrs@);
    let ghost keep = |attr: AttrView| attr.name != Some(name@);
    let count = rest.len();
    let mut kept: Vec<Attr<'a>> = Vec::new();
    let mut i: usize = 0;
    assert(attr_views(kept@) =~= all.take(0).filter(keep)) by {
        reveal(Seq::filter);
    }
    while i < count
        invariant
            i <= count,
            count == all.len(),
            attr_views(rest@) == all.skip(i as int),
            rest@.len() == count - i,
            attr_views(kept@) == all.take(i as int).filter(keep),
            keep == (|attr: AttrView| attr.name != Some(name@)),
        decreases count - i,
    {
        let ghost before = attr_views(rest@);
        let attr = rest.remove(0);
        proof {
            assert(attr@ == before[0]);
            assert forall|j: int| 0 <= j < rest@.len() implies attr_views(rest@)[j] == all[i + 1
                + j] by {
                assert(before[j + 1] == all.skip(i as int)[j + 1]);
            }
            assert(attr_views(rest@) =~= all.skip(i + 1));
            assert(all.take(i + 1) =~= all.take(i as int).push(attr@));
            all.take(i as int).lemma_filter_push(attr@, keep);
        }
        if !named(&attr, name) {
            let ghost old_kept = attr_views(kept@);
            kept.push(attr);
            assert(attr_views(kept@) =~= old_kept.push(attr@));
        }
        i += 1;
    }
    assert(all.take(i as int) =~= all);
    kept
}

/// Takes `#[storage(...)]` out of the attributes.
pub(crate) fn extract_storage_attr<'a>(attrs: Vec<Attr<'a>>) -> (r: Result<
    (Vec<Attr<'a>>, Option<&'a [Token]>),
    DefinitionError,
>)
    ensures
        match r {
            Ok((kept, storage)) => split_storage(attr_views(attrs@)) == Ok::<_, ErrorView>(
                (attr_views(kept@), optional(storage)),
            ),
            Err(e) => split_storage(attr_views(attrs@)) == Err::<
                (Seq<AttrView>, Option<Seq<Token>>),
                _,
            >(e@),
        },
{
    let mut rest = attrs;
    let ghost all = attr_views(attrs@);
    let count = rest.len();
    let mut kept: Vec<Attr<'a>> = Vec::new();
    let mut storage: Option<&'a [Token]> = None;
    let mut i: usize = 0;
    assert(attr_views(kept@) =~= Seq::empty());
    while i < count
        invariant
            i <= count,
            count == all.len(),
            all == attr_views(attrs@),
            attr_views(rest@) == all.skip(i as int),
            rest@.len() == count - i,
            split_storage(all.take(i as int)) == Ok::<_, ErrorView>(
                (attr_views(kept@), optional(storage)),
            ),
        decreases count - i,
    {
        let ghost before = attr_views(rest@);
        let attr = rest.remove(0);
        proof {
            assert(attr@ == before[0]);
            assert forall|j: int| 0 <= j < rest@.len() implies attr_views(rest@)[j] == all[i + 1
                + j] by {
                assert(before[j + 1] == all.skip(i as int)[j + 1]);
            }
            assert(attr_views(rest@) =~= all.skip(i + 1));
            assert(all.take(i + 1).drop_last() =~= all.take(i as int));
            assert(all.take(i + 1).last() == attr@);
        }
        if !named(&attr, "storage") {
            let ghost old_kept = attr_views(kept@);
            kept.push(attr);
            assert(attr_views(kept@) =~= old_kept.push(attr@));
        } else {
            if storage.is_some() {
                proof {
                    split_storage_fails(all, i + 1);
                }
                return Err(DefinitionError::new(ErrorKind::DuplicateStorage));
            }
            let text = token::render(attr.tokens);
            match syntax::type_argument(text.as_str()) {
                Ok(_) => {},
                Err(detail) => {
                    proof {
                        split_storage_fails(all, i + 1);
                    }
                    return Err(rust_error(detail));
                },
            }
            match attr_arguments(attr.tokens) {
                Some(tokens) => {
                    storage = Some(tokens);
                },
                None => {
                    proof {
                        split_storage_fails(all, i + 1);
                    }
                    return Err(DefinitionError::new(ErrorKind::UnexpectedToken));
                },
            }
        }
        i += 1;
    }
    assert(all.take(i as int) =~= all);
    Ok((kept, storage))
}

/// A mistake in the first attributes is the mistake of all.
proof fn split_storage_fails(attrs: Seq<AttrView>, n: int)
    requires
        0 <= n <= attrs.len(),
        split_storage(attrs.take(n)) is Err,
    ensures
        split_storage(attrs) == split_storage(attrs.take(n)),
    decreases attrs.len() - n,
{
    if n == attrs.len() {
        assert(attrs.take(n) =~= attrs);
    } else {
        assert(attrs.take(n + 1).drop_last() =~= attrs.take(n));
        split_storage_fails(attrs, n + 1);
    }
}

pub(crate) fn attr_arguments<'a>(tokens: &'a [Token]) -> (r: Option<&'a [Token]>)
    ensures
        optional(r) == argument_tokens(AttrView { name: None, tokens: tokens@ }),
{
    if tokens.len() != 2 {
        return None;
    }
    match &tokens[1] {
        Token::Group(_, content) => {
            let count = content.len();
            if count == 0 {
                return None;
            }
            match &content[count - 1] {
                Token::Group(_, arguments) => Some(arguments.as_slice()),
                _ => None,
            }
        },
        _ => None,
    }
}

/// Splitting the storage type off leaves exactly the other attributes in order, and there is a type
/// exactly if there was such an attribute.
pub proof fn storage_is_taken_out(attrs: Seq<AttrView>)
    ensures
        split_storage(attrs) matches Ok((kept, storage)) ==> {
            &&& kept == without_attr(attrs, "storage"@)
            &&& storage is Some == has_attr(attrs, "storage"@)
        },
    decreases attrs.len(),
{
    reveal(Seq::filter);
    if attrs.len() > 0 {
        storage_is_taken_out(attrs.drop_last());
        has_attr_last(attrs, "storage"@);
    }
}

/// Attributes have one of a name if the last has it or those in front of it do.
pub(crate) proof fn has_attr_last(attrs: Seq<AttrView>, name: Seq<char>)
    requires
        attrs.len() > 0,
    ensures
        has_attr(attrs, name) == (has_attr(attrs.drop_last(), name) || attrs.last().name == Some(
            name,
        )),
{
    let before = attrs.drop_last();
    if has_attr(attrs, name) {
        let i = choose|i: int| 0 <= i < attrs.len() && (#[trigger] attrs[i]).name == Some(name);
        if i < before.len() {
            assert(before[i] == attrs[i]);
        }
    }
    if has_attr(before, name) {
        let i = choose|i: int| 0 <= i < before.len() && (#[trigger] before[i]).name == Some(name);
        assert(attrs[i].name == Some(name));
    }
    if attrs.last().name == Some(name) {
        assert(attrs[attrs.len() - 1].name == Some(name));
    }
}

/// Attributes without those of a name have none of that name, and of any other name if there was
/// one before.
pub proof fn removed_attr_is_gone(attrs: Seq<AttrView>, name: Seq<char>, other: Seq<char>)
    ensures
        !has_attr(without_attr(attrs, name), name),
        name != other ==> has_attr(without_attr(attrs, name), other) == has_attr(attrs, other),
    decreases attrs.len(),
{
    reveal(Seq::filter);
    let kept = without_attr(attrs, name);
    if attrs.len() > 0 {
        let before = attrs.drop_last();
        removed_attr_is_gone(before, name, other);
        has_attr_last(attrs, other);
        if attrs.last().name != Some(name) {
            assert(kept.drop_last() =~= without_attr(before, name));
            has_attr_last(kept, name);
            has_attr_last(kept, other);
        }
    }
}

} // verus!

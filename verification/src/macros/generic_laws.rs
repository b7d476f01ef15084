//! What holds of generic parameters and of what stands in front of the body of a type.
use crate::macros::codec_code;
use crate::macros::codec_plan;
use crate::macros::definition;
use crate::macros::error::{ErrorKind, ErrorView};
use crate::macros::generics;
use crate::macros::generics::ParameterView;
use crate::macros::grammar_laws;
use crate::macros::grammar_laws::lies_at;
use crate::macros::pieces;
use crate::macros::syntax;
use crate::macros::text_laws;
use crate::macros::token;
use crate::macros::token::{Delimiter, Token};
use vstd::prelude::*;

verus! {

/// How many angle brackets are open in front of token `i` of a parameter. A `>` behind `-` is part
/// of an arrow and closes none.
pub open spec fn open_angles(tokens: Seq<Token>, i: int) -> int
    decreases i,
{
    if i <= 0 {
        0
    } else {
        open_angles(tokens, i - 1) + if pieces::is_punct(tokens, i - 1, "<"@) {
            1int
        } else if pieces::is_punct(tokens, i - 1, ">"@) && !pieces::is_punct(tokens, i - 2, "-"@) {
            -1int
        } else {
            0int
        }
    }
}

/// Whether the default of a parameter begins at token `i`: with `=` outside angle brackets.
pub open spec fn default_begins(tokens: Seq<Token>, i: int) -> bool {
    open_angles(tokens, i) == 0 && pieces::is_punct(tokens, i, "="@)
}

proof fn default_comes_first(tokens: Seq<Token>, i: int)
    requires
        0 <= i <= tokens.len(),
    ensures
        ({
            let end = generics::default_start(tokens, i, open_angles(tokens, i));
            &&& i <= end <= tokens.len()
            &&& end < tokens.len() ==> default_begins(tokens, end)
            &&& forall|k: int| i <= k < end ==> !default_begins(tokens, k)
        }),
    decreases tokens.len() - i,
{
    if i < tokens.len() && !default_begins(tokens, i) {
        default_comes_first(tokens, i + 1);
    }
}

/// A generic parameter has the name and the tokens that the parser of Rust's syntax gives it. Its
/// declaration is those tokens up to its default, or all of them if it has none.
pub proof fn parameter_lies_at(s: Seq<Token>, pos: int)
    requires
        0 <= pos <= s.len(),
    ensures
        match generics::parameter_at(s, pos) {
            Ok((parameter, end)) => {
                let tokens = s.subrange(pos, end);
                let cut = parameter.declaration.len() as int;
                &&& pos < end <= s.len()
                &&& syntax::generic_parameter_of(token::text(s.skip(pos))) == Ok::<_, Seq<char>>(
                    (parameter.name, (s.len() - end) as nat),
                )
                &&& cut <= tokens.len()
                &&& parameter.declaration == tokens.take(cut)
                &&& cut < tokens.len() ==> default_begins(tokens, cut)
                &&& forall|k: int| 0 <= k < cut ==> !default_begins(tokens, k)
            },
            Err(e) => match syntax::generic_parameter_of(token::text(s.skip(pos))) {
                Err(detail) => e == ErrorView::Rust(detail),
                Ok((_, left)) => e == ErrorView::Plain(ErrorKind::UnexpectedToken) && left
                    >= s.len() - pos,
            },
        },
{
    if let Ok((name, left)) = syntax::generic_parameter_of(token::text(s.skip(pos))) {
        if left < s.len() - pos {
            default_comes_first(s.subrange(pos, s.len() - left), 0);
        }
    }
}

/// Generic parameters are parsed one behind the other, with a comma between them, up to a closing
/// angle bracket or to one that no comma follows.
pub proof fn parameters_follow_each_other(s: Seq<Token>, pos: nat)
    ensures
        match generics::parameters_from(s, pos) {
            Ok(list) => if pos >= s.len() || pieces::is_punct(s, pos as int, ">"@) {
                list.len() == 0
            } else {
                &&& generics::parameter_at(s, pos as int) matches Ok((parameter, end))
                &&& list.len() > 0 && list[0] == parameter
                &&& if pieces::is_punct(s, end, ","@) {
                    generics::parameters_from(s, (end + 1) as nat) == Ok::<_, ErrorView>(
                        list.skip(1),
                    )
                } else {
                    list.len() == 1
                }
            },
            Err(e) => {
                &&& pos < s.len() && !pieces::is_punct(s, pos as int, ">"@)
                &&& match generics::parameter_at(s, pos as int) {
                    Err(first) => e == first,
                    Ok((_, end)) => pieces::is_punct(s, end, ","@) && generics::parameters_from(
                        s,
                        (end + 1) as nat,
                    ) == Err::<Seq<ParameterView>, _>(e),
                }
            },
        },
{
    if pos < s.len() && !pieces::is_punct(s, pos as int, ">"@) {
        if let Ok((parameter, end)) = generics::parameter_at(s, pos as int) {
            if let Ok(rest) = generics::parameters_from(s, (end + 1) as nat) {
                assert((seq![parameter] + rest).skip(1) =~= rest);
            }
        }
    }
}

/// In the header of an impl all parameters are declared, in order and without their defaults; as
/// arguments they are named in the same order. Without parameters both are empty.
pub proof fn parameters_are_listed(list: Seq<ParameterView>)
    ensures
        generics::split_parameters(list) == if list.len() == 0 {
            (Seq::empty(), Seq::empty())
        } else {
            (
                "<"@ + generics::declarations(list) + ">"@,
                "<"@ + generics::listed_names(list) + ">"@,
            )
        },
{
}

/// Parameters are listed one behind the other, each with a comma behind it.
pub proof fn listed_parameters_follow_each_other(
    a: Seq<ParameterView>,
    one: ParameterView,
    b: Seq<ParameterView>,
)
    ensures
        generics::declarations(seq![one]) == token::text(one.declaration) + ", "@,
        generics::listed_names(seq![one]) == one.name + ", "@,
        generics::declarations(a + b) == generics::declarations(a) + generics::declarations(b),
        generics::listed_names(a + b) == generics::listed_names(a) + generics::listed_names(b),
    decreases b.len(),
{
    let single = seq![one];
    assert(single.drop_last() =~= Seq::empty());
    reveal_with_fuel(generics::declarations, 2);
    reveal_with_fuel(generics::listed_names, 2);
    assert(Seq::<char>::empty() + token::text(one.declaration) =~= token::text(one.declaration));
    assert(Seq::<char>::empty() + one.name =~= one.name);
    if b.len() == 0 {
        assert(a + b =~= a);
    } else {
        assert((a + b).drop_last() =~= a + b.drop_last());
        listed_parameters_follow_each_other(a, one, b.drop_last());
        let declared = generics::declarations(b.drop_last());
        let declaration = token::text(b.last().declaration);
        text_laws::parts_associate(generics::declarations(a), declared, declaration);
        text_laws::parts_associate(generics::declarations(a), declared + declaration, ", "@);
        let named = generics::listed_names(b.drop_last());
        text_laws::parts_associate(generics::listed_names(a), named, b.last().name);
        text_laws::parts_associate(generics::listed_names(a), named + b.last().name, ", "@);
    }
}

/// The parameters of a type are those behind its opening angle bracket.
pub proof fn generics_are_split(s: Seq<Token>)
    ensures
        generics::split_generics(s) == match generics::parameters_from(s, 1) {
            Ok(list) => Ok::<_, ErrorView>(generics::split_parameters(list)),
            Err(e) => Err::<(Seq<char>, Seq<char>), _>(e),
        },
{
}

/// In front of the body of a type stand its attributes, a visibility, one token that says what it
/// is, its name and its generic parameters. A mistake is the first one in these parts.
pub proof fn head_lies_at(s: Seq<Token>)
    ensures
        match codec_plan::head_of(s) {
            Ok(head) => {
                let start = 2 * head.attrs.len() as int;
                &&& pieces::attributes_at(s, 0) == Ok::<_, ErrorView>((head.attrs, start))
                &&& pieces::visibility_at(s, start) matches Ok((_, keyword)) && {
                    &&& pieces::identifier_at(s, keyword + 1) == Ok::<_, ErrorView>(
                        (head.name, keyword + 2),
                    )
                    &&& definition::generics_at(s, keyword + 2) matches Ok((tokens, _, body))
                        && head.generics == tokens && head.body == body
                }
            },
            Err(e) => match pieces::attributes_at(s, 0) {
                Err(first) => e == first,
                Ok((_, start)) => match pieces::visibility_at(s, start) {
                    Err(first) => e == first,
                    Ok((_, keyword)) => if pieces::identifier_at(s, keyword + 1) is Err {
                        pieces::identifier_at(s, keyword + 1) == Err::<(Seq<char>, int), _>(e)
                    } else {
                        definition::generics_at(s, keyword + 2) == Err::<
                            (Seq<Token>, bool, int),
                            _,
                        >(e)
                    },
                },
            },
        },
{
    grammar_laws::attributes_lie_at(s, 0);
}

proof fn where_comes_first(s: Seq<Token>, i: int)
    requires
        0 <= i <= s.len(),
    ensures
        ({
            let start = codec_code::predicates_start(s, i);
            &&& start < s.len() ==> i < start && pieces::is_word(s, start - 1, "where"@)
            &&& forall|k: int| i <= k < start - 1 ==> !pieces::is_word(s, k, "where"@)
            &&& start >= s.len() ==> start == s.len() && forall|k: int|
                i <= k < s.len() - 1 ==> !pieces::is_word(s, k, "where"@)
        }),
    decreases s.len() - i,
{
    if i < s.len() && !pieces::is_word(s, i, "where"@) {
        where_comes_first(s, i + 1);
    }
}

/// The predicates of a type are what stands between the first `where` from its body on and the last
/// token, which is its body or a semicolon; without a `where` there are none.
pub proof fn predicates_lie_behind_where(s: Seq<Token>, body: int, i: int)
    requires
        0 <= body <= i < s.len() - 1,
        forall|k: int| body <= k < i ==> !pieces::is_word(s, k, "where"@),
    ensures
        pieces::is_word(s, i, "where"@) ==> lies_at(
            codec_code::predicates_of(s, body),
            s,
            i + 1,
            s.len() - 1,
        ),
        !pieces::is_word(s, i, "where"@) && i == s.len() - 2 ==> codec_code::predicates_of(
            s,
            body,
        ).len() == 0,
{
    where_comes_first(s, body);
    let start = codec_code::predicates_start(s, body);
    if start < s.len() {
        if start - 1 < i {
            assert(!pieces::is_word(s, start - 1, "where"@));
        }
        if start - 1 > i {
            assert(!pieces::is_word(s, i, "where"@));
        }
    }
}

/// The impls for a type refer to it by its name, its generic parameters and its predicates.
pub proof fn type_headers(s: Seq<Token>)
    ensures
        codec_code::type_header_of(s) matches Ok(header) ==> {
            &&& codec_plan::head_of(s) matches Ok(head)
            &&& header.name == head.name
            &&& generics::split_generics(head.generics) == Ok::<_, ErrorView>(
                (header.header, header.arguments),
            )
            &&& header.predicates == token::text(codec_code::predicates_of(s, head.body))
        },
        codec_code::type_header_of(s) matches Err(e) ==> match codec_plan::head_of(s) {
            Err(first) => e == first,
            Ok(head) => generics::split_generics(head.generics) == Err::<
                (Seq<char>, Seq<char>),
                _,
            >(e),
        },
{
}

/// The wrapped type of a newtype is what stands in its parentheses behind attributes and a
/// visibility, without a comma at the end.
pub proof fn wrapped_type_lies_at(s: Seq<Token>, body: int)
    ensures
        codec_plan::wrapped_type(s, body) matches Ok(ty) ==> {
            let inner = pieces::inside(s, body);
            &&& pieces::is_group(s, body, Delimiter::Parenthesis)
            &&& pieces::attributes_at(inner, 0) matches Ok((_, start))
            &&& pieces::visibility_at(inner, start) matches Ok((_, typed))
            &&& if pieces::is_punct(inner, inner.len() - 1, ","@) {
                lies_at(ty, inner, typed, inner.len() - 1)
            } else {
                lies_at(ty, inner, typed, inner.len() as int)
            }
        },
        codec_plan::wrapped_type(s, body) matches Err(e) ==> {
            let inner = pieces::inside(s, body);
            if !pieces::is_group(s, body, Delimiter::Parenthesis) {
                e == ErrorView::Plain(ErrorKind::UnexpectedToken)
            } else {
                match pieces::attributes_at(inner, 0) {
                    Err(first) => e == first,
                    Ok((_, start)) => match pieces::visibility_at(inner, start) {
                        Err(first) => e == first,
                        Ok((_, typed)) => e == ErrorView::Plain(ErrorKind::UnexpectedToken) && typed
                            == inner.len() && pieces::is_punct(inner, inner.len() - 1, ","@),
                    },
                }
            }
        },
{
    let inner = pieces::inside(s, body);
    grammar_laws::attributes_lie_at(inner, 0);
    if let Ok((_, start)) = pieces::attributes_at(inner, 0) {
        grammar_laws::visibility_lies_at(inner, start);
    }
}

} // verus!

//! Generic parameters: as they stand in the header of an impl, and as arguments of a type.
use crate::macros::definition;
use crate::macros::error::{DefinitionError, ErrorKind, ErrorView};
use crate::macros::pieces;
use crate::macros::syntax;
use crate::macros::token;
use crate::macros::token::Token;
use vstd::prelude::*;

verus! {

/// A generic parameter: its name, and its declaration without the default.
pub struct Parameter<'a> {
    pub name: String,
    pub declaration: &'a [Token],
}

/// The contents of a [`Parameter`].
#[verifier::ext_equal]
pub struct ParameterView {
    pub name: Seq<char>,
    pub declaration: Seq<Token>,
}

impl<'a> View for Parameter<'a> {
    type V = ParameterView;

    open spec fn view(&self) -> ParameterView {
        ParameterView { name: self.name@, declaration: self.declaration@ }
    }
}

/// The contents of parameters.
pub open spec fn parameter_views(list: Seq<Parameter>) -> Seq<ParameterView> {
    Seq::new(list.len(), |i: int| list[i]@)
}

/// Whether the token at `i` is a `>` that is no part of an arrow.
pub open spec fn closes_angle(s: Seq<Token>, i: int) -> bool {
    pieces::is_punct(s, i, ">"@) && !pieces::is_punct(s, i - 1, "-"@)
}

/// Where the default of a parameter starts: at the first `=` outside angle brackets.
pub open spec fn default_start(s: Seq<Token>, i: int, depth: int) -> int
    decreases s.len() - i,
{
    if i >= s.len() || (depth == 0 && pieces::is_punct(s, i, "="@)) {
        i
    } else if pieces::is_punct(s, i, "<"@) {
        default_start(s, i + 1, depth + 1)
    } else if closes_angle(s, i) {
        default_start(s, i + 1, depth - 1)
    } else {
        default_start(s, i + 1, depth)
    }
}

fn find_default(s: &[Token]) -> (end: usize)
    ensures
        end <= s@.len(),
        end == default_start(s@, 0, 0),
{
    let mut i: usize = 0;
    let mut depth: i128 = 0;
    while i < s.len()
        invariant
            i <= s.len(),
            -i <= depth <= i,
            default_start(s@, 0, 0) == default_start(s@, i as int, depth as int),
        ensures
            i <= s.len(),
            i == default_start(s@, 0, 0),
        decreases s.len() - i,
    {
        if depth == 0 && pieces::punct_at(s, i, "=") {
            break;
        }
        if pieces::punct_at(s, i, "<") {
            depth += 1;
        } else if pieces::punct_at(s, i, ">") && !(i > 0 && pieces::punct_at(s, i - 1, "-")) {
            depth -= 1;
        }
        i += 1;
    }
    i
}

/// The parameter at `pos`, and where it ends, when it has the given name and leaves so many tokens.
pub open spec fn parameter_named(s: Seq<Token>, pos: int, name: Seq<char>, left: nat) -> Result<
    (ParameterView, int),
    ErrorView,
> {
    match pieces::consumed(s, pos, left) {
        Err(e) => Err(e),
        Ok((tokens, end)) => if end == pos {
            Err(ErrorView::Plain(ErrorKind::UnexpectedToken))
        } else {
            Ok(
                (
                    ParameterView { name, declaration: tokens.take(default_start(tokens, 0, 0)) },
                    end,
                ),
            )
        },
    }
}

/// The parameter at `pos`, and where it ends.
pub open spec fn parameter_at(s: Seq<Token>, pos: int) -> Result<(ParameterView, int), ErrorView> {
    match syntax::generic_parameter_of(token::text(s.skip(pos))) {
        Err(detail) => Err(ErrorView::Rust(detail)),
        Ok((name, left)) => parameter_named(s, pos, name, left),
    }
}

/// Takes the parameter at `pos` that has the given name and leaves so many tokens.
pub fn take_parameter<'a>(s: &'a [Token], pos: usize, name: String, left: usize) -> (r: Result<
    (Parameter<'a>, usize),
    DefinitionError,
>)
    requires
        pos <= s@.len(),
    ensures
        match r {
            Ok((parameter, end)) => parameter_named(s@, pos as int, name@, left as nat) == Ok::<
                _,
                ErrorView,
            >((parameter@, end as int)),
            Err(e) => parameter_named(s@, pos as int, name@, left as nat) == Err::<
                (ParameterView, int),
                _,
            >(e@),
        },
{
    match pieces::take_consumed(s, pos, left) {
        Ok((tokens, end)) => if end == pos {
            Err(DefinitionError::new(ErrorKind::UnexpectedToken))
        } else {
            let declaration = pieces::part(tokens, 0, find_default(tokens));
            Ok((Parameter { name, declaration }, end))
        },
        Err(e) => Err(e),
    }
}

fn parse_parameter<'a>(s: &'a [Token], pos: usize) -> (r: Result<
    (Parameter<'a>, usize),
    DefinitionError,
>)
    requires
        pos <= s@.len(),
    ensures
        match r {
            Ok((parameter, end)) => parameter_at(s@, pos as int) == Ok::<_, ErrorView>(
                (parameter@, end as int),
            ),
            Err(e) => parameter_at(s@, pos as int) == Err::<(ParameterView, int), _>(e@),
        },
{
    let text = pieces::text_from(s, pos);
    match syntax::generic_parameter(text.as_str()) {
        Ok((name, left)) => take_parameter(s, pos, name, left),
        Err(detail) => Err(pieces::rust_error(detail)),
    }
}

/// The parameters from `pos` on, with `,` between them and possibly behind the last, up to the
/// closing angle bracket.
pub open spec fn parameters_from(s: Seq<Token>, pos: nat) -> Result<Seq<ParameterView>, ErrorView>
    decreases s.len() - pos,
{
    if pos >= s.len() || pieces::is_punct(s, pos as int, ">"@) {
        Ok(Seq::empty())
    } else {
        match parameter_at(s, pos as int) {
            Err(e) => Err(e),
            Ok((parameter, end)) => if pieces::is_punct(s, end, ","@) {
                match parameters_from(s, (end + 1) as nat) {
                    Err(e) => Err(e),
                    Ok(rest) => Ok(seq![parameter] + rest),
                }
            } else {
                Ok(seq![parameter])
            },
        }
    }
}

/// Finds the parameters in angle brackets.
pub(crate) fn parse_parameters<'a>(s: &'a [Token]) -> (r: Result<
    Vec<Parameter<'a>>,
    DefinitionError,
>)
    ensures
        match r {
            Ok(list) => parameters_from(s@, 1) == Ok::<_, ErrorView>(parameter_views(list@)),
            Err(e) => parameters_from(s@, 1) == Err::<Seq<ParameterView>, _>(e@),
        },
{
    let mut list: Vec<Parameter<'a>> = Vec::new();
    let mut pos: usize = 1;
    proof {
        if let Ok(all) = parameters_from(s@, 1) {
            assert(parameter_views(list@) + all =~= all);
        }
    }
    while pos < s.len() && !pieces::punct_at(s, pos, ">")
        invariant_except_break
            parameters_from(s@, 1) == definition::joined(
                parameter_views(list@),
                parameters_from(s@, pos as nat),
            ),
        ensures
            parameters_from(s@, 1) == Ok::<_, ErrorView>(parameter_views(list@)),
        decreases s.len() - pos,
    {
        let ghost found = parameter_views(list@);
        let (parameter, end) = match parse_parameter(s, pos) {
            Ok(found) => found,
            Err(e) => {
                return Err(e);
            },
        };
        list.push(parameter);
        assert(parameter_views(list@) =~= found.push(parameter@));
        if end >= s.len() || !pieces::punct_at(s, end, ",") {
            assert(parameter_views(list@) =~= found + seq![parameter@]);
            break;
        }
        pos = end + 1;
        proof {
            if let Ok(rest) = parameters_from(s@, pos as nat) {
                assert(found + (seq![parameter@] + rest) =~= parameter_views(list@) + rest);
            }
        }
    }
    Ok(list)
}

/// The declarations of parameters, with a comma behind each.
pub open spec fn declarations(list: Seq<ParameterView>) -> Seq<char>
    decreases list.len(),
{
    if list.len() == 0 {
        Seq::empty()
    } else {
        declarations(list.drop_last()) + token::text(list.last().declaration) + ", "@
    }
}

/// The names of parameters, with a comma behind each.
pub open spec fn listed_names(list: Seq<ParameterView>) -> Seq<char>
    decreases list.len(),
{
    if list.len() == 0 {
        Seq::empty()
    } else {
        listed_names(list.drop_last()) + list.last().name + ", "@
    }
}

/// Parameters in the header of an impl, and as arguments of the type.
pub open spec fn split_parameters(list: Seq<ParameterView>) -> (Seq<char>, Seq<char>) {
    if list.len() == 0 {
        (Seq::empty(), Seq::empty())
    } else {
        ("<"@ + declarations(list) + ">"@, "<"@ + listed_names(list) + ">"@)
    }
}

/// Renders parameters for the header of an impl, and as arguments of the type.
pub fn render_parameters(list: &Vec<Parameter>) -> (r: (String, String))
    ensures
        (r.0@, r.1@) == split_parameters(parameter_views(list@)),
{
    if list.len() == 0 {
        return (String::new(), String::new());
    }
    let ghost all = parameter_views(list@);
    let mut header = "<".to_owned();
    let mut arguments = "<".to_owned();
    let mut i: usize = 0;
    assert("<"@ + declarations(all.take(0)) =~= "<"@);
    assert("<"@ + listed_names(all.take(0)) =~= "<"@);
    while i < list.len()
        invariant
            i <= list@.len(),
            all == parameter_views(list@),
            header@ == "<"@ + declarations(all.take(i as int)),
            arguments@ == "<"@ + listed_names(all.take(i as int)),
        decreases list@.len() - i,
    {
        let ghost (header_before, arguments_before) = (header@, arguments@);
        let declaration = token::render(list[i].declaration);
        header.append(declaration.as_str());
        header.append(", ");
        arguments.append(list[i].name.as_str());
        arguments.append(", ");
        proof {
            assert(all.take(i + 1).drop_last() =~= all.take(i as int));
            assert(all.take(i + 1).last() == list@[i as int]@);
            assert(header@ =~= "<"@ + declarations(all.take(i + 1)));
            assert(arguments@ =~= "<"@ + listed_names(all.take(i + 1)));
        }
        i += 1;
    }
    assert(all.take(i as int) =~= all);
    header.append(">");
    arguments.append(">");
    (header, arguments)
}

/// Generic parameters in the header of an impl, and as arguments of the type.
pub open spec fn split_generics(s: Seq<Token>) -> Result<(Seq<char>, Seq<char>), ErrorView> {
    match parameters_from(s, 1) {
        Err(e) => Err(e),
        Ok(list) => Ok(split_parameters(list)),
    }
}

/// Renders generic parameters for the header of an impl, and as arguments of the type.
pub fn render_generics(s: &[Token]) -> (r: Result<(String, String), DefinitionError>)
    ensures
        match r {
            Ok((header, arguments)) => split_generics(s@) == Ok::<_, ErrorView>(
                (header@, arguments@),
            ),
            Err(e) => split_generics(s@) == Err::<(Seq<char>, Seq<char>), _>(e@),
        },
{
    match parse_parameters(s) {
        Ok(list) => Ok(render_parameters(&list)),
        Err(e) => Err(e),
    }
}

} // verus!

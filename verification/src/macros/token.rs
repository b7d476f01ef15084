//! Token trees and their source text.
use vstd::prelude::*;

verus! {

/// The brackets around a group of tokens.
#[derive(Clone, Copy, Debug, PartialEq, Eq, Structural)]
pub enum Delimiter {
    Parenthesis,
    Brace,
    Bracket,
}

/// A token tree.
#[derive(Debug)]
pub enum Token {
    /// An identifier or a keyword.
    Ident(String),
    /// One punctuation character, and whether the next one follows it without a space.
    Punct(String, bool),
    /// A literal.
    Literal(String),
    /// Tokens in brackets.
    Group(Delimiter, Vec<Token>),
}

/// The text of an opening bracket.
pub open spec fn open_text(delimiter: Delimiter) -> Seq<char> {
    match delimiter {
        Delimiter::Parenthesis => "("@,
        Delimiter::Brace => "{"@,
        Delimiter::Bracket => "["@,
    }
}

/// The text of a closing bracket.
pub open spec fn close_text(delimiter: Delimiter) -> Seq<char> {
    match delimiter {
        Delimiter::Parenthesis => ")"@,
        Delimiter::Brace => "}"@,
        Delimiter::Bracket => "]"@,
    }
}

/// The text of a token.
pub open spec fn token_text(token: Token) -> Seq<char>
    decreases token,
{
    match token {
        Token::Ident(name) => name@,
        Token::Punct(mark, _) => mark@,
        Token::Literal(literal) => literal@,
        Token::Group(delimiter, inner) => open_text(delimiter) + text(inner@) + close_text(
            delimiter,
        ),
    }
}

/// What separates a token from those in front of it: a space, unless it is the first one or
/// follows a joint punctuation character.
pub open spec fn separator(before: Seq<Token>) -> Seq<char> {
    if before.len() == 0 {
        ""@
    } else {
        match before.last() {
            Token::Punct(_, true) => ""@,
            _ => " "@,
        }
    }
}

/// The text of tokens in order.
pub open spec fn text(tokens: Seq<Token>) -> Seq<char>
    decreases tokens,
{
    if tokens.len() == 0 {
        Seq::empty()
    } else {
        text(tokens.drop_last()) + separator(tokens.drop_last()) + token_text(tokens.last())
    }
}

fn push_text(out: &mut String, tokens: &[Token])
    ensures
        final(out)@ == old(out)@ + text(tokens@),
    decreases tokens@,
{
    let ghost before = out@;
    let mut i: usize = 0;
    assert(tokens@.take(0) =~= Seq::empty());
    assert(before + text(tokens@.take(0)) =~= before);
    while i < tokens.len()
        invariant
            i <= tokens@.len(),
            out@ == before + text(tokens@.take(i as int)),
        decreases tokens@.len() - i,
    {
        let ghost middle = out@;
        assert(i > 0 ==> tokens@.take(i as int).last() == tokens@[i - 1]);
        if i > 0 {
            let space = match &tokens[i - 1] {
                Token::Punct(_, true) => "",
                _ => " ",
            };
            out.append(space);
        } else {
            out.append("");
        }
        match &tokens[i] {
            Token::Ident(name) => out.append(name.as_str()),
            Token::Punct(mark, _) => out.append(mark.as_str()),
            Token::Literal(literal) => out.append(literal.as_str()),
            Token::Group(delimiter, inner) => {
                let (open, close) = match delimiter {
                    Delimiter::Parenthesis => ("(", ")"),
                    Delimiter::Brace => ("{", "}"),
                    Delimiter::Bracket => ("[", "]"),
                };
                out.append(open);
                push_text(out, inner.as_slice());
                out.append(close);
            },
        }
        proof {
            assert(out@ =~= middle + separator(tokens@.take(i as int)) + token_text(
                tokens@[i as int],
            ));
            assert(tokens@.take(i + 1).drop_last() =~= tokens@.take(i as int));
            assert(out@ =~= before + text(tokens@.take(i + 1)));
        }
        i += 1;
    }
    assert(tokens@.take(i as int) =~= tokens@);
}

/// The source text of tokens.
pub fn render(tokens: &[Token]) -> (r: String)
    ensures
        r@ == text(tokens@),
{
    let mut out = String::new();
    push_text(&mut out, tokens);
    assert(Seq::<char>::empty() + text(tokens@) =~= text(tokens@));
    out
}

} // verus!

//! What holds of names, numbers, messages and the source text of tokens.
use crate::macros::error;
use crate::macros::error::{ErrorKind, ErrorView};
use crate::macros::names;
use crate::macros::text_laws;
use crate::macros::token;
use crate::macros::token::{Delimiter, Token};
use vstd::prelude::*;

verus! {

/// The number that decimal digits stand for, the last one for the units.
pub open spec fn number_of(digits: Seq<char>) -> int
    decreases digits.len(),
{
    if digits.len() == 0 {
        0
    } else {
        10 * number_of(digits.drop_last()) + (digits.last() as int - '0' as int)
    }
}

proof fn digit_is_its_number(d: nat)
    requires
        d < 10,
    ensures
        names::digit(d).len() == 1,
        names::digit(d)[0] as int == '0' as int + d,
{
    reveal_strlit("0");
    reveal_strlit("1");
    reveal_strlit("2");
    reveal_strlit("3");
    reveal_strlit("4");
    reveal_strlit("5");
    reveal_strlit("6");
    reveal_strlit("7");
    reveal_strlit("8");
    reveal_strlit("9");
}

/// A number in decimal is digits that stand for it, without a zero in front.
pub proof fn decimals_are_numbers(n: nat)
    ensures
        number_of(names::decimal(n)) == n,
        names::decimal(n).len() > 0,
        forall|i: int|
            0 <= i < names::decimal(n).len() ==> '0' <= #[trigger] names::decimal(n)[i] <= '9',
        n > 0 ==> names::decimal(n)[0] != '0',
    decreases n,
{
    if n < 10 {
        digit_is_its_number(n);
        let text = names::decimal(n);
        assert(text.drop_last() =~= Seq::empty());
        assert(number_of(text.drop_last()) == 0);
    } else {
        digit_is_its_number(n % 10);
        decimals_are_numbers(n / 10);
        let text = names::decimal(n);
        assert(text.drop_last() =~= names::decimal(n / 10));
        assert forall|i: int| 0 <= i < text.len() implies '0' <= #[trigger] text[i] <= '9' by {
            if i < text.len() - 1 {
                assert(text[i] == names::decimal(n / 10)[i]);
            }
        }
        assert(text[0] == names::decimal(n / 10)[0]);
    }
}

proof fn leading_underscores(name: Seq<char>, i: int)
    requires
        0 <= i <= name.len(),
    ensures
        0 <= names::underscores(name, i) <= name.len() - i,
        forall|k: int| i <= k < i + names::underscores(name, i) ==> #[trigger] name[k] == '_',
        i + names::underscores(name, i) < name.len() ==> name[i + names::underscores(name, i)]
            != '_',
    decreases name.len() - i,
{
    if i < name.len() && name[i] == '_' {
        leading_underscores(name, i + 1);
    }
}

/// The name of an accessor is the name of the field between a prefix and a suffix, but underscores
/// in front of the field's name stay in front.
pub proof fn prefix_goes_behind_underscores(
    prefix: Seq<char>,
    underscores: Seq<char>,
    name: Seq<char>,
    suffix: Seq<char>,
)
    requires
        forall|i: int| 0 <= i < underscores.len() ==> #[trigger] underscores[i] == '_',
        name.len() > 0 ==> name[0] != '_',
    ensures
        names::prefixed(prefix, underscores + name, suffix) == underscores + prefix + name
            + suffix,
{
    let whole = underscores + name;
    leading_underscores(whole, 0);
    let n = names::underscores(whole, 0);
    if n < underscores.len() {
        assert(whole[n] == underscores[n]);
    }
    if n > underscores.len() {
        assert(whole[underscores.len() as int] == name[0]);
    }
    assert(whole.take(n) =~= underscores);
    assert(whole.skip(n) =~= name);
}

/// What stands between the text of tokens and that of the tokens behind them: a space, unless a
/// punctuation character is joined to what follows it.
pub open spec fn between(front: Seq<Token>) -> Seq<char> {
    if front.last() matches Token::Punct(_, joint) && joint {
        ""@
    } else {
        " "@
    }
}

/// The text of tokens is that of the first ones, what stands between, and that of the others.
pub proof fn texts_follow_each_other(front: Seq<Token>, back: Seq<Token>)
    requires
        front.len() > 0,
        back.len() > 0,
    ensures
        token::text(front + back) == token::text(front) + between(front) + token::text(back),
    decreases back.len(),
{
    let all = front + back;
    assert(all.drop_last() =~= front + back.drop_last());
    assert(all.last() == back.last());
    let last = token::token_text(back.last());
    if back.len() == 1 {
        assert(back.drop_last() =~= Seq::empty());
        assert(all.drop_last() =~= front);
        text_of_one(back);
        assert(token::separator(front) == between(front));
    } else {
        let middle = back.drop_last();
        texts_follow_each_other(front, middle);
        assert((front + middle).last() == middle.last());
        assert(token::separator(front + middle) == token::separator(middle));
        let start = token::text(front) + between(front);
        text_laws::parts_associate(start, token::text(middle), token::separator(middle));
        text_laws::parts_associate(start, token::text(middle) + token::separator(middle), last);
    }
}

proof fn text_of_one(one: Seq<Token>)
    requires
        one.len() == 1,
    ensures
        token::text(one) == token::token_text(one[0]),
{
    let none = one.drop_last();
    assert(none =~= Seq::empty());
    reveal_strlit("");
    assert(token::text(none) =~= Seq::empty());
    assert(token::text(one) =~= token::token_text(one[0]));
}

/// The text of a token is its own, and that of a group is the text inside between its brackets.
pub proof fn token_texts(one: Seq<Token>)
    requires
        one.len() == 1,
    ensures
        token::text(Seq::empty()).len() == 0,
        token::text(one) == match one[0] {
            Token::Ident(name) => name@,
            Token::Punct(mark, _) => mark@,
            Token::Literal(literal) => literal@,
            Token::Group(Delimiter::Parenthesis, inner) => "("@ + token::text(inner@) + ")"@,
            Token::Group(Delimiter::Brace, inner) => "{"@ + token::text(inner@) + "}"@,
            Token::Group(Delimiter::Bracket, inner) => "["@ + token::text(inner@) + "]"@,
        },
{
    text_of_one(one);
}

/// The message for a mistake in Rust's own grammar is that of its parser, and the message for a
/// type that is none names that before it.
pub proof fn messages_keep_details(detail: Seq<char>)
    ensures
        error::message_of(ErrorView::Rust(detail)) == detail,
        error::message_of(ErrorView::NativeType(detail)) == "Failed to parse native type: "@
            + detail,
{
    reveal_strlit("");
    assert(error::message_of(ErrorView::Rust(detail)) =~= detail);
}

/// The messages for mistakes in the definition language and in derives.
pub proof fn messages_name_the_mistake()
    ensures
        error::message_of(ErrorView::Plain(ErrorKind::ExpectedStruct)) == "expected `struct`"@,
        error::message_of(ErrorView::Plain(ErrorKind::ExpectedColon)) == "expected `:`"@,
        error::message_of(ErrorView::Plain(ErrorKind::ExpectedComma)) == "expected `,`"@,
        error::message_of(ErrorView::Plain(ErrorKind::ExpectedBraces)) == "expected curly braces"@,
        error::message_of(ErrorView::Plain(ErrorKind::ExpectedBits)) == "expected `bits`"@,
        error::message_of(ErrorView::Plain(ErrorKind::ExpectedIdentifier))
            == "expected identifier"@,
        error::message_of(ErrorView::Plain(ErrorKind::UnexpectedToken)) == "unexpected token"@,
        error::message_of(ErrorView::Plain(ErrorKind::FallibleAttribute))
            == "`#[fallible]` is no longer used; Zorua infers Result-returning accessors from BitCodec"@,
        error::message_of(ErrorView::Plain(ErrorKind::AsSyntax))
            == "`as` storage syntax has been replaced by #[storage(...)]"@,
        error::message_of(ErrorView::Plain(ErrorKind::DuplicateStorage))
            == "duplicate #[storage(...)] attribute"@,
        error::message_of(ErrorView::Plain(ErrorKind::UnknownEndian))
            == "expected `little` or `big` in #[endian(...)]"@,
        error::message_of(ErrorView::Plain(ErrorKind::DuplicateEndian))
            == "duplicate #[endian(...)] attribute"@,
        error::message_of(ErrorView::Plain(ErrorKind::NeedsEndian))
            == "native multi-byte storage needs #[endian(little)] or #[endian(big)]"@,
        error::message_of(ErrorView::Plain(ErrorKind::PackedType))
            == "a packed array needs an array as its storage"@,
        error::message_of(ErrorView::Plain(ErrorKind::NotDerivable))
            == "BitCodec can only be derived for enums and structs"@,
        error::message_of(ErrorView::Plain(ErrorKind::EnumRepr))
            == "BitCodec requires #[repr(u8)], #[repr(u16)], or #[repr(u32)] for enums"@,
        error::message_of(ErrorView::Plain(ErrorKind::VariantFields))
            == "BitCodec only supports c-like enums (variants cannot have fields)"@,
        error::message_of(ErrorView::Plain(ErrorKind::VariantDiscriminant))
            == "BitCodec requires explicit discriminant values for all variants"@,
        error::message_of(ErrorView::Plain(ErrorKind::FieldCount))
            == "BitCodec can only be derived for structs with exactly one field (newtypes)"@,
        error::message_of(ErrorView::Plain(ErrorKind::NamedField))
            == "BitCodec can only be derived for tuple structs (use `struct Name(T)` syntax)"@,
        error::message_of(ErrorView::Plain(ErrorKind::NewtypeRepr))
            == "BitCodec requires #[repr(transparent)] for newtype structs"@,
{
}

} // verus!

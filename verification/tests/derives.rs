use proc_macro2::{Delimiter as Bracket, Spacing, TokenStream, TokenTree};
use zorua::macros::codec_plan::{delegate, list_storages, min_bits, plan_derive, Delegation, DerivePlan};
use zorua::macros::codec_code::bitcodec_derive_macro;
use zorua::macros::error::ErrorKind;
use zorua::macros::generics::{render_generics, render_parameters, take_parameter};
use zorua::macros::repr::{add_item, add_items, get_repr_state, name_item, ReprItem, ReprState};
use zorua::macros::pieces::take_attributes;
use zorua::macros::token::{Delimiter, Token};

fn convert(stream: TokenStream, tokens: &mut Vec<Token>) {
    for tree in stream {
        match tree {
            TokenTree::Ident(ident) => tokens.push(Token::Ident(ident.to_string())),
            TokenTree::Literal(literal) => tokens.push(Token::Literal(literal.to_string())),
            TokenTree::Punct(punct) => tokens.push(Token::Punct(
                punct.as_char().to_string(),
                punct.spacing() == Spacing::Joint,
            )),
            TokenTree::Group(group) => {
                let delimiter = match group.delimiter() {
                    Bracket::Parenthesis => Delimiter::Parenthesis,
                    Bracket::Brace => Delimiter::Brace,
                    _ => Delimiter::Bracket,
                };
                let mut inner = Vec::new();
                convert(group.stream(), &mut inner);
                tokens.push(Token::Group(delimiter, inner));
            }
        }
    }
}

fn lex(text: &str) -> Vec<Token> {
    let mut tokens = Vec::new();
    convert(text.parse().unwrap(), &mut tokens);
    tokens
}

fn derive_error(text: &str) -> (ErrorKind, String) {
    let error = plan_derive(&lex(text)).err().unwrap();
    (error.kind(), error.message())
}

fn storages(text: &str) -> (usize, Vec<(String, usize, bool)>) {
    match plan_derive(&lex(text)).ok().unwrap() {
        DerivePlan::Enum(plan) => (
            plan.discriminant_bits,
            plan.storages.into_iter().map(|s| (s.name, s.bits, s.fallible)).collect(),
        ),
        DerivePlan::Newtype(_) => panic!("an enum"),
    }
}

fn expected(list: &[(&str, usize, bool)]) -> Vec<(String, usize, bool)> {
    list.iter().map(|(name, bits, fallible)| (name.to_string(), *bits, *fallible)).collect()
}

const LANGUAGE: &str = "
    #[repr(u8)]
    #[derive(Clone, Copy)]
    enum Language {
        Japanese = 1,
        English = 2,
        French = 3,
    }";

#[test]
fn an_enum_is_stored_in_all_widths_that_hold_it() {
    let (bits, list) = storages(LANGUAGE);
    assert_eq!(bits, 8);
    assert_eq!(
        list,
        expected(&[
            ("u2", 2, true),
            ("u3", 3, true),
            ("u4", 4, true),
            ("u5", 5, true),
            ("u6", 6, true),
            ("u7", 7, true),
            ("u8", 8, true),
            ("u32", 32, true),
            ("u32_le", 32, true),
            ("u32_be", 32, true),
            ("u64", 64, true),
            ("u64_le", 64, true),
            ("u64_be", 64, true),
        ])
    );
}

#[test]
fn an_enum_that_fills_a_width_cannot_fail_there() {
    let (_, list) = storages("#[repr(u8)] enum E { A = 0, B = 1, C = 2, D = 3 }");
    assert_eq!(list[0], ("u2".to_string(), 2, false));
    assert_eq!(list[1], ("u3".to_string(), 3, true));
}

#[test]
fn wider_discriminants_have_wider_storages() {
    let names = |text: &str| -> Vec<String> {
        storages(text).1.into_iter().map(|(name, _, _)| name).collect()
    };
    let short = names("#[repr(u16)] enum E { A = 0x1234 }");
    assert_eq!(short.len(), 16 + 2 + 6);
    assert_eq!(short[0], "u1");
    assert_eq!(short[7..9], ["u8", "u9"]);
    assert_eq!(short[15..19], ["u16", "u16_le", "u16_be", "u32"]);
    let long = names("#[repr(u32)] enum E { A = 1 }");
    assert_eq!(long.len(), 31 + 2 + 6);
    assert_eq!(long[15..20], ["u16", "u16_le", "u16_be", "u17", "u18"]);
    assert_eq!(long[32..34], ["u31", "u32"]);
    assert_eq!(storages("#[repr(u32, u16)] enum E { A = 1 }").0, 16);
}

#[test]
fn the_fewest_bits_hold_all_variants() {
    let counts = [0, 1, 2, 3, 4, 5, 8, 9, 256, 257, 65536, 65537];
    let bits: Vec<usize> = counts.iter().map(|count| min_bits(*count)).collect();
    assert_eq!(bits, vec![1, 1, 1, 2, 2, 3, 3, 4, 8, 9, 16, 17]);
    assert_eq!(min_bits(usize::MAX), 64);
    assert_eq!(list_storages(9, 8, 300).len(), 6);
}

#[test]
fn enums_without_a_codec_are_refused() {
    let repr = "BitCodec requires #[repr(u8)], #[repr(u16)], or #[repr(u32)] for enums";
    assert_eq!(derive_error("enum E { A = 1 }"), (ErrorKind::EnumRepr, repr.to_string()));
    assert_eq!(derive_error("#[repr(u64)] enum E { A = 1 }").0, ErrorKind::EnumRepr);
    assert_eq!(
        derive_error("#[repr(u8)] enum E { A(u8) = 1, B }"),
        (
            ErrorKind::VariantFields,
            "BitCodec only supports c-like enums (variants cannot have fields)".to_string()
        )
    );
    assert_eq!(
        derive_error("#[repr(u8)] enum E { A = 1, B, C(u8) }"),
        (
            ErrorKind::VariantDiscriminant,
            "BitCodec requires explicit discriminant values for all variants".to_string()
        )
    );
    assert_eq!(
        derive_error("#[repr(C)] union U { a: u8 }"),
        (
            ErrorKind::NotDerivable,
            "BitCodec can only be derived for enums and structs".to_string()
        )
    );
    assert_eq!(derive_error("fn f() {}").0, ErrorKind::Rust);
}

#[test]
fn newtypes_pass_their_codecs_on() {
    let delegation = |text: &str| match plan_derive(&lex(text)).ok().unwrap() {
        DerivePlan::Newtype(plan) => (plan.ty, plan.delegation),
        DerivePlan::Enum(_) => panic!("a newtype"),
    };
    let (ty, short) = delegation("#[repr(transparent)] struct Id(u16);");
    assert_eq!(ty, "u16");
    assert!(matches!(short, Delegation::AnyOrder("U16")));
    let (ty, none) = delegation("#[repr(transparent)] struct Id(pub u8);");
    assert_eq!(ty, "u8");
    assert!(matches!(none, Delegation::Nothing));
    let (ty, each) = delegation("#[repr(transparent)] struct Id<T>(T);");
    assert_eq!(ty, "T");
    match each {
        Delegation::Each(names) => {
            assert_eq!(names.len(), 40);
            assert_eq!(names[..3], ["bool", "u1", "u2"]);
            assert_eq!(names[31..], [
                "u31", "u32", "u64", "u16_le", "u16_be", "u32_le", "u32_be", "u64_le", "u64_be"
            ]);
        }
        _ => panic!("all storages"),
    }
    assert!(matches!(delegate(false, &"u32".to_string()), Delegation::AnyOrder("U32")));
    assert!(matches!(delegate(false, &"u64".to_string()), Delegation::AnyOrder("U64")));
}

#[test]
fn other_structs_are_refused() {
    assert_eq!(
        derive_error("#[repr(packed(x))] struct Id(u8, u8);"),
        (
            ErrorKind::FieldCount,
            "BitCodec can only be derived for structs with exactly one field (newtypes)".to_string()
        )
    );
    assert_eq!(
        derive_error("struct Id { inner: u8 }"),
        (
            ErrorKind::NamedField,
            "BitCodec can only be derived for tuple structs (use `struct Name(T)` syntax)"
                .to_string()
        )
    );
    assert_eq!(
        derive_error("#[repr(C)] struct Id(u8);"),
        (
            ErrorKind::NewtypeRepr,
            "BitCodec requires #[repr(transparent)] for newtype structs".to_string()
        )
    );
    assert_eq!(derive_error("#[repr(packed(x))] struct Id(u8);").0, ErrorKind::Rust);
}

fn state(text: &str) -> Result<ReprState, ErrorKind> {
    let tokens = lex(text);
    let names = vec![Some("repr".to_string()); tokens.len() / 2];
    let (attrs, _) = take_attributes(&tokens, 0, names).ok().unwrap();
    get_repr_state(&attrs).map_err(|e| e.kind())
}

#[test]
fn representations_are_collected() {
    let plain = ReprState {
        repr_c: false,
        repr_u8: false,
        repr_u16: false,
        repr_u32: false,
        repr_transparent: false,
        repr_packed: None,
    };
    assert_eq!(state(""), Ok(plain));
    assert_eq!(state("#[repr(C, u8)]"), Ok(ReprState { repr_c: true, repr_u8: true, ..plain }));
    assert_eq!(state("#[repr(packed)]"), Ok(ReprState { repr_packed: Some(1), ..plain }));
    assert_eq!(
        state("#[repr(u16)] #[repr(u32, packed(4),)]"),
        Ok(ReprState { repr_u16: true, repr_u32: true, repr_packed: Some(4), ..plain })
    );
    assert_eq!(
        state("#[repr(transparent, simd)]"),
        Ok(ReprState { repr_transparent: true, ..plain })
    );
    assert_eq!(state("#[repr(align(4))]"), Err(ErrorKind::ExpectedComma));
    assert_eq!(state("#[repr(packed[4])]"), Err(ErrorKind::Rust));
    assert_eq!(state("#[repr(packed(4 5))]"), Err(ErrorKind::Rust));
    assert_eq!(state("#[repr(packed(\"4\"))]"), Err(ErrorKind::Rust));
    assert_eq!(state("#[repr(C = 1)]"), Err(ErrorKind::Rust));
    assert_eq!(state("#[repr]"), Err(ErrorKind::UnexpectedToken));
}

#[test]
fn the_words_of_the_parser_are_passed_on_by_derives() {
    let words = syn::parse_str::<syn::DeriveInput>("fn f() {}").err().unwrap().to_string();
    assert_eq!(derive_error("fn f() {}"), (ErrorKind::Rust, words));
    let words = syn::parse_str::<syn::LitInt>("x").err().unwrap().to_string();
    assert_eq!(derive_error("#[repr(packed(x))] struct Id(u8);"), (ErrorKind::Rust, words));
    assert_eq!(
        derive_error("#[repr(packed(99999999999999999999))] struct Id(u8);"),
        (ErrorKind::Rust, "number too large to fit in target type".to_string())
    );
}

#[test]
fn representation_items_are_added() {
    let plain = ReprState {
        repr_c: false,
        repr_u8: false,
        repr_u16: false,
        repr_u32: false,
        repr_transparent: false,
        repr_packed: None,
    };
    let add = |text: &str| add_items(plain, &lex(text)).map_err(|e| e.kind());
    assert_eq!(add(""), Ok(plain));
    assert_eq!(add("C, other"), Ok(ReprState { repr_c: true, ..plain }));
    assert_eq!(
        add("a::b, packed(8), u8,"),
        Ok(ReprState { repr_packed: Some(8), repr_u8: true, ..plain })
    );
    assert_eq!(add("C(1), u8"), Err(ErrorKind::ExpectedComma));
    assert_eq!(add("C u8"), Err(ErrorKind::Rust));
    assert_eq!(add("C, , u8"), Err(ErrorKind::ExpectedIdentifier));
    assert_eq!(add("packed(1)(2)"), Err(ErrorKind::Rust));
    let item = |names: Vec<Option<String>>| name_item(names, None);
    assert!(item(vec![]).is_err());
    assert!(item(vec![None, None]).is_err());
    let packed = item(vec![Some("packed".to_string())]).ok().unwrap();
    assert_eq!(
        add_item(plain, &packed).ok(),
        Some(ReprState { repr_packed: Some(1), ..plain })
    );
    let four = ReprItem { name: packed.name, argument: Some("4".to_string()) };
    assert_eq!(
        add_item(plain, &four).ok(),
        Some(ReprState { repr_packed: Some(4), ..plain })
    );
}

#[test]
fn generic_parameters_are_split() {
    let split = |text: &str| render_generics(&lex(text)).map_err(|e| e.kind());
    let pair = |a: &str, b: &str| Ok((a.to_string(), b.to_string()));
    assert_eq!(split(""), pair("", ""));
    assert_eq!(split("<>"), pair("", ""));
    assert_eq!(split("<T>"), pair("<T, >", "<T, >"));
    assert_eq!(
        split("<'a, T: Into<u8> = u8, const N: usize = 4,>"),
        pair("<'a, T : Into < u8 >, const N : usize, >", "<'a, T, N, >")
    );
    assert_eq!(
        split("<T: Iterator<Item = u8>, F: Fn(u8) -> u8 = fn(u8) -> u8>"),
        pair("<T : Iterator < Item = u8 >, F : Fn (u8) -> u8, >", "<T, F, >")
    );
    assert_eq!(split("<3>"), Err(ErrorKind::Rust));
    let tokens = lex("<T = u8>");
    let (parameter, end) = take_parameter(&tokens, 1, "T".to_string(), 1).ok().unwrap();
    assert_eq!((parameter.name.as_str(), parameter.declaration.len(), end), ("T", 1, 4));
    assert!(take_parameter(&tokens, 1, "T".to_string(), 4).is_err());
    assert!(take_parameter(&tokens, 1, "T".to_string(), 5).is_err());
    assert_eq!(render_parameters(&vec![parameter]), ("<T, >".to_string(), "<T, >".to_string()));
}

fn squeeze(text: &str) -> String {
    text.split_whitespace().collect::<Vec<&str>>().join(" ")
}

#[test]
fn derived_code_is_rust() {
    for text in [
        LANGUAGE,
        "#[repr(u16)] enum E<T> where T: Clone { A = 1 }",
        "#[repr(transparent)] struct Id(u16);",
        "#[repr(transparent)] pub struct Id<T: Copy, const N: usize>(pub [T; N]) where T: Eq;",
    ] {
        let code = bitcodec_derive_macro(&lex(text)).ok().unwrap();
        assert!(syn::parse_str::<syn::File>(&code).is_ok(), "{code}");
    }
    assert!(bitcodec_derive_macro(&lex("enum E {}")).is_err());
}

#[test]
fn enum_codecs_are_generated() {
    let code = squeeze(&bitcodec_derive_macro(&lex(LANGUAGE)).ok().unwrap());
    assert_eq!(code.matches("impl BitCodec<").count(), 13);
    for part in [
        "impl BitCodec<u2> for Language { const BITS: usize = 2; const IS_FALLIBLE: bool = true; \
         type Read = Result<Self, u2>;",
        "match ::zorua::enum_codec::read_variant::<u2>(src, bit_offset, &[\
         Language::Japanese as u8 as u32, Language::English as u8 as u32, \
         Language::French as u8 as u32, ]) { Some(0) => Language::Japanese, \
         Some(1) => Language::English, Some(2) => Language::French, \
         _ => panic!(\"Invalid discriminant\"), }",
        "Ok(2) => Ok(Language::French), Ok(_) => unreachable!(), Err(raw) => Err(raw), }",
        "let discriminant = match self { Language::Japanese => Language::Japanese as u8, ",
        "::zorua::enum_codec::write_variant::<u64_be>(dst, bit_offset, discriminant as u32);",
        "<Self as BitCodec<u64_be>>::try_read_bits(src, bit_offset)",
    ] {
        assert!(code.contains(&squeeze(part)), "{part}\n{code}");
    }
}

#[test]
fn newtype_codecs_are_generated() {
    let code = squeeze(
        &bitcodec_derive_macro(&lex("#[repr(transparent)] struct Id(u16);")).ok().unwrap(),
    );
    assert!(code.starts_with(
        "impl BitCodec<Id > for Id where u16: BitCodec<u16>, <u16 as BitCodec<u16>>::Read: \
         ::zorua::codec::ReadShape<u16, u16, Self, Id >, { const BITS"
    ));
    assert!(code.contains(
        "type Read = <<u16 as BitCodec<u16>>::Read as \
         ::zorua::codec::ReadShape<u16, u16, Self, Id >>::Read;"
    ));
    assert!(code.contains("impl <E: ByteOrder> BitCodec<U16<E>> for Id {"));
    assert!(code.contains("Self(<u16 as BitCodec<U16<E>>>::read_bits(src, bit_offset))"));
    assert!(code.contains(
        "<u16 as BitCodec<u16>>::try_read_bits(src, bit_offset).map(Self) .map_err(Self)"
    ));
    let generic = "#[repr(transparent)] struct Id<T>(T);";
    let code = squeeze(&bitcodec_derive_macro(&lex(generic)).ok().unwrap());
    assert_eq!(code.matches("impl <T, > BitCodec<").count(), 41);
    assert!(code.contains("impl <T, > BitCodec<bool> for Id <T, > where T: BitCodec<bool>, <T as BitCodec<bool>>::Read: \
         ::zorua::codec::ReadShape<T, bool, Self, bool>, {"));
    let bounded = "#[repr(transparent)] struct Id<T: Copy = u8>(#[doc = \"x\"] pub(crate) [T; 2],) \
                   where T: Eq;";
    let code = squeeze(&bitcodec_derive_macro(&lex(bounded)).ok().unwrap());
    assert!(code.contains(
        "impl <T : Copy, > BitCodec<u8> for Id <T, > \
         where [T ; 2]: BitCodec<u8>, <[T ; 2] as BitCodec<u8>>::Read: \
         ::zorua::codec::ReadShape<[T ; 2], u8, Self, u8>, T : Eq {"
    ));
}

#[test]
fn derived_code_keeps_where_clauses() {
    let text = "#[repr(u8)] enum E<T> where T: Clone, [T; 2]: Eq { A = 1 }";
    let code = squeeze(&bitcodec_derive_macro(&lex(text)).ok().unwrap());
    assert!(code.contains("impl <T, > BitCodec<u1> for E <T, > where T : Clone , [T ; 2] : Eq {"));
}

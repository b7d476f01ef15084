use proc_macro2::{Delimiter as Bracket, Spacing, TokenStream, TokenTree};
use zorua::byte_repr::ByteLayout;
use zorua::codec::BitCodec;
use zorua::data_type::endian::{u16_be, u32_be};
use zorua::macros::definition::{parse_definition, FieldItem, SubfieldItem};
use zorua::macros::error::ErrorKind;
use zorua::macros::layout::Width;
use zorua::macros::names::{decimal_text, prefixed_name};
use zorua::macros::pieces::{take_attributes, take_consumed};
use zorua::macros::struct_plan::{lists_name, plan_definition, Access, FieldItemPlan};
use zorua::macros::storage::{
    contains_native_multibyte, deconstruct_array, endian_named, endian_storage_type,
    is_native_multibyte, native_multibyte_in, DefaultEndian,
};
use zorua::macros::syntax::TypeShape;
use zorua::macros::struct_code::bitstruct;
use zorua::macros::template::fill;
use zorua::macros::token::{render, Delimiter, Token};

fn convert(stream: TokenStream, tokens: &mut Vec<Token>) {
    for tree in stream {
        match tree {
            TokenTree::Ident(ident) => tokens.push(Token::Ident(ident.to_string())),
            TokenTree::Literal(literal) => tokens.push(Token::Literal(literal.to_string())),
            TokenTree::Punct(punct) => tokens.push(Token::Punct(
                punct.as_char().to_string(),
                punct.spacing() == Spacing::Joint,
            )),
            TokenTree::Group(group) => {
                let delimiter = match group.delimiter() {
                    Bracket::Parenthesis => Delimiter::Parenthesis,
                    Bracket::Brace => Delimiter::Brace,
                    Bracket::Bracket => Delimiter::Bracket,
                    Bracket::None => {
                        convert(group.stream(), tokens);
                        continue;
                    }
                };
                let mut inner = Vec::new();
                convert(group.stream(), &mut inner);
                tokens.push(Token::Group(delimiter, inner));
            }
        }
    }
}

fn lex(text: &str) -> Vec<Token> {
    let mut tokens = Vec::new();
    convert(text.parse().unwrap(), &mut tokens);
    tokens
}

fn parse_error(text: &str) -> (ErrorKind, String) {
    let tokens = lex(text);
    let error = parse_definition(&tokens).err().unwrap();
    (error.kind(), error.message())
}

fn plan_error(text: &str) -> (ErrorKind, String) {
    let tokens = lex(text);
    let definition = parse_definition(&tokens).ok().unwrap();
    let error = plan_definition(&definition).err().unwrap();
    (error.kind(), error.message())
}

fn widths(list: &[Width]) -> Vec<String> {
    list.iter()
        .map(|width| match width {
            Width::Bits(bits) => render(bits),
            Width::Codec(native, storage) => format!("{}: {}", render(native), storage.text()),
            Width::Elements(len, native, storage) => {
                format!("{} * {}: {}", render(len), render(native), storage.text())
            }
            Width::Steps(len, stride) => format!("{} * {}", render(len), render(stride)),
        })
        .collect()
}

const HEADER: &str = "
    /// A header.
    #[repr(C)]
    #[endian(little)]
    #[derive(Clone, Debug, zerocopy::FromBytes)]
    pub struct Header {
        /// The number.
        pub id: u16,
        pad 2,
        flags: u16 {
            pub kind: u4@0,
            pub active: bool@4,
            pad 11,
        },
        pub(crate) name: [u8; 4],
        pub sizes: [u32; 3],
    }";

#[test]
fn a_definition_is_parsed_into_its_fields() {
    let tokens = lex(HEADER);
    let definition = parse_definition(&tokens).ok().unwrap();
    assert_eq!(definition.name, "Header");
    assert_eq!(render(definition.vis), "pub");
    assert!(!definition.generic);
    assert!(definition.bits.is_none());
    assert_eq!(definition.attrs.len(), 4);
    assert_eq!(definition.attrs[2].name.as_deref(), Some("endian"));
    assert_eq!(definition.fields.len(), 5);
    match &definition.fields[0] {
        FieldItem::Value(field) => {
            assert_eq!(field.name, "id");
            assert_eq!(render(field.vis), "pub");
            assert_eq!(render(field.native), "u16");
            assert_eq!(field.attrs.len(), 1);
            assert!(field.storage.is_none());
            assert!(field.subfields.is_none());
        }
        FieldItem::Padding(_) => panic!("a field"),
    }
    match &definition.fields[1] {
        FieldItem::Padding(len) => assert_eq!(render(len), "2"),
        FieldItem::Value(_) => panic!("padding"),
    }
    match &definition.fields[2] {
        FieldItem::Value(field) => {
            let items = field.subfields.as_ref().unwrap();
            assert_eq!(items.len(), 3);
            match &items[1] {
                SubfieldItem::Value(subfield) => {
                    assert_eq!(subfield.name, "active");
                    assert_eq!(render(subfield.native), "bool");
                    assert_eq!(subfield.offset.map(render).as_deref(), Some("4"));
                    assert!(subfield.stride.is_none());
                    assert!(!subfield.zeroed);
                }
                SubfieldItem::Padding(_) => panic!("a field"),
            }
            match &items[2] {
                SubfieldItem::Padding(bits) => assert_eq!(render(bits), "11"),
                SubfieldItem::Value(_) => panic!("padding"),
            }
        }
        FieldItem::Padding(_) => panic!("a field"),
    }
    match &definition.fields[3] {
        FieldItem::Value(field) => assert_eq!(render(field.vis), "pub (crate)"),
        FieldItem::Padding(_) => panic!("a field"),
    }
}

#[test]
fn a_definition_is_planned() {
    let tokens = lex(HEADER);
    let definition = parse_definition(&tokens).ok().unwrap();
    let plan = plan_definition(&definition).ok().unwrap();
    let kept: Vec<Option<&str>> = plan.attrs.iter().map(|attr| attr.name.as_deref()).collect();
    assert_eq!(kept, vec![Some("doc"), Some("repr"), Some("derive")]);
    assert_eq!(plan.derives, vec!["IntoBytes", "KnownLayout", "Immutable", "Unaligned"]);
    match &plan.fields[0] {
        FieldItemPlan::Value(field) => {
            assert_eq!(field.storage.text(), "u16_le");
            assert!(field.hidden);
            assert!(field.packed.is_none());
            let access = field.access.as_ref().unwrap();
            assert_eq!(access.writer, "set_id");
            assert!(access.elements.is_none());
            let raw = access.raw.as_ref().unwrap();
            assert_eq!((raw.getter.as_str(), raw.setter.as_str()), ("id_raw", "set_id_raw"));
        }
        FieldItemPlan::Padding(..) => panic!("a field"),
    }
    match &plan.fields[1] {
        FieldItemPlan::Padding(name, len) => {
            assert_eq!(name, "__zorua_pad_1");
            assert_eq!(render(len), "2");
        }
        FieldItemPlan::Value(_) => panic!("padding"),
    }
    match &plan.fields[2] {
        FieldItemPlan::Value(field) => {
            assert_eq!(field.storage.text(), "u16_le");
            assert!(field.hidden);
            assert!(field.access.is_none());
            let packed = field.packed.as_ref().unwrap();
            assert_eq!(packed.accessors.len(), 2);
            assert_eq!(packed.accessors[0].writer, "set_kind");
            assert!(packed.accessors[0].raw.is_none());
            assert!(packed.accessors[0].identity);
            assert!(!packed.accessors[0].backed);
            assert!(packed.accessors[0].offset.is_empty());
            assert_eq!(widths(&packed.accessors[1].offset), vec!["u4: u4"]);
            assert_eq!(
                widths(&packed.coverage),
                vec!["u4: u4", "bool: bool", "11"]
            );
            let claim = packed.claim.as_ref().unwrap();
            assert_eq!(claim.offset.map(render).as_deref(), Some("4"));
            assert_eq!(widths(&claim.widths), vec!["bool: bool", "11"]);
        }
        FieldItemPlan::Padding(..) => panic!("a field"),
    }
    match &plan.fields[3] {
        FieldItemPlan::Value(field) => {
            assert_eq!(field.storage.text(), "[u8 ; 4]");
            assert!(!field.hidden);
            assert!(field.access.is_none());
        }
        FieldItemPlan::Padding(..) => panic!("a field"),
    }
    match &plan.fields[4] {
        FieldItemPlan::Value(field) => {
            assert_eq!(field.storage.text(), "[u32_le ; 3]");
            let access = field.access.as_ref().unwrap();
            assert_eq!(access.writer, "set_sizes");
            assert!(access.raw.is_none());
            let elements = access.elements.as_ref().unwrap();
            assert_eq!(render(elements.native), "u32");
            assert_eq!(elements.storage.text(), "u32_le");
            assert_eq!(render(elements.len), "3");
        }
        FieldItemPlan::Padding(..) => panic!("a field"),
    }
}

#[test]
fn packed_fields_are_planned_by_their_shape() {
    let tokens = lex("
        #[endian(big)]
        struct Packed<const N: usize> (bits 24) {
            bits data: [u8; 16] {
                pad 8,
                #[zeroedoption]
                pub slots: [Slot; 4]@8,
                #[zeroedoption]
                _hidden: Language,
                #[storage(u3)]
                kind: Kind,
                count: u16,
                rows: [u2; 5]@98 stride 3,
                #[storage([u4; 2])]
                cells: [Cell; 2],
            },
        }");
    let definition = parse_definition(&tokens).ok().unwrap();
    assert!(definition.generic);
    assert_eq!(definition.bits.map(render).as_deref(), Some("24"));
    let plan = plan_definition(&definition).ok().unwrap();
    assert_eq!(plan.derives.len(), 5);
    let packed = match &plan.fields[0] {
        FieldItemPlan::Value(field) => {
            assert!(field.access.is_none());
            field.packed.as_ref().unwrap()
        }
        FieldItemPlan::Padding(..) => panic!("a field"),
    };
    assert!(packed.claim.is_none());
    let [slots, hidden, kind, count, rows, cells] = &packed.accessors[..] else {
        panic!("six accessors");
    };
    assert_eq!(slots.writer, "slots_mut");
    assert!(slots.raw.is_none());
    assert!(slots.identity);
    assert_eq!(widths(&slots.offset), vec!["8"]);
    match &slots.access {
        Access::ZeroedArray(elements) => assert_eq!(render(elements.native), "Slot"),
        _ => panic!("optional elements"),
    }
    assert_eq!(hidden.writer, "_set_hidden");
    assert!(matches!(hidden.access, Access::Zeroed));
    let raw = hidden.raw.as_ref().unwrap();
    assert_eq!((raw.getter.as_str(), raw.setter.as_str()), ("_hidden_raw", "_set_hidden_raw"));
    assert_eq!(widths(&hidden.offset), vec!["8", "4 * Slot: Slot"]);
    assert!(matches!(kind.access, Access::Scalar));
    assert!(kind.backed && !kind.identity && kind.raw.is_some());
    assert!(kind.subfield.attrs.is_empty() && slots.subfield.attrs.is_empty());
    assert_eq!(kind.storage.text(), "u3");
    assert!(count.backed && !count.identity && count.raw.is_some());
    assert_eq!(count.storage.text(), "u16_be");
    match &rows.access {
        Access::Array(elements) => assert_eq!(elements.stride.map(render).as_deref(), Some("3")),
        _ => panic!("elements"),
    }
    assert_eq!(rows.writer, "rows_mut");
    assert!(rows.raw.is_none() && rows.identity && !rows.backed);
    match &cells.access {
        Access::Array(elements) => assert_eq!(elements.storage.text(), "u4"),
        _ => panic!("elements"),
    }
    assert!(cells.raw.is_some() && cells.backed && !cells.identity);
    assert_eq!(
        widths(&packed.coverage),
        vec![
            "8",
            "4 * Slot: Slot",
            "Language: Language",
            "Kind: u3",
            "u16: u16_be",
            "5 * 3",
            "2 * Cell: u4",
        ]
    );
}

#[test]
fn a_storage_type_makes_accessors() {
    let tokens = lex("struct S { #[storage(u8)] pub language: Language, plain: u8 }");
    let definition = parse_definition(&tokens).ok().unwrap();
    let plan = plan_definition(&definition).ok().unwrap();
    match &plan.fields[0] {
        FieldItemPlan::Value(field) => {
            assert_eq!(field.storage.text(), "u8");
            assert!(field.hidden);
            assert!(field.access.is_some());
        }
        FieldItemPlan::Padding(..) => panic!("a field"),
    }
    match &plan.fields[1] {
        FieldItemPlan::Value(field) => assert!(!field.hidden && field.access.is_none()),
        FieldItemPlan::Padding(..) => panic!("a field"),
    }
}

#[test]
fn the_same_type_is_recognised_however_it_ends() {
    let tokens = lex("struct S { data: u8 { #[storage(Wrap<u8>)] a: Wrap<u8>, pad 1 } }");
    let definition = parse_definition(&tokens).ok().unwrap();
    let plan = plan_definition(&definition).ok().unwrap();
    match &plan.fields[0] {
        FieldItemPlan::Value(field) => {
            assert!(field.packed.as_ref().unwrap().accessors[0].identity);
        }
        FieldItemPlan::Padding(..) => panic!("a field"),
    }
}

#[test]
fn types_in_angle_brackets_are_not_cut() {
    let tokens = lex("struct S { a: Map<u8, Vec<u8>>, b: <T as Trait>::Name }");
    let definition = parse_definition(&tokens).ok().unwrap();
    let natives: Vec<String> = definition
        .fields
        .iter()
        .map(|item| match item {
            FieldItem::Value(field) => render(field.native),
            FieldItem::Padding(_) => panic!("a field"),
        })
        .collect();
    assert_eq!(natives, vec!["Map < u8 , Vec < u8 >>", "< T as Trait >:: Name"]);
}

#[test]
fn unknown_attributes_are_kept() {
    for text in [
        "#[repr(C)] #[offset(b = 2)] struct Bad { pub a: u8, pub b: u8, }",
        "#[repr(C)] #[size(bytes = 3)] struct Bad { pub a: u8, pub b: u8, }",
    ] {
        let tokens = lex(text);
        let definition = parse_definition(&tokens).ok().unwrap();
        assert_eq!(plan_definition(&definition).ok().unwrap().attrs.len(), 2);
    }
}

#[test]
fn an_incomplete_bitfield_has_too_few_bits() {
    let tokens = lex("#[repr(C)] struct Bad { bits flags: u8 { enabled: bool, }, }");
    let definition = parse_definition(&tokens).ok().unwrap();
    let plan = plan_definition(&definition).ok().unwrap();
    match &plan.fields[0] {
        FieldItemPlan::Value(field) => {
            let packed = field.packed.as_ref().unwrap();
            assert_eq!(widths(&packed.coverage), vec!["bool: bool"]);
            let claim = packed.claim.as_ref().unwrap();
            assert!(claim.offset.is_none());
            assert_eq!(widths(&claim.widths), vec!["bool: bool"]);
            assert_eq!(field.storage.text(), "u8");
        }
        FieldItemPlan::Padding(..) => panic!("a field"),
    }
}

#[test]
fn native_storage_needs_a_byte_order() {
    let expected = "native multi-byte storage needs #[endian(little)] or #[endian(big)]";
    for text in [
        "#[repr(C)] #[derive(Clone)] struct Bad { value: u16, }",
        "struct Bad { value: [[i64; 2]; 3] }",
        "struct Bad { #[storage(u32)] value: Kind }",
        "struct Bad { data: [u8; 4] { value: u16, pad 16 } }",
        "struct Bad { data: [u8; 4] { #[storage(u32)] value: Kind } }",
    ] {
        assert_eq!(plan_error(text), (ErrorKind::NeedsEndian, expected.to_string()));
    }
}

#[test]
fn the_byte_order_is_little_or_big_and_given_once() {
    assert_eq!(
        plan_error("#[repr(C)] #[endian(native)] #[derive(Clone)] struct Bad { value: u16, }"),
        (
            ErrorKind::UnknownEndian,
            "expected `little` or `big` in #[endian(...)]".to_string()
        )
    );
    assert_eq!(
        plan_error("#[endian(big)] #[endian(little)] struct Bad { value: u16, }"),
        (ErrorKind::DuplicateEndian, "duplicate #[endian(...)] attribute".to_string())
    );
    assert_eq!(plan_error("#[endian] struct Bad { value: u8 }").0, ErrorKind::Rust);
    assert_eq!(plan_error("#[endian(1)] struct Bad { value: u8 }").0, ErrorKind::Rust);
}

#[test]
fn storage_is_not_given_with_as() {
    let expected = "`as` storage syntax has been replaced by #[storage(...)]";
    for text in [
        "#[repr(C)] #[derive(Clone)] struct Bad { value: u16 as u16, }",
        "struct Bad { data: u8 { value: bool as u8 } }",
    ] {
        assert_eq!(parse_error(text), (ErrorKind::AsSyntax, expected.to_string()));
    }
}

#[test]
fn storage_is_given_once() {
    assert_eq!(
        parse_error("struct Bad { #[storage(u8)] #[storage(u8)] value: Kind }"),
        (ErrorKind::DuplicateStorage, "duplicate #[storage(...)] attribute".to_string())
    );
    assert_eq!(parse_error("struct Bad { #[storage(1)] value: Kind }").0, ErrorKind::Rust);
}

#[test]
fn fallible_is_refused() {
    assert_eq!(
        parse_error("struct Bad { data: u8 { #[fallible] value: Kind } }"),
        (
            ErrorKind::FallibleAttribute,
            "`#[fallible]` is no longer used; Zorua infers Result-returning accessors from BitCodec"
                .to_string()
        )
    );
}

#[test]
fn the_grammar_is_enforced() {
    assert_eq!(parse_error("enum Bad {}").0, ErrorKind::ExpectedStruct);
    assert_eq!(parse_error("struct Bad;").0, ErrorKind::ExpectedBraces);
    assert_eq!(parse_error("struct Bad {} extra").0, ErrorKind::UnexpectedToken);
    assert_eq!(parse_error("struct Bad { a u8 }").0, ErrorKind::ExpectedColon);
    assert_eq!(parse_error("struct Bad { pad 2 b: u8 }").0, ErrorKind::ExpectedComma);
    assert_eq!(parse_error("struct Bad { 1: u8 }").0, ErrorKind::ExpectedIdentifier);
    assert_eq!(parse_error("struct fn { a: u8 }").0, ErrorKind::ExpectedIdentifier);
    assert_eq!(parse_error("struct Bad (width 3) { a: u8 }").0, ErrorKind::ExpectedBits);
    assert_eq!(parse_error("struct Bad { a: }").0, ErrorKind::NativeType);
    assert_eq!(parse_error("struct Bad { pad }").0, ErrorKind::Rust);
    assert_eq!(parse_error("#![inner] struct Bad {}").0, ErrorKind::Rust);
}

#[test]
fn the_words_of_the_parser_are_passed_on() {
    let words = |text: &str| syn::parse_str::<syn::Type>(text).err().unwrap().to_string();
    assert_eq!(
        parse_error("struct Bad { a: }"),
        (ErrorKind::NativeType, format!("Failed to parse native type: {}", words("")))
    );
    assert_eq!(
        parse_error("struct Bad { a: 1 }"),
        (ErrorKind::NativeType, format!("Failed to parse native type: {}", words("1")))
    );
    assert_eq!(
        parse_error("struct Bad { #[storage(1)] value: Kind }"),
        (ErrorKind::Rust, words("1"))
    );
    assert_eq!(
        plan_error("struct Bad { data: u8 { cells: 1 } }"),
        (ErrorKind::Rust, words("1"))
    );
    assert!(!words("1").is_empty());
}

#[test]
fn a_packed_array_needs_an_array() {
    assert_eq!(
        plan_error("struct Bad { data: u8 { #[storage(u8)] cells: [Cell; 2] } }"),
        (
            ErrorKind::PackedType,
            "a packed array needs an array as its storage".to_string()
        )
    );
    assert_eq!(plan_error("struct Bad { data: u8 { cells: } }").0, ErrorKind::Rust);
    assert_eq!(
        plan_error("struct Bad { data: u8 { #[storage(u8)] cells: } }").0,
        ErrorKind::PackedType
    );
}

#[test]
fn native_integers_are_recognised_in_arrays() {
    assert!(is_native_multibyte(&lex("u16")));
    assert!(!is_native_multibyte(&lex("u8")));
    assert!(!is_native_multibyte(&lex("core::u16")));
    assert!(!is_native_multibyte(&lex("u16_le")));
    assert!(!is_native_multibyte(&lex("[u16; 2]")));
    assert!(contains_native_multibyte(&lex("[[i32; 2]; 3]")));
    assert!(!contains_native_multibyte(&lex("[u8; 2]")));
    assert!(!contains_native_multibyte(&lex("(u16, u16)")));
    let storage = |text: &str, order| endian_storage_type(&lex(text), order);
    assert_eq!(storage("u16", DefaultEndian::Big).as_deref(), Some("u16_be"));
    assert_eq!(
        storage("[[i32; 2]; A + 1]", DefaultEndian::Little).as_deref(),
        Some("[[i32_le ; 2] ; A + 1]")
    );
    assert_eq!(storage("bool", DefaultEndian::Little), None);
    let array = lex("[Slot; 4]");
    let (element, len) = deconstruct_array(&array).unwrap();
    assert_eq!((render(element), render(len)), ("Slot".to_string(), "4".to_string()));
    assert!(deconstruct_array(&lex("[Slot]")).is_none());
    assert!(deconstruct_array(&lex("[; 4]")).is_none());
}

#[test]
fn the_shape_of_a_type_decides() {
    let path = |names: &[&str]| names.iter().map(|name| name.to_string()).collect();
    assert_eq!(
        native_multibyte_in(TypeShape::Path(false, path(&["u64"]))).as_deref(),
        Some("u64")
    );
    assert_eq!(native_multibyte_in(TypeShape::Path(true, path(&["u64"]))), None);
    assert_eq!(native_multibyte_in(TypeShape::Path(false, path(&["core", "u64"]))), None);
    assert_eq!(native_multibyte_in(TypeShape::Path(false, path(&["bool"]))), None);
    assert_eq!(native_multibyte_in(TypeShape::Other), None);
    assert_eq!(endian_named(&"little".to_string()), Some(DefaultEndian::Little));
    assert_eq!(endian_named(&"big".to_string()), Some(DefaultEndian::Big));
    assert_eq!(endian_named(&"Big".to_string()), None);
    let paths = vec![path(&["A"]), path(&[]), path(&["a", "B"])];
    assert!(lists_name(&paths, "A"));
    assert!(lists_name(&paths, "B"));
    assert!(!lists_name(&paths, "a"));
}

#[test]
fn names_keep_their_underscores_in_front() {
    assert_eq!(prefixed_name("set_", "_unused", ""), "_set_unused");
    assert_eq!(prefixed_name("set_", "__a_b", "_raw"), "__set_a_b_raw");
    assert_eq!(prefixed_name("", "slots", "_mut"), "slots_mut");
    assert_eq!(prefixed_name("set_", "___", ""), "___set_");
    assert_eq!(decimal_text(0), "0");
    assert_eq!(decimal_text(1234567890), "1234567890");
}

#[test]
fn tokens_are_taken_by_number() {
    let tokens = lex("#[a] #[b::c] pub x");
    let (vis, end) = take_consumed(&tokens, 4, 1).ok().unwrap();
    assert_eq!((render(vis).as_str(), end), ("pub", 5));
    assert_eq!(
        take_consumed(&tokens, 4, 3).err().unwrap().kind(),
        ErrorKind::UnexpectedToken
    );
    let (attrs, end) =
        take_attributes(&tokens, 0, vec![Some("a".to_string()), None]).ok().unwrap();
    assert_eq!(end, 4);
    assert_eq!(attrs[0].name.as_deref(), Some("a"));
    assert_eq!(render(attrs[1].tokens), "# [b :: c]");
    assert_eq!(
        take_attributes(&tokens, 4, vec![None, None]).err().unwrap().kind(),
        ErrorKind::UnexpectedToken
    );
}

#[test]
fn text_keeps_joint_punctuation_together() {
    assert_eq!(render(&lex("a<<=b(c, [d]) {}")), "a <<= b (c , [d]) {}");
}

fn squeeze(text: &str) -> String {
    text.split_whitespace().collect::<Vec<&str>>().join(" ")
}

#[test]
fn lengths_and_unused_bits_are_operands() {
    let code = bitstruct(&lex(
        "struct S {
            data: u8 { a: [u2; 1 + 1], pad 1 | 2, b: bool@N - 1 },
            more: [u8; 4] { c: [u2; 1 + 1]@0 stride 8 + 8 },
        }",
    ));
    let code = squeeze(&code.ok().unwrap());
    assert!(code.contains(
        "0usize + (1 + 1) * <u2 as BitCodec<u2>>::BITS + (1 | 2) + <bool as BitCodec<bool>>::BITS \
         == <u8 as BitCodec<u8>>::BITS"
    ));
    assert!(code.contains(
        "assert!((N - 1) == 0usize + (1 + 1) * <u2 as BitCodec<u2>>::BITS + (1 | 2), "
    ));
    assert!(code.contains("(0) + (1 + 1) * (8 + 8) == <[u8 ; 4] as BitCodec<[u8 ; 4]>>::BITS"));
}

#[test]
fn templates_are_filled_by_letter() {
    assert_eq!(fill("$b < $a$a, $$c $", &["x", "yz"]), "yz < xx, $$c $");
    assert_eq!(fill("", &["x"]), "");
    assert_eq!(fill("no holes", &[]), "no holes");
}

#[test]
fn a_small_struct_is_generated() {
    let code = bitstruct(&lex("struct S { pub a: u8, pad 3 }")).ok().unwrap();
    let code = squeeze(&code);
    assert!(code.starts_with(
        "#[derive(FromBytes, IntoBytes, KnownLayout, Immutable, Unaligned, )] struct S { \
         pub a: u8, __zorua_pad_1: [u8; 3], } impl S { } \
         impl ::zorua::byte_repr::ByteLayout for S \
         where Self: FromBytes + IntoBytes + KnownLayout + Immutable + Unaligned {"
    ));
    assert!(code.contains(
        "impl ::zorua::byte_repr::ByteView for S \
         where Self: FromBytes + IntoBytes + KnownLayout + Immutable + Unaligned {"
    ));
    assert!(code.ends_with("<Self as FromBytes>::mut_from_prefix(bytes).ok() } }"));
}

#[test]
fn generated_code_is_rust() {
    for text in [
        HEADER,
        "struct S<T: Clone, const N: usize> (bits N * 8) { pub a: [u8; N], b: Marker<T> }",
        "#[endian(big)] struct P {
            bits data: [u8; 16] {
                pad 8,
                #[zeroedoption] pub slots: [Slot; 4]@8,
                #[zeroedoption] _hidden: Language,
                #[storage(u3)] kind: Kind,
                count: u16,
                rows: [u2; 5]@98 stride 3,
                #[storage([u4; 2])] cells: [Cell; 2],
            },
            #[storage(u16)] pub id: Id,
        }",
    ] {
        let code = bitstruct(&lex(text)).ok().unwrap();
        assert!(syn::parse_str::<syn::File>(&code).is_ok(), "{code}");
    }
}

#[test]
fn accessors_are_generated() {
    let code = squeeze(&bitstruct(&lex(HEADER)).ok().unwrap());
    for part in [
        "# [repr (C)] # [derive (Clone , Debug , zerocopy :: FromBytes)] \
         #[derive(IntoBytes, KnownLayout, Immutable, Unaligned, )] pub struct Header {",
        "id: u16_le, __zorua_pad_1: [u8; 2], flags: u16_le, pub (crate) name: [u8 ; 4], \
         sizes: [u32_le ; 3], }",
        "pub fn id(&self) -> <u16 as BitCodec<u16_le>>::Read { \
         <u16 as BitCodec<u16_le>>::read(self.id.as_bytes(), 0) }",
        "pub fn set_id(&mut self, val: u16) { \
         <u16 as BitCodec<u16_le>>::write_bits(&val, self.id.as_mut_bytes(), 0); }",
        "pub fn id_raw(&self) -> u16_le { self.id }",
        "pub fn set_id_raw(&mut self, val: u16_le) { self.id = val; }",
        "pub fn active(&self) -> <bool as BitCodec<bool>>::Read { const { assert!((4) == 0usize + \
         <u4 as BitCodec<u4>>::BITS, \"explicit bit offset does not match sequential layout\") }; \
         <bool as BitCodec<bool>>::read(self.flags.as_bytes(), \
         0usize + <u4 as BitCodec<u4>>::BITS) }",
        "const __ZORUA_ASSERT_BITS_FLAGS: () = { assert!( 0usize + <u4 as BitCodec<u4>>::BITS + \
         <bool as BitCodec<bool>>::BITS + (11) == <u16_le as BitCodec<u16_le>>::BITS, \
         \"bitfield does not account for every bit in its storage\" ); };",
        "const _: () = { assert!( (4) + <bool as BitCodec<bool>>::BITS + (11) == \
         <u16_le as BitCodec<u16_le>>::BITS,",
        "pub fn sizes(&self) -> BitArrayView<'_, u32, u32_le> { \
         BitArrayView::new(self.sizes.as_bytes(), 0, 3, <u32 as BitCodec<u32_le>>::BITS) }",
        "pub fn set_sizes(&mut self) -> BitArrayViewMut<'_, u32, u32_le> {",
    ] {
        assert!(code.contains(&squeeze(part)), "{part}\n{code}");
    }
    assert!(bitstruct(&lex("struct Bad;")).is_err());
}

/// What the definition in the test below stands for.
struct DefaultEndianHeader {
    id: u16_be,
    count: u32_be,
}

impl DefaultEndianHeader {
    fn new_zeroed() -> Self {
        DefaultEndianHeader { id: u16_be::new_zeroed(), count: u32_be::new_zeroed() }
    }

    fn id(&self) -> <u16 as BitCodec<u16_be>>::Read {
        <u16 as BitCodec<u16_be>>::read(self.id.as_bytes(), 0)
    }

    fn set_id(&mut self, value: u16) {
        <u16 as BitCodec<u16_be>>::write_bits(&value, self.id.as_mut_bytes(), 0);
    }

    fn count(&self) -> <u32 as BitCodec<u32_be>>::Read {
        <u32 as BitCodec<u32_be>>::read(self.count.as_bytes(), 0)
    }

    fn set_count(&mut self, value: u32) {
        <u32 as BitCodec<u32_be>>::write_bits(&value, self.count.as_mut_bytes(), 0);
    }

    fn as_bytes(&self) -> Vec<u8> {
        [self.id.as_bytes(), self.count.as_bytes()].concat()
    }
}

#[test]
fn test_default_endian_storage() {
    let code = bitstruct(&lex(
        "#[repr(C)]
        #[endian(big)]
        #[derive(Clone, Debug, PartialEq, Eq)]
        struct DefaultEndianHeader {
            pub id: u16,
            pub count: u32,
        }",
    ));
    let code = squeeze(&code.ok().unwrap());
    assert!(code.contains("struct DefaultEndianHeader { id: u16_be, count: u32_be, }"));
    for (name, native, storage) in [("id", "u16", "u16_be"), ("count", "u32", "u32_be")] {
        assert!(code.contains(&format!(
            "pub fn {name}(&self) -> <{native} as BitCodec<{storage}>>::Read {{ \
             <{native} as BitCodec<{storage}>>::read(self.{name}.as_bytes(), 0) }} \
             pub fn set_{name}(&mut self, val: {native}) {{ \
             <{native} as BitCodec<{storage}>>::write_bits(&val, self.{name}.as_mut_bytes(), 0); }}"
        )));
    }

    let mut header = DefaultEndianHeader::new_zeroed();
    header.set_id(0x1234);
    header.set_count(0x01020304);

    assert_eq!(header.as_bytes(), &[0x12, 0x34, 0x01, 0x02, 0x03, 0x04]);
    assert_eq!(header.id(), 0x1234);
    assert_eq!(header.count(), 0x01020304);
}

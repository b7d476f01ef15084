//! What can be wrong with a definition.
use vstd::prelude::*;

verus! {

/// The kind of a mistake in a definition.
#[derive(Clone, Copy, Debug, PartialEq, Eq, Structural)]
pub enum ErrorKind {
    /// Rust's own grammar is violated.
    Rust,
    /// The type of a field is not a type.
    NativeType,
    /// `struct` is missing.
    ExpectedStruct,
    /// `:` is missing behind a field name.
    ExpectedColon,
    /// `,` is missing behind a field.
    ExpectedComma,
    /// The braces around the fields are missing.
    ExpectedBraces,
    /// The width annotation does not start with `bits`.
    ExpectedBits,
    /// A name is missing.
    ExpectedIdentifier,
    /// Tokens are left over.
    UnexpectedToken,
    /// `#[fallible]` is used.
    FallibleAttribute,
    /// A storage type is given with `as`.
    AsSyntax,
    /// There is more than one `#[storage(...)]`.
    DuplicateStorage,
    /// `#[endian(...)]` names no byte order.
    UnknownEndian,
    /// There is more than one `#[endian(...)]`.
    DuplicateEndian,
    /// A native multi-byte integer is stored without a byte order.
    NeedsEndian,
    /// A packed field has no type, or is an array that is not stored in one.
    PackedType,
    /// A codec is derived for a union.
    NotDerivable,
    /// An enum has no unsigned representation of up to 32 bits.
    EnumRepr,
    /// A variant has fields.
    VariantFields,
    /// A variant has no explicit discriminant.
    VariantDiscriminant,
    /// A struct does not have exactly one field.
    FieldCount,
    /// The field of a struct has a name.
    NamedField,
    /// A newtype is not transparent.
    NewtypeRepr,
}

/// The words for a kind of mistake; those of Rust's own parser are not among them.
pub open spec fn words(kind: ErrorKind) -> Seq<char> {
    match kind {
        ErrorKind::Rust => ""@,
        ErrorKind::NativeType => "Failed to parse native type: "@,
        ErrorKind::ExpectedStruct => "expected `struct`"@,
        ErrorKind::ExpectedColon => "expected `:`"@,
        ErrorKind::ExpectedComma => "expected `,`"@,
        ErrorKind::ExpectedBraces => "expected curly braces"@,
        ErrorKind::ExpectedBits => "expected `bits`"@,
        ErrorKind::ExpectedIdentifier => "expected identifier"@,
        ErrorKind::UnexpectedToken => "unexpected token"@,
        ErrorKind::FallibleAttribute =>
            "`#[fallible]` is no longer used; Zorua infers Result-returning accessors from BitCodec"@,
        ErrorKind::AsSyntax => "`as` storage syntax has been replaced by #[storage(...)]"@,
        ErrorKind::DuplicateStorage => "duplicate #[storage(...)] attribute"@,
        ErrorKind::UnknownEndian => "expected `little` or `big` in #[endian(...)]"@,
        ErrorKind::DuplicateEndian => "duplicate #[endian(...)] attribute"@,
        ErrorKind::NeedsEndian =>
            "native multi-byte storage needs #[endian(little)] or #[endian(big)]"@,
        ErrorKind::PackedType => "a packed array needs an array as its storage"@,
        ErrorKind::NotDerivable =>
            "BitCodec can only be derived for enums and structs"@,
        ErrorKind::EnumRepr =>
            "BitCodec requires #[repr(u8)], #[repr(u16)], or #[repr(u32)] for enums"@,
        ErrorKind::VariantFields =>
            "BitCodec only supports c-like enums (variants cannot have fields)"@,
        ErrorKind::VariantDiscriminant =>
            "BitCodec requires explicit discriminant values for all variants"@,
        ErrorKind::FieldCount =>
            "BitCodec can only be derived for structs with exactly one field (newtypes)"@,
        ErrorKind::NamedField =>
            "BitCodec can only be derived for tuple structs (use `struct Name(T)` syntax)"@,
        ErrorKind::NewtypeRepr =>
            "BitCodec requires #[repr(transparent)] for newtype structs"@,
    }
}

/// A mistake in a definition.
#[derive(Debug)]
pub enum DefinitionError {
    /// A mistake whose kind says all.
    Plain(ErrorKind),
    /// A violation of Rust's own grammar, with the words of its parser.
    Rust(String),
    /// A field whose type is not a type, with the words of the parser.
    NativeType(String),
}

/// The contents of a [`DefinitionError`].
#[verifier::ext_equal]
pub enum ErrorView {
    Plain(ErrorKind),
    Rust(Seq<char>),
    NativeType(Seq<char>),
}

impl View for DefinitionError {
    type V = ErrorView;

    open spec fn view(&self) -> ErrorView {
        match self {
            DefinitionError::Plain(kind) => ErrorView::Plain(*kind),
            DefinitionError::Rust(detail) => ErrorView::Rust(detail@),
            DefinitionError::NativeType(detail) => ErrorView::NativeType(detail@),
        }
    }
}

/// The message for the author of a definition: the words for the kind of mistake and those of
/// Rust's own parser.
pub open spec fn message_of(error: ErrorView) -> Seq<char> {
    match error {
        ErrorView::Plain(kind) => words(kind),
        ErrorView::Rust(detail) => words(ErrorKind::Rust) + detail,
        ErrorView::NativeType(detail) => words(ErrorKind::NativeType) + detail,
    }
}

/// The words for a kind of mistake.
fn words_for(kind: ErrorKind) -> (r: &'static str)
    ensures
        r@ == words(kind),
{
    match kind {
        ErrorKind::Rust => "",
        ErrorKind::NativeType => "Failed to parse native type: ",
        ErrorKind::ExpectedStruct => "expected `struct`",
        ErrorKind::ExpectedColon => "expected `:`",
        ErrorKind::ExpectedComma => "expected `,`",
        ErrorKind::ExpectedBraces => "expected curly braces",
        ErrorKind::ExpectedBits => "expected `bits`",
        ErrorKind::ExpectedIdentifier => "expected identifier",
        ErrorKind::UnexpectedToken => "unexpected token",
        ErrorKind::FallibleAttribute =>
            "`#[fallible]` is no longer used; Zorua infers Result-returning accessors from BitCodec",
        ErrorKind::AsSyntax => "`as` storage syntax has been replaced by #[storage(...)]",
        ErrorKind::DuplicateStorage => "duplicate #[storage(...)] attribute",
        ErrorKind::UnknownEndian => "expected `little` or `big` in #[endian(...)]",
        ErrorKind::DuplicateEndian => "duplicate #[endian(...)] attribute",
        ErrorKind::NeedsEndian =>
            "native multi-byte storage needs #[endian(little)] or #[endian(big)]",
        ErrorKind::PackedType => "a packed array needs an array as its storage",
        ErrorKind::NotDerivable =>
            "BitCodec can only be derived for enums and structs",
        ErrorKind::EnumRepr =>
            "BitCodec requires #[repr(u8)], #[repr(u16)], or #[repr(u32)] for enums",
        ErrorKind::VariantFields =>
            "BitCodec only supports c-like enums (variants cannot have fields)",
        ErrorKind::VariantDiscriminant =>
            "BitCodec requires explicit discriminant values for all variants",
        ErrorKind::FieldCount =>
            "BitCodec can only be derived for structs with exactly one field (newtypes)",
        ErrorKind::NamedField =>
            "BitCodec can only be derived for tuple structs (use `struct Name(T)` syntax)",
        ErrorKind::NewtypeRepr =>
            "BitCodec requires #[repr(transparent)] for newtype structs",
    }
}

impl DefinitionError {
    pub(crate) fn new(kind: ErrorKind) -> (r: Self)
        ensures
            r@ == ErrorView::Plain(kind),
    {
        DefinitionError::Plain(kind)
    }

    /// The kind of the mistake.
    pub fn kind(&self) -> (r: ErrorKind)
        ensures
            r == match self@ {
                ErrorView::Plain(kind) => kind,
                ErrorView::Rust(_) => ErrorKind::Rust,
                ErrorView::NativeType(_) => ErrorKind::NativeType,
            },
    {
        match self {
            DefinitionError::Plain(kind) => *kind,
            DefinitionError::Rust(_) => ErrorKind::Rust,
            DefinitionError::NativeType(_) => ErrorKind::NativeType,
        }
    }

    /// The message for the author of the definition.
    pub fn message(&self) -> (r: String)
        ensures
            r@ == message_of(self@),
    {
        match self {
            DefinitionError::Plain(kind) => words_for(*kind).to_owned(),
            DefinitionError::Rust(detail) => words_for(ErrorKind::Rust).to_owned().concat(
                detail.as_str(),
            ),
            DefinitionError::NativeType(detail) => words_for(
                ErrorKind::NativeType,
            ).to_owned().concat(detail.as_str()),
        }
    }
}

} // verus!

//! The parts of Rust's own grammar that a definition is made of, as `syn` parses them.
//!
//! Each function takes source text. What `syn` makes of a text gets a name: `proc_macro2` is built
//! without its `proc-macro` feature, so that it always splits a text into tokens with its own
//! lexer, inside the compiler as anywhere else. Where `syn` refuses a text, the name stands for its
//! message.
use proc_macro2::TokenStream;
use syn::parse::{ParseStream, Parser};
use syn::punctuated::Punctuated;
use syn::{Data, DeriveInput, GenericParam};
use vstd::prelude::*;

verus! {

/// What matters of a type.
pub enum TypeShape {
    /// A path: whether it has a self type (`<T as Trait>::Name`), and the names of its segments.
    Path(bool, Vec<String>),
    /// Any other type.
    Other,
}

/// The contents of a [`TypeShape`].
pub enum TypeShapeView {
    Path(bool, Seq<Seq<char>>),
    Other,
}

/// The contents of strings.
pub open spec fn strings(list: Seq<String>) -> Seq<Seq<char>> {
    Seq::new(list.len(), |i: int| list[i]@)
}

/// The contents of optional strings.
pub open spec fn optional_strings(list: Seq<Option<String>>) -> Seq<Option<Seq<char>>> {
    Seq::new(
        list.len(),
        |i: int|
            match list[i] {
                Some(s) => Some(s@),
                None => None,
            },
    )
}

impl TypeShape {
    pub open spec fn view(&self) -> TypeShapeView {
        match self {
            TypeShape::Path(qualified, segments) => TypeShapeView::Path(
                *qualified,
                strings(segments@),
            ),
            TypeShape::Other => TypeShapeView::Other,
        }
    }
}

/// The names of the attributes that a text starts with; an attribute whose path is more than one
/// name has none.
pub uninterp spec fn outer_attribute_names(text: Seq<char>) -> Result<Seq<Option<Seq<char>>>, Seq<char>>;

/// `syn::Attribute::parse_outer`, with what follows the attributes skipped.
#[verifier::external_body]
pub(crate) fn outer_attributes(text: &str) -> (r: Result<Vec<Option<String>>, String>)
    ensures
        match r {
            Ok(names) => outer_attribute_names(text@) == Ok::<_, Seq<char>>(optional_strings(names@)),
            Err(m) => outer_attribute_names(text@) == Err::<Seq<Option<Seq<char>>>, _>(m@),
        },
{
    let parser = |input: ParseStream| {
        let attrs = input.call(syn::Attribute::parse_outer)?;
        input.parse::<TokenStream>()?;
        Ok(attrs)
    };
    let attrs = parser.parse_str(text).map_err(|e: syn::Error| e.to_string())?;
    Ok(attrs.iter().map(|a| a.path().get_ident().map(|i| i.to_string())).collect())
}

/// Nothing if the argument list of an attribute is a type, and otherwise what is wrong with it.
pub uninterp spec fn type_argument_of(text: Seq<char>) -> Result<(), Seq<char>>;

/// `syn::Attribute::parse_args` for a `syn::Type`, on the one attribute that the text holds.
#[verifier::external_body]
pub(crate) fn type_argument(text: &str) -> (r: Result<(), String>)
    ensures
        match r {
            Ok(_) => type_argument_of(text@) == Ok::<(), Seq<char>>(()),
            Err(m) => type_argument_of(text@) == Err::<(), _>(m@),
        },
{
    let attrs = syn::Attribute::parse_outer.parse_str(text).map_err(|e| e.to_string())?;
    let attr = attrs.first().ok_or(String::new())?;
    attr.parse_args::<syn::Type>().map(|_| ()).map_err(|e| e.to_string())
}

/// The identifier that is the argument list of an attribute.
pub uninterp spec fn identifier_argument_of(text: Seq<char>) -> Result<Seq<char>, Seq<char>>;

/// `syn::Attribute::parse_args` for a `syn::Ident`, on the one attribute that the text holds.
#[verifier::external_body]
pub(crate) fn identifier_argument(text: &str) -> (r: Result<String, String>)
    ensures
        match r {
            Ok(name) => identifier_argument_of(text@) == Ok::<_, Seq<char>>(name@),
            Err(m) => identifier_argument_of(text@) == Err::<Seq<char>, _>(m@),
        },
{
    let attrs = syn::Attribute::parse_outer.parse_str(text).map_err(|e| e.to_string())?;
    let attr = attrs.first().ok_or(String::new())?;
    attr.parse_args::<syn::Ident>().map(|i| i.to_string()).map_err(|e| e.to_string())
}

/// The contents of lists of strings.
pub open spec fn string_lists(lists: Seq<Vec<String>>) -> Seq<Seq<Seq<char>>> {
    Seq::new(lists.len(), |i: int| strings(lists[i]@))
}

/// The names of the segments of each of the paths that make up the argument list of an attribute.
pub uninterp spec fn path_arguments_of(text: Seq<char>) -> Option<Seq<Seq<Seq<char>>>>;

/// `syn::Attribute::parse_args_with` for paths between commas, on the one attribute that the text
/// holds.
#[verifier::external_body]
pub(crate) fn path_arguments(text: &str) -> (r: Option<Vec<Vec<String>>>)
    ensures
        match r {
            Some(paths) => path_arguments_of(text@) == Some(string_lists(paths@)),
            None => path_arguments_of(text@) is None,
        },
{
    let attrs = syn::Attribute::parse_outer.parse_str(text).ok()?;
    let parser = Punctuated::<syn::Path, syn::token::Comma>::parse_terminated;
    let paths = attrs.first()?.parse_args_with(parser).ok()?;
    let names = |p: &syn::Path| p.segments.iter().map(|s| s.ident.to_string()).collect();
    Some(paths.iter().map(names).collect())
}

/// How many token trees are left behind the visibility that a text starts with.
pub uninterp spec fn left_behind_visibility(text: Seq<char>) -> Result<nat, Seq<char>>;

/// `syn::Visibility::parse`, and the number of token trees that it leaves.
#[verifier::external_body]
pub(crate) fn visibility(text: &str) -> (r: Result<usize, String>)
    ensures
        match r {
            Ok(left) => left_behind_visibility(text@) == Ok::<_, Seq<char>>(left as nat),
            Err(m) => left_behind_visibility(text@) == Err::<nat, _>(m@),
        },
{
    let parser = |input: ParseStream| {
        input.parse::<syn::Visibility>()?;
        Ok(input.parse::<TokenStream>()?.into_iter().count())
    };
    parser.parse_str(text).map_err(|e: syn::Error| e.to_string())
}

/// How many token trees are left behind the generic parameters that a text starts with, and
/// whether there are any parameters.
pub uninterp spec fn left_behind_generics(text: Seq<char>) -> Result<(nat, bool), Seq<char>>;

/// `syn::Generics::parse`, and the number of token trees that it leaves.
#[verifier::external_body]
pub(crate) fn generics(text: &str) -> (r: Result<(usize, bool), String>)
    ensures
        match r {
            Ok((left, any)) => left_behind_generics(text@) == Ok::<_, Seq<char>>((left as nat, any)),
            Err(m) => left_behind_generics(text@) == Err::<(nat, bool), _>(m@),
        },
{
    let parser = |input: ParseStream| {
        let generics = input.parse::<syn::Generics>()?;
        Ok((input.parse::<TokenStream>()?.into_iter().count(), !generics.params.is_empty()))
    };
    parser.parse_str(text).map_err(|e: syn::Error| e.to_string())
}

/// How many token trees are left behind the expression that a text starts with.
pub uninterp spec fn left_behind_expression(text: Seq<char>) -> Result<nat, Seq<char>>;

/// `syn::Expr::parse`, and the number of token trees that it leaves.
#[verifier::external_body]
pub(crate) fn expression(text: &str) -> (r: Result<usize, String>)
    ensures
        match r {
            Ok(left) => left_behind_expression(text@) == Ok::<_, Seq<char>>(left as nat),
            Err(m) => left_behind_expression(text@) == Err::<nat, _>(m@),
        },
{
    let parser = |input: ParseStream| {
        input.parse::<syn::Expr>()?;
        Ok(input.parse::<TokenStream>()?.into_iter().count())
    };
    parser.parse_str(text).map_err(|e: syn::Error| e.to_string())
}

/// Whether a text is an identifier and no keyword.
pub uninterp spec fn is_identifier(text: Seq<char>) -> bool;

/// `syn::Ident::parse` on the whole text.
#[verifier::external_body]
pub(crate) fn identifier(text: &str) -> (r: bool)
    ensures
        r == is_identifier(text@),
{
    syn::parse_str::<syn::Ident>(text).is_ok()
}

/// What matters of the type that a text is.
pub uninterp spec fn type_shape_of(text: Seq<char>) -> Result<TypeShapeView, Seq<char>>;

/// `syn::Type::parse` on the whole text.
#[verifier::external_body]
pub(crate) fn type_shape(text: &str) -> (r: Result<TypeShape, String>)
    ensures
        match r {
            Ok(shape) => type_shape_of(text@) == Ok::<_, Seq<char>>(shape.view()),
            Err(m) => type_shape_of(text@) == Err::<TypeShapeView, _>(m@),
        },
{
    match syn::parse_str::<syn::Type>(text) {
        Ok(syn::Type::Path(ty)) => Ok(TypeShape::Path(
            ty.qself.is_some(),
            ty.path.segments.iter().map(|s| s.ident.to_string()).collect(),
        )),
        Ok(_) => Ok(TypeShape::Other),
        Err(e) => Err(e.to_string()),
    }
}

/// The contents of an optional string.
pub open spec fn optional_string(s: Option<String>) -> Option<Seq<char>> {
    match s {
        Some(s) => Some(s@),
        None => None,
    }
}

/// The names of the paths between commas that a text is; a path of more than one name has none.
pub uninterp spec fn meta_names_of(text: Seq<char>) -> Result<Seq<Option<Seq<char>>>, Seq<char>>;

/// `syn::meta::parser`, which `syn::Attribute::parse_nested_meta` runs on the argument list of an
/// attribute, on the whole text.
#[verifier::external_body]
pub(crate) fn meta_names(text: &str) -> (r: Result<Vec<Option<String>>, String>)
    ensures
        match r {
            Ok(names) => meta_names_of(text@) == Ok::<_, Seq<char>>(optional_strings(names@)),
            Err(m) => meta_names_of(text@) == Err::<Seq<Option<Seq<char>>>, _>(m@),
        },
{
    let mut names = Vec::new();
    let parser = syn::meta::parser(|meta| {
        names.push(meta.path.get_ident().map(|i| i.to_string()));
        Ok(())
    });
    parser.parse_str(text).map_err(|e| e.to_string())?;
    Ok(names)
}

/// The number that an integer literal of up to 64 bits stands for.
pub uninterp spec fn integer_of(text: Seq<char>) -> Result<nat, Seq<char>>;

/// `syn::LitInt::parse` on the whole text, and `syn::LitInt::base10_parse`.
#[verifier::external_body]
pub(crate) fn integer(text: &str) -> (r: Result<u64, String>)
    ensures
        match r {
            Ok(n) => integer_of(text@) == Ok::<_, Seq<char>>(n as nat),
            Err(m) => integer_of(text@) == Err::<nat, _>(m@),
        },
{
    let literal = syn::parse_str::<syn::LitInt>(text).map_err(|e| e.to_string())?;
    literal.base10_parse::<u64>().map_err(|e| e.to_string())
}

/// A variant of an enum.
pub struct Variant {
    pub name: String,
    /// How many fields it has.
    pub fields: usize,
    /// Whether its discriminant is explicit.
    pub discriminant: bool,
}

/// A field of a struct: whether it has a name.
pub struct StructField {
    pub named: bool,
}

/// What a type is made of.
pub enum Body {
    Enum(Vec<Variant>),
    Struct(Vec<StructField>),
    Union,
}

/// A type that a codec is derived for: whether it has generic parameters, and what it is made of.
pub struct TypeItem {
    pub generic: bool,
    pub body: Body,
}

/// The contents of a [`Variant`].
#[verifier::ext_equal]
pub struct VariantView {
    pub name: Seq<char>,
    pub fields: nat,
    pub discriminant: bool,
}

/// The contents of a [`StructField`].
#[verifier::ext_equal]
pub struct StructFieldView {
    pub named: bool,
}

/// The contents of a [`Body`].
#[verifier::ext_equal]
pub enum BodyView {
    Enum(Seq<VariantView>),
    Struct(Seq<StructFieldView>),
    Union,
}

/// The contents of a [`TypeItem`].
#[verifier::ext_equal]
pub struct TypeItemView {
    pub generic: bool,
    pub body: BodyView,
}

impl View for Variant {
    type V = VariantView;

    open spec fn view(&self) -> VariantView {
        VariantView {
            name: self.name@,
            fields: self.fields as nat,
            discriminant: self.discriminant,
        }
    }
}

impl View for StructField {
    type V = StructFieldView;

    open spec fn view(&self) -> StructFieldView {
        StructFieldView { named: self.named }
    }
}

/// The contents of variants.
pub open spec fn variant_views(variants: Seq<Variant>) -> Seq<VariantView> {
    Seq::new(variants.len(), |i: int| variants[i]@)
}

/// The contents of fields.
pub open spec fn struct_field_views(fields: Seq<StructField>) -> Seq<StructFieldView> {
    Seq::new(fields.len(), |i: int| fields[i]@)
}

impl View for TypeItem {
    type V = TypeItemView;

    open spec fn view(&self) -> TypeItemView {
        TypeItemView {
            generic: self.generic,
            body: match self.body {
                Body::Enum(variants) => BodyView::Enum(variant_views(variants@)),
                Body::Struct(fields) => BodyView::Struct(struct_field_views(fields@)),
                Body::Union => BodyView::Union,
            },
        }
    }
}

/// The type that a text defines.
pub uninterp spec fn type_item_of(text: Seq<char>) -> Result<TypeItemView, Seq<char>>;

/// `syn::DeriveInput::parse` on the whole text.
#[verifier::external_body]
pub(crate) fn type_item(text: &str) -> (r: Result<TypeItem, String>)
    ensures
        match r {
            Ok(item) => type_item_of(text@) == Ok::<_, Seq<char>>(item@),
            Err(m) => type_item_of(text@) == Err::<TypeItemView, _>(m@),
        },
{
    let input = syn::parse_str::<DeriveInput>(text).map_err(|e| e.to_string())?;
    let variant = |v: syn::Variant| Variant {
        name: v.ident.to_string(),
        fields: v.fields.len(),
        discriminant: v.discriminant.is_some(),
    };
    let body = match input.data {
        Data::Enum(data) => Body::Enum(data.variants.into_iter().map(variant).collect()),
        Data::Struct(data) => Body::Struct(
            data.fields.iter().map(|f| StructField { named: f.ident.is_some() }).collect(),
        ),
        Data::Union(_) => Body::Union,
    };
    Ok(TypeItem { generic: !input.generics.params.is_empty(), body })
}

/// The name of the generic parameter that a text starts with, and how many token trees are left
/// behind the parameter.
pub uninterp spec fn generic_parameter_of(text: Seq<char>) -> Result<(Seq<char>, nat), Seq<char>>;

/// `syn::GenericParam::parse`, and the number of token trees that it leaves.
#[verifier::external_body]
pub(crate) fn generic_parameter(text: &str) -> (r: Result<(String, usize), String>)
    ensures
        match r {
            Ok((name, left)) => generic_parameter_of(text@) == Ok::<_, Seq<char>>((name@, left as nat)),
            Err(m) => generic_parameter_of(text@) == Err::<(Seq<char>, nat), _>(m@),
        },
{
    let parser = |input: ParseStream| {
        let name = match input.parse::<GenericParam>()? {
            GenericParam::Lifetime(p) => p.lifetime.to_string(),
            GenericParam::Type(p) => p.ident.to_string(),
            GenericParam::Const(p) => p.ident.to_string(),
        };
        Ok((name, input.parse::<TokenStream>()?.into_iter().count()))
    };
    parser.parse_str(text).map_err(|e: syn::Error| e.to_string())
}

/// The text in upper case.
pub uninterp spec fn uppercase_of(text: Seq<char>) -> Seq<char>;

/// `str::to_uppercase`.
#[verifier::external_body]
pub(crate) fn uppercase(text: &str) -> (r: String)
    ensures
        r@ == uppercase_of(text@),
{
    text.to_uppercase()
}

} // verus!

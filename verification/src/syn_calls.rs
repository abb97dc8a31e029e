//! What this library asks of the `syn` parser: whether a piece of source text
//! is an identifier that `syn` accepts, and how it reads an integer literal.
use vstd::prelude::*;
use quote::ToTokens;
use proc_macro2::fallback::force;
use syn::parse_str;
use syn::{Data, DeriveInput, Fields, GenericArgument as Arg, Lit, Meta, Type};
use syn::PathArguments as Args;
use syn::NestedMeta::Meta as NestedItem;
use crate::derive_input::{
    AttrForm, AttrFormV, DataText, DeriveText, DeriveTextV, FieldText, GenericArgKind, LitKind,
    NestedForm, NestedFormV, PathArguments, PathArgumentsV, strings_view,
};
use crate::lexing::lex_safe;
use crate::source_text::tokens_text;
use crate::tokens::TokenV;

verus! {

/// How `syn` reads a piece of source text as an integer literal.
#[derive(Clone, Copy, Debug, PartialEq, Eq, Structural)]
pub enum IntLiteral {
    /// The text is not an integer literal.
    NotInt,
    /// The text is an integer literal whose value is not a `u64` (a negative
    /// one included).
    OutOfRange,
    /// The text is an integer literal of this value.
    Value(u64),
    /// The text is a literal of a kind that `syn` does not know (a C string,
    /// for one), on which its parser panics.
    Unrecognized,
}

/// The text starts with a digit or with `-`.
pub open spec fn starts_numeric(text: Seq<char>) -> bool {
    text.len() > 0 && (('0' <= text[0] && text[0] <= '9') || text[0] == '-')
}

/// Whether `syn` parses `text` as an identifier (it refuses keywords and `_`).
pub uninterp spec fn syn_accepts_ident(text: Seq<char>) -> bool;

/// How `syn` reads `text` as an integer literal.
pub uninterp spec fn syn_int_literal(text: Seq<char>) -> IntLiteral;

/// Calls `syn::parse_str::<syn::Ident>`; the result is true exactly when that
/// parse succeeds, which is named, not stated, here.
#[verifier::external_body]
pub(crate) fn accepts_ident(text: &str) -> (r: bool)
    ensures
        r == syn_accepts_ident(text@),
{
    match syn::parse_str::<syn::Ident>(text) {
        Ok(_) => true,
        Err(_) => false,
    }
}

/// Calls `syn::parse_str::<syn::LitInt>` and then `LitInt::base10_parse::<u64>`:
/// `NotInt` where the first fails, `OutOfRange` where the second does, and the
/// value otherwise; which texts give which is named, not stated, here. The
/// parse panics on a literal token of a kind that `syn` does not know; a
/// literal token that starts with a digit is an integer or a float, and after
/// a `-` it reads no literal token on its own, so such texts are the only ones
/// passed.
#[verifier::external_body]
pub(crate) fn int_literal(text: &str) -> (r: IntLiteral)
    requires
        starts_numeric(text@),
    ensures
        r == syn_int_literal(text@),
        !(r is Unrecognized),
{
    match syn::parse_str::<syn::LitInt>(text) {
        Ok(lit) => match lit.base10_parse::<u64>() {
            Ok(v) => IntLiteral::Value(v),
            Err(_) => IntLiteral::OutOfRange,
        },
        Err(_) => IntLiteral::NotInt,
    }
}


/// `text` is the source text of token trees that lex back to themselves, with
/// no literal of a kind that `syn` does not know (see `lex_safe`).
pub open spec fn lex_safe_text(text: Seq<char>) -> bool {
    exists|s: Seq<TokenV>| lex_safe(s) && #[trigger] tokens_text(s) == text
}

/// What `syn` reads from the source text of an item to derive for: its name
/// and, for a struct with named fields, each field's name and number of
/// attributes; or `syn`'s message.
pub uninterp spec fn syn_derive_input(text: Seq<char>) -> Result<DeriveTextV, Seq<char>>;

/// The identifiers of the segments of the type of field `field` of the item,
/// where that type is a path.
pub uninterp spec fn syn_field_path(text: Seq<char>, field: nat) -> Option<Seq<Seq<char>>>;

/// The arguments of segment `seg` of the type of field `field`.
pub uninterp spec fn syn_segment_args(text: Seq<char>, field: nat, seg: nat) -> PathArgumentsV;

/// The identifiers of the path of attribute `attr` of field `field`.
pub uninterp spec fn syn_attr_path(text: Seq<char>, field: nat, attr: nat) -> Seq<Seq<char>>;

/// The form of attribute `attr` of field `field` as `syn` reads it.
pub uninterp spec fn syn_attr_form(text: Seq<char>, field: nat, attr: nat) -> AttrFormV;

/// The form of item `item` of the list of attribute `attr` of field `field`.
pub uninterp spec fn syn_nested_form(text: Seq<char>, field: nat, attr: nat, item: nat) -> NestedFormV;

/// The identifiers of the path of that item.
pub uninterp spec fn syn_nested_path(text: Seq<char>, field: nat, attr: nat, item: nat) -> Seq<Seq<char>>;

pub open spec fn derive_text_result_view(r: Result<DeriveText, String>) -> Result<DeriveTextV, Seq<char>> {
    match r {
        Ok(d) => Ok(d@),
        Err(m) => Err(m@),
    }
}

// The wrappers below first call `proc_macro2::fallback::force`, so that the
// text is always lexed by proc-macro2's own lexer (not the compiler's, whose
// reading depends on the edition): what they read then depends on the text
// alone. The lexer stays forced afterwards. The `requires` keeps out every text
// in which that lexer would find a C string literal, on which `syn::Lit::new`
// panics: such a text is made of tokens that each lex back as themselves, with
// quotes only inside literals that are closed, and no literal starts with `c`.

/// Calls `syn::parse_str::<syn::DeriveInput>`: the item's name and shape, and
/// for each named field its name and number of attributes; on failure,
/// `syn`'s error message. What it reads is named, not stated, here.
#[verifier::external_body]
pub(crate) fn parse_derive_input(text: &str) -> (r: Result<DeriveText, String>)
    requires
        lex_safe_text(text@),
    ensures
        derive_text_result_view(r) == syn_derive_input(text@),
{
    force();
    let ast = parse_str::<DeriveInput>(text).map_err(|e| e.to_string())?;
    let data = match ast.data {
        Data::Struct(s) => match s.fields {
            Fields::Named(n) => DataText::NamedStruct(n.named.iter().map(|f| FieldText {
                name: f.ident.to_token_stream().to_string(),
                attr_count: f.attrs.len(),
            }).collect()),
            _ => DataText::OtherStruct,
        },
        Data::Enum(_) => DataText::Enum,
        Data::Union(_) => DataText::Union,
    };
    Ok(DeriveText { name: ast.ident.to_string(), data })
}

/// Parses the item as `parse_derive_input` does and takes the type of field
/// `field`: the identifiers of its segments where it is a path, else `None`.
#[verifier::external_body]
pub(crate) fn parse_field_path(text: &str, field: usize) -> (r: Option<Vec<String>>)
    requires
        lex_safe_text(text@),
    ensures
        opt_strings_view(r) == syn_field_path(text@, field as nat),
{
    force();
    let ty = match parse_str::<DeriveInput>(text).map(|a| a.data) {
        Ok(Data::Struct(s)) => s.fields.into_iter().nth(field).map(|f| f.ty),
        _ => None,
    };
    match ty {
        Some(Type::Path(tp)) => Some(tp.path.segments.iter().map(|s| s.ident.to_string()).collect()),
        _ => None,
    }
}

/// Parses the item and takes segment `seg` of the type path of field `field`:
/// no arguments, `<...>` with whether each is a type, or `(...)`; `Bare` where
/// there is no such segment.
#[verifier::external_body]
pub(crate) fn parse_segment_args(text: &str, field: usize, seg: usize) -> (r: PathArguments)
    requires
        lex_safe_text(text@),
    ensures
        r@ == syn_segment_args(text@, field as nat, seg as nat),
{
    force();
    let ty = match parse_str::<DeriveInput>(text).map(|a| a.data) {
        Ok(Data::Struct(s)) => s.fields.into_iter().nth(field).map(|f| f.ty),
        _ => None,
    };
    match ty {
        Some(Type::Path(tp)) => match tp.path.segments.into_iter().nth(seg).map(|s| s.arguments) {
            Some(Args::AngleBracketed(ab)) => PathArguments::AngleBracketed(ab.args.iter().map(|a|
                match a { Arg::Type(_) => GenericArgKind::Type, _ => GenericArgKind::Other }).collect()),
            Some(Args::Parenthesized(_)) => PathArguments::Parenthesized,
            _ => PathArguments::Bare,
        },
        _ => PathArguments::Bare,
    }
}

/// Parses the item and takes the identifiers of the path of attribute `attr`
/// of field `field` (empty where there is no such attribute).
#[verifier::external_body]
pub(crate) fn parse_attr_path(text: &str, field: usize, attr: usize) -> (r: Vec<String>)
    requires
        lex_safe_text(text@),
    ensures
        strings_view(r) == syn_attr_path(text@, field as nat, attr as nat),
{
    force();
    let found = match parse_str::<DeriveInput>(text).map(|a| a.data) {
        Ok(Data::Struct(s)) => s.fields.into_iter().nth(field).and_then(|f| f.attrs.into_iter().nth(attr)),
        _ => None,
    };
    match found {
        Some(a) => a.path.segments.iter().map(|s| s.ident.to_string()).collect(),
        None => Vec::new(),
    }
}

/// Parses the item and calls `Attribute::parse_meta` on attribute `attr` of
/// field `field`: a path, a list with its number of items, or `= literal` with
/// a string literal's value; `Unparsable` where there is no such attribute or
/// `parse_meta` fails.
#[verifier::external_body]
pub(crate) fn parse_attr_form(text: &str, field: usize, attr: usize) -> (r: AttrForm)
    requires
        lex_safe_text(text@),
    ensures
        r@ == syn_attr_form(text@, field as nat, attr as nat),
{
    force();
    let found = match parse_str::<DeriveInput>(text).map(|a| a.data) {
        Ok(Data::Struct(s)) => s.fields.into_iter().nth(field).and_then(|f| f.attrs.into_iter().nth(attr)),
        _ => None,
    };
    match found.map(|a| a.parse_meta()) {
        Some(Ok(Meta::Path(_))) => AttrForm::Path,
        Some(Ok(Meta::List(l))) => AttrForm::List(l.nested.len()),
        Some(Ok(Meta::NameValue(nv))) => AttrForm::NameValue(match nv.lit {
            Lit::Str(s) => LitKind::Str(s.value()),
            _ => LitKind::Other,
        }),
        _ => AttrForm::Unparsable,
    }
}

/// Parses the item and reads item `item` of the list of attribute `attr` of
/// field `field`: `path = literal` with a string literal's value, another form
/// of item, or a bare literal (also where there is no such item).
#[verifier::external_body]
pub(crate) fn parse_nested_form(text: &str, field: usize, attr: usize, item: usize) -> (r: NestedForm)
    requires
        lex_safe_text(text@),
    ensures
        r@ == syn_nested_form(text@, field as nat, attr as nat, item as nat),
{
    force();
    let meta = match parse_str::<DeriveInput>(text).map(|a| a.data) {
        Ok(Data::Struct(s)) => s.fields.into_iter().nth(field).and_then(|f| f.attrs.into_iter().nth(attr)).map(|a| a.parse_meta()),
        _ => None,
    };
    let nested = match meta { Some(Ok(Meta::List(l))) => l.nested.into_iter().nth(item), _ => None };
    match nested {
        Some(NestedItem(Meta::NameValue(nv))) => NestedForm::NameValue(match nv.lit {
            Lit::Str(s) => LitKind::Str(s.value()),
            _ => LitKind::Other,
        }),
        Some(NestedItem(_)) => NestedForm::OtherMeta,
        _ => NestedForm::Lit,
    }
}

/// Parses the item and takes the identifiers of the path of item `item` of the
/// list of attribute `attr` of field `field` (empty where that item is not a
/// `path = literal`).
#[verifier::external_body]
pub(crate) fn parse_nested_path(text: &str, field: usize, attr: usize, item: usize) -> (r: Vec<String>)
    requires
        lex_safe_text(text@),
    ensures
        strings_view(r) == syn_nested_path(text@, field as nat, attr as nat, item as nat),
{
    force();
    let meta = match parse_str::<DeriveInput>(text).map(|a| a.data) {
        Ok(Data::Struct(s)) => s.fields.into_iter().nth(field).and_then(|f| f.attrs.into_iter().nth(attr)).map(|a| a.parse_meta()),
        _ => None,
    };
    let nested = match meta { Some(Ok(Meta::List(l))) => l.nested.into_iter().nth(item), _ => None };
    match nested {
        Some(NestedItem(Meta::NameValue(nv))) => nv.path.segments.iter().map(|s| s.ident.to_string()).collect(),
        _ => Vec::new(),
    }
}

pub open spec fn opt_strings_view(o: Option<Vec<String>>) -> Option<Seq<Seq<char>>> {
    match o {
        Some(v) => Some(strings_view(v)),
        None => None,
    }
}

} // verus!

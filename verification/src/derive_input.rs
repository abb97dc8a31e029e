//! What the derive macros read of the item they are attached to.
use vstd::prelude::*;
use crate::lexing::{lex_safe, lexes_safely};
use crate::source_text::{source_of, tokens_text};
use crate::syn_calls::{
    lex_safe_text, parse_attr_form, parse_attr_path, parse_derive_input, parse_field_path,
    parse_nested_form, parse_nested_path, parse_segment_args, syn_attr_form, syn_attr_path,
    syn_derive_input, syn_field_path, syn_nested_form, syn_nested_path, syn_segment_args,
};
use crate::tokens::{Token, TokenV, tokens_view};

verus! {

/// Whether a generic argument is a type (rather than a lifetime, a constant
/// or a binding).
#[derive(Clone, Copy, Debug, PartialEq, Eq, Structural)]
pub enum GenericArgKind {
    Type,
    Other,
}

/// The arguments of one path segment: none, `<...>` or `(...)`.
#[derive(Debug)]
pub enum PathArguments {
    Bare,
    AngleBracketed(Vec<GenericArgKind>),
    Parenthesized,
}

/// One segment of a type path, such as `Option<T>` in `std::option::Option<T>`.
#[derive(Debug)]
pub struct PathSegment {
    pub ident: String,
    pub arguments: PathArguments,
}

/// A field's type: a path (with its segments) or any other form of type.
#[derive(Debug)]
pub enum FieldType {
    Path(Vec<PathSegment>),
    Other,
}

/// A literal in an attribute: a string literal, with its value, or another one.
#[derive(Debug)]
pub enum LitKind {
    Str(String),
    Other,
}

/// One item inside `#[name(...)]`.
#[derive(Debug)]
pub enum NestedMetaKind {
    /// `path = literal`, with the identifiers of the path's segments.
    NameValue(Vec<String>, LitKind),
    /// A path or a list.
    OtherMeta,
    /// A bare literal.
    Lit,
}

/// An attribute on a field, as `syn` reads it.
#[derive(Debug)]
pub enum AttrMeta {
    /// The attribute is not of the form `path`, `path(...)` or `path = literal`.
    Unparsable,
    Path,
    /// `path(items)`, with the identifiers of the path's segments.
    List(Vec<String>, Vec<NestedMetaKind>),
    /// `path = literal`, with the identifiers of the path's segments.
    NameValue(Vec<String>, LitKind),
}

/// The form of an attribute as `syn` reads it: a list with its number of
/// items, each read on its own afterwards.
#[derive(Debug)]
pub enum AttrForm {
    Unparsable,
    Path,
    List(usize),
    NameValue(LitKind),
}

/// The form of an item of an attribute's list as `syn` reads it.
#[derive(Debug)]
pub enum NestedForm {
    NameValue(LitKind),
    OtherMeta,
    Lit,
}

/// A named field of a struct.
#[derive(Debug)]
pub struct NamedField {
    pub name: String,
    pub ty: FieldType,
    pub attrs: Vec<AttrMeta>,
}

/// The shape of the item a derive is attached to.
#[derive(Debug)]
pub enum DataShape {
    NamedStruct(Vec<NamedField>),
    /// A tuple struct or a unit struct.
    OtherStruct,
    Enum,
    Union,
}

/// The item a derive is attached to.
#[derive(Debug)]
pub struct DeriveModel {
    pub name: String,
    pub data: DataShape,
}

/// A named field as `syn` first reads it: its name and its number of
/// attributes.
#[derive(Debug)]
pub struct FieldText {
    pub name: String,
    pub attr_count: usize,
}

/// The shape of the item as `syn` first reads it.
#[derive(Debug)]
pub enum DataText {
    NamedStruct(Vec<FieldText>),
    OtherStruct,
    Enum,
    Union,
}

/// The item a derive is attached to, as `syn` first reads it.
#[derive(Debug)]
pub struct DeriveText {
    pub name: String,
    pub data: DataText,
}

pub enum PathArgumentsV {
    Bare,
    AngleBracketed(Seq<GenericArgKind>),
    Parenthesized,
}

pub struct PathSegmentV {
    pub ident: Seq<char>,
    pub arguments: PathArgumentsV,
}

pub enum FieldTypeV {
    Path(Seq<PathSegmentV>),
    Other,
}

pub enum LitKindV {
    Str(Seq<char>),
    Other,
}

pub enum NestedMetaV {
    NameValue(Seq<Seq<char>>, LitKindV),
    OtherMeta,
    Lit,
}

pub enum AttrMetaV {
    Unparsable,
    Path,
    List(Seq<Seq<char>>, Seq<NestedMetaV>),
    NameValue(Seq<Seq<char>>, LitKindV),
}

pub enum AttrFormV {
    Unparsable,
    Path,
    List(nat),
    NameValue(LitKindV),
}

pub enum NestedFormV {
    NameValue(LitKindV),
    OtherMeta,
    Lit,
}

pub struct FieldV {
    pub name: Seq<char>,
    pub ty: FieldTypeV,
    pub attrs: Seq<AttrMetaV>,
}

pub enum DataShapeV {
    NamedStruct(Seq<FieldV>),
    OtherStruct,
    Enum,
    Union,
}

pub struct DeriveModelV {
    pub name: Seq<char>,
    pub data: DataShapeV,
}

pub struct FieldTextV {
    pub name: Seq<char>,
    pub attr_count: nat,
}

pub enum DataTextV {
    NamedStruct(Seq<FieldTextV>),
    OtherStruct,
    Enum,
    Union,
}

pub struct DeriveTextV {
    pub name: Seq<char>,
    pub data: DataTextV,
}

pub open spec fn strings_view(v: Vec<String>) -> Seq<Seq<char>> {
    Seq::new(v@.len(), |i: int| v@[i]@)
}

impl View for PathArguments {
    type V = PathArgumentsV;

    open spec fn view(&self) -> PathArgumentsV {
        match self {
            PathArguments::Bare => PathArgumentsV::Bare,
            PathArguments::AngleBracketed(a) => PathArgumentsV::AngleBracketed(a@),
            PathArguments::Parenthesized => PathArgumentsV::Parenthesized,
        }
    }
}

impl View for PathSegment {
    type V = PathSegmentV;

    open spec fn view(&self) -> PathSegmentV {
        PathSegmentV { ident: self.ident@, arguments: self.arguments@ }
    }
}

impl View for FieldType {
    type V = FieldTypeV;

    open spec fn view(&self) -> FieldTypeV {
        match self {
            FieldType::Path(segs) => FieldTypeV::Path(Seq::new(segs@.len(), |i: int| segs@[i]@)),
            FieldType::Other => FieldTypeV::Other,
        }
    }
}

impl View for LitKind {
    type V = LitKindV;

    open spec fn view(&self) -> LitKindV {
        match self {
            LitKind::Str(s) => LitKindV::Str(s@),
            LitKind::Other => LitKindV::Other,
        }
    }
}

impl View for NestedMetaKind {
    type V = NestedMetaV;

    open spec fn view(&self) -> NestedMetaV {
        match self {
            NestedMetaKind::NameValue(p, l) => NestedMetaV::NameValue(strings_view(*p), l@),
            NestedMetaKind::OtherMeta => NestedMetaV::OtherMeta,
            NestedMetaKind::Lit => NestedMetaV::Lit,
        }
    }
}

impl View for AttrMeta {
    type V = AttrMetaV;

    open spec fn view(&self) -> AttrMetaV {
        match self {
            AttrMeta::Unparsable => AttrMetaV::Unparsable,
            AttrMeta::Path => AttrMetaV::Path,
            AttrMeta::List(p, n) => AttrMetaV::List(
                strings_view(*p),
                Seq::new(n@.len(), |i: int| n@[i]@),
            ),
            AttrMeta::NameValue(p, l) => AttrMetaV::NameValue(strings_view(*p), l@),
        }
    }
}

impl View for AttrForm {
    type V = AttrFormV;

    open spec fn view(&self) -> AttrFormV {
        match self {
            AttrForm::Unparsable => AttrFormV::Unparsable,
            AttrForm::Path => AttrFormV::Path,
            AttrForm::List(n) => AttrFormV::List(*n as nat),
            AttrForm::NameValue(l) => AttrFormV::NameValue(l@),
        }
    }
}

impl View for NestedForm {
    type V = NestedFormV;

    open spec fn view(&self) -> NestedFormV {
        match self {
            NestedForm::NameValue(l) => NestedFormV::NameValue(l@),
            NestedForm::OtherMeta => NestedFormV::OtherMeta,
            NestedForm::Lit => NestedFormV::Lit,
        }
    }
}

impl View for NamedField {
    type V = FieldV;

    open spec fn view(&self) -> FieldV {
        FieldV {
            name: self.name@,
            ty: self.ty@,
            attrs: Seq::new(self.attrs@.len(), |i: int| self.attrs@[i]@),
        }
    }
}

impl View for DeriveModel {
    type V = DeriveModelV;

    open spec fn view(&self) -> DeriveModelV {
        DeriveModelV {
            name: self.name@,
            data: match self.data {
                DataShape::NamedStruct(fs) => DataShapeV::NamedStruct(
                    Seq::new(fs@.len(), |i: int| fs@[i]@),
                ),
                DataShape::OtherStruct => DataShapeV::OtherStruct,
                DataShape::Enum => DataShapeV::Enum,
                DataShape::Union => DataShapeV::Union,
            },
        }
    }
}

impl View for FieldText {
    type V = FieldTextV;

    open spec fn view(&self) -> FieldTextV {
        FieldTextV { name: self.name@, attr_count: self.attr_count as nat }
    }
}

impl View for DeriveText {
    type V = DeriveTextV;

    open spec fn view(&self) -> DeriveTextV {
        DeriveTextV {
            name: self.name@,
            data: match self.data {
                DataText::NamedStruct(fs) => DataTextV::NamedStruct(
                    Seq::new(fs@.len(), |i: int| fs@[i]@),
                ),
                DataText::OtherStruct => DataTextV::OtherStruct,
                DataText::Enum => DataTextV::Enum,
                DataText::Union => DataTextV::Union,
            },
        }
    }
}

/// Where a type used by generated code comes from: a field's whole type, or the
/// generic argument `arg` of segment `segment` of the field's type path.
#[derive(Clone, Copy, Debug, PartialEq, Eq, Structural)]
pub enum TypeRef {
    Field,
    Argument(usize, usize),
}

/// Why a derive is refused. `Parse` is the compile error of the macros; the
/// others name inputs on which the macros panic, and only the `check_*`
/// functions return them (`app/` then panics with the macros' messages).
#[derive(Debug, PartialEq, Eq)]
pub enum DeriveError {
    /// The input is not an item that `syn` parses, with `syn`'s message.
    Parse(String),
    /// A token of the input would not lex back as itself from its source
    /// text, or a literal is of a kind `syn` does not know (a C string).
    UnrecognizedLiteral,
    /// The item is a struct without named fields.
    NotNamedStruct,
    /// The item is not a struct.
    NotStruct,
    /// A field's type is `Option<>`, with no argument.
    EmptyOptionArguments,
}

/// One of the identifiers in `path` is `name`.
pub open spec fn path_has(path: Seq<Seq<char>>, name: Seq<char>) -> bool {
    exists|i: int| 0 <= i < path.len() && #[trigger] path[i] == name
}

pub open spec fn opt_text(o: Option<String>) -> Option<Seq<char>> {
    match o {
        Some(s) => Some(s@),
        None => None,
    }
}

/// Whether `s` reads `lit`.
pub fn text_is(s: &String, lit: &str) -> (r: bool)
    ensures
        r == (s@ == lit@),
{
    let t = String::from_str(lit);
    *s == t
}

/// Whether one of the identifiers in `path` is `name`.
pub fn path_contains(path: &Vec<String>, name: &str) -> (r: bool)
    ensures
        r == path_has(strings_view(*path), name@),
{
    let mut i: usize = 0;
    while i < path.len()
        invariant
            i <= path.len(),
            forall|k: int| 0 <= k < i ==> (#[trigger] path@[k])@ != name@,
            strings_view(*path).len() == path@.len(),
        decreases path.len() - i,
    {
        if text_is(&path[i], name) {
            assert(strings_view(*path)[i as int] == name@);
            return true;
        }
        i += 1;
    }
    false
}

/// Item `item` of the list of attribute `attr` of field `field`, as the
/// derive macros read it from the source text `text`.
pub open spec fn nested_of(text: Seq<char>, field: nat, attr: nat, item: nat) -> NestedMetaV {
    match syn_nested_form(text, field, attr, item) {
        NestedFormV::NameValue(l) => NestedMetaV::NameValue(syn_nested_path(text, field, attr, item), l),
        NestedFormV::OtherMeta => NestedMetaV::OtherMeta,
        NestedFormV::Lit => NestedMetaV::Lit,
    }
}

/// Attribute `attr` of field `field`, as the derive macros read it.
pub open spec fn attr_of(text: Seq<char>, field: nat, attr: nat) -> AttrMetaV {
    match syn_attr_form(text, field, attr) {
        AttrFormV::Unparsable => AttrMetaV::Unparsable,
        AttrFormV::Path => AttrMetaV::Path,
        AttrFormV::List(n) => AttrMetaV::List(
            syn_attr_path(text, field, attr),
            Seq::new(n, |k: int| nested_of(text, field, attr, k as nat)),
        ),
        AttrFormV::NameValue(l) => AttrMetaV::NameValue(syn_attr_path(text, field, attr), l),
    }
}

/// The type of field `field`, as the derive macros read it.
pub open spec fn type_of(text: Seq<char>, field: nat) -> FieldTypeV {
    match syn_field_path(text, field) {
        Some(idents) => FieldTypeV::Path(
            Seq::new(
                idents.len(),
                |k: int| PathSegmentV { ident: idents[k], arguments: syn_segment_args(text, field, k as nat) },
            ),
        ),
        None => FieldTypeV::Other,
    }
}

/// Field `field` of the item, whose name and number of attributes are `f`.
pub open spec fn field_of_text(text: Seq<char>, field: nat, f: FieldTextV) -> FieldV {
    FieldV {
        name: f.name,
        ty: type_of(text, field),
        attrs: Seq::new(f.attr_count, |j: int| attr_of(text, field, j as nat)),
    }
}

/// The item as the derive macros read it from the source text `text`.
pub open spec fn model_of_text(text: Seq<char>, d: DeriveTextV) -> DeriveModelV {
    DeriveModelV {
        name: d.name,
        data: match d.data {
            DataTextV::NamedStruct(fs) => DataShapeV::NamedStruct(
                Seq::new(fs.len(), |i: int| field_of_text(text, i as nat, fs[i])),
            ),
            DataTextV::OtherStruct => DataShapeV::OtherStruct,
            DataTextV::Enum => DataShapeV::Enum,
            DataTextV::Union => DataShapeV::Union,
        },
    }
}

/// Why the token trees of an item are not read.
pub enum ReadErrorV {
    /// Not an item that `syn` parses, with its message.
    Parse(Seq<char>),
    /// A token does not lex back as itself, or a literal is of a kind that
    /// `syn` does not know (a C string).
    UnrecognizedLiteral,
}

/// What the derive macros read of the token trees `input`.
pub open spec fn model_spec(input: Seq<TokenV>) -> Result<DeriveModelV, ReadErrorV> {
    if !lex_safe(input) {
        Err(ReadErrorV::UnrecognizedLiteral)
    } else {
        match syn_derive_input(tokens_text(input)) {
            Ok(d) => Ok(model_of_text(tokens_text(input), d)),
            Err(m) => Err(ReadErrorV::Parse(m)),
        }
    }
}

/// What `derive_model` returns, against `model_spec`.
pub open spec fn read_matches(r: Result<DeriveModel, DeriveError>, m: Result<DeriveModelV, ReadErrorV>) -> bool {
    match m {
        Ok(v) => r matches Ok(x) && x@ == v,
        Err(ReadErrorV::Parse(msg)) => r matches Err(DeriveError::Parse(x)) && x@ == msg,
        Err(ReadErrorV::UnrecognizedLiteral) => r matches Err(DeriveError::UnrecognizedLiteral),
    }
}

/// Attribute `attr` of field `field` read from `text`.
fn attr_meta_of(text: &String, field: usize, attr: usize) -> (r: AttrMeta)
    requires
        lex_safe_text(text@),
    ensures
        r@ == attr_of(text@, field as nat, attr as nat),
{
    match parse_attr_form(text.as_str(), field, attr) {
        AttrForm::Unparsable => AttrMeta::Unparsable,
        AttrForm::Path => AttrMeta::Path,
        AttrForm::List(n) => {
            let path = parse_attr_path(text.as_str(), field, attr);
            let mut nested: Vec<NestedMetaKind> = Vec::new();
            let mut k: usize = 0;
            while k < n
                invariant
                    lex_safe_text(text@),
                    k <= n,
                    nested@.len() == k,
                    forall|m: int|
                        0 <= m < k ==> (#[trigger] nested@[m])@ == nested_of(
                            text@,
                            field as nat,
                            attr as nat,
                            m as nat,
                        ),
                decreases n - k,
            {
                let item = match parse_nested_form(text.as_str(), field, attr, k) {
                    NestedForm::NameValue(lit) => NestedMetaKind::NameValue(
                        parse_nested_path(text.as_str(), field, attr, k),
                        lit,
                    ),
                    NestedForm::OtherMeta => NestedMetaKind::OtherMeta,
                    NestedForm::Lit => NestedMetaKind::Lit,
                };
                nested.push(item);
                k += 1;
            }
            let r = AttrMeta::List(path, nested);
            assert(Seq::new(nested@.len(), |m: int| nested@[m]@) =~= Seq::new(
                n as nat,
                |m: int| nested_of(text@, field as nat, attr as nat, m as nat),
            ));
            r
        },
        AttrForm::NameValue(lit) => AttrMeta::NameValue(parse_attr_path(text.as_str(), field, attr), lit),
    }
}

/// The type of field `field` read from `text`.
fn field_type_of(text: &String, field: usize) -> (r: FieldType)
    requires
        lex_safe_text(text@),
    ensures
        r@ == type_of(text@, field as nat),
{
    match parse_field_path(text.as_str(), field) {
        None => FieldType::Other,
        Some(idents) => {
            let mut segs: Vec<PathSegment> = Vec::new();
            let mut k: usize = 0;
            while k < idents.len()
                invariant
                    lex_safe_text(text@),
                    k <= idents.len(),
                    segs@.len() == k,
                    forall|m: int|
                        0 <= m < k ==> (#[trigger] segs@[m])@ == (PathSegmentV {
                            ident: idents@[m]@,
                            arguments: syn_segment_args(text@, field as nat, m as nat),
                        }),
                decreases idents.len() - k,
            {
                let arguments = parse_segment_args(text.as_str(), field, k);
                segs.push(PathSegment { ident: idents[k].clone(), arguments });
                k += 1;
            }
            let r = FieldType::Path(segs);
            proof {
                let iv = strings_view(idents);
                assert(Seq::new(segs@.len(), |m: int| segs@[m]@) =~= Seq::new(
                    iv.len(),
                    |m: int| PathSegmentV { ident: iv[m], arguments: syn_segment_args(text@, field as nat, m as nat) },
                ));
            }
            r
        },
    }
}

/// Field `field`, whose name and number of attributes are `f`, read from `text`.
fn field_of(text: &String, field: usize, f: &FieldText) -> (r: NamedField)
    requires
        lex_safe_text(text@),
    ensures
        r@ == field_of_text(text@, field as nat, f@),
{
    let ty = field_type_of(text, field);
    let mut attrs: Vec<AttrMeta> = Vec::new();
    let mut j: usize = 0;
    while j < f.attr_count
        invariant
            lex_safe_text(text@),
            j <= f.attr_count,
            attrs@.len() == j,
            forall|k: int| 0 <= k < j ==> (#[trigger] attrs@[k])@ == attr_of(text@, field as nat, k as nat),
        decreases f.attr_count - j,
    {
        attrs.push(attr_meta_of(text, field, j));
        j += 1;
    }
    let r = NamedField { name: f.name.clone(), ty, attrs };
    assert(r@.attrs =~= Seq::new(f@.attr_count, |k: int| attr_of(text@, field as nat, k as nat)));
    r
}

/// The item that the token trees `input` hold, as the derive macros read it:
/// `UnrecognizedLiteral` where a token would not lex back as itself from the
/// source text, or a literal is of a kind `syn` does not know (a C string, on
/// which its parser panics, as the macros do), and `Parse` with the message of
/// `syn` where they hold no item it parses.
pub fn derive_model(input: &Vec<Token>) -> (r: Result<DeriveModel, DeriveError>)
    ensures
        read_matches(r, model_spec(tokens_view(input@))),
{
    if !lexes_safely(input) {
        return Err(DeriveError::UnrecognizedLiteral);
    }
    let text = source_of(input);
    proof {
        assert(lex_safe(tokens_view(input@)) && tokens_text(tokens_view(input@)) == text@);
    }
    let read = parse_derive_input(text.as_str());
    let d = match read {
        Ok(d) => d,
        Err(msg) => {
            return Err(DeriveError::Parse(msg));
        },
    };
    let ghost dv = d@;
    assert(syn_derive_input(text@) == Ok::<DeriveTextV, Seq<char>>(dv));
    let DeriveText { name, data: read_data } = d;
    let data = match read_data {
        DataText::NamedStruct(fs) => {
            let mut fields: Vec<NamedField> = Vec::new();
            let mut i: usize = 0;
            while i < fs.len()
                invariant
                    lex_safe_text(text@),
                    i <= fs.len(),
                    fields@.len() == i,
                    forall|k: int|
                        0 <= k < i ==> (#[trigger] fields@[k])@ == field_of_text(text@, k as nat, fs@[k]@),
                decreases fs.len() - i,
            {
                fields.push(field_of(&text, i, &fs[i]));
                i += 1;
            }
            proof {
                let fsv = dv.data->NamedStruct_0;
                assert(fsv.len() == fs@.len());
                assert(Seq::new(fields@.len(), |k: int| fields@[k]@) =~= Seq::new(
                    fsv.len(),
                    |k: int| field_of_text(text@, k as nat, fsv[k]),
                ));
            }
            DataShape::NamedStruct(fields)
        },
        DataText::OtherStruct => DataShape::OtherStruct,
        DataText::Enum => DataShape::Enum,
        DataText::Union => DataShape::Union,
    };
    let m = DeriveModel { name, data };
    Ok(m)
}

} // verus!

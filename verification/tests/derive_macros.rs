use proc_macro_workshop::builder::{
    self, get_generic_type_of_vec, is_builder_of, is_field_option_type, BuildKind, InitKind,
    SetterKind, StorageKind,
};
use proc_macro_workshop::debug::{self, get_format_string_for_field};
use proc_macro_workshop::derive_input::{
    derive_model, AttrMeta, DataShape, DeriveError, DeriveModel, FieldType, GenericArgKind,
    LitKind, NamedField, NestedMetaKind, PathArguments, PathSegment, TypeRef,
};
use proc_macro_workshop::source_text::source_of;
use proc_macro_workshop::lexing::{is_known_literal, lexes_safely};
use proc_macro_workshop::tokens::{Delimiter, SpanRef, Spacing, Token};
use proc_macro2::{Delimiter as PmDelimiter, Spacing as PmSpacing, TokenStream, TokenTree};

fn to_model(ts: TokenStream, next: &mut u64) -> Vec<Token> {
    let mut out = Vec::new();
    for tt in ts {
        let at = SpanRef::Input(*next);
        *next += 1;
        out.push(match tt {
            TokenTree::Ident(i) => Token::Ident(i.to_string(), at),
            TokenTree::Punct(p) => Token::Punct(
                p.as_char(),
                if p.spacing() == PmSpacing::Joint { Spacing::Joint } else { Spacing::Alone },
                at,
            ),
            TokenTree::Literal(l) => Token::Literal(l.to_string(), at),
            TokenTree::Group(g) => Token::Group(
                match g.delimiter() {
                    PmDelimiter::Parenthesis => Delimiter::Parenthesis,
                    PmDelimiter::Brace => Delimiter::Brace,
                    PmDelimiter::Bracket => Delimiter::Bracket,
                    PmDelimiter::None => Delimiter::Invisible,
                },
                to_model(g.stream(), next),
            ),
        });
    }
    out
}

fn toks(text: &str) -> Vec<Token> {
    let mut next = 0;
    to_model(text.parse::<TokenStream>().unwrap(), &mut next)
}

const COMMAND: &str = "pub struct Command {
    executable: String,
    #[builder(each = \"arg\")]
    args: Vec<String>,
    #[builder(each = \"env\")]
    env: Vec<String>,
    current_dir: Option<String>,
}";

fn seg(name: &str, args: Option<Vec<GenericArgKind>>) -> PathSegment {
    PathSegment {
        ident: name.to_string(),
        arguments: match args {
            Some(a) => PathArguments::AngleBracketed(a),
            None => PathArguments::Bare,
        },
    }
}

fn ty(segs: Vec<PathSegment>) -> FieldType {
    FieldType::Path(segs)
}

fn string_ty() -> FieldType {
    ty(vec![seg("String", None)])
}

fn generic(name: &str) -> FieldType {
    ty(vec![seg(name, Some(vec![GenericArgKind::Type]))])
}

fn each(name: &str) -> AttrMeta {
    AttrMeta::List(
        vec!["builder".to_string()],
        vec![NestedMetaKind::NameValue(vec!["each".to_string()], LitKind::Str(name.to_string()))],
    )
}

fn field(name: &str, ty: FieldType, attrs: Vec<AttrMeta>) -> NamedField {
    NamedField { name: name.to_string(), ty, attrs }
}

fn command() -> DeriveModel {
    DeriveModel {
        name: "Command".to_string(),
        data: DataShape::NamedStruct(vec![
            field("executable", string_ty(), vec![]),
            field("args", generic("Vec"), vec![each("arg")]),
            field("env", generic("Vec"), vec![each("env")]),
            field("current_dir", generic("Option"), vec![]),
        ]),
    }
}

#[test]
fn builder_plan_for_command() {
    assert!(builder::admits_builder(&command()));
    let plan = builder::derive(&command());
    assert_eq!(plan.name, "Command");
    assert_eq!(plan.builder_name, "CommandBuilder");
    assert_eq!(plan.fields.len(), 4);

    let f = &plan.fields[0];
    assert_eq!(f.name, "executable");
    assert_eq!(f.storage, StorageKind::Optional);
    assert!(matches!(f.setter, SetterKind::AssignSome(TypeRef::Field)));
    assert_eq!(f.init, InitKind::Unset);
    assert_eq!(f.build, BuildKind::Required);

    let f = &plan.fields[1];
    assert_eq!(f.name, "args");
    assert_eq!(f.storage, StorageKind::AsDeclared);
    match &f.setter {
        SetterKind::EachAndAssign(m, item, arg) => {
            assert_eq!(m, "arg");
            assert_eq!(*item, TypeRef::Argument(0, 0));
            assert_eq!(*arg, TypeRef::Field);
        }
        other => panic!("unexpected {:?}", other),
    }
    assert_eq!(f.init, InitKind::EmptyVec);
    assert_eq!(f.build, BuildKind::Cloned);

    let f = &plan.fields[2];
    assert_eq!(f.name, "env");
    assert!(matches!(f.setter, SetterKind::Assign(TypeRef::Field)));
    assert_eq!(f.init, InitKind::EmptyVec);
    assert_eq!(f.build, BuildKind::Cloned);

    let f = &plan.fields[3];
    assert_eq!(f.name, "current_dir");
    assert_eq!(f.storage, StorageKind::AsDeclared);
    assert!(matches!(f.setter, SetterKind::AssignSome(TypeRef::Argument(0, 0))));
    assert_eq!(f.init, InitKind::Unset);
    assert_eq!(f.build, BuildKind::Cloned);
}

#[test]
fn builder_refuses_other_shapes() {
    let m = DeriveModel { name: "E".to_string(), data: DataShape::Enum };
    assert!(!builder::admits_builder(&m));
    let m = DeriveModel { name: "T".to_string(), data: DataShape::OtherStruct };
    assert!(!builder::admits_builder(&m));
}

#[test]
fn builder_refuses_empty_option() {
    let m = DeriveModel {
        name: "S".to_string(),
        data: DataShape::NamedStruct(vec![
            field("a", string_ty(), vec![]),
            field("b", ty(vec![seg("Option", Some(vec![]))]), vec![]),
        ]),
    };
    assert!(!builder::admits_builder(&m));
    if let DataShape::NamedStruct(fields) = &m.data {
        assert!(!builder::has_empty_option(&fields[0]));
        assert!(builder::has_empty_option(&fields[1]));
    }
}

#[test]
fn option_detection_reads_first_segment_only() {
    let f = field("x", ty(vec![seg("std", None), seg("Option", Some(vec![GenericArgKind::Type]))]), vec![]);
    assert_eq!(is_field_option_type(&f), None);
    let f = field("x", generic("Option"), vec![]);
    assert_eq!(is_field_option_type(&f), Some(TypeRef::Argument(0, 0)));
    let f = field("x", ty(vec![seg("Option", Some(vec![GenericArgKind::Other]))]), vec![]);
    assert_eq!(is_field_option_type(&f), None);
    let f = field("x", FieldType::Other, vec![]);
    assert_eq!(is_field_option_type(&f), None);
}

#[test]
fn vec_element_reads_last_segment() {
    let f = field(
        "x",
        ty(vec![seg("std", None), seg("vec", None), seg("Vec", Some(vec![GenericArgKind::Other, GenericArgKind::Type]))]),
        vec![],
    );
    assert_eq!(get_generic_type_of_vec(&f), Some(TypeRef::Argument(2, 1)));
    assert_eq!(get_generic_type_of_vec(&field("x", string_ty(), vec![])), None);
    assert_eq!(get_generic_type_of_vec(&field("x", FieldType::Other, vec![])), None);
}

#[test]
fn each_attribute_cases() {
    assert_eq!(is_builder_of(&field("x", generic("Vec"), vec![each("item")])), Some("item".to_string()));
    let wrong_key = AttrMeta::List(
        vec!["builder".to_string()],
        vec![NestedMetaKind::NameValue(vec!["eac".to_string()], LitKind::Str("item".to_string()))],
    );
    assert_eq!(is_builder_of(&field("x", generic("Vec"), vec![wrong_key, each("later")])), Some("later".to_string()));
    let not_string = AttrMeta::List(
        vec!["builder".to_string()],
        vec![NestedMetaKind::NameValue(vec!["each".to_string()], LitKind::Other)],
    );
    assert_eq!(is_builder_of(&field("x", generic("Vec"), vec![not_string, each("later")])), None);
    assert_eq!(is_builder_of(&field("x", generic("Vec"), vec![AttrMeta::Path, each("later")])), None);
    let other_list = AttrMeta::List(vec!["serde".to_string()], vec![NestedMetaKind::Lit]);
    assert_eq!(is_builder_of(&field("x", generic("Vec"), vec![other_list, each("later")])), Some("later".to_string()));
}

fn debug_attr(value: &str) -> AttrMeta {
    AttrMeta::NameValue(vec!["debug".to_string()], LitKind::Str(value.to_string()))
}

#[test]
fn debug_plan_for_struct() {
    let m = DeriveModel {
        name: "Field".to_string(),
        data: DataShape::NamedStruct(vec![
            field("name", ty(vec![seg("str", None)]), vec![]),
            field("bitmask", ty(vec![seg("u8", None)]), vec![debug_attr("0b{:08b}")]),
        ]),
    };
    let plan = debug::derive(&m);
    assert_eq!(plan.name, "Field");
    assert_eq!(plan.fields.len(), 2);
    assert_eq!(plan.fields[0].name, "name");
    assert_eq!(plan.fields[0].format, None);
    assert_eq!(plan.fields[1].name, "bitmask");
    assert_eq!(plan.fields[1].format, Some("0b{:08b}".to_string()));
}

#[test]
fn debug_refuses_other_shapes() {
    assert_eq!(debug::check_derive_custom_debug(&toks("enum E { A }")).err(), Some(DeriveError::NotStruct));
    assert_eq!(debug::check_derive_custom_debug(&toks("union U { a: u8 }")).err(), Some(DeriveError::NotStruct));
    assert_eq!(debug::check_derive_custom_debug(&toks("struct T(u8);")).err(), Some(DeriveError::NotNamedStruct));
}

#[test]
fn debug_format_cases() {
    let f = field("x", string_ty(), vec![AttrMeta::Unparsable, debug_attr("{}")]);
    assert_eq!(get_format_string_for_field(&f), Some("{}".to_string()));
    let other = AttrMeta::NameValue(vec!["doc".to_string()], LitKind::Str("text".to_string()));
    let f = field("x", string_ty(), vec![other, debug_attr("{}")]);
    assert_eq!(get_format_string_for_field(&f), None);
    let f = field("x", string_ty(), vec![AttrMeta::NameValue(vec!["debug".to_string()], LitKind::Other)]);
    assert_eq!(get_format_string_for_field(&f), None);
    let f = field("x", string_ty(), vec![AttrMeta::Path, debug_attr("{}")]);
    assert_eq!(get_format_string_for_field(&f), None);
}

#[test]
fn source_text_spaces_tokens() {
    assert_eq!(source_of(&toks("x::y + (1, [z])")), "x :: y + (1 , [z ] ) ");
    assert_eq!(source_of(&toks("")), "");
}

#[test]
fn model_read_from_tokens() {
    let m = derive_model(&toks(COMMAND)).unwrap();
    assert_eq!(m.name, "Command");
    let fields = match &m.data {
        DataShape::NamedStruct(fields) => fields,
        other => panic!("unexpected {:?}", other),
    };
    assert_eq!(fields.len(), 4);
    assert_eq!(fields[0].name, "executable");
    assert!(fields[0].attrs.is_empty());
    match &fields[1].ty {
        FieldType::Path(segs) => {
            assert_eq!(segs.len(), 1);
            assert_eq!(segs[0].ident, "Vec");
            assert!(matches!(&segs[0].arguments, PathArguments::AngleBracketed(a) if a == &vec![GenericArgKind::Type]));
        }
        other => panic!("unexpected {:?}", other),
    }
    match &fields[1].attrs[..] {
        [AttrMeta::List(path, nested)] => {
            assert_eq!(path, &vec!["builder".to_string()]);
            match &nested[..] {
                [NestedMetaKind::NameValue(p, LitKind::Str(v))] => {
                    assert_eq!(p, &vec!["each".to_string()]);
                    assert_eq!(v, "arg");
                }
                other => panic!("unexpected {:?}", other),
            }
        }
        other => panic!("unexpected {:?}", other),
    }
    assert!(matches!(&fields[3].ty, FieldType::Path(segs) if segs[0].ident == "Option"));
}

#[test]
fn builder_from_tokens() {
    let plan = builder::derive_builder(&toks(COMMAND)).unwrap();
    assert_eq!(plan.builder_name, "CommandBuilder");
    let names: Vec<&str> = plan.fields.iter().map(|f| f.name.as_str()).collect();
    assert_eq!(names, vec!["executable", "args", "env", "current_dir"]);
    assert_eq!(plan.fields[0].build, BuildKind::Required);
    assert!(matches!(&plan.fields[1].setter, SetterKind::EachAndAssign(m, TypeRef::Argument(0, 0), TypeRef::Field) if m == "arg"));
    assert_eq!(plan.fields[2].init, InitKind::EmptyVec);
    assert!(matches!(plan.fields[3].setter, SetterKind::AssignSome(TypeRef::Argument(0, 0))));
    assert_eq!(plan.fields[3].build, BuildKind::Cloned);
}

#[test]
fn builder_from_tokens_refusals() {
    assert!(matches!(builder::check_derive_builder(&toks("fn f() {}")), Err(DeriveError::Parse(_))));
    assert!(matches!(builder::check_derive_builder(&toks("struct S { a: u8 } extra")), Err(DeriveError::Parse(_))));
    assert_eq!(builder::check_derive_builder(&toks("enum E { A, B }")).err(), Some(DeriveError::NotNamedStruct));
    assert_eq!(builder::check_derive_builder(&toks("struct T(u8);")).err(), Some(DeriveError::NotNamedStruct));
    assert_eq!(builder::check_derive_builder(&toks("struct U;")).err(), Some(DeriveError::NotNamedStruct));
    assert_eq!(
        builder::check_derive_builder(&toks("struct S { a: Option<> }")).err(),
        Some(DeriveError::EmptyOptionArguments)
    );
    assert_eq!(
        builder::check_derive_builder(&toks("struct S { a: [u8; c\"x\"] }")).err(),
        Some(DeriveError::UnrecognizedLiteral)
    );
    assert_eq!(
        builder::check_derive_builder(&toks("struct S { #[builder(each = c\"x\")] a: Vec<u8> }")).err(),
        Some(DeriveError::UnrecognizedLiteral)
    );
}

#[test]
fn debug_from_tokens() {
    let plan = debug::derive_custom_debug(&toks(
        "pub struct Field { name: &'static str, #[debug = \"0b{:08b}\"] bitmask: u8 }",
    ))
    .unwrap();
    assert_eq!(plan.name, "Field");
    assert_eq!(plan.fields.len(), 2);
    assert_eq!(plan.fields[0].name, "name");
    assert_eq!(plan.fields[0].format, None);
    assert_eq!(plan.fields[1].name, "bitmask");
    assert_eq!(plan.fields[1].format.as_deref(), Some("0b{:08b}"));
}

#[test]
fn debug_from_tokens_refusals() {
    assert!(matches!(debug::check_derive_custom_debug(&toks("impl X {}")), Err(DeriveError::Parse(_))));
    assert!(matches!(debug::derive_custom_debug(&toks("impl X {}")), Err(DeriveError::Parse(_))));
    assert_eq!(
        debug::check_derive_custom_debug(&toks("struct S { #[debug = c\"x\"] a: u8 }")).err(),
        Some(DeriveError::UnrecognizedLiteral)
    );
    let plan = debug::check_derive_custom_debug(&toks("struct S { #[debug = \"c\"] a: u8, b: [u8; 'c' as usize] }")).unwrap();
    assert_eq!(plan.fields[0].format.as_deref(), Some("c"));
}

#[test]
fn literal_kinds_syn_knows() {
    for t in ["\"a\\\"b\"", "r#\"a\"b\"#", "b'x'", "'\\''", "1u8", "1.5e-3", "b\"x\"", "br\"x\"", "\"x\"suffix"] {
        assert!(is_known_literal(&t.to_string()), "{}", t);
    }
    for t in ["c\"x\"", "cr\"x\"", "\"a\" \"b\"", "'ab'", "x", "\"open", "1\"x\""] {
        assert!(!is_known_literal(&t.to_string()), "{}", t);
    }
}

#[test]
fn token_trees_lex_back() {
    assert!(lexes_safely(&toks(COMMAND)));
    assert!(lexes_safely(&toks("struct S<'a> { x: &'a str }")));
    assert!(!lexes_safely(&toks("struct S { x: [u8; c\"x\"] }")));
    let bogus = vec![Token::Ident("a\"b".to_string(), SpanRef::CallSite)];
    assert!(!lexes_safely(&bogus));
}

//! `#[derive(CustomDebug)]`: how each field of a struct is shown.
use vstd::prelude::*;
use crate::derive_input::{
    AttrMeta, AttrMetaV, DataShape, DataShapeV, DeriveError, DeriveModel, DeriveModelV, FieldV,
    LitKind, LitKindV, NamedField, ReadErrorV, derive_model, model_spec, opt_text, path_contains,
    path_has,
};
use crate::tokens::{Token, tokens_view};

verus! {

/// How one field is shown: under its name, with its own `Debug` or through a
/// format string.
#[derive(Debug)]
pub struct DebugField {
    pub name: String,
    pub format: Option<String>,
}

/// The `Debug` impl that `#[derive(CustomDebug)]` writes for a struct.
#[derive(Debug)]
pub struct DebugPlan {
    pub name: String,
    pub fields: Vec<DebugField>,
}

pub struct DebugFieldV {
    pub name: Seq<char>,
    pub format: Option<Seq<char>>,
}

pub struct DebugPlanV {
    pub name: Seq<char>,
    pub fields: Seq<DebugFieldV>,
}

pub open spec fn debug_field_view(f: DebugField) -> DebugFieldV {
    DebugFieldV { name: f.name@, format: opt_text(f.format) }
}

pub open spec fn debug_plan_view(p: DebugPlan) -> DebugPlanV {
    DebugPlanV {
        name: p.name@,
        fields: Seq::new(p.fields@.len(), |i: int| debug_field_view(p.fields@[i])),
    }
}

/// The format string of `#[debug = "..."]` among `attrs[i..]`: attributes that
/// are not of a form `syn` reads are passed over, and the first one that is
/// read ends the search.
pub open spec fn format_from(attrs: Seq<AttrMetaV>, i: int) -> Option<Seq<char>>
    decreases attrs.len() - i,
{
    if i < 0 || i >= attrs.len() {
        None
    } else {
        match attrs[i] {
            AttrMetaV::Unparsable => format_from(attrs, i + 1),
            AttrMetaV::NameValue(path, lit) => if path_has(path, "debug"@) {
                match lit {
                    LitKindV::Str(s) => Some(s),
                    LitKindV::Other => None,
                }
            } else {
                None
            },
            _ => None,
        }
    }
}

pub open spec fn field_view(f: FieldV) -> DebugFieldV {
    DebugFieldV { name: f.name, format: format_from(f.attrs, 0) }
}

/// The `Debug` impl written for `input`, a struct with named fields (on any
/// other item the macro panics).
pub open spec fn debug_spec(input: DeriveModelV) -> DebugPlanV {
    DebugPlanV {
        name: input.name,
        fields: match input.data {
            DataShapeV::NamedStruct(fields) => fields.map_values(|f: FieldV| field_view(f)),
            _ => Seq::empty(),
        },
    }
}

/// The format string that `#[debug = "..."]` gives field `f`.
pub fn get_format_string_for_field(f: &NamedField) -> (r: Option<String>)
    ensures
        opt_text(r) == format_from(f@.attrs, 0),
{
    let attrs = &f.attrs;
    let mut i: usize = 0;
    while i < attrs.len()
        invariant
            attrs == &f.attrs,
            i <= attrs.len(),
            format_from(f@.attrs, 0) == format_from(f@.attrs, i as int),
        decreases attrs.len() - i,
    {
        match &attrs[i] {
            AttrMeta::Unparsable => {},
            AttrMeta::NameValue(path, lit) => {
                if path_contains(path, "debug") {
                    return match lit {
                        LitKind::Str(s) => Some(s.clone()),
                        LitKind::Other => None,
                    };
                } else {
                    return None;
                }
            },
            _ => {
                return None;
            },
        }
        i += 1;
    }
    None
}

/// `#[derive(CustomDebug)]`: the `Debug` impl written for `input`, a struct
/// with named fields (on a tuple or unit struct, an enum or a union the macro
/// panics).
pub fn derive(input: &DeriveModel) -> (r: DebugPlan)
    requires
        input@.data is NamedStruct,
    ensures
        debug_plan_view(r) == debug_spec(input@),
{
    let mut out: Vec<DebugField> = Vec::new();
    match &input.data {
        DataShape::NamedStruct(fields) => {
            let mut i: usize = 0;
            while i < fields.len()
                invariant
                    input.data == DataShape::NamedStruct(*fields),
                    i <= fields.len(),
                    out@.len() == i,
                    forall|k: int|
                        0 <= k < i ==> debug_field_view(#[trigger] out@[k]) == field_view(fields@[k]@),
                decreases fields.len() - i,
            {
                let f = &fields[i];
                let format = get_format_string_for_field(f);
                out.push(DebugField { name: f.name.clone(), format });
                i += 1;
            }
        },
        _ => {},
    }
    let plan = DebugPlan { name: input.name.clone(), fields: out };
    proof {
        let vs = input@.data->NamedStruct_0;
        assert(debug_plan_view(plan).fields =~= vs.map_values(|f: FieldV| field_view(f)));
    }
    plan
}

/// `#[derive(CustomDebug)]` on the token trees of an item that the macro does
/// not panic on: the `Debug` impl written for it, or `Parse` with the message
/// of `syn` where the tokens hold no item it parses. `UnrecognizedLiteral`
/// where a token would not lex back as itself, or is a C string literal.
pub fn derive_custom_debug(input: &Vec<Token>) -> (r: Result<DebugPlan, DeriveError>)
    requires
        model_spec(tokens_view(input@)) matches Ok(m) ==> m.data is NamedStruct,
    ensures
        match model_spec(tokens_view(input@)) {
            Ok(m) => r matches Ok(p) && debug_plan_view(p) == debug_spec(m),
            Err(ReadErrorV::Parse(msg)) => r matches Err(DeriveError::Parse(x)) && x@ == msg,
            Err(ReadErrorV::UnrecognizedLiteral) => r matches Err(DeriveError::UnrecognizedLiteral),
        },
{
    match derive_model(input) {
        Ok(model) => Ok(derive(&model)),
        Err(e) => Err(e),
    }
}

/// `#[derive(CustomDebug)]` on any token trees: reads the item, tests whether
/// the macro would panic on it, and calls `derive_custom_debug` only where it
/// would not; otherwise `NotNamedStruct` for a tuple or unit struct and
/// `NotStruct` for an enum or a union.
pub fn check_derive_custom_debug(input: &Vec<Token>) -> (r: Result<DebugPlan, DeriveError>)
    ensures
        match model_spec(tokens_view(input@)) {
            Ok(m) => match m.data {
                DataShapeV::NamedStruct(_) => r matches Ok(p) && debug_plan_view(p) == debug_spec(m),
                DataShapeV::OtherStruct => r matches Err(DeriveError::NotNamedStruct),
                _ => r matches Err(DeriveError::NotStruct),
            },
            Err(ReadErrorV::Parse(msg)) => r matches Err(DeriveError::Parse(x)) && x@ == msg,
            Err(ReadErrorV::UnrecognizedLiteral) => r matches Err(DeriveError::UnrecognizedLiteral),
        },
{
    match derive_model(input) {
        Ok(model) => match model.data {
            DataShape::NamedStruct(_) => derive_custom_debug(input),
            DataShape::OtherStruct => Err(DeriveError::NotNamedStruct),
            _ => Err(DeriveError::NotStruct),
        },
        Err(e) => Err(e),
    }
}

/// The `Debug` impl shows every field, in the order of the fields and under
/// its own name, through the format string of its `#[debug = "..."]` where it
/// has one.
pub proof fn lemma_debug_covers_fields(input: DeriveModelV)
    requires
        input.data is NamedStruct,
    ensures
        ({
            let p = debug_spec(input);
            &&& input.data matches DataShapeV::NamedStruct(fields)
            &&& p.name == input.name
            &&& p.fields.len() == fields.len()
            &&& forall|k: int|
                0 <= k < p.fields.len() ==> (#[trigger] p.fields[k]).name == fields[k].name
                    && p.fields[k].format == format_from(fields[k].attrs, 0)
        }),
{
}

/// The format string of a field comes from the first of its attributes that
/// `syn` reads: that attribute gives `Some(format)` where it is
/// `debug = "format"` and `None` where it is anything else (a path, a list,
/// another `name = value`); attributes that do not parse are passed over, and
/// with no attribute read there is none.
pub proof fn lemma_format_from_first_read(attrs: Seq<AttrMetaV>, i: int)
    requires
        0 <= i <= attrs.len(),
    ensures
        forall|k: int|
            #![trigger attrs[k]]
            i <= k < attrs.len() && (forall|j: int| i <= j < k ==> attrs[j] is Unparsable)
                && !(attrs[k] is Unparsable) ==> format_from(attrs, i) == match attrs[k] {
                AttrMetaV::NameValue(p, LitKindV::Str(s)) => if path_has(p, "debug"@) {
                    Some(s)
                } else {
                    None::<Seq<char>>
                },
                _ => None,
            },
        (forall|j: int| i <= j < attrs.len() ==> attrs[j] is Unparsable) ==> format_from(attrs, i)
            is None,
    decreases attrs.len() - i,
{
    if i < attrs.len() {
        lemma_format_from_first_read(attrs, i + 1);
        assert forall|k: int|
            #![trigger attrs[k]]
            i <= k < attrs.len() && (forall|j: int| i <= j < k ==> attrs[j] is Unparsable)
                && !(attrs[k] is Unparsable) implies format_from(attrs, i) == match attrs[k] {
            AttrMetaV::NameValue(p, LitKindV::Str(s)) => if path_has(p, "debug"@) {
                Some(s)
            } else {
                None::<Seq<char>>
            },
            _ => None,
        } by {
            if k > i {
                assert(attrs[i] is Unparsable);
            }
        }
        if forall|j: int| i <= j < attrs.len() ==> attrs[j] is Unparsable {
            assert(attrs[i] is Unparsable);
        }
    }
}

} // verus!

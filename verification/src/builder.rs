//! `#[derive(Builder)]`: which builder a struct gets, field by field.
use vstd::prelude::*;
use crate::derive_input::{
    AttrMeta, AttrMetaV, DataShape, DataShapeV, DeriveError, DeriveModel, DeriveModelV, FieldType,
    FieldTypeV, FieldV, GenericArgKind, LitKind, LitKindV, NamedField, NestedMetaKind, NestedMetaV,
    PathArguments, PathArgumentsV, ReadErrorV, TypeRef, derive_model, model_spec, opt_text,
    path_contains, path_has, text_is,
};
use crate::tokens::{Token, tokens_view};

verus! {

/// How the builder stores a field.
#[derive(Clone, Copy, Debug, PartialEq, Eq, Structural)]
pub enum StorageKind {
    /// With the field's own type.
    AsDeclared,
    /// Wrapped in an `Option`, unset until its setter is called.
    Optional,
}

/// The setter methods the builder gets for a field.
#[derive(Debug)]
pub enum SetterKind {
    /// `fn name(&mut self, name: T)` that stores `Some(name)`, `T` as given.
    AssignSome(TypeRef),
    /// `fn name(&mut self, name: T)` that stores `name` itself.
    Assign(TypeRef),
    /// A method of the given name that pushes one item of the given type, and
    /// `fn name(&mut self, name: T)` that stores `name` itself.
    EachAndAssign(String, TypeRef, TypeRef),
}

/// How `builder()` starts a field.
#[derive(Clone, Copy, Debug, PartialEq, Eq, Structural)]
pub enum InitKind {
    /// `Vec::new()`.
    EmptyVec,
    /// `None`.
    Unset,
}

/// How `build()` fills a field of the struct.
#[derive(Clone, Copy, Debug, PartialEq, Eq, Structural)]
pub enum BuildKind {
    /// With a clone of what the builder holds.
    Cloned,
    /// With the value the builder holds, failing where it is unset.
    Required,
}

/// What the builder does with one field.
#[derive(Debug)]
pub struct FieldPlan {
    pub name: String,
    pub storage: StorageKind,
    pub setter: SetterKind,
    pub init: InitKind,
    pub build: BuildKind,
}

/// The builder that `#[derive(Builder)]` writes for a struct.
#[derive(Debug)]
pub struct BuilderPlan {
    pub name: String,
    pub builder_name: String,
    pub fields: Vec<FieldPlan>,
}

pub enum SetterV {
    AssignSome(TypeRef),
    Assign(TypeRef),
    EachAndAssign(Seq<char>, TypeRef, TypeRef),
}

pub struct FieldPlanV {
    pub name: Seq<char>,
    pub storage: StorageKind,
    pub setter: SetterV,
    pub init: InitKind,
    pub build: BuildKind,
}

pub struct BuilderPlanV {
    pub name: Seq<char>,
    pub builder_name: Seq<char>,
    pub fields: Seq<FieldPlanV>,
}

pub open spec fn setter_view(s: SetterKind) -> SetterV {
    match s {
        SetterKind::AssignSome(t) => SetterV::AssignSome(t),
        SetterKind::Assign(t) => SetterV::Assign(t),
        SetterKind::EachAndAssign(m, item, t) => SetterV::EachAndAssign(m@, item, t),
    }
}

pub open spec fn field_plan_view(p: FieldPlan) -> FieldPlanV {
    FieldPlanV {
        name: p.name@,
        storage: p.storage,
        setter: setter_view(p.setter),
        init: p.init,
        build: p.build,
    }
}

pub open spec fn plan_view(p: BuilderPlan) -> BuilderPlanV {
    BuilderPlanV {
        name: p.name@,
        builder_name: p.builder_name@,
        fields: Seq::new(p.fields@.len(), |i: int| field_plan_view(p.fields@[i])),
    }
}

/// The field's type is `Option<>`: its first path segment is `Option`, with
/// an empty list of arguments. The derive macro panics on such a field.
pub open spec fn empty_option(ty: FieldTypeV) -> bool {
    match ty {
        FieldTypeV::Path(segs) => segs.len() > 0 && segs[0].ident == "Option"@ && match segs[0].arguments {
            PathArgumentsV::AngleBracketed(args) => args.len() == 0,
            _ => false,
        },
        FieldTypeV::Other => false,
    }
}

/// Where the field's type is `Option<..., T>` (its first path segment named
/// `Option`, with `T` a type), the place of `T`.
pub open spec fn option_arg(ty: FieldTypeV) -> Option<TypeRef> {
    match ty {
        FieldTypeV::Path(segs) => if segs.len() > 0 && segs[0].ident == "Option"@ {
            match segs[0].arguments {
                PathArgumentsV::AngleBracketed(args) => if args.len() > 0 && args.last()
                    == GenericArgKind::Type {
                    Some(TypeRef::Argument(0, (args.len() - 1) as usize))
                } else {
                    None
                },
                _ => None,
            }
        } else {
            None
        },
        FieldTypeV::Other => None,
    }
}

/// Where the last segment of the field's type path ends in `<..., T>` with
/// `T` a type, the place of `T`.
pub open spec fn vec_arg(ty: FieldTypeV) -> Option<TypeRef> {
    match ty {
        FieldTypeV::Path(segs) => if segs.len() == 0 {
            None
        } else {
            match segs.last().arguments {
                PathArgumentsV::AngleBracketed(args) => if args.len() > 0 && args.last()
                    == GenericArgKind::Type {
                    Some(TypeRef::Argument((segs.len() - 1) as usize, (args.len() - 1) as usize))
                } else {
                    None
                },
                _ => None,
            }
        },
        FieldTypeV::Other => None,
    }
}

/// The method name of `#[builder(each = "name")]` among `attrs[i..]`. The
/// search ends at the first attribute that is not a list, at a `builder(...)`
/// list whose first item is not of the form `name = value`, and at
/// `each = value` whatever the value; a first item `other = value` passes on
/// to the next attribute.
pub open spec fn each_from(attrs: Seq<AttrMetaV>, i: int) -> Option<Seq<char>>
    decreases attrs.len() - i,
{
    if i < 0 || i >= attrs.len() {
        None
    } else {
        match attrs[i] {
            AttrMetaV::List(path, nested) => if path_has(path, "builder"@) && nested.len() > 0 {
                match nested[0] {
                    NestedMetaV::NameValue(p, lit) => if path_has(p, "each"@) {
                        match lit {
                            LitKindV::Str(s) => Some(s),
                            LitKindV::Other => None,
                        }
                    } else {
                        each_from(attrs, i + 1)
                    },
                    _ => None,
                }
            } else {
                each_from(attrs, i + 1)
            },
            _ => None,
        }
    }
}

/// What the builder does with field `f`.
pub open spec fn field_plan(f: FieldV) -> FieldPlanV {
    let opt = option_arg(f.ty);
    let each = each_from(f.attrs, 0);
    let arg = match opt {
        Some(r) => r,
        None => TypeRef::Field,
    };
    FieldPlanV {
        name: f.name,
        storage: if opt is None && each is None {
            StorageKind::Optional
        } else {
            StorageKind::AsDeclared
        },
        setter: match each {
            None => SetterV::AssignSome(arg),
            Some(m) => if m == f.name {
                SetterV::Assign(arg)
            } else {
                match vec_arg(f.ty) {
                    Some(item) => SetterV::EachAndAssign(m, item, arg),
                    None => SetterV::AssignSome(arg),
                }
            },
        },
        init: if each is Some {
            InitKind::EmptyVec
        } else {
            InitKind::Unset
        },
        build: if opt is None && each is None {
            BuildKind::Required
        } else {
            BuildKind::Cloned
        },
    }
}

/// The items on which `#[derive(Builder)]` writes a builder rather than
/// panicking: structs with named fields, none of type `Option<>`.
pub open spec fn builder_admits(input: DeriveModelV) -> bool {
    input.data matches DataShapeV::NamedStruct(fields) && forall|k: int|
        0 <= k < fields.len() ==> !empty_option(#[trigger] fields[k].ty)
}

/// The builder that `#[derive(Builder)]` writes for `input`, where it admits it.
pub open spec fn builder_spec(input: DeriveModelV) -> BuilderPlanV {
    BuilderPlanV {
        name: input.name,
        builder_name: input.name + "Builder"@,
        fields: match input.data {
            DataShapeV::NamedStruct(fields) => fields.map_values(|f: FieldV| field_plan(f)),
            _ => Seq::empty(),
        },
    }
}

/// The place of `T` where the field's type is `Option<T>`; see `option_arg`.
/// The macro panics on `Option<>`, which `requires` leaves out.
pub fn is_field_option_type(f: &NamedField) -> (r: Option<TypeRef>)
    requires
        !empty_option(f@.ty),
    ensures
        r == option_arg(f@.ty),
{
    match &f.ty {
        FieldType::Path(segs) => {
            if segs.len() == 0 {
                return None;
            }
            if !text_is(&segs[0].ident, "Option") {
                return None;
            }
            match &segs[0].arguments {
                PathArguments::AngleBracketed(args) => {
                    if args.len() > 0 && args[args.len() - 1] == GenericArgKind::Type {
                        Some(TypeRef::Argument(0, args.len() - 1))
                    } else {
                        None
                    }
                },
                _ => None,
            }
        },
        FieldType::Other => None,
    }
}

/// Whether the field's type is `Option<>`; see `empty_option`.
pub fn has_empty_option(f: &NamedField) -> (r: bool)
    ensures
        r == empty_option(f@.ty),
{
    match &f.ty {
        FieldType::Path(segs) => {
            if segs.len() == 0 || !text_is(&segs[0].ident, "Option") {
                return false;
            }
            match &segs[0].arguments {
                PathArguments::AngleBracketed(args) => args.len() == 0,
                _ => false,
            }
        },
        FieldType::Other => false,
    }
}

/// The place of `T` where the field's type ends in `<..., T>`; see `vec_arg`.
pub fn get_generic_type_of_vec(f: &NamedField) -> (r: Option<TypeRef>)
    ensures
        r == vec_arg(f@.ty),
{
    match &f.ty {
        FieldType::Path(segs) => {
            if segs.len() == 0 {
                return None;
            }
            match &segs[segs.len() - 1].arguments {
                PathArguments::AngleBracketed(args) => {
                    if args.len() > 0 && args[args.len() - 1] == GenericArgKind::Type {
                        Some(TypeRef::Argument(segs.len() - 1, args.len() - 1))
                    } else {
                        None
                    }
                },
                _ => None,
            }
        },
        FieldType::Other => None,
    }
}

/// The method name that `#[builder(each = "...")]` gives field `f`.
pub fn is_builder_of(f: &NamedField) -> (r: Option<String>)
    ensures
        opt_text(r) == each_from(f@.attrs, 0),
{
    let attrs = &f.attrs;
    let mut i: usize = 0;
    while i < attrs.len()
        invariant
            attrs == &f.attrs,
            i <= attrs.len(),
            each_from(f@.attrs, 0) == each_from(f@.attrs, i as int),
        decreases attrs.len() - i,
    {
        match &attrs[i] {
            AttrMeta::List(path, nested) => {
                if path_contains(path, "builder") && nested.len() > 0 {
                    match &nested[0] {
                        NestedMetaKind::NameValue(p, lit) => {
                            if path_contains(p, "each") {
                                return match lit {
                                    LitKind::Str(s) => Some(s.clone()),
                                    LitKind::Other => None,
                                };
                            }
                        },
                        _ => {
                            return None;
                        },
                    }
                }
            },
            _ => {
                return None;
            },
        }
        i += 1;
    }
    None
}

/// What the builder does with field `f`, whose type is not `Option<>`.
pub fn plan_field(f: &NamedField) -> (r: FieldPlan)
    requires
        !empty_option(f@.ty),
    ensures
        field_plan_view(r) == field_plan(f@),
{
    let opt = is_field_option_type(f);
    let each = is_builder_of(f);
    let arg = match opt {
        Some(r) => r,
        None => TypeRef::Field,
    };
    let storage = if opt.is_none() && each.is_none() {
        StorageKind::Optional
    } else {
        StorageKind::AsDeclared
    };
    let init = if each.is_some() {
        InitKind::EmptyVec
    } else {
        InitKind::Unset
    };
    let build = if opt.is_none() && each.is_none() {
        BuildKind::Required
    } else {
        BuildKind::Cloned
    };
    let setter = match each {
        None => SetterKind::AssignSome(arg),
        Some(m) => {
            if m == f.name {
                SetterKind::Assign(arg)
            } else {
                match get_generic_type_of_vec(f) {
                    Some(item) => SetterKind::EachAndAssign(m, item, arg),
                    None => SetterKind::AssignSome(arg),
                }
            }
        },
    };
    FieldPlan { name: f.name.clone(), storage, setter, init, build }
}

/// `#[derive(Builder)]`: the builder written for `input`, a struct with named
/// fields, none of type `Option<>` (on any other item the macro panics).
pub fn derive(input: &DeriveModel) -> (r: BuilderPlan)
    requires
        builder_admits(input@),
    ensures
        plan_view(r) == builder_spec(input@),
{
    let mut plans: Vec<FieldPlan> = Vec::new();
    match &input.data {
        DataShape::NamedStruct(fields) => {
            let mut i: usize = 0;
            while i < fields.len()
                invariant
                    input.data == DataShape::NamedStruct(*fields),
                    builder_admits(input@),
                    i <= fields.len(),
                    plans@.len() == i,
                    forall|k: int|
                        0 <= k < i ==> field_plan_view(#[trigger] plans@[k]) == field_plan(fields@[k]@),
                decreases fields.len() - i,
            {
                assert(input@.data->NamedStruct_0[i as int] == fields@[i as int]@);
                plans.push(plan_field(&fields[i]));
                i += 1;
            }
        },
        _ => {},
    }
    let mut builder_name = input.name.clone();
    builder_name.append("Builder");
    let plan = BuilderPlan { name: input.name.clone(), builder_name, fields: plans };
    proof {
        let vs = input@.data->NamedStruct_0;
        assert(plan_view(plan).fields =~= vs.map_values(|f: FieldV| field_plan(f)));
    }
    plan
}

/// Whether `#[derive(Builder)]` writes a builder for `input`; see
/// `builder_admits`.
pub fn admits_builder(input: &DeriveModel) -> (r: bool)
    ensures
        r == builder_admits(input@),
{
    match &input.data {
        DataShape::NamedStruct(fields) => {
            let mut i: usize = 0;
            while i < fields.len()
                invariant
                    input.data == DataShape::NamedStruct(*fields),
                    i <= fields.len(),
                    forall|k: int| 0 <= k < i ==> !empty_option(#[trigger] fields@[k]@.ty),
                decreases fields.len() - i,
            {
                if has_empty_option(&fields[i]) {
                    assert(input@.data->NamedStruct_0[i as int] == fields@[i as int]@);
                    return false;
                }
                i += 1;
            }
            proof {
                let vs = input@.data->NamedStruct_0;
                assert forall|k: int| 0 <= k < vs.len() implies !empty_option(#[trigger] vs[k].ty) by {
                    assert(vs[k] == fields@[k]@);
                }
            }
            true
        },
        _ => false,
    }
}

/// `#[derive(Builder)]` on the token trees of an item that the macro does not
/// panic on: the builder written for it, or `Parse` with the message of `syn`
/// where the tokens hold no item it parses. `UnrecognizedLiteral` where a
/// token would not lex back as itself, or is a C string literal.
pub fn derive_builder(input: &Vec<Token>) -> (r: Result<BuilderPlan, DeriveError>)
    requires
        model_spec(tokens_view(input@)) matches Ok(m) ==> builder_admits(m),
    ensures
        match model_spec(tokens_view(input@)) {
            Ok(m) => r matches Ok(p) && plan_view(p) == builder_spec(m),
            Err(ReadErrorV::Parse(msg)) => r matches Err(DeriveError::Parse(x)) && x@ == msg,
            Err(ReadErrorV::UnrecognizedLiteral) => r matches Err(DeriveError::UnrecognizedLiteral),
        },
{
    match derive_model(input) {
        Ok(model) => Ok(derive(&model)),
        Err(e) => Err(e),
    }
}

/// `#[derive(Builder)]` on any token trees: reads the item, tests whether the
/// macro would panic on it, and calls `derive_builder` only where it would
/// not; otherwise `NotNamedStruct` for an item that is not a struct with named
/// fields and `EmptyOptionArguments` for a field of type `Option<>`.
pub fn check_derive_builder(input: &Vec<Token>) -> (r: Result<BuilderPlan, DeriveError>)
    ensures
        match model_spec(tokens_view(input@)) {
            Ok(m) => if builder_admits(m) {
                r matches Ok(p) && plan_view(p) == builder_spec(m)
            } else if m.data is NamedStruct {
                r matches Err(DeriveError::EmptyOptionArguments)
            } else {
                r matches Err(DeriveError::NotNamedStruct)
            },
            Err(ReadErrorV::Parse(msg)) => r matches Err(DeriveError::Parse(x)) && x@ == msg,
            Err(ReadErrorV::UnrecognizedLiteral) => r matches Err(DeriveError::UnrecognizedLiteral),
        },
{
    match derive_model(input) {
        Ok(model) => {
            if admits_builder(&model) {
                derive_builder(input)
            } else if matches!(model.data, DataShape::NamedStruct(_)) {
                Err(DeriveError::EmptyOptionArguments)
            } else {
                Err(DeriveError::NotNamedStruct)
            }
        },
        Err(e) => Err(e),
    }
}

/// The builder of a struct has one entry per field, in the order of the
/// fields and under each field's name, and its name is the struct's name
/// followed by `Builder`.
pub proof fn lemma_builder_covers_fields(input: DeriveModelV)
    requires
        builder_admits(input),
    ensures
        ({
            let p = builder_spec(input);
            &&& input.data matches DataShapeV::NamedStruct(fields)
            &&& p.fields.len() == fields.len()
            &&& forall|k: int| 0 <= k < p.fields.len() ==> (#[trigger] p.fields[k]).name == fields[k].name
            &&& p.builder_name == input.name + "Builder"@
        }),
{
}

/// A field of type `Option<T>` may be left unset: `build()` never fails on
/// it, the builder keeps it with its own type, and (without `each`) its
/// setter takes a `T`.
pub proof fn lemma_option_field_optional(f: FieldV)
    ensures
        option_arg(f.ty) matches Some(r) ==> {
            let p = field_plan(f);
            &&& p.build == BuildKind::Cloned
            &&& p.storage == StorageKind::AsDeclared
            &&& each_from(f.attrs, 0) is None ==> p.setter == SetterV::AssignSome(r)
        },
{
}

/// A field that is neither an `Option` nor marked `each` must be set: the
/// builder keeps it unset in an `Option`, and `build()` fails while it is.
pub proof fn lemma_plain_field_required(f: FieldV)
    ensures
        option_arg(f.ty) is None && each_from(f.attrs, 0) is None ==> {
            let p = field_plan(f);
            &&& p.build == BuildKind::Required
            &&& p.storage == StorageKind::Optional
            &&& p.init == InitKind::Unset
            &&& p.setter == SetterV::AssignSome(TypeRef::Field)
        },
{
}

/// A field marked `each` starts as an empty `Vec` and is never required.
pub proof fn lemma_each_field_starts_empty(f: FieldV)
    ensures
        each_from(f.attrs, 0) is Some ==> {
            &&& field_plan(f).init == InitKind::EmptyVec
            &&& field_plan(f).build == BuildKind::Cloned
        },
{
}

/// A field marked `each` is kept with its own type (a `Vec` that its pusher
/// fills), never wrapped in an `Option`.
pub proof fn lemma_each_field_as_declared(f: FieldV)
    ensures
        each_from(f.attrs, 0) is Some ==> field_plan(f).storage == StorageKind::AsDeclared,
{
}

/// How a field is stored, started and built agree: it is wrapped in an
/// `Option` exactly when `build()` requires it to be set, and such a field
/// starts unset.
pub proof fn lemma_storage_agrees(f: FieldV)
    ensures
        ({
            let p = field_plan(f);
            &&& p.storage == StorageKind::Optional <==> p.build == BuildKind::Required
            &&& p.storage == StorageKind::Optional ==> p.init == InitKind::Unset
            &&& p.init == InitKind::EmptyVec ==> p.storage == StorageKind::AsDeclared
        }),
{
}

/// An attribute that decides the search for `#[builder(each = ...)]`: any
/// attribute but a list that is passed over (one whose path is not `builder`,
/// one with no items, or a `builder(...)` whose first item is `name = value`
/// with `name` not `each`).
pub open spec fn decides_each(a: AttrMetaV) -> bool {
    match a {
        AttrMetaV::List(p, n) => path_has(p, "builder"@) && n.len() > 0 && !(n[0] matches NestedMetaV::NameValue(
            q,
            _,
        ) && !path_has(q, "each"@)),
        _ => true,
    }
}

/// The method name of `each`: the first attribute that decides gives
/// `Some(name)` where it is `builder(each = "name", ...)` and `None` otherwise
/// (an attribute that is not a list, or does not parse, or a `builder` list
/// whose first item is not `name = value`, or whose value is not a string);
/// with no deciding attribute there is none.
pub proof fn lemma_each_from_first_decisive(attrs: Seq<AttrMetaV>, i: int)
    requires
        0 <= i <= attrs.len(),
    ensures
        forall|k: int|
            #![trigger attrs[k]]
            i <= k < attrs.len() && (forall|j: int| i <= j < k ==> !decides_each(attrs[j]))
                && decides_each(attrs[k]) ==> each_from(attrs, i) == match attrs[k] {
                AttrMetaV::List(_, n) => match n[0] {
                    NestedMetaV::NameValue(_, LitKindV::Str(s)) => Some(s),
                    _ => None::<Seq<char>>,
                },
                _ => None,
            },
        (forall|j: int| i <= j < attrs.len() ==> !decides_each(attrs[j])) ==> each_from(attrs, i)
            is None,
    decreases attrs.len() - i,
{
    if i < attrs.len() {
        lemma_each_from_first_decisive(attrs, i + 1);
        assert forall|k: int|
            #![trigger attrs[k]]
            i <= k < attrs.len() && (forall|j: int| i <= j < k ==> !decides_each(attrs[j]))
                && decides_each(attrs[k]) implies each_from(attrs, i) == match attrs[k] {
            AttrMetaV::List(_, n) => match n[0] {
                NestedMetaV::NameValue(_, LitKindV::Str(s)) => Some(s),
                _ => None::<Seq<char>>,
            },
            _ => None,
        } by {
            if k > i {
                assert(!decides_each(attrs[i]));
            }
        }
        if forall|j: int| i <= j < attrs.len() ==> !decides_each(attrs[j]) {
            assert(!decides_each(attrs[i]));
        }
    }
}

/// The setters of a field: the value they take is the `Option`'s argument for
/// an `Option` field and the field's type otherwise; without `each` the setter
/// stores `Some(value)`; with `each` named as the field it stores the value
/// itself; with another `each` name and an element type it also gets a pusher
/// of that name, and without an element type it stores `Some(value)`.
pub proof fn lemma_setter_cases(f: FieldV)
    ensures
        ({
            let arg = match option_arg(f.ty) {
                Some(r) => r,
                None => TypeRef::Field,
            };
            let setter = field_plan(f).setter;
            &&& each_from(f.attrs, 0) is None ==> setter == SetterV::AssignSome(arg)
            &&& each_from(f.attrs, 0) == Some(f.name) ==> setter == SetterV::Assign(arg)
            &&& match each_from(f.attrs, 0) {
                Some(m) => m != f.name ==> setter == match vec_arg(f.ty) {
                    Some(item) => SetterV::EachAndAssign(m, item, arg),
                    None => SetterV::AssignSome(arg),
                },
                None => true,
            }
            &&& field_plan(f).name == f.name
        }),
{
}

} // verus!

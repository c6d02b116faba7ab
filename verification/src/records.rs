//! Builders turning selected declarations into document records: events,
//! error codes, constants, user-defined type definitions and instructions.

use vstd::prelude::*;
use crate::accounts::{
    accounts_match, accounts_model_of, entries_of, find_struct, idl_accounts, lookup_struct,
    resolvable,
};
use crate::extract::derefs;
use crate::idl::{
    clone_strings, docs_model, docs_out, docs_sel, fields_model, strs_model,
    ConstModel, EnumFields, EnumFieldsModel, EnumVariantModel, ErrorCodeModel, EventFieldModel,
    EventModel, ExtractError, FieldModel, IdlConst, IdlEnumVariant, IdlErrorCode, IdlEvent,
    IdlEventField, IdlField, IdlInstruction, IdlType, IdlTypeDefinition, IdlTypeDefinitionTy,
    InstructionModel,
    TypeDefModel, TypeDefTyModel, TypeModel, TypeSmithAccount,
};
use crate::model::{
    first_tag_args, has_tag, has_tag_arg, find_tag, tag_has_arg, ArgDecl, ConstDecl, CrateContext,
    EnumDecl, FieldDecl, FieldsKind, InstructionDecl, ModDecl, StructDecl, Tag, VariantDecl,
    VariantFields,
};
use crate::names::{lower_of, mixed_case_of, to_lowercase_str, to_mixed_case};
use crate::text::str_eq;
use crate::types::{resolve_type_spec, to_idl_type, TypeOutcome};

verus! {

/// The canonical type a rendered expression resolves to; meaningful only
/// where `ty_resolves` holds.
pub open spec fn ty_of(consts: Seq<ConstDecl>, t: Seq<char>) -> TypeModel {
    match resolve_type_spec(consts, t) {
        TypeOutcome::Ty(m) => m,
        _ => TypeModel::Bool,
    }
}

/// Whether a rendered type expression resolves to a canonical type.
pub open spec fn ty_resolves(consts: Seq<ConstDecl>, t: Seq<char>) -> bool {
    resolve_type_spec(consts, t) is Ty
}

/// A declaration is serializable when it carries one of the capability
/// tags, or derives both a serialize and a deserialize capability.
pub open spec fn serializable_tags(tags: Seq<Tag>) -> bool {
    has_tag(tags, "account"@) || has_tag(tags, "associated"@) || has_tag(tags, "event"@)
        || has_tag(tags, "zero_copy"@) || (has_tag_arg(tags, "derive"@, "AnchorSerialize"@)
        && has_tag_arg(tags, "derive"@, "AnchorDeserialize"@))
}

/// Whether a declaration is serializable.
pub fn is_serializable(tags: &Vec<Tag>) -> (r: bool)
    ensures
        r == serializable_tags(tags@),
{
    let a = match find_tag(tags, "account") {
        Some(_) => true,
        None => false,
    };
    let b = match find_tag(tags, "associated") {
        Some(_) => true,
        None => false,
    };
    let c = match find_tag(tags, "event") {
        Some(_) => true,
        None => false,
    };
    let d = match find_tag(tags, "zero_copy") {
        Some(_) => true,
        None => false,
    };
    a || b || c || d || (tag_has_arg(tags, "derive", "AnchorSerialize") && tag_has_arg(
        tags,
        "derive",
        "AnchorDeserialize",
    ))
}

/// The named fields of a struct, where it has any.
pub open spec fn named_fields(s: StructDecl) -> Seq<FieldDecl> {
    match s.fields {
        FieldsKind::Named(v) => v@,
        _ => Seq::empty(),
    }
}

/// The resolved form of one named field.
pub open spec fn field_model_of(
    consts: Seq<ConstDecl>,
    f: FieldDecl,
    no_docs: bool,
    mixed: bool,
) -> FieldModel {
    FieldModel {
        name: if mixed {
            mixed_case_of(f.name@)
        } else {
            f.name@
        },
        docs: docs_sel(no_docs, f.docs),
        ty: ty_of(consts, f.ty@),
        typesmith_derived: false,
    }
}

/// The resolved forms of a named field list.
pub open spec fn field_models_of(
    consts: Seq<ConstDecl>,
    fs: Seq<FieldDecl>,
    no_docs: bool,
    mixed: bool,
) -> Seq<FieldModel> {
    fs.map_values(|f: FieldDecl| field_model_of(consts, f, no_docs, mixed))
}

/// Resolve a named field list; any unresolvable field type is fatal.
pub fn build_fields(ctx: &CrateContext, fs: &Vec<FieldDecl>, no_docs: bool, mixed: bool) -> (r:
    Result<Vec<IdlField>, ExtractError>)
    ensures
        match r {
            Ok(v) => fields_model(v@) == field_models_of(ctx.consts@, fs@, no_docs, mixed)
                && forall|j: int| 0 <= j < fs@.len() ==> ty_resolves(ctx.consts@, fs@[j].ty@),
            Err(e) => (exists|j: int| 0 <= j < fs@.len() && !ty_resolves(ctx.consts@, fs@[j].ty@))
                && (e is AmbiguousConstant || e is UnresolvedType),
        },
{
    let mut out: Vec<IdlField> = Vec::new();
    let mut j: usize = 0;
    while j < fs.len()
        invariant
            j <= fs@.len(),
            fields_model(out@) =~= field_models_of(ctx.consts@, fs@.take(j as int), no_docs, mixed),
            forall|k: int| 0 <= k < j ==> ty_resolves(ctx.consts@, fs@[k].ty@),
        decreases fs@.len() - j,
    {
        let f = &fs[j];
        let ty = match to_idl_type(ctx, &f.ty) {
            Ok(t) => t,
            Err(e) => {
                proof {
                    let gj = j as int;
                    assert(0 <= gj < fs@.len() && !ty_resolves(ctx.consts@, fs@[gj].ty@));
                }
                return Err(e);
            },
        };
        let name = if mixed {
            to_mixed_case(f.name.as_str())
        } else {
            f.name.clone()
        };
        let fld = IdlField { name, docs: docs_out(no_docs, &f.docs), ty, typesmith_derived: false };
        proof {
            assert(fld.model() == field_model_of(ctx.consts@, fs@[j as int], no_docs, mixed));
            assert(fields_model(out@.push(fld)) =~= fields_model(out@).push(fld.model()));
            assert(field_models_of(ctx.consts@, fs@.take(j + 1), no_docs, mixed)
                =~= field_models_of(ctx.consts@, fs@.take(j as int), no_docs, mixed).push(
                field_model_of(ctx.consts@, fs@[j as int], no_docs, mixed),
            ));
        }
        out.push(fld);
        j = j + 1;
    }
    proof {
        assert(fs@.take(fs@.len() as int) =~= fs@);
        assert(fields_model(out@) =~= field_models_of(ctx.consts@, fs@, no_docs, mixed));
    }
    Ok(out)
}

/// The resolved form of one event declaration.
pub open spec fn event_model_of(consts: Seq<ConstDecl>, s: StructDecl) -> EventModel {
    EventModel {
        name: s.name@,
        fields: named_fields(s).map_values(
            |f: FieldDecl|
                EventFieldModel {
                    name: mixed_case_of(f.name@),
                    ty: ty_of(consts, f.ty@),
                    index: f.tags@.len() > 0 && f.tags@[0].name@ == "index"@,
                },
        ),
    }
}

/// Whether an event declaration is well-formed and fully resolvable.
pub open spec fn event_ok(consts: Seq<ConstDecl>, s: StructDecl) -> bool {
    &&& s.fields is Named
    &&& forall|j: int|
        0 <= j < named_fields(s).len() ==> ty_resolves(consts, named_fields(s)[j].ty@)
}

/// Build the event records: named-field layout is required, the first tag
/// of a field marks it indexed.
pub fn build_events(ctx: &CrateContext, evs: &Vec<&StructDecl>, no_docs: bool) -> (r: Result<
    Vec<IdlEvent>,
    ExtractError,
>)
    ensures
        match r {
            Ok(v) => v@.len() == evs@.len() && (forall|i: int|
                #![trigger evs@[i]]
                0 <= i < evs@.len() ==> event_ok(ctx.consts@, *evs@[i])) && (forall|i: int|
                0 <= i < evs@.len() ==> (#[trigger] v@[i]).model() == event_model_of(
                    ctx.consts@,
                    *evs@[i],
                )),
            Err(e) => (exists|i: int| 0 <= i < evs@.len() && !event_ok(ctx.consts@, *evs@[i])) && (
            e is MalformedEventFields || e is AmbiguousConstant || e is UnresolvedType),
        },
{
    let mut out: Vec<IdlEvent> = Vec::new();
    let mut i: usize = 0;
    while i < evs.len()
        invariant
            i <= evs@.len(),
            out@.len() == i,
            forall|k: int| #![trigger evs@[k]] 0 <= k < i ==> event_ok(ctx.consts@, *evs@[k]),
            forall|k: int|
                0 <= k < i ==> (#[trigger] out@[k]).model() == event_model_of(
                    ctx.consts@,
                    *evs@[k],
                ),
        decreases evs@.len() - i,
    {
        let s = evs[i];
        let fs = match &s.fields {
            FieldsKind::Named(fs) => fs,
            _ => {
                proof {
                    let gi = i as int;
                    assert(0 <= gi < evs@.len() && !event_ok(ctx.consts@, *evs@[gi]));
                }
                return Err(ExtractError::MalformedEventFields(s.name.clone()));
            },
        };
        let mut efs: Vec<IdlEventField> = Vec::new();
        let mut j: usize = 0;
        while j < fs.len()
            invariant
                i < evs@.len(),
                evs@[i as int].fields == FieldsKind::Named(*fs),
                j <= fs@.len(),
                forall|k: int| 0 <= k < j ==> ty_resolves(ctx.consts@, fs@[k].ty@),
                efs@.map_values(|f: IdlEventField| f.model()) =~= event_model_of(
                    ctx.consts@,
                    *evs@[i as int],
                ).fields.take(j as int),
            decreases fs@.len() - j,
        {
            let f = &fs[j];
            let ty = match to_idl_type(ctx, &f.ty) {
                Ok(t) => t,
                Err(e) => {
                    proof {
                        let gi = i as int;
                        assert(named_fields(*evs@[gi]) == fs@);
                        assert(!ty_resolves(ctx.consts@, named_fields(*evs@[gi])[j as int].ty@));
                        assert(!event_ok(ctx.consts@, *evs@[gi]));
                    }
                    return Err(e);
                },
            };
            let index = if f.tags.len() > 0 {
                str_eq(f.tags[0].name.as_str(), "index")
            } else {
                false
            };
            let ef = IdlEventField { name: to_mixed_case(f.name.as_str()), ty, index };
            proof {
                let fm = event_model_of(ctx.consts@, *evs@[i as int]).fields;
                assert(named_fields(*evs@[i as int]) == fs@);
                assert(ef.model() == fm[j as int]);
                assert(efs@.push(ef).map_values(|f: IdlEventField| f.model()) =~= efs@.map_values(
                    |f: IdlEventField| f.model(),
                ).push(ef.model()));
                assert(fm.take(j as int).push(fm[j as int]) =~= fm.take(j + 1));
            }
            efs.push(ef);
            j = j + 1;
        }
        let ev = IdlEvent { name: s.name.clone(), fields: efs };
        proof {
            let gi = i as int;
            assert(named_fields(*evs@[gi]) == fs@);
            let fm = event_model_of(ctx.consts@, *evs@[gi]).fields;
            assert(fm.take(fm.len() as int) =~= fm);
            assert(ev.model() == event_model_of(ctx.consts@, *evs@[gi]));
            assert(event_ok(ctx.consts@, *evs@[gi]));
        }
        out.push(ev);
        proof {
            assert(out@[i as int].model() == event_model_of(ctx.consts@, *evs@[i as int]));
            assert(forall|k: int|
                0 <= k < i ==> (#[trigger] out@[k]).model() == event_model_of(
                    ctx.consts@,
                    *evs@[k],
                ));
        }
        i = i + 1;
    }
    Ok(out)
}

/// The fixed base offset added to each error variant's ordinal.
pub open spec fn error_code_offset() -> u32 {
    6000
}

/// The error-code record of one variant.
pub open spec fn error_code_model_of(v: VariantDecl, i: int) -> ErrorCodeModel {
    ErrorCodeModel {
        code: (error_code_offset() + i) as u32,
        name: v.name@,
        msg: match v.msg {
            None => None,
            Some(m) => Some(m@),
        },
    }
}

/// Number the variants of the error enum from the fixed base offset, in
/// declaration order, pairing each code with the variant's message.
pub fn build_error_codes(e: &EnumDecl) -> (r: Vec<IdlErrorCode>)
    requires
        e.variants@.len() + 6000 <= u32::MAX,
    ensures
        r@.len() == e.variants@.len(),
        forall|i: int|
            0 <= i < e.variants@.len() ==> (#[trigger] r@[i]).model() == error_code_model_of(
                e.variants@[i],
                i,
            ),
{
    let mut out: Vec<IdlErrorCode> = Vec::new();
    let mut i: usize = 0;
    while i < e.variants.len()
        invariant
            e.variants@.len() + 6000 <= u32::MAX,
            i <= e.variants@.len(),
            out@.len() == i,
            forall|k: int|
                0 <= k < i ==> (#[trigger] out@[k]).model() == error_code_model_of(
                    e.variants@[k],
                    k,
                ),
        decreases e.variants@.len() - i,
    {
        let v = &e.variants[i];
        let msg = match &v.msg {
            None => None,
            Some(m) => Some(m.clone()),
        };
        out.push(IdlErrorCode { code: 6000 + (i as u32), name: v.name.clone(), msg });
        i = i + 1;
    }
    out
}

/// The constant record of one exported constant.
pub open spec fn const_model_of(consts: Seq<ConstDecl>, c: ConstDecl) -> ConstModel {
    ConstModel { name: c.name@, ty: ty_of(consts, c.ty@), value: c.value@ }
}

/// Build the exported constants: canonical type and unevaluated value text.
pub fn build_consts(ctx: &CrateContext, cs: &Vec<&ConstDecl>) -> (r: Result<
    Vec<IdlConst>,
    ExtractError,
>)
    ensures
        match r {
            Ok(v) => v@.len() == cs@.len() && forall|i: int|
                0 <= i < cs@.len() ==> ty_resolves(ctx.consts@, cs@[i].ty@) && (
                #[trigger] v@[i]).model() == const_model_of(ctx.consts@, *cs@[i]),
            Err(e) => (exists|i: int| 0 <= i < cs@.len() && !ty_resolves(ctx.consts@, cs@[i].ty@))
                && (e is AmbiguousConstant || e is UnresolvedType),
        },
{
    let mut out: Vec<IdlConst> = Vec::new();
    let mut i: usize = 0;
    while i < cs.len()
        invariant
            i <= cs@.len(),
            out@.len() == i,
            forall|k: int|
                0 <= k < i ==> ty_resolves(ctx.consts@, cs@[k].ty@) && (#[trigger] out@[k]).model()
                    == const_model_of(ctx.consts@, *cs@[k]),
        decreases cs@.len() - i,
    {
        let c = cs[i];
        let ty = match to_idl_type(ctx, &c.ty) {
            Ok(t) => t,
            Err(e) => {
                proof {
                    let gi = i as int;
                    assert(0 <= gi < cs@.len() && !ty_resolves(ctx.consts@, cs@[gi].ty@));
                }
                return Err(e);
            },
        };
        out.push(IdlConst { name: c.name.clone(), ty, value: c.value.clone() });
        i = i + 1;
    }
    Ok(out)
}


/// Whether some argument token is empty.
fn has_empty_arg(args: &Vec<String>) -> (r: bool)
    ensures
        r == exists|j: int| 0 <= j < args@.len() && args@[j]@.len() == 0,
{
    let mut j: usize = 0;
    while j < args.len()
        invariant
            j <= args@.len(),
            forall|k: int| 0 <= k < j ==> args@[k]@.len() != 0,
        decreases args@.len() - j,
    {
        if args[j].as_str().is_empty() {
            proof {
                let gj = j as int;
                assert(0 <= gj < args@.len() && args@[gj]@.len() == 0);
            }
            return true;
        }
        j = j + 1;
    }
    false
}

/// The seed-type tag's arguments, if the tag is present.
pub open spec fn seeds_args(tags: Seq<Tag>) -> Option<Seq<Seq<char>>> {
    first_tag_args(tags, "seeds"@)
}

/// A present seed-type tag with an empty argument token is malformed.
pub open spec fn seeds_malformed(tags: Seq<Tag>) -> bool {
    match first_tag_args(tags, "seeds"@) {
        None => false,
        Some(args) => exists|j: int| 0 <= j < args.len() && args[j].len() == 0,
    }
}

/// A struct enters the output when it is serializable, public and has
/// named fields.
pub open spec fn struct_included(s: StructDecl) -> bool {
    serializable_tags(s.tags@) && s.is_public && s.fields is Named
}

/// Whether a struct carries the unpackable capability.
pub open spec fn is_unpackable(s: StructDecl) -> bool {
    has_tag_arg(s.tags@, "derive"@, "Unpackable"@)
}

/// The type definition a struct yields.
pub open spec fn struct_def_model(consts: Seq<ConstDecl>, s: StructDecl, no_docs: bool)
    -> TypeDefModel {
    TypeDefModel {
        name: s.name@,
        docs: docs_sel(no_docs, s.docs),
        ty: TypeDefTyModel::Struct {
            fields: field_models_of(consts, named_fields(s), no_docs, true),
        },
        typesmith: first_tag_args(s.tags@, "seeds"@),
    }
}

/// A serializable struct is fatal when its seed tag is malformed, it is a
/// public unit struct, or a public named field fails to resolve.
pub open spec fn struct_fails(consts: Seq<ConstDecl>, s: StructDecl) -> bool {
    serializable_tags(s.tags@) && (seeds_malformed(s.tags@) || (s.is_public && (s.fields is Unit
        || (s.fields is Named && exists|j: int|
            0 <= j < named_fields(s).len() && !ty_resolves(consts, named_fields(s)[j].ty@)))))
}

/// Replacement docs of an unpacked duplicate, cross-referencing its source.
pub open spec fn unpacked_docs(name: Seq<char>) -> Seq<Seq<char>> {
    seq!["Unpacked version of [`"@ + name + "`]"@]
}

/// The synthetic duplicate an unpackable struct yields.
pub open spec fn unpacked_def_model(consts: Seq<ConstDecl>, s: StructDecl, no_docs: bool)
    -> TypeDefModel {
    TypeDefModel {
        name: s.name@ + "Unpacked"@,
        docs: Some(unpacked_docs(s.name@)),
        ty: TypeDefTyModel::Struct {
            fields: field_models_of(consts, named_fields(s), no_docs, true),
        },
        typesmith: first_tag_args(s.tags@, "seeds"@),
    }
}

/// The definitions the structs yield, in declaration order.
pub open spec fn struct_defs_sel(consts: Seq<ConstDecl>, ss: Seq<StructDecl>, no_docs: bool)
    -> Seq<TypeDefModel>
    decreases ss.len(),
{
    if ss.len() == 0 {
        Seq::empty()
    } else if struct_included(ss[0]) {
        seq![struct_def_model(consts, ss[0], no_docs)] + struct_defs_sel(consts, ss.skip(1), no_docs)
    } else {
        struct_defs_sel(consts, ss.skip(1), no_docs)
    }
}

/// The unpacked duplicates the structs yield, in declaration order.
pub open spec fn unpacked_defs_sel(consts: Seq<ConstDecl>, ss: Seq<StructDecl>, no_docs: bool)
    -> Seq<TypeDefModel>
    decreases ss.len(),
{
    if ss.len() == 0 {
        Seq::empty()
    } else if struct_included(ss[0]) && is_unpackable(ss[0]) {
        seq![unpacked_def_model(consts, ss[0], no_docs)] + unpacked_defs_sel(
            consts,
            ss.skip(1),
            no_docs,
        )
    } else {
        unpacked_defs_sel(consts, ss.skip(1), no_docs)
    }
}

/// The resolved form of one enum variant.
pub open spec fn variant_model_of(consts: Seq<ConstDecl>, v: VariantDecl, no_docs: bool)
    -> EnumVariantModel {
    EnumVariantModel {
        name: v.name@,
        fields: match v.fields {
            VariantFields::Unit => None,
            VariantFields::Tuple(ts) => Some(
                EnumFieldsModel::Tuple(ts@.map_values(|t: String| ty_of(consts, t@))),
            ),
            VariantFields::Named(fs) => Some(
                EnumFieldsModel::Named(field_models_of(consts, fs@, no_docs, false)),
            ),
        },
    }
}

/// Whether all of a variant's payload types resolve.
pub open spec fn variant_resolves(consts: Seq<ConstDecl>, v: VariantDecl) -> bool {
    match v.fields {
        VariantFields::Unit => true,
        VariantFields::Tuple(ts) => forall|j: int|
            0 <= j < ts@.len() ==> ty_resolves(consts, (#[trigger] ts@[j])@),
        VariantFields::Named(fs) => forall|j: int|
            0 <= j < fs@.len() ==> ty_resolves(consts, (#[trigger] fs@[j]).ty@),
    }
}

/// An enum enters the output when it is serializable and public.
pub open spec fn enum_included(e: EnumDecl) -> bool {
    serializable_tags(e.tags@) && e.is_public
}

/// An included enum is fatal when a payload type fails to resolve.
pub open spec fn enum_fails(consts: Seq<ConstDecl>, e: EnumDecl) -> bool {
    enum_included(e) && exists|i: int|
        0 <= i < e.variants@.len() && !variant_resolves(consts, #[trigger] e.variants@[i])
}

/// The type definition an enum yields.
pub open spec fn enum_def_model(consts: Seq<ConstDecl>, e: EnumDecl, no_docs: bool)
    -> TypeDefModel {
    TypeDefModel {
        name: e.name@,
        docs: docs_sel(no_docs, e.docs),
        ty: TypeDefTyModel::Enum {
            variants: e.variants@.map_values(|v: VariantDecl| variant_model_of(consts, v, no_docs)),
        },
        typesmith: None,
    }
}

/// The definitions the enums yield, in declaration order.
pub open spec fn enum_defs_sel(consts: Seq<ConstDecl>, es: Seq<EnumDecl>, no_docs: bool)
    -> Seq<TypeDefModel>
    decreases es.len(),
{
    if es.len() == 0 {
        Seq::empty()
    } else if enum_included(es[0]) {
        seq![enum_def_model(consts, es[0], no_docs)] + enum_defs_sel(consts, es.skip(1), no_docs)
    } else {
        enum_defs_sel(consts, es.skip(1), no_docs)
    }
}

/// The models of a definition list.
pub open spec fn defs_models(v: Seq<IdlTypeDefinition>) -> Seq<TypeDefModel> {
    v.map_values(|d: IdlTypeDefinition| d.model())
}

/// Resolve one list of rendered payload types.
fn build_tys(ctx: &CrateContext, ts: &Vec<String>) -> (r: Result<Vec<IdlType>, ExtractError>)
    ensures
        match r {
            Ok(v) => v@.map_values(|t: IdlType| t.model()) == ts@.map_values(
                |t: String| ty_of(ctx.consts@, t@),
            ) && forall|j: int| 0 <= j < ts@.len() ==> ty_resolves(ctx.consts@, (#[trigger] ts@[j])@),
            Err(e) => (exists|j: int|
                0 <= j < ts@.len() && !ty_resolves(ctx.consts@, (#[trigger] ts@[j])@)) && (
            e is AmbiguousConstant || e is UnresolvedType),
        },
{
    let mut out: Vec<IdlType> = Vec::new();
    let mut j: usize = 0;
    while j < ts.len()
        invariant
            j <= ts@.len(),
            out@.map_values(|t: IdlType| t.model()) =~= ts@.take(j as int).map_values(
                |t: String| ty_of(ctx.consts@, t@),
            ),
            forall|k: int| 0 <= k < j ==> ty_resolves(ctx.consts@, (#[trigger] ts@[k])@),
        decreases ts@.len() - j,
    {
        let ty = match to_idl_type(ctx, &ts[j]) {
            Ok(t) => t,
            Err(e) => {
                proof {
                    let gj = j as int;
                    assert(0 <= gj < ts@.len() && !ty_resolves(ctx.consts@, ts@[gj]@));
                }
                return Err(e);
            },
        };
        proof {
            assert(out@.push(ty).map_values(|t: IdlType| t.model()) =~= out@.map_values(
                |t: IdlType| t.model(),
            ).push(ty.model()));
            assert(ts@.take(j + 1).map_values(|t: String| ty_of(ctx.consts@, t@)) =~= ts@.take(
                j as int,
            ).map_values(|t: String| ty_of(ctx.consts@, t@)).push(ty_of(ctx.consts@, ts@[j as int]@)));
        }
        out.push(ty);
        j = j + 1;
    }
    proof {
        assert(ts@.take(ts@.len() as int) =~= ts@);
        assert(out@.map_values(|t: IdlType| t.model()) =~= ts@.map_values(
            |t: String| ty_of(ctx.consts@, t@),
        ));
    }
    Ok(out)
}


/// Extract all user-defined type definitions: the included structs, then
/// the included enums, then the unpacked duplicates, in declaration order.
pub fn parse_ty_defs(ctx: &CrateContext, no_docs: bool) -> (r: Result<
    Vec<IdlTypeDefinition>,
    ExtractError,
>)
    ensures
        match r {
            Ok(v) => defs_models(v@) == struct_defs_sel(ctx.consts@, ctx.structs@, no_docs)
                + enum_defs_sel(ctx.consts@, ctx.enums@, no_docs) + unpacked_defs_sel(
                ctx.consts@,
                ctx.structs@,
                no_docs,
            ) && (forall|k: int|
                0 <= k < ctx.structs@.len() ==> !struct_fails(
                    ctx.consts@,
                    #[trigger] ctx.structs@[k],
                )) && (forall|k: int|
                0 <= k < ctx.enums@.len() ==> !enum_fails(ctx.consts@, #[trigger] ctx.enums@[k])),
            Err(e) => match e {
                ExtractError::MalformedSeedTag(_) | ExtractError::EmptyStruct(_) => exists|k: int|
                    0 <= k < ctx.structs@.len() && struct_fails(
                        ctx.consts@,
                        #[trigger] ctx.structs@[k],
                    ),
                ExtractError::AmbiguousConstant(_) | ExtractError::UnresolvedType(_) => (exists|
                    k: int,
                |
                    0 <= k < ctx.structs@.len() && struct_fails(
                        ctx.consts@,
                        #[trigger] ctx.structs@[k],
                    )) || (exists|k: int|
                    0 <= k < ctx.enums@.len() && enum_fails(ctx.consts@, #[trigger] ctx.enums@[k])),
                _ => false,
            },
        },
{
    let mut out: Vec<IdlTypeDefinition> = Vec::new();
    let mut unpacked: Vec<IdlTypeDefinition> = Vec::new();
    let mut i: usize = 0;
    proof {
        assert(ctx.structs@.skip(0) =~= ctx.structs@);
        assert(defs_models(out@) + struct_defs_sel(ctx.consts@, ctx.structs@, no_docs)
            =~= struct_defs_sel(ctx.consts@, ctx.structs@, no_docs));
        assert(defs_models(unpacked@) + unpacked_defs_sel(ctx.consts@, ctx.structs@, no_docs)
            =~= unpacked_defs_sel(ctx.consts@, ctx.structs@, no_docs));
    }
    while i < ctx.structs.len()
        invariant
            i <= ctx.structs@.len(),
            struct_defs_sel(ctx.consts@, ctx.structs@, no_docs) == defs_models(out@)
                + struct_defs_sel(ctx.consts@, ctx.structs@.skip(i as int), no_docs),
            unpacked_defs_sel(ctx.consts@, ctx.structs@, no_docs) == defs_models(unpacked@)
                + unpacked_defs_sel(ctx.consts@, ctx.structs@.skip(i as int), no_docs),
            forall|k: int|
                0 <= k < i ==> !struct_fails(ctx.consts@, #[trigger] ctx.structs@[k]),
        decreases ctx.structs@.len() - i,
    {
        proof {
            assert(ctx.structs@.skip(i as int)[0] == ctx.structs@[i as int]);
            assert(ctx.structs@.skip(i as int).skip(1) =~= ctx.structs@.skip(i as int + 1));
        }
        let ghost old_out = out@;
        let ghost old_un = unpacked@;
        let s = &ctx.structs[i];
        if is_serializable(&s.tags) {
            let typesmith: Option<TypeSmithAccount> = match find_tag(&s.tags, "seeds") {
                None => None,
                Some(ti) => {
                    let args = &s.tags[ti].args;
                    if has_empty_arg(args) {
                        proof {
                            let gi = i as int;
                            let margs = first_tag_args(ctx.structs@[gi].tags@, "seeds"@);
                            assert(margs == Some(args@.map_values(|x: String| x@)));
                            let gj = choose|j: int| 0 <= j < args@.len() && args@[j]@.len() == 0;
                            assert(args@.map_values(|x: String| x@)[gj].len() == 0);
                            match first_tag_args(ctx.structs@[gi].tags@, "seeds"@) {
                                Some(pargs) => {
                                    assert(pargs == args@.map_values(|x: String| x@));
                                    assert(0 <= gj < pargs.len() && pargs[gj].len() == 0);
                                },
                                None => {
                                    assert(false);
                                },
                            }
                            assert(seeds_malformed(ctx.structs@[gi].tags@));
                            assert(struct_fails(ctx.consts@, ctx.structs@[gi]));
                        }
                        return Err(ExtractError::MalformedSeedTag(s.name.clone()));
                    }
                    Some(TypeSmithAccount { seeds: clone_strings(args) })
                },
            };
            proof {
                assert(match typesmith {
                    None => first_tag_args(ctx.structs@[i as int].tags@, "seeds"@) is None,
                    Some(t) => first_tag_args(ctx.structs@[i as int].tags@, "seeds"@) == Some(
                        strs_model(t.seeds),
                    ),
                });
                assert(!seeds_malformed(ctx.structs@[i as int].tags@));
            }
            if s.is_public {
                match &s.fields {
                    FieldsKind::Named(fs) => {
                        let fields = match build_fields(ctx, fs, no_docs, true) {
                            Ok(v) => v,
                            Err(e) => {
                                proof {
                                    let gi = i as int;
                                    assert(named_fields(ctx.structs@[gi]) == fs@);
                                    assert(struct_fails(ctx.consts@, ctx.structs@[gi]));
                                }
                                return Err(e);
                            },
                        };
                        if tag_has_arg(&s.tags, "derive", "Unpackable") {
                            let fields2 = match build_fields(ctx, fs, no_docs, true) {
                                Ok(v) => v,
                                Err(e) => {
                                    proof {
                                        assert(false);
                                    }
                                    return Err(e);
                                },
                            };
                            let typesmith2: Option<TypeSmithAccount> = match find_tag(
                                &s.tags,
                                "seeds",
                            ) {
                                None => None,
                                Some(ti) => Some(
                                    TypeSmithAccount { seeds: clone_strings(&s.tags[ti].args) },
                                ),
                            };
                            let mut n2 = s.name.clone();
                            n2.append("Unpacked");
                            let d1 = String::from_str("Unpacked version of [`").concat(
                                s.name.as_str(),
                            ).concat("`]");
                            let mut dv: Vec<String> = Vec::new();
                            dv.push(d1);
                            let dup = IdlTypeDefinition {
                                name: n2,
                                docs: Some(dv),
                                ty: IdlTypeDefinitionTy::Struct { fields: fields2 },
                                typesmith: typesmith2,
                            };
                            proof {
                                let gi = i as int;
                                assert(docs_model(dup.docs) matches Some(d) && d =~= unpacked_docs(
                                    ctx.structs@[gi].name@,
                                ));
                                assert(dup.model() == unpacked_def_model(
                                    ctx.consts@,
                                    ctx.structs@[gi],
                                    no_docs,
                                ));
                                assert(defs_models(old_un.push(dup)) =~= defs_models(old_un).push(
                                    dup.model(),
                                ));
                            }
                            unpacked.push(dup);
                        }
                        let def = IdlTypeDefinition {
                            name: s.name.clone(),
                            docs: docs_out(no_docs, &s.docs),
                            ty: IdlTypeDefinitionTy::Struct { fields },
                            typesmith,
                        };
                        proof {
                            let gi = i as int;
                            assert(def.model() == struct_def_model(
                                ctx.consts@,
                                ctx.structs@[gi],
                                no_docs,
                            ));
                            assert(defs_models(old_out.push(def)) =~= defs_models(old_out).push(
                                def.model(),
                            ));
                        }
                        out.push(def);
                    },
                    FieldsKind::Positional(_) => {
                    },
                    FieldsKind::Unit => {
                        proof {
                            let gi = i as int;
                            assert(struct_fails(ctx.consts@, ctx.structs@[gi]));
                        }
                        return Err(ExtractError::EmptyStruct(s.name.clone()));
                    },
                }
            }
        }
        i = i + 1;
    }
    proof {
        assert(ctx.structs@.skip(ctx.structs@.len() as int) =~= Seq::<StructDecl>::empty());
        assert(defs_models(out@) + Seq::<TypeDefModel>::empty() =~= defs_models(out@));
        assert(defs_models(unpacked@) + Seq::<TypeDefModel>::empty() =~= defs_models(unpacked@));
        assert(ctx.enums@.skip(0) =~= ctx.enums@);
    }
    let ghost structs_part = defs_models(out@);
    let mut j: usize = 0;
    while j < ctx.enums.len()
        invariant
            j <= ctx.enums@.len(),
            structs_part == struct_defs_sel(ctx.consts@, ctx.structs@, no_docs),
            unpacked_defs_sel(ctx.consts@, ctx.structs@, no_docs) == defs_models(unpacked@),
            forall|k: int|
                0 <= k < ctx.structs@.len() ==> !struct_fails(
                    ctx.consts@,
                    #[trigger] ctx.structs@[k],
                ),
            structs_part + enum_defs_sel(ctx.consts@, ctx.enums@, no_docs) == defs_models(out@)
                + enum_defs_sel(ctx.consts@, ctx.enums@.skip(j as int), no_docs),
            forall|k: int| 0 <= k < j ==> !enum_fails(ctx.consts@, #[trigger] ctx.enums@[k]),
        decreases ctx.enums@.len() - j,
    {
        proof {
            assert(ctx.enums@.skip(j as int)[0] == ctx.enums@[j as int]);
            assert(ctx.enums@.skip(j as int).skip(1) =~= ctx.enums@.skip(j as int + 1));
        }
        let ghost old_out = out@;
        let e = &ctx.enums[j];
        if is_serializable(&e.tags) && e.is_public {
            let mut vars: Vec<IdlEnumVariant> = Vec::new();
            let mut k: usize = 0;
            while k < e.variants.len()
                invariant
                    j < ctx.enums@.len(),
                    *e == ctx.enums@[j as int],
                    enum_included(ctx.enums@[j as int]),
                    k <= e.variants@.len(),
                    vars@.map_values(|v: IdlEnumVariant| v.model()) =~= e.variants@.take(
                        k as int,
                    ).map_values(|v: VariantDecl| variant_model_of(ctx.consts@, v, no_docs)),
                    forall|m: int|
                        0 <= m < k ==> variant_resolves(ctx.consts@, #[trigger] e.variants@[m]),
                decreases e.variants@.len() - k,
            {
                let v = &e.variants[k];
                let fields: Option<EnumFields> = match &v.fields {
                    VariantFields::Unit => None,
                    VariantFields::Tuple(ts) => {
                        match build_tys(ctx, ts) {
                            Ok(tv) => Some(EnumFields::Tuple(tv)),
                            Err(er) => {
                                proof {
                                    let gj = j as int;
                                    assert(!variant_resolves(ctx.consts@, e.variants@[k as int]));
                                    assert(enum_fails(ctx.consts@, ctx.enums@[gj]));
                                }
                                return Err(er);
                            },
                        }
                    },
                    VariantFields::Named(fs) => {
                        match build_fields(ctx, fs, no_docs, false) {
                            Ok(fv) => Some(EnumFields::Named(fv)),
                            Err(er) => {
                                proof {
                                    let gj = j as int;
                                    assert(!variant_resolves(ctx.consts@, e.variants@[k as int]));
                                    assert(enum_fails(ctx.consts@, ctx.enums@[gj]));
                                }
                                return Err(er);
                            },
                        }
                    },
                };
                let ev = IdlEnumVariant { name: v.name.clone(), fields };
                proof {
                    let vm = variant_model_of(ctx.consts@, e.variants@[k as int], no_docs);
                    assert(ev.model() == vm);
                    assert(vars@.push(ev).map_values(|v: IdlEnumVariant| v.model()) =~= vars@
                        .map_values(|v: IdlEnumVariant| v.model()).push(ev.model()));
                    assert(e.variants@.take(k + 1).map_values(
                        |v: VariantDecl| variant_model_of(ctx.consts@, v, no_docs),
                    ) =~= e.variants@.take(k as int).map_values(
                        |v: VariantDecl| variant_model_of(ctx.consts@, v, no_docs),
                    ).push(vm));
                    assert(variant_resolves(ctx.consts@, e.variants@[k as int]));
                }
                vars.push(ev);
                k = k + 1;
            }
            let def = IdlTypeDefinition {
                name: e.name.clone(),
                docs: docs_out(no_docs, &e.docs),
                ty: IdlTypeDefinitionTy::Enum { variants: vars },
                typesmith: None,
            };
            proof {
                let gj = j as int;
                assert(e.variants@.take(e.variants@.len() as int) =~= e.variants@);
                assert(def.model() == enum_def_model(ctx.consts@, ctx.enums@[gj], no_docs)) by {
                    assert(def.model().ty matches TypeDefTyModel::Enum { variants: vs } && vs
                        =~= e.variants@.map_values(
                        |v: VariantDecl| variant_model_of(ctx.consts@, v, no_docs),
                    ));
                }
                assert(defs_models(old_out.push(def)) =~= defs_models(old_out).push(def.model()));
                assert(!enum_fails(ctx.consts@, ctx.enums@[gj]));
            }
            out.push(def);
        }
        j = j + 1;
    }
    proof {
        assert(ctx.enums@.skip(ctx.enums@.len() as int) =~= Seq::<EnumDecl>::empty());
        assert(defs_models(out@) + Seq::<TypeDefModel>::empty() =~= defs_models(out@));
    }
    let ghost before_append = defs_models(out@);
    out.append(&mut unpacked);
    proof {
        assert(defs_models(out@) =~= before_append + unpacked_defs_sel(
            ctx.consts@,
            ctx.structs@,
            no_docs,
        ));
    }
    Ok(out)
}


/// The derived-argument tag's tokens, if the tag is present.
pub open spec fn derived_args_of(tags: Seq<Tag>) -> Option<Seq<Seq<char>>> {
    first_tag_args(tags, "derived_args"@)
}

/// A present derived-argument tag with an empty token is malformed.
pub open spec fn derived_malformed(tags: Seq<Tag>) -> bool {
    match first_tag_args(tags, "derived_args"@) {
        None => false,
        Some(args) => exists|j: int| 0 <= j < args.len() && args[j].len() == 0,
    }
}

/// An argument is externally derived when its lowercased name stands in
/// the instruction's derived-argument list, compared case-insensitively.
pub open spec fn arg_derived(dargs: Option<Seq<Seq<char>>>, name: Seq<char>) -> bool {
    match dargs {
        None => false,
        Some(a) => exists|k: int| 0 <= k < a.len() && lower_of(#[trigger] a[k]) == lower_of(name),
    }
}

/// The resolved form of one instruction argument.
pub open spec fn arg_model_of(
    consts: Seq<ConstDecl>,
    a: ArgDecl,
    no_docs: bool,
    dargs: Option<Seq<Seq<char>>>,
) -> FieldModel {
    FieldModel {
        name: mixed_case_of(a.name@),
        docs: docs_sel(no_docs, a.docs),
        ty: ty_of(consts, a.ty@),
        typesmith_derived: arg_derived(dargs, a.name@),
    }
}

/// The resolved forms of an argument list.
pub open spec fn args_models_of(
    consts: Seq<ConstDecl>,
    args: Seq<ArgDecl>,
    no_docs: bool,
    dargs: Option<Seq<Seq<char>>>,
) -> Seq<FieldModel> {
    args.map_values(|a: ArgDecl| arg_model_of(consts, a, no_docs, dargs))
}

/// The resolved instruction record matches its declaration: mixed-case
/// name, resolved arguments with derived markers, resolved account tree,
/// and the return type (a unit return stands for no return value).
pub open spec fn instr_matches(
    consts: Seq<ConstDecl>,
    global: Seq<StructDecl>,
    im: InstructionModel,
    ix: InstructionDecl,
    seeds_feature: bool,
    no_docs: bool,
) -> bool {
    &&& !derived_malformed(ix.tags@)
    &&& im.name == mixed_case_of(ix.name@)
    &&& im.docs == docs_sel(no_docs, ix.docs)
    &&& im.args == args_models_of(consts, ix.args@, no_docs, derived_args_of(ix.tags@))
    &&& forall|j: int|
        0 <= j < ix.args@.len() ==> ty_resolves(consts, (#[trigger] ix.args@[j]).ty@)
    &&& (if ix.returns@ == "()"@ {
        im.returns is None
    } else {
        ty_resolves(consts, ix.returns@) && im.returns == Some(ty_of(consts, ix.returns@))
    })
    &&& match find_struct(global, ix.accounts_name@) {
        Some(st) => resolvable(entries_of(st), global, global.len()) && accounts_match(
            im.accounts,
            entries_of(st),
            global,
            seeds_feature,
            no_docs,
            global.len(),
        ),
        None => false,
    }
}

/// An instruction declaration that aborts extraction: a malformed
/// derived-argument tag, an unresolvable argument or return type, or an
/// account association that is absent or does not resolve.
pub open spec fn instr_fails(
    consts: Seq<ConstDecl>,
    global: Seq<StructDecl>,
    ix: InstructionDecl,
) -> bool {
    ||| derived_malformed(ix.tags@)
    ||| exists|j: int| 0 <= j < ix.args@.len() && !ty_resolves(consts, (#[trigger] ix.args@[j]).ty@)
    ||| (ix.returns@ != "()"@ && !ty_resolves(consts, ix.returns@))
    ||| match find_struct(global, ix.accounts_name@) {
        None => true,
        Some(st) => !resolvable(entries_of(st), global, global.len()),
    }
}

/// The instruction record a well-formed declaration yields; meaningful
/// wherever the declaration does not fail.
pub open spec fn instr_model_of(
    consts: Seq<ConstDecl>,
    global: Seq<StructDecl>,
    ix: InstructionDecl,
    seeds_feature: bool,
    no_docs: bool,
) -> InstructionModel {
    InstructionModel {
        name: mixed_case_of(ix.name@),
        docs: docs_sel(no_docs, ix.docs),
        accounts: match find_struct(global, ix.accounts_name@) {
            Some(st) => accounts_model_of(entries_of(st), global, seeds_feature, no_docs, global.len()),
            None => Seq::empty(),
        },
        args: args_models_of(consts, ix.args@, no_docs, derived_args_of(ix.tags@)),
        returns: if ix.returns@ == "()"@ {
            None
        } else {
            Some(ty_of(consts, ix.returns@))
        },
    }
}

/// A matching instruction record is exactly the declaration's resolved one.
pub proof fn lemma_instr_matches_model(
    consts: Seq<ConstDecl>,
    global: Seq<StructDecl>,
    im: InstructionModel,
    ix: InstructionDecl,
    seeds_feature: bool,
    no_docs: bool,
)
    requires
        instr_matches(consts, global, im, ix, seeds_feature, no_docs),
    ensures
        im == instr_model_of(consts, global, ix, seeds_feature, no_docs),
{
    match find_struct(global, ix.accounts_name@) {
        Some(st) => {
            crate::accounts::lemma_accounts_match_is_model(
                im.accounts,
                entries_of(st),
                global,
                seeds_feature,
                no_docs,
                global.len(),
            );
        },
        None => {
            assert(false);
        },
    }
}

/// Resolve every instruction of the program module: name and arguments in
/// mixed case, the associated account tree, and the return type, with a
/// unit return standing for no return value.
pub fn build_instructions<'a>(
    ctx: &CrateContext,
    m: &ModDecl,
    global: &Vec<&'a StructDecl>,
    seeds_feature: bool,
    no_docs: bool,
) -> (r: Result<Vec<IdlInstruction>, ExtractError>)
    requires
        forall|k: int| 0 <= k < global@.len() ==> global@[k].entries is Some,
    ensures
        match r {
            Ok(v) => v@.len() == m.instructions@.len() && forall|i: int|
                #![trigger v@[i]]
                0 <= i < m.instructions@.len() ==> instr_matches(
                    ctx.consts@,
                    derefs(global@),
                    v@[i].model(),
                    m.instructions@[i],
                    seeds_feature,
                    no_docs,
                ),
            Err(e) => (exists|k: int|
                0 <= k < m.instructions@.len() && instr_fails(
                    ctx.consts@,
                    derefs(global@),
                    #[trigger] m.instructions@[k],
                )) && match e {
                ExtractError::MalformedDerivedArgsTag(n) => exists|k: int|
                    0 <= k < m.instructions@.len() && derived_malformed(
                        (#[trigger] m.instructions@[k]).tags@,
                    ) && n@ == mixed_case_of(m.instructions@[k].name@),
                ExtractError::AmbiguousConstant(_) | ExtractError::UnresolvedType(_) => true,
                ExtractError::UnresolvedAccountsReference(_) | ExtractError::AccountsCycle(
                    _,
                ) => true,
                _ => false,
            },
        },
{
    let mut out: Vec<IdlInstruction> = Vec::new();
    let mut i: usize = 0;
    while i < m.instructions.len()
        invariant
            forall|k: int| 0 <= k < global@.len() ==> global@[k].entries is Some,
            i <= m.instructions@.len(),
            out@.len() == i,
            forall|k: int|
                #![trigger out@[k]]
                0 <= k < i ==> instr_matches(
                    ctx.consts@,
                    derefs(global@),
                    out@[k].model(),
                    m.instructions@[k],
                    seeds_feature,
                    no_docs,
                ),
        decreases m.instructions@.len() - i,
    {
        let ix = &m.instructions[i];
        let ghost sdargs = derived_args_of(ix.tags@);
        let dargs_opt: Option<Vec<String>> = match find_tag(&ix.tags, "derived_args") {
            None => None,
            Some(ti) => {
                let targs = &ix.tags[ti].args;
                if has_empty_arg(targs) {
                    proof {
                        let gi = i as int;
                        let gj = choose|j: int| 0 <= j < targs@.len() && targs@[j]@.len() == 0;
                        assert(targs@.map_values(|x: String| x@)[gj].len() == 0);
                        match first_tag_args(m.instructions@[gi].tags@, "derived_args"@) {
                            Some(pargs) => {
                                assert(pargs == targs@.map_values(|x: String| x@));
                                assert(0 <= gj < pargs.len() && pargs[gj].len() == 0);
                            },
                            None => {
                                assert(false);
                            },
                        }
                        assert(derived_malformed(m.instructions@[gi].tags@));
                        assert(instr_fails(ctx.consts@, derefs(global@), m.instructions@[gi]));
                    }
                    return Err(ExtractError::MalformedDerivedArgsTag(
                        to_mixed_case(ix.name.as_str()),
                    ));
                }
                let mut dl: Vec<String> = Vec::new();
                let mut k: usize = 0;
                while k < targs.len()
                    invariant
                        k <= targs@.len(),
                        dl@.len() == k,
                        forall|n: int|
                            0 <= n < k ==> (#[trigger] dl@[n])@ == lower_of(targs@[n]@),
                    decreases targs@.len() - k,
                {
                    dl.push(to_lowercase_str(targs[k].as_str()));
                    k = k + 1;
                }
                Some(dl)
            },
        };
        proof {
            match &dargs_opt {
                None => {
                    assert(sdargs is None);
                },
                Some(dl) => {
                    assert(sdargs matches Some(a) && dl@.len() == a.len() && forall|n: int|
                        0 <= n < a.len() ==> (#[trigger] dl@[n])@ == lower_of(a[n]));
                },
            }
        }
        let mut args: Vec<IdlField> = Vec::new();
        let mut j: usize = 0;
        while j < ix.args.len()
            invariant
                i < m.instructions@.len(),
                *ix == m.instructions@[i as int],
                match dargs_opt {
                    None => sdargs is None,
                    Some(dl) => sdargs matches Some(a) && dl@.len() == a.len() && forall|n: int|
                        0 <= n < a.len() ==> (#[trigger] dl@[n])@ == lower_of(a[n]),
                },
                sdargs == derived_args_of(m.instructions@[i as int].tags@),
                j <= ix.args@.len(),
                fields_model(args@) =~= args_models_of(
                    ctx.consts@,
                    ix.args@.take(j as int),
                    no_docs,
                    sdargs,
                ),
                forall|n: int|
                    0 <= n < j ==> ty_resolves(ctx.consts@, (#[trigger] ix.args@[n]).ty@),
            decreases ix.args@.len() - j,
        {
            let a = &ix.args[j];
            let ty = match to_idl_type(ctx, &a.ty) {
                Ok(t) => t,
                Err(e) => {
                    proof {
                        let gi = i as int;
                        let gj = j as int;
                        assert(!ty_resolves(ctx.consts@, m.instructions@[gi].args@[gj].ty@));
                        assert(instr_fails(ctx.consts@, derefs(global@), m.instructions@[gi]));
                    }
                    return Err(e);
                },
            };
            let derived: bool = match &dargs_opt {
                None => false,
                Some(dl) => {
                    let ln = to_lowercase_str(a.name.as_str());
                    let mut found = false;
                    let mut n: usize = 0;
                    while n < dl.len()
                        invariant
                            found ==> exists|q: int|
                                0 <= q < dl@.len() && (#[trigger] dl@[q])@ == lower_of(
                                    a.name@,
                                ),
                            !found ==> forall|q: int|
                                0 <= q < n ==> (#[trigger] dl@[q])@ != lower_of(a.name@),
                            n <= dl@.len(),
                            ln@ == lower_of(a.name@),
                        decreases dl@.len() - n,
                    {
                        if str_eq(dl[n].as_str(), ln.as_str()) {
                            proof {
                                let gq = n as int;
                                assert(0 <= gq < dl@.len() && dl@[gq]@ == lower_of(a.name@));
                            }
                            found = true;
                        }
                        n = n + 1;
                    }
                    found
                },
            };
            proof {
                assert(derived == arg_derived(sdargs, a.name@)) by {
                    match dargs_opt {
                        None => {},
                        Some(dl) => {
                            let a_ = sdargs->Some_0;
                            if derived {
                                let q = choose|q: int|
                                    0 <= q < dl@.len() && (#[trigger] dl@[q])@ == lower_of(a.name@);
                                assert(lower_of(a_[q]) == lower_of(a.name@));
                            } else {
                                if arg_derived(sdargs, a.name@) {
                                    let q = choose|q: int|
                                        0 <= q < a_.len() && lower_of(#[trigger] a_[q]) == lower_of(
                                            a.name@,
                                        );
                                    assert(dl@[q]@ == lower_of(a.name@));
                                }
                            }
                        },
                    }
                }
            }
            let fld = IdlField {
                name: to_mixed_case(a.name.as_str()),
                docs: docs_out(no_docs, &a.docs),
                ty,
                typesmith_derived: derived,
            };
            proof {
                assert(fld.model() == arg_model_of(
                    ctx.consts@,
                    ix.args@[j as int],
                    no_docs,
                    sdargs,
                ));
                assert(fields_model(args@.push(fld)) =~= fields_model(args@).push(fld.model()));
                assert(args_models_of(ctx.consts@, ix.args@.take(j + 1), no_docs, sdargs)
                    =~= args_models_of(ctx.consts@, ix.args@.take(j as int), no_docs, sdargs).push(
                    arg_model_of(ctx.consts@, ix.args@[j as int], no_docs, sdargs),
                ));
            }
            args.push(fld);
            j = j + 1;
        }
        let st = match lookup_struct(global, ix.accounts_name.as_str()) {
            None => {
                proof {
                    let gi = i as int;
                    assert(instr_fails(ctx.consts@, derefs(global@), m.instructions@[gi]));
                }
                return Err(ExtractError::UnresolvedAccountsReference(ix.accounts_name.clone()));
            },
            Some(st) => st,
        };
        let accounts = match idl_accounts(st, global, seeds_feature, no_docs) {
            Ok(v) => v,
            Err(e) => {
                proof {
                    let gi = i as int;
                    assert(instr_fails(ctx.consts@, derefs(global@), m.instructions@[gi]));
                }
                return Err(e);
            },
        };
        let ret: Option<IdlType> = if str_eq(ix.returns.as_str(), "()") {
            None
        } else {
            match to_idl_type(ctx, &ix.returns) {
                Ok(t) => Some(t),
                Err(e) => {
                    proof {
                        let gi = i as int;
                        assert(!ty_resolves(ctx.consts@, m.instructions@[gi].returns@));
                        assert(instr_fails(ctx.consts@, derefs(global@), m.instructions@[gi]));
                    }
                    return Err(e);
                },
            }
        };
        let instr = IdlInstruction {
            name: to_mixed_case(ix.name.as_str()),
            docs: docs_out(no_docs, &ix.docs),
            accounts,
            args,
            returns: ret,
        };
        proof {
            let gi = i as int;
            assert(ix.args@.take(ix.args@.len() as int) =~= ix.args@);
            assert(fields_model(instr.args@) =~= args_models_of(
                ctx.consts@,
                m.instructions@[gi].args@,
                no_docs,
                sdargs,
            ));
            assert(instr_matches(
                ctx.consts@,
                derefs(global@),
                instr.model(),
                m.instructions@[gi],
                seeds_feature,
                no_docs,
            ));
        }
        out.push(instr);
        i = i + 1;
    }
    Ok(out)
}

} // verus!

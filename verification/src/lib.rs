//! Extraction of a structured interface definition (IDL) from a tree of
//! annotated source declarations describing a blockchain program.

pub mod accounts;
pub mod extract;
pub mod idl;
pub mod model;
pub mod names;
pub mod records;
pub mod sort;
pub mod text;
pub mod types;

use vstd::prelude::*;

use crate::extract::{
    account_structs_sel, derefs, derive_structs_sel, error_enums_sel, first_multi_account_tag,
    first_multi_tag, first_unparseable, parse_account_derives, parse_accounts, parse_consts,
    parse_error_enum, parse_events, parse_program_mod, program_mods_sel, tagged_structs_sel,
};
use crate::idl::{
    docs_model, docs_sel, ConstModel, EventModel, ExtractError, Idl, IdlErrorCode, IdlEvent,
    IdlInstruction, IdlTypeDefinition, TypeDefModel,
};
use crate::model::{tag_count, ConstDecl, CrateContext, StructDecl};
use crate::model::InstructionDecl;
use crate::records::{
    build_consts, build_error_codes, build_events, build_instructions, const_model_of, defs_models,
    enum_defs_sel, enum_fails, error_code_model_of, event_model_of, event_ok, instr_fails,
    instr_matches, instr_model_of, lemma_instr_matches_model, parse_ty_defs, struct_defs_sel,
    struct_fails, ty_resolves, unpacked_defs_sel,
};
use crate::sort::{lemma_map_multiset, sort_by_name, sorted_by_name};
use crate::text::str_eq;

verus! {

/// A definition belongs to the accounts category when an account-data
/// struct bears its name.
pub open spec fn def_is_account(d: TypeDefModel, accs: Seq<StructDecl>) -> bool {
    exists|k: int| 0 <= k < accs.len() && (#[trigger] accs[k]).name@ == d.name
}

/// A definition is excluded when an event struct bears its name.
pub open spec fn def_is_event(d: TypeDefModel, evs: Seq<StructDecl>) -> bool {
    exists|k: int| 0 <= k < evs.len() && (#[trigger] evs[k]).name@ == d.name
}

/// The general types: definitions named neither after the error type, an
/// account-data struct, nor an event.
pub open spec fn types_part(
    defs: Seq<TypeDefModel>,
    err: Seq<char>,
    accs: Seq<StructDecl>,
    evs: Seq<StructDecl>,
) -> Seq<TypeDefModel>
    decreases defs.len(),
{
    if defs.len() == 0 {
        Seq::empty()
    } else if defs[0].name != err && !def_is_account(defs[0], accs) && !def_is_event(
        defs[0],
        evs,
    ) {
        seq![defs[0]] + types_part(defs.skip(1), err, accs, evs)
    } else {
        types_part(defs.skip(1), err, accs, evs)
    }
}

/// The account types: definitions named after an account-data struct,
/// the error type's name excluded.
pub open spec fn accounts_part(
    defs: Seq<TypeDefModel>,
    err: Seq<char>,
    accs: Seq<StructDecl>,
) -> Seq<TypeDefModel>
    decreases defs.len(),
{
    if defs.len() == 0 {
        Seq::empty()
    } else if defs[0].name != err && def_is_account(defs[0], accs) {
        seq![defs[0]] + accounts_part(defs.skip(1), err, accs)
    } else {
        accounts_part(defs.skip(1), err, accs)
    }
}

/// The error type's name, or nothing where no error enum exists.
pub open spec fn error_name_of(ctx: CrateContext) -> Seq<char> {
    if error_enums_sel(ctx.enums@).len() == 1 {
        error_enums_sel(ctx.enums@)[0].name@
    } else {
        ""@
    }
}

/// All type definitions the tree yields, in declaration order.
pub open spec fn all_defs_of(ctx: CrateContext, no_docs: bool) -> Seq<TypeDefModel> {
    struct_defs_sel(ctx.consts@, ctx.structs@, no_docs) + enum_defs_sel(
        ctx.consts@,
        ctx.enums@,
        no_docs,
    ) + unpacked_defs_sel(ctx.consts@, ctx.structs@, no_docs)
}

/// The event records the tree yields, in declaration order.
pub open spec fn event_models_of(ctx: CrateContext) -> Seq<EventModel> {
    tagged_structs_sel(ctx.structs@, "event"@).map_values(
        |s: StructDecl| event_model_of(ctx.consts@, s),
    )
}

/// The constant records the tree yields, in declaration order.
pub open spec fn const_models_of(ctx: CrateContext) -> Seq<ConstModel> {
    extract::consts_sel(ctx.consts@).map_values(|c: ConstDecl| const_model_of(ctx.consts@, c))
}

/// Some serializable struct aborts extraction.
pub open spec fn struct_fatal(ctx: CrateContext) -> bool {
    exists|k: int|
        0 <= k < ctx.structs@.len() && struct_fails(ctx.consts@, #[trigger] ctx.structs@[k])
}

/// Some serializable public enum aborts extraction.
pub open spec fn enum_fatal(ctx: CrateContext) -> bool {
    exists|k: int| 0 <= k < ctx.enums@.len() && enum_fails(ctx.consts@, #[trigger] ctx.enums@[k])
}

/// Some event struct aborts extraction.
pub open spec fn event_fatal(ctx: CrateContext) -> bool {
    exists|k: int|
        0 <= k < tagged_structs_sel(ctx.structs@, "event"@).len() && !event_ok(
            ctx.consts@,
            #[trigger] tagged_structs_sel(ctx.structs@, "event"@)[k],
        )
}

/// Some exported constant's type fails to resolve.
pub open spec fn const_fatal(ctx: CrateContext) -> bool {
    exists|k: int|
        0 <= k < extract::consts_sel(ctx.consts@).len() && !ty_resolves(
            ctx.consts@,
            (#[trigger] extract::consts_sel(ctx.consts@)[k]).ty@,
        )
}

/// Some instruction of the program module aborts extraction.
pub open spec fn instr_fatal(ctx: CrateContext) -> bool {
    program_mods_sel(ctx.mods@).len() == 1 && exists|k: int|
        0 <= k < program_mods_sel(ctx.mods@)[0].instructions@.len() && instr_fails(
            ctx.consts@,
            derive_structs_sel(ctx.structs@),
            #[trigger] program_mods_sel(ctx.mods@)[0].instructions@[k],
        )
}

/// Some fatal condition stands in the tree: extraction must abort rather
/// than emit a document.
pub open spec fn extraction_fatal(ctx: CrateContext) -> bool {
    ||| first_unparseable(ctx.structs@) is Some
    ||| error_enums_sel(ctx.enums@).len() >= 2
    ||| (error_enums_sel(ctx.enums@).len() == 1 && tag_count(
        error_enums_sel(ctx.enums@)[0].tags@,
        "error_code"@,
    ) >= 2)
    ||| first_multi_tag(ctx.structs@, "event"@) is Some
    ||| first_multi_account_tag(ctx.structs@) is Some
    ||| struct_fatal(ctx)
    ||| enum_fatal(ctx)
    ||| event_fatal(ctx)
    ||| const_fatal(ctx)
    ||| instr_fatal(ctx)
}

/// The assembled document matches the declaration tree: verbatim version,
/// the program module's name and docs, each category resolved as its
/// builder states and sorted ascending by name, events omitted when none
/// exist, and error codes in ordinal order. Names within a category are as
/// unique as the tree's declaration names make them: nothing deduplicates,
/// and a synthetic unpacked duplicate may collide with a declared name.
pub open spec fn document_matches(
    ctx: CrateContext,
    version: Seq<char>,
    seeds_feature: bool,
    no_docs: bool,
    idl: Idl,
) -> bool {
    let pm = program_mods_sel(ctx.mods@)[0];
    let gview = derive_structs_sel(ctx.structs@);
    let all_defs = all_defs_of(ctx, no_docs);
    let evs = tagged_structs_sel(ctx.structs@, "event"@);
    let accs = account_structs_sel(ctx.structs@);
    let err_present = error_enums_sel(ctx.enums@).len() == 1;
    let err = error_name_of(ctx);
    &&& idl.version@ == version
    &&& idl.name@ == pm.name@
    &&& docs_model(idl.docs) == docs_sel(no_docs, pm.docs)
    &&& idl.metadata is None
    &&& sorted_by_name(idl.instructions@)
    &&& sorted_by_name(idl.types@)
    &&& sorted_by_name(idl.accounts@)
    &&& sorted_by_name(idl.constants@)
    &&& idl.instructions@.map_values(|x: IdlInstruction| x.model()).to_multiset()
        == pm.instructions@.map_values(
        |ix: InstructionDecl| instr_model_of(ctx.consts@, gview, ix, seeds_feature, no_docs),
    ).to_multiset()
    &&& defs_models(idl.types@).to_multiset() == types_part(all_defs, err, accs, evs).to_multiset()
    &&& defs_models(idl.accounts@).to_multiset() == accounts_part(all_defs, err, accs).to_multiset()
    &&& match idl.events {
        None => evs.len() == 0,
        Some(v) => evs.len() > 0 && sorted_by_name(v@) && v@.map_values(
            |e: IdlEvent| e.model(),
        ).to_multiset() == event_models_of(ctx).to_multiset(),
    }
    &&& match idl.errors {
        None => !err_present,
        Some(codes) => {
            let variants = error_enums_sel(ctx.enums@)[0].variants@;
            err_present && codes@.len() == variants.len() && forall|i: int|
                0 <= i < variants.len() ==> (#[trigger] codes@[i]).model() == error_code_model_of(
                    variants[i],
                    i,
                )
        },
    }
    &&& idl.constants@.map_values(|c: idl::IdlConst| c.model()).to_multiset() == const_models_of(
        ctx,
    ).to_multiset()
}

/// Whether some structure in the list bears the name.
fn name_in_structs(ss: &Vec<&StructDecl>, name: &str) -> (r: bool)
    ensures
        r == exists|k: int| 0 <= k < ss@.len() && (#[trigger] derefs(ss@)[k]).name@ == name@,
{
    let mut k: usize = 0;
    while k < ss.len()
        invariant
            k <= ss@.len(),
            forall|m: int| 0 <= m < k ==> (#[trigger] derefs(ss@)[m]).name@ != name@,
        decreases ss@.len() - k,
    {
        if str_eq(ss[k].name.as_str(), name) {
            proof {
                let gk = k as int;
                assert(0 <= gk < ss@.len() && derefs(ss@)[gk].name@ == name@);
            }
            return true;
        }
        k = k + 1;
    }
    false
}

/// Extract the interface-definition document from a declaration tree:
/// nothing where the tree does not hold exactly one program module, the
/// assembled, deterministically sorted document otherwise, or the first
/// fatal error.
pub fn parse(ctx: &CrateContext, version: String, seeds_feature: bool, no_docs: bool) -> (r:
    Result<Option<Idl>, ExtractError>)
    requires
        error_enums_sel(ctx.enums@).len() == 1 ==> error_enums_sel(
            ctx.enums@,
        )[0].variants@.len() + 6000 <= u32::MAX,
    ensures
        match r {
            Ok(o) => match o {
                None => program_mods_sel(ctx.mods@).len() != 1,
                Some(idl) => program_mods_sel(ctx.mods@).len() == 1 && !extraction_fatal(*ctx)
                    && document_matches(*ctx, version@, seeds_feature, no_docs, idl),
            },
            Err(e) => program_mods_sel(ctx.mods@).len() == 1 && extraction_fatal(*ctx) && match e {
                ExtractError::MultipleErrorEnums => error_enums_sel(ctx.enums@).len() >= 2,
                ExtractError::MultipleTags(n) => first_multi_tag(ctx.structs@, "event"@) == Some(
                    n@,
                ) || first_multi_account_tag(ctx.structs@) == Some(n@) || (error_enums_sel(
                    ctx.enums@,
                ).len() == 1 && tag_count(error_enums_sel(ctx.enums@)[0].tags@, "error_code"@) >= 2
                    && n@ == error_enums_sel(ctx.enums@)[0].name@),
                ExtractError::UnparseableAccounts(n) => first_unparseable(ctx.structs@) == Some(
                    n@,
                ),
                ExtractError::MalformedSeedTag(_) | ExtractError::EmptyStruct(_) => struct_fatal(
                    *ctx,
                ),
                ExtractError::MalformedEventFields(_) => event_fatal(*ctx),
                ExtractError::MalformedDerivedArgsTag(_)
                | ExtractError::UnresolvedAccountsReference(_)
                | ExtractError::AccountsCycle(_) => instr_fatal(*ctx),
                ExtractError::AmbiguousConstant(_) | ExtractError::UnresolvedType(_) => struct_fatal(
                    *ctx,
                ) || enum_fatal(*ctx) || event_fatal(*ctx) || const_fatal(*ctx) || instr_fatal(
                    *ctx,
                ),
            },
        },
{
    broadcast use vstd::seq_lib::group_to_multiset_ensures;

    let pm = match parse_program_mod(ctx) {
        None => {
            return Ok(None);
        },
        Some(m) => m,
    };
    let global = match parse_account_derives(ctx) {
        Ok(g) => g,
        Err(e) => {
            proof {
                assert(extraction_fatal(*ctx));
            }
            return Err(e);
        },
    };
    let err_enum = match parse_error_enum(ctx) {
        Ok(o) => o,
        Err(e) => {
            proof {
                assert(extraction_fatal(*ctx));
            }
            return Err(e);
        },
    };
    let error_codes: Option<Vec<IdlErrorCode>> = match err_enum {
        None => None,
        Some(e) => Some(build_error_codes(e)),
    };
    let instructions = match build_instructions(ctx, pm, &global, seeds_feature, no_docs) {
        Ok(v) => v,
        Err(e) => {
            proof {
                assert(*pm == program_mods_sel(ctx.mods@)[0]);
                assert(derefs(global@) == derive_structs_sel(ctx.structs@));
                assert(instr_fatal(*ctx));
            }
            return Err(e);
        },
    };
    let ev_structs = match parse_events(ctx) {
        Ok(v) => v,
        Err(e) => {
            proof {
                assert(extraction_fatal(*ctx));
            }
            return Err(e);
        },
    };
    let events = match build_events(ctx, &ev_structs, no_docs) {
        Ok(v) => v,
        Err(e) => {
            proof {
                let sel = tagged_structs_sel(ctx.structs@, "event"@);
                let gi = choose|i: int|
                    0 <= i < ev_structs@.len() && !event_ok(ctx.consts@, *ev_structs@[i]);
                assert(sel[gi] == derefs(ev_structs@)[gi]);
                assert(derefs(ev_structs@)[gi] == *ev_structs@[gi]);
                assert(event_fatal(*ctx));
            }
            return Err(e);
        },
    };
    let mut ty_defs = match parse_ty_defs(ctx, no_docs) {
        Ok(v) => v,
        Err(e) => {
            proof {
                assert(extraction_fatal(*ctx));
            }
            return Err(e);
        },
    };
    let acc_structs = match parse_accounts(ctx) {
        Ok(v) => v,
        Err(e) => {
            proof {
                assert(extraction_fatal(*ctx));
            }
            return Err(e);
        },
    };
    let const_decls = parse_consts(ctx);
    let constants = match build_consts(ctx, &const_decls) {
        Ok(v) => v,
        Err(e) => {
            proof {
                let sel = extract::consts_sel(ctx.consts@);
                let gi = choose|i: int|
                    0 <= i < const_decls@.len() && !ty_resolves(ctx.consts@, const_decls@[i].ty@);
                assert(sel[gi] == derefs(const_decls@)[gi]);
                assert(derefs(const_decls@)[gi] == *const_decls@[gi]);
                assert(const_fatal(*ctx));
            }
            return Err(e);
        },
    };

    let ghost all_defs = all_defs_of(*ctx, no_docs);
    let ghost err = error_name_of(*ctx);
    let ghost accs = account_structs_sel(ctx.structs@);
    let ghost evs = tagged_structs_sel(ctx.structs@, "event"@);
    proof {
        assert(defs_models(ty_defs@) == all_defs);
    }

    let mut types: Vec<IdlTypeDefinition> = Vec::new();
    let mut accounts: Vec<IdlTypeDefinition> = Vec::new();
    proof {
        assert(defs_models(types@) + types_part(defs_models(ty_defs@), err, accs, evs)
            =~= types_part(all_defs, err, accs, evs));
        assert(defs_models(accounts@) + accounts_part(defs_models(ty_defs@), err, accs)
            =~= accounts_part(all_defs, err, accs));
    }
    while ty_defs.len() > 0
        invariant
            err == error_name_of(*ctx),
            accs == account_structs_sel(ctx.structs@),
            evs == tagged_structs_sel(ctx.structs@, "event"@),
            derefs(acc_structs@) == accs,
            derefs(ev_structs@) == evs,
            match err_enum {
                Some(e) => error_enums_sel(ctx.enums@).len() == 1 && e.name@ == err,
                None => error_enums_sel(ctx.enums@).len() == 0,
            },
            types_part(all_defs, err, accs, evs) == defs_models(types@) + types_part(
                defs_models(ty_defs@),
                err,
                accs,
                evs,
            ),
            accounts_part(all_defs, err, accs) == defs_models(accounts@) + accounts_part(
                defs_models(ty_defs@),
                err,
                accs,
            ),
        decreases ty_defs@.len(),
    {
        let ghost old_rem = ty_defs@;
        let d = ty_defs.remove(0);
        proof {
            assert(old_rem.remove(0) =~= old_rem.skip(1));
            assert(defs_models(ty_defs@) =~= defs_models(old_rem).skip(1));
            assert(defs_models(old_rem)[0] == d.model());
        }
        let is_err_name = match err_enum {
            Some(e) => str_eq(d.name.as_str(), e.name.as_str()),
            None => str_eq(d.name.as_str(), ""),
        };
        proof {
            reveal_strlit("");
            assert(is_err_name == (d.model().name == err));
        }
        if !is_err_name {
            if name_in_structs(&acc_structs, d.name.as_str()) {
                proof {
                    assert(def_is_account(d.model(), accs));
                    assert(defs_models(accounts@.push(d)) =~= defs_models(accounts@).push(
                        d.model(),
                    ));
                }
                accounts.push(d);
            } else if !name_in_structs(&ev_structs, d.name.as_str()) {
                proof {
                    assert(!def_is_account(d.model(), accs));
                    assert(!def_is_event(d.model(), evs));
                    assert(defs_models(types@.push(d)) =~= defs_models(types@).push(d.model()));
                }
                types.push(d);
            } else {
                proof {
                    assert(def_is_event(d.model(), evs));
                }
            }
        }
    }
    proof {
        assert(defs_models(ty_defs@) =~= Seq::<TypeDefModel>::empty());
        assert(defs_models(types@) + Seq::<TypeDefModel>::empty() =~= defs_models(types@));
        assert(defs_models(accounts@) + Seq::<TypeDefModel>::empty() =~= defs_models(accounts@));
    }

    let ghost built_instrs = instructions@;
    let instructions = sort_by_name(instructions);
    let ghost built_types = types@;
    let types = sort_by_name(types);
    let ghost built_accounts = accounts@;
    let accounts = sort_by_name(accounts);
    let ghost built_events = events@;
    let events = sort_by_name(events);
    let ghost built_consts = constants@;
    let constants = sort_by_name(constants);
    proof {
        lemma_map_multiset(types@, built_types, |d: IdlTypeDefinition| d.model());
        lemma_map_multiset(accounts@, built_accounts, |d: IdlTypeDefinition| d.model());
        lemma_map_multiset(events@, built_events, |e: IdlEvent| e.model());
        lemma_map_multiset(constants@, built_consts, |c: idl::IdlConst| c.model());
        assert(defs_models(types@) =~= types@.map_values(|d: IdlTypeDefinition| d.model()));
        assert(defs_models(built_types) =~= built_types.map_values(
            |d: IdlTypeDefinition| d.model(),
        ));
        assert(defs_models(accounts@) =~= accounts@.map_values(|d: IdlTypeDefinition| d.model()));
        assert(defs_models(built_accounts) =~= built_accounts.map_values(
            |d: IdlTypeDefinition| d.model(),
        ));
        assert(built_events.map_values(|e: IdlEvent| e.model()) =~= event_models_of(*ctx));
        assert(built_consts.map_values(|c: idl::IdlConst| c.model()) =~= const_models_of(*ctx));
        lemma_map_multiset(instructions@, built_instrs, |x: IdlInstruction| x.model());
        assert(derefs(global@) == derive_structs_sel(ctx.structs@));
        assert(*pm == program_mods_sel(ctx.mods@)[0]);
        assert forall|k: int| 0 <= k < built_instrs.len() implies (#[trigger] built_instrs[k]).model()
            == instr_model_of(
            ctx.consts@,
            derive_structs_sel(ctx.structs@),
            pm.instructions@[k],
            seeds_feature,
            no_docs,
        ) by {
            lemma_instr_matches_model(
                ctx.consts@,
                derefs(global@),
                built_instrs[k].model(),
                pm.instructions@[k],
                seeds_feature,
                no_docs,
            );
        }
        assert(built_instrs.map_values(|x: IdlInstruction| x.model()) =~= pm.instructions@
            .map_values(
            |ix: InstructionDecl| instr_model_of(
                ctx.consts@,
                derive_structs_sel(ctx.structs@),
                ix,
                seeds_feature,
                no_docs,
            ),
        ));
        assert(!extraction_fatal(*ctx)) by {
            assert(!struct_fatal(*ctx));
            assert(!enum_fatal(*ctx));
            assert(!event_fatal(*ctx)) by {
                assert forall|k: int|
                    0 <= k < tagged_structs_sel(ctx.structs@, "event"@).len() implies event_ok(
                    ctx.consts@,
                    #[trigger] tagged_structs_sel(ctx.structs@, "event"@)[k],
                ) by {
                    assert(tagged_structs_sel(ctx.structs@, "event"@)[k] == derefs(
                        ev_structs@,
                    )[k]);
                    assert(derefs(ev_structs@)[k] == *ev_structs@[k]);
                }
            }
            assert(!const_fatal(*ctx)) by {
                assert forall|k: int|
                    0 <= k < extract::consts_sel(ctx.consts@).len() implies ty_resolves(
                    ctx.consts@,
                    (#[trigger] extract::consts_sel(ctx.consts@)[k]).ty@,
                ) by {
                    assert(extract::consts_sel(ctx.consts@)[k] == derefs(const_decls@)[k]);
                    assert(derefs(const_decls@)[k] == *const_decls@[k]);
                    assert(built_consts[k].model() == const_model_of(
                        ctx.consts@,
                        *const_decls@[k],
                    ));
                }
            }
            assert(!instr_fatal(*ctx)) by {
                assert forall|k: int|
                    0 <= k < program_mods_sel(ctx.mods@)[0].instructions@.len() implies !instr_fails(
                    ctx.consts@,
                    derive_structs_sel(ctx.structs@),
                    #[trigger] program_mods_sel(ctx.mods@)[0].instructions@[k],
                ) by {
                    assert(program_mods_sel(ctx.mods@)[0].instructions@[k]
                        == pm.instructions@[k]);
                    assert(instr_matches(
                        ctx.consts@,
                        derefs(global@),
                        built_instrs[k].model(),
                        pm.instructions@[k],
                        seeds_feature,
                        no_docs,
                    ));
                }
            }
        }
    }

    let events_opt: Option<Vec<IdlEvent>> = if events.is_empty() {
        proof {
            assert(events@.to_multiset().len() == 0);
            assert(built_events.to_multiset().len() == built_events.len());
            assert(evs.len() == 0);
        }
        None
    } else {
        proof {
            assert(events@.to_multiset().len() == events@.len());
            assert(evs.len() > 0);
        }
        Some(events)
    };

    Ok(
        Some(
            Idl {
                version,
                name: pm.name.clone(),
                docs: idl::docs_out(no_docs, &pm.docs),
                instructions,
                types,
                accounts,
                events: events_opt,
                errors: error_codes,
                metadata: None,
                constants,
            },
        ),
    )
}

} // verus!

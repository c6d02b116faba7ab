//! The declaration extractors: independent filters over the declaration
//! tree selecting the program module, the error enum, event structs,
//! account-data structs, account-capability structures and exported
//! constants.

use vstd::prelude::*;
use crate::idl::ExtractError;
use crate::model::{
    tag_count, has_tag, has_tag_arg, count_tag, find_tag, tag_has_arg, ConstDecl, CrateContext,
    EnumDecl, ModDecl, StructDecl, Tag,
};
use crate::text::str_eq;

verus! {

/// The values behind a sequence of references.
pub open spec fn derefs<T>(v: Seq<&T>) -> Seq<T> {
    v.map_values(|x: &T| *x)
}

/// Modules tagged exactly once as the program module.
pub open spec fn program_mods_sel(ms: Seq<ModDecl>) -> Seq<ModDecl>
    decreases ms.len(),
{
    if ms.len() == 0 {
        Seq::empty()
    } else if tag_count(ms[0].tags@, "program"@) == 1 {
        seq![ms[0]] + program_mods_sel(ms.skip(1))
    } else {
        program_mods_sel(ms.skip(1))
    }
}

/// Locate the single module tagged as the program; none or several yield
/// nothing to generate.
pub fn parse_program_mod<'a>(ctx: &'a CrateContext) -> (r: Option<&'a ModDecl>)
    ensures
        match r {
            Some(m) => program_mods_sel(ctx.mods@).len() == 1 && *m == program_mods_sel(
                ctx.mods@,
            )[0],
            None => program_mods_sel(ctx.mods@).len() != 1,
        },
{
    let ms = &ctx.mods;
    let mut found: Vec<&'a ModDecl> = Vec::new();
    let mut i: usize = 0;
    proof {
        assert(ctx.mods@.skip(0) =~= ctx.mods@);
        assert(derefs(found@) + program_mods_sel(ctx.mods@) =~= program_mods_sel(ctx.mods@));
    }
    while i < ms.len()
        invariant
            ms == &ctx.mods,
            i <= ctx.mods@.len(),
            program_mods_sel(ctx.mods@) == derefs(found@) + program_mods_sel(
                ctx.mods@.skip(i as int),
            ),
        decreases ctx.mods@.len() - i,
    {
        proof {
            assert(ctx.mods@.skip(i as int)[0] == ctx.mods@[i as int]);
            assert(ctx.mods@.skip(i as int).skip(1) =~= ctx.mods@.skip(i as int + 1));
        }
        let m = &ms[i];
        if count_tag(&m.tags, "program") == 1 {
            proof {
                assert(derefs(found@.push(m)) =~= derefs(found@).push(ctx.mods@[i as int]));
            }
            found.push(m);
        }
        i = i + 1;
    }
    proof {
        assert(ctx.mods@.skip(ctx.mods@.len() as int) =~= Seq::<ModDecl>::empty());
        assert(derefs(found@) + Seq::<ModDecl>::empty() =~= derefs(found@));
    }
    if found.len() == 1 {
        let m = found[0];
        proof {
            assert(*m == derefs(found@)[0]);
        }
        Some(m)
    } else {
        None
    }
}

/// Structs tagged exactly once with `name`.
pub open spec fn tagged_structs_sel(ss: Seq<StructDecl>, name: Seq<char>) -> Seq<StructDecl>
    decreases ss.len(),
{
    if ss.len() == 0 {
        Seq::empty()
    } else if tag_count(ss[0].tags@, name) == 1 {
        seq![ss[0]] + tagged_structs_sel(ss.skip(1), name)
    } else {
        tagged_structs_sel(ss.skip(1), name)
    }
}

/// The name of the first struct carrying the tag `name` more than once.
pub open spec fn first_multi_tag(ss: Seq<StructDecl>, name: Seq<char>) -> Option<Seq<char>>
    decreases ss.len(),
{
    if ss.len() == 0 {
        None
    } else if tag_count(ss[0].tags@, name) >= 2 {
        Some(ss[0].name@)
    } else {
        first_multi_tag(ss.skip(1), name)
    }
}

/// Select the structs tagged as events; a repeated event tag is fatal.
pub fn parse_events<'a>(ctx: &'a CrateContext) -> (r: Result<Vec<&'a StructDecl>, ExtractError>)
    ensures
        match r {
            Ok(v) => derefs(v@) == tagged_structs_sel(ctx.structs@, "event"@) && first_multi_tag(
                ctx.structs@,
                "event"@,
            ) is None,
            Err(e) => match e {
                ExtractError::MultipleTags(n) => first_multi_tag(ctx.structs@, "event"@) == Some(
                    n@,
                ),
                _ => false,
            },
        },
{
    let ss = &ctx.structs;
    let mut found: Vec<&'a StructDecl> = Vec::new();
    let mut i: usize = 0;
    proof {
        assert(ctx.structs@.skip(0) =~= ctx.structs@);
        assert(derefs(found@) + tagged_structs_sel(ctx.structs@, "event"@) =~= tagged_structs_sel(
            ctx.structs@,
            "event"@,
        ));
    }
    while i < ss.len()
        invariant
            ss == &ctx.structs,
            i <= ctx.structs@.len(),
            tagged_structs_sel(ctx.structs@, "event"@) == derefs(found@) + tagged_structs_sel(
                ctx.structs@.skip(i as int),
                "event"@,
            ),
            first_multi_tag(ctx.structs@, "event"@) == first_multi_tag(
                ctx.structs@.skip(i as int),
                "event"@,
            ),
        decreases ctx.structs@.len() - i,
    {
        proof {
            assert(ctx.structs@.skip(i as int)[0] == ctx.structs@[i as int]);
            assert(ctx.structs@.skip(i as int).skip(1) =~= ctx.structs@.skip(i as int + 1));
        }
        let s = &ss[i];
        let n = count_tag(&s.tags, "event");
        if n >= 2 {
            return Err(ExtractError::MultipleTags(s.name.clone()));
        }
        if n == 1 {
            proof {
                assert(derefs(found@.push(s)) =~= derefs(found@).push(ctx.structs@[i as int]));
            }
            found.push(s);
        }
        i = i + 1;
    }
    proof {
        assert(ctx.structs@.skip(ctx.structs@.len() as int) =~= Seq::<StructDecl>::empty());
        assert(derefs(found@) + Seq::<StructDecl>::empty() =~= derefs(found@));
    }
    Ok(found)
}

/// Count the tags named either `n1` or `n2`.
pub open spec fn tag_count2(tags: Seq<Tag>, n1: Seq<char>, n2: Seq<char>) -> nat
    decreases tags.len(),
{
    if tags.len() == 0 {
        0
    } else {
        (if tags[0].name@ == n1 || tags[0].name@ == n2 {
            1nat
        } else {
            0nat
        }) + tag_count2(tags.skip(1), n1, n2)
    }
}

/// Structs tagged exactly once as account data (plainly or associated).
pub open spec fn account_structs_sel(ss: Seq<StructDecl>) -> Seq<StructDecl>
    decreases ss.len(),
{
    if ss.len() == 0 {
        Seq::empty()
    } else if tag_count2(ss[0].tags@, "account"@, "associated"@) == 1 {
        seq![ss[0]] + account_structs_sel(ss.skip(1))
    } else {
        account_structs_sel(ss.skip(1))
    }
}

/// The name of the first struct with a repeated account-data tag.
pub open spec fn first_multi_account_tag(ss: Seq<StructDecl>) -> Option<Seq<char>>
    decreases ss.len(),
{
    if ss.len() == 0 {
        None
    } else if tag_count2(ss[0].tags@, "account"@, "associated"@) >= 2 {
        Some(ss[0].name@)
    } else {
        first_multi_account_tag(ss.skip(1))
    }
}

/// Count the tags named `n1` or `n2` on one declaration.
fn count_tag2(tags: &Vec<Tag>, n1: &str, n2: &str) -> (n: usize)
    ensures
        n == tag_count2(tags@, n1@, n2@),
{
    let mut n: usize = 0;
    let mut i: usize = 0;
    proof {
        assert(tags@.skip(0) =~= tags@);
    }
    while i < tags.len()
        invariant
            i <= tags@.len(),
            n <= i,
            tag_count2(tags@, n1@, n2@) == n + tag_count2(tags@.skip(i as int), n1@, n2@),
        decreases tags@.len() - i,
    {
        proof {
            assert(tags@.skip(i as int)[0] == tags@[i as int]);
            assert(tags@.skip(i as int).skip(1) =~= tags@.skip(i as int + 1));
        }
        if str_eq(tags[i].name.as_str(), n1) || str_eq(tags[i].name.as_str(), n2) {
            n = n + 1;
        }
        i = i + 1;
    }
    proof {
        assert(tags@.skip(tags@.len() as int) =~= Seq::<Tag>::empty());
    }
    n
}

/// Select the structs tagged as account data; a repeated tag is fatal.
pub fn parse_accounts<'a>(ctx: &'a CrateContext) -> (r: Result<Vec<&'a StructDecl>, ExtractError>)
    ensures
        match r {
            Ok(v) => derefs(v@) == account_structs_sel(ctx.structs@) && first_multi_account_tag(
                ctx.structs@,
            ) is None,
            Err(e) => match e {
                ExtractError::MultipleTags(n) => first_multi_account_tag(ctx.structs@) == Some(n@),
                _ => false,
            },
        },
{
    let ss = &ctx.structs;
    let mut found: Vec<&'a StructDecl> = Vec::new();
    let mut i: usize = 0;
    proof {
        assert(ctx.structs@.skip(0) =~= ctx.structs@);
        assert(derefs(found@) + account_structs_sel(ctx.structs@) =~= account_structs_sel(
            ctx.structs@,
        ));
    }
    while i < ss.len()
        invariant
            ss == &ctx.structs,
            i <= ctx.structs@.len(),
            account_structs_sel(ctx.structs@) == derefs(found@) + account_structs_sel(
                ctx.structs@.skip(i as int),
            ),
            first_multi_account_tag(ctx.structs@) == first_multi_account_tag(
                ctx.structs@.skip(i as int),
            ),
        decreases ctx.structs@.len() - i,
    {
        proof {
            assert(ctx.structs@.skip(i as int)[0] == ctx.structs@[i as int]);
            assert(ctx.structs@.skip(i as int).skip(1) =~= ctx.structs@.skip(i as int + 1));
        }
        let s = &ss[i];
        let n = count_tag2(&s.tags, "account", "associated");
        if n >= 2 {
            return Err(ExtractError::MultipleTags(s.name.clone()));
        }
        if n == 1 {
            proof {
                assert(derefs(found@.push(s)) =~= derefs(found@).push(ctx.structs@[i as int]));
            }
            found.push(s);
        }
        i = i + 1;
    }
    proof {
        assert(ctx.structs@.skip(ctx.structs@.len() as int) =~= Seq::<StructDecl>::empty());
        assert(derefs(found@) + Seq::<StructDecl>::empty() =~= derefs(found@));
    }
    Ok(found)
}

/// Enums carrying the error-code tag at least once.
pub open spec fn error_enums_sel(es: Seq<EnumDecl>) -> Seq<EnumDecl>
    decreases es.len(),
{
    if es.len() == 0 {
        Seq::empty()
    } else if tag_count(es[0].tags@, "error_code"@) >= 1 {
        seq![es[0]] + error_enums_sel(es.skip(1))
    } else {
        error_enums_sel(es.skip(1))
    }
}

/// Locate the single error-code enum: none is allowed, several are fatal,
/// and a repeated tag on the one enum is fatal.
pub fn parse_error_enum<'a>(ctx: &'a CrateContext) -> (r: Result<
    Option<&'a EnumDecl>,
    ExtractError,
>)
    ensures
        match r {
            Ok(o) => match o {
                Some(e) => error_enums_sel(ctx.enums@).len() == 1 && *e == error_enums_sel(
                    ctx.enums@,
                )[0] && tag_count(e.tags@, "error_code"@) == 1,
                None => error_enums_sel(ctx.enums@).len() == 0,
            },
            Err(e) => match e {
                ExtractError::MultipleErrorEnums => error_enums_sel(ctx.enums@).len() >= 2,
                ExtractError::MultipleTags(n) => error_enums_sel(ctx.enums@).len() == 1
                    && tag_count(error_enums_sel(ctx.enums@)[0].tags@, "error_code"@) >= 2 && n@
                    == error_enums_sel(ctx.enums@)[0].name@,
                _ => false,
            },
        },
{
    let es = &ctx.enums;
    let mut found: Vec<&'a EnumDecl> = Vec::new();
    let mut i: usize = 0;
    proof {
        assert(ctx.enums@.skip(0) =~= ctx.enums@);
        assert(derefs(found@) + error_enums_sel(ctx.enums@) =~= error_enums_sel(ctx.enums@));
    }
    while i < es.len()
        invariant
            es == &ctx.enums,
            i <= ctx.enums@.len(),
            error_enums_sel(ctx.enums@) == derefs(found@) + error_enums_sel(
                ctx.enums@.skip(i as int),
            ),
            forall|k: int| 0 <= k < found@.len() ==> tag_count(found@[k].tags@, "error_code"@) >= 1,
        decreases ctx.enums@.len() - i,
    {
        proof {
            assert(ctx.enums@.skip(i as int)[0] == ctx.enums@[i as int]);
            assert(ctx.enums@.skip(i as int).skip(1) =~= ctx.enums@.skip(i as int + 1));
        }
        let e = &es[i];
        if count_tag(&e.tags, "error_code") >= 1 {
            proof {
                assert(derefs(found@.push(e)) =~= derefs(found@).push(ctx.enums@[i as int]));
            }
            found.push(e);
        }
        i = i + 1;
    }
    proof {
        assert(ctx.enums@.skip(ctx.enums@.len() as int) =~= Seq::<EnumDecl>::empty());
        assert(derefs(found@) + Seq::<EnumDecl>::empty() =~= derefs(found@));
    }
    if found.len() == 0 {
        Ok(None)
    } else if found.len() >= 2 {
        Err(ExtractError::MultipleErrorEnums)
    } else {
        let e = found[0];
        proof {
            assert(*e == derefs(found@)[0]);
        }
        if count_tag(&e.tags, "error_code") >= 2 {
            Err(ExtractError::MultipleTags(e.name.clone()))
        } else {
            Ok(Some(e))
        }
    }
}

/// Constants carrying the export tag.
pub open spec fn consts_sel(cs: Seq<ConstDecl>) -> Seq<ConstDecl>
    decreases cs.len(),
{
    if cs.len() == 0 {
        Seq::empty()
    } else if has_tag(cs[0].tags@, "constant"@) {
        seq![cs[0]] + consts_sel(cs.skip(1))
    } else {
        consts_sel(cs.skip(1))
    }
}

/// Select the constants carrying the export tag.
pub fn parse_consts<'a>(ctx: &'a CrateContext) -> (r: Vec<&'a ConstDecl>)
    ensures
        derefs(r@) == consts_sel(ctx.consts@),
{
    let cs = &ctx.consts;
    let mut found: Vec<&'a ConstDecl> = Vec::new();
    let mut i: usize = 0;
    proof {
        assert(ctx.consts@.skip(0) =~= ctx.consts@);
        assert(derefs(found@) + consts_sel(ctx.consts@) =~= consts_sel(ctx.consts@));
    }
    while i < cs.len()
        invariant
            cs == &ctx.consts,
            i <= ctx.consts@.len(),
            consts_sel(ctx.consts@) == derefs(found@) + consts_sel(ctx.consts@.skip(i as int)),
        decreases ctx.consts@.len() - i,
    {
        proof {
            assert(ctx.consts@.skip(i as int)[0] == ctx.consts@[i as int]);
            assert(ctx.consts@.skip(i as int).skip(1) =~= ctx.consts@.skip(i as int + 1));
        }
        let c = &cs[i];
        let has = match find_tag(&c.tags, "constant") {
            Some(_) => true,
            None => false,
        };
        if has {
            proof {
                assert(has_tag(ctx.consts@[i as int].tags@, "constant"@));
                assert(derefs(found@.push(c)) =~= derefs(found@).push(ctx.consts@[i as int]));
            }
            found.push(c);
        } else {
            proof {
                assert(!has_tag(ctx.consts@[i as int].tags@, "constant"@));
            }
        }
        i = i + 1;
    }
    proof {
        assert(ctx.consts@.skip(ctx.consts@.len() as int) =~= Seq::<ConstDecl>::empty());
        assert(derefs(found@) + Seq::<ConstDecl>::empty() =~= derefs(found@));
    }
    found
}

/// Structs deriving the account-capability trait.
pub open spec fn derive_structs_sel(ss: Seq<StructDecl>) -> Seq<StructDecl>
    decreases ss.len(),
{
    if ss.len() == 0 {
        Seq::empty()
    } else if has_tag_arg(ss[0].tags@, "derive"@, "Accounts"@) {
        seq![ss[0]] + derive_structs_sel(ss.skip(1))
    } else {
        derive_structs_sel(ss.skip(1))
    }
}

/// The name of the first capability-deriving struct the constraint reader
/// could not read.
pub open spec fn first_unparseable(ss: Seq<StructDecl>) -> Option<Seq<char>>
    decreases ss.len(),
{
    if ss.len() == 0 {
        None
    } else if has_tag_arg(ss[0].tags@, "derive"@, "Accounts"@) && ss[0].entries is None {
        Some(ss[0].name@)
    } else {
        first_unparseable(ss.skip(1))
    }
}

/// Build the global map of account-capability structures: every struct
/// deriving the capability trait, with its structured account entries.
pub fn parse_account_derives<'a>(ctx: &'a CrateContext) -> (r: Result<
    Vec<&'a StructDecl>,
    ExtractError,
>)
    ensures
        match r {
            Ok(v) => derefs(v@) == derive_structs_sel(ctx.structs@) && first_unparseable(
                ctx.structs@,
            ) is None && forall|k: int| 0 <= k < v@.len() ==> v@[k].entries is Some,
            Err(e) => match e {
                ExtractError::UnparseableAccounts(n) => first_unparseable(ctx.structs@) == Some(
                    n@,
                ),
                _ => false,
            },
        },
{
    let ss = &ctx.structs;
    let mut found: Vec<&'a StructDecl> = Vec::new();
    let mut i: usize = 0;
    proof {
        assert(ctx.structs@.skip(0) =~= ctx.structs@);
        assert(derefs(found@) + derive_structs_sel(ctx.structs@) =~= derive_structs_sel(
            ctx.structs@,
        ));
    }
    while i < ss.len()
        invariant
            ss == &ctx.structs,
            i <= ctx.structs@.len(),
            derive_structs_sel(ctx.structs@) == derefs(found@) + derive_structs_sel(
                ctx.structs@.skip(i as int),
            ),
            first_unparseable(ctx.structs@) == first_unparseable(ctx.structs@.skip(i as int)),
            forall|k: int| 0 <= k < found@.len() ==> found@[k].entries is Some,
        decreases ctx.structs@.len() - i,
    {
        proof {
            assert(ctx.structs@.skip(i as int)[0] == ctx.structs@[i as int]);
            assert(ctx.structs@.skip(i as int).skip(1) =~= ctx.structs@.skip(i as int + 1));
        }
        let s = &ss[i];
        if tag_has_arg(&s.tags, "derive", "Accounts") {
            match &s.entries {
                Some(_) => {
                    proof {
                        assert(derefs(found@.push(s)) =~= derefs(found@).push(
                            ctx.structs@[i as int],
                        ));
                    }
                    found.push(s);
                },
                None => {
                    return Err(ExtractError::UnparseableAccounts(s.name.clone()));
                },
            }
        }
        i = i + 1;
    }
    proof {
        assert(ctx.structs@.skip(ctx.structs@.len() as int) =~= Seq::<StructDecl>::empty());
        assert(derefs(found@) + Seq::<StructDecl>::empty() =~= derefs(found@));
    }
    Ok(found)
}

/// Whether a field carries the bare derived-value marker tag.
pub open spec fn is_derived_spec(tags: Seq<Tag>) -> bool {
    exists|i: int| 0 <= i < tags.len() && tags[i].name@ == "derived"@ && tags[i].args@.len() == 0
}

/// Whether a field carries the bare derived-value marker tag.
pub fn is_typesmith_derived(tags: &Vec<Tag>) -> (r: bool)
    ensures
        r == is_derived_spec(tags@),
{
    let mut i: usize = 0;
    while i < tags.len()
        invariant
            i <= tags@.len(),
            forall|k: int|
                0 <= k < i ==> !(tags@[k].name@ == "derived"@ && tags@[k].args@.len() == 0),
        decreases tags@.len() - i,
    {
        if str_eq(tags[i].name.as_str(), "derived") && tags[i].args.len() == 0 {
            proof {
                let gi = i as int;
                assert(0 <= gi < tags@.len() && tags@[gi].name@ == "derived"@ && tags@[gi].args@.len()
                    == 0);
            }
            return true;
        }
        i = i + 1;
    }
    false
}

} // verus!

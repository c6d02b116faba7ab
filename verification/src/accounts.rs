//! The account schema resolver: a named account-capability structure
//! becomes an ordered tree of leaf accounts and nested groups, resolved
//! through the global name-keyed map of capability structures.

use vstd::prelude::*;
use crate::extract::{derefs, is_derived_spec, is_typesmith_derived};
use crate::idl::{
    clone_pda, docs_out, docs_sel, pda_model, AccountItemModel, AccountLeafModel, ExtractError,
    IdlAccount, IdlAccountItem, IdlAccounts, account_items_model,
};
use crate::model::{AccountEntry, AccountLeaf, StructDecl};
use crate::names::{mixed_case_of, to_mixed_case};
use crate::text::str_eq;

verus! {

/// Look a capability structure up by name; of structures sharing a name,
/// the last declared wins, as in a name-keyed map built by insertion.
pub open spec fn find_struct(global: Seq<StructDecl>, sym: Seq<char>) -> Option<StructDecl>
    decreases global.len(),
{
    if global.len() == 0 {
        None
    } else if global.last().name@ == sym {
        Some(global.last())
    } else {
        find_struct(global.drop_last(), sym)
    }
}

/// The account entries of a capability structure.
pub open spec fn entries_of(s: StructDecl) -> Seq<AccountEntry> {
    match s.entries {
        Some(v) => v@,
        None => Seq::empty(),
    }
}

/// The resolved form of one leaf account field.
pub open spec fn leaf_model_of(l: AccountLeaf, seeds_feature: bool, no_docs: bool)
    -> AccountLeafModel {
    AccountLeafModel {
        name: mixed_case_of(l.name@),
        is_mut: l.is_mutable,
        is_signer: if l.is_signer_type {
            true
        } else {
            l.has_signer_constraint
        },
        is_optional: None,
        docs: docs_sel(no_docs, l.docs),
        pda: if seeds_feature {
            pda_model(l.seed)
        } else {
            None
        },
        relations: Seq::empty(),
        typesmith_derived: is_derived_spec(l.tags@),
    }
}

/// The resolved tree mirrors the declared entries: a leaf for each leaf
/// field, and for each composite field a group named after the field
/// holding the referenced structure's resolved entries, in declaration
/// order throughout.
pub open spec fn accounts_match(
    items: Seq<AccountItemModel>,
    entries: Seq<AccountEntry>,
    global: Seq<StructDecl>,
    seeds_feature: bool,
    no_docs: bool,
    fuel: nat,
) -> bool
    decreases fuel,
{
    &&& items.len() == entries.len()
    &&& forall|i: int|
        #![trigger entries[i]]
        0 <= i < entries.len() ==> match entries[i] {
            AccountEntry::Leaf(l) => items[i] == AccountItemModel::Leaf(
                leaf_model_of(l, seeds_feature, no_docs),
            ),
            AccountEntry::Composite { name, symbol } => match find_struct(global, symbol@) {
                None => false,
                Some(s) => fuel > 0 && match items[i] {
                    AccountItemModel::Group { name: gname, accounts } => gname == mixed_case_of(
                        name@,
                    ) && accounts_match(
                        accounts,
                        entries_of(s),
                        global,
                        seeds_feature,
                        no_docs,
                        (fuel - 1) as nat,
                    ),
                    AccountItemModel::Leaf(_) => false,
                },
            },
        }
}

/// Some reachable composite reference names a structure absent from the
/// map, within the given nesting depth.
pub open spec fn missing_ref(
    entries: Seq<AccountEntry>,
    global: Seq<StructDecl>,
    fuel: nat,
) -> bool
    decreases fuel,
{
    exists|i: int|
        #![trigger entries[i]]
        0 <= i < entries.len() && match entries[i] {
            AccountEntry::Leaf(_) => false,
            AccountEntry::Composite { name, symbol } => match find_struct(global, symbol@) {
                None => true,
                Some(s) => fuel > 0 && missing_ref(entries_of(s), global, (fuel - 1) as nat),
            },
        }
}

/// Every composite reference resolves, within the given nesting depth.
pub open spec fn resolvable(
    entries: Seq<AccountEntry>,
    global: Seq<StructDecl>,
    fuel: nat,
) -> bool
    decreases fuel,
{
    forall|i: int|
        #![trigger entries[i]]
        0 <= i < entries.len() ==> match entries[i] {
            AccountEntry::Leaf(_) => true,
            AccountEntry::Composite { name, symbol } => match find_struct(global, symbol@) {
                None => false,
                Some(s) => fuel > 0 && resolvable(entries_of(s), global, (fuel - 1) as nat),
            },
        }
}

/// Find a capability structure by name in the global map, latest first.
pub fn lookup_struct<'a>(global: &Vec<&'a StructDecl>, sym: &str) -> (r: Option<&'a StructDecl>)
    ensures
        match r {
            Some(s) => find_struct(derefs(global@), sym@) == Some(*s) && exists|k: int|
                0 <= k < global@.len() && global@[k] == s,
            None => find_struct(derefs(global@), sym@) is None,
        },
{
    let mut i: usize = global.len();
    proof {
        assert(derefs(global@).take(global@.len() as int) =~= derefs(global@));
    }
    while i > 0
        invariant
            i <= global@.len(),
            find_struct(derefs(global@), sym@) == find_struct(
                derefs(global@).take(i as int),
                sym@,
            ),
        decreases i,
    {
        i = i - 1;
        proof {
            assert(derefs(global@).take(i as int + 1).last() == derefs(global@)[i as int]);
            assert(derefs(global@).take(i as int + 1).drop_last() =~= derefs(global@).take(
                i as int,
            ));
        }
        let s = global[i];
        if str_eq(s.name.as_str(), sym) {
            proof {
                let gi = i as int;
                assert(0 <= gi < global@.len() && global@[gi] == s);
            }
            return Some(s);
        }
    }
    proof {
        assert(derefs(global@).take(0) =~= Seq::<StructDecl>::empty());
    }
    None
}

/// Resolve one entry list, recursing through composite references with
/// bounded depth.
fn idl_accounts_rec<'a>(
    entries: &Vec<AccountEntry>,
    global: &Vec<&'a StructDecl>,
    seeds_feature: bool,
    no_docs: bool,
    fuel: usize,
) -> (r: Result<Vec<IdlAccountItem>, ExtractError>)
    requires
        forall|k: int| 0 <= k < global@.len() ==> global@[k].entries is Some,
    ensures
        match r {
            Ok(v) => resolvable(entries@, derefs(global@), fuel as nat) && accounts_match(
                account_items_model(v@),
                entries@,
                derefs(global@),
                seeds_feature,
                no_docs,
                fuel as nat,
            ),
            Err(e) => !resolvable(entries@, derefs(global@), fuel as nat) && match e {
                ExtractError::UnresolvedAccountsReference(n) => find_struct(
                    derefs(global@),
                    n@,
                ) is None && missing_ref(entries@, derefs(global@), fuel as nat),
                ExtractError::AccountsCycle(n) => find_struct(derefs(global@), n@) is Some,
                _ => false,
            },
        },
    decreases fuel, entries@.len(),
{
    let mut out: Vec<IdlAccountItem> = Vec::new();
    let mut i: usize = 0;
    while i < entries.len()
        invariant
            forall|k: int| 0 <= k < global@.len() ==> global@[k].entries is Some,
            i <= entries@.len(),
            out@.len() == i,
            forall|k: int|
                #![trigger entries@[k]]
                0 <= k < i ==> match entries@[k] {
                    AccountEntry::Leaf(l) => account_items_model(out@)[k]
                        == AccountItemModel::Leaf(leaf_model_of(l, seeds_feature, no_docs)),
                    AccountEntry::Composite { name, symbol } => match find_struct(
                        derefs(global@),
                        symbol@,
                    ) {
                        None => false,
                        Some(s) => fuel > 0 && match account_items_model(out@)[k] {
                            AccountItemModel::Group { name: gname, accounts } => gname
                                == mixed_case_of(name@) && accounts_match(
                                accounts,
                                entries_of(s),
                                derefs(global@),
                                seeds_feature,
                                no_docs,
                                (fuel - 1) as nat,
                            ),
                            AccountItemModel::Leaf(_) => false,
                        },
                    },
                },
            forall|k: int|
                #![trigger entries@[k]]
                0 <= k < i ==> match entries@[k] {
                    AccountEntry::Leaf(_) => true,
                    AccountEntry::Composite { name, symbol } => match find_struct(
                        derefs(global@),
                        symbol@,
                    ) {
                        None => false,
                        Some(s) => fuel > 0 && resolvable(
                            entries_of(s),
                            derefs(global@),
                            (fuel - 1) as nat,
                        ),
                    },
                },
        decreases entries@.len() - i,
    {
        let ghost old_out = out@;
        match &entries[i] {
            AccountEntry::Leaf(l) => {
                let item = IdlAccountItem::IdlAccount(
                    IdlAccount {
                        name: to_mixed_case(l.name.as_str()),
                        is_mut: l.is_mutable,
                        is_signer: if l.is_signer_type {
                            true
                        } else {
                            l.has_signer_constraint
                        },
                        is_optional: None,
                        docs: docs_out(no_docs, &l.docs),
                        pda: if seeds_feature {
                            clone_pda(&l.seed)
                        } else {
                            None
                        },
                        relations: Vec::new(),
                        typesmith_derived: is_typesmith_derived(&l.tags),
                    },
                );
                proof {
                    assert(item.model() == AccountItemModel::Leaf(
                        leaf_model_of(*l, seeds_feature, no_docs),
                    )) by {
                        assert(item.model() matches AccountItemModel::Leaf(lm) ==> lm.relations
                            =~= Seq::<Seq<char>>::empty());
                    }
                }
                out.push(item);
            },
            AccountEntry::Composite { name, symbol } => {
                match lookup_struct(global, symbol.as_str()) {
                    None => {
                        proof {
                            let gi = i as int;
                            assert(missing_ref(entries@, derefs(global@), fuel as nat)) by {
                                assert(0 <= gi < entries@.len() && match entries@[gi] {
                                    AccountEntry::Leaf(_) => false,
                                    AccountEntry::Composite { name, symbol } => match find_struct(
                                        derefs(global@),
                                        symbol@,
                                    ) {
                                        None => true,
                                        Some(s) => fuel as nat > 0 && missing_ref(
                                            entries_of(s),
                                            derefs(global@),
                                            (fuel - 1) as nat,
                                        ),
                                    },
                                });
                            }
                        }
                        return Err(ExtractError::UnresolvedAccountsReference(symbol.clone()));
                    },
                    Some(s) => {
                        if fuel == 0 {
                            return Err(ExtractError::AccountsCycle(symbol.clone()));
                        }
                        let sub = match &s.entries {
                            Some(v) => v,
                            None => {
                                proof {
                                    assert(false);
                                }
                                return Err(ExtractError::AccountsCycle(symbol.clone()));
                            },
                        };
                        match idl_accounts_rec(sub, global, seeds_feature, no_docs, fuel - 1) {
                            Err(e) => {
                                proof {
                                    let gi = i as int;
                                    if e is UnresolvedAccountsReference {
                                        assert(missing_ref(entries@, derefs(global@), fuel as nat))
                                            by {
                                            assert(0 <= gi < entries@.len() && match entries@[gi] {
                                                AccountEntry::Leaf(_) => false,
                                                AccountEntry::Composite { name, symbol } => match
                                                    find_struct(derefs(global@), symbol@) {
                                                    None => true,
                                                    Some(st) => fuel as nat > 0 && missing_ref(
                                                        entries_of(st),
                                                        derefs(global@),
                                                        (fuel - 1) as nat,
                                                    ),
                                                },
                                            });
                                        }
                                    }
                                }
                                return Err(e);
                            },
                            Ok(items) => {
                                let item = IdlAccountItem::IdlAccounts(
                                    IdlAccounts {
                                        name: to_mixed_case(name.as_str()),
                                        accounts: items,
                                    },
                                );
                                proof {
                                    assert(item.model() matches AccountItemModel::Group {
                                        name: gn,
                                        accounts: acc,
                                    } && gn == mixed_case_of(name@) && acc =~= account_items_model(
                                        item->IdlAccounts_0.accounts@,
                                    ));
                                }
                                out.push(item);
                            },
                        }
                    },
                }
            },
        }
        proof {
            assert(account_items_model(out@) =~= account_items_model(old_out).push(
                out@[out@.len() - 1].model(),
            ));
        }
        i = i + 1;
    }
    Ok(out)
}

/// Resolve a named account-capability structure into its ordered account
/// tree; the children mirror the declared fields one to one, in order.
pub fn idl_accounts<'a>(
    accounts: &'a StructDecl,
    global: &Vec<&'a StructDecl>,
    seeds_feature: bool,
    no_docs: bool,
) -> (r: Result<Vec<IdlAccountItem>, ExtractError>)
    requires
        accounts.entries is Some,
        forall|k: int| 0 <= k < global@.len() ==> global@[k].entries is Some,
    ensures
        match r {
            Ok(v) => resolvable(entries_of(*accounts), derefs(global@), global@.len())
                && accounts_match(
                account_items_model(v@),
                entries_of(*accounts),
                derefs(global@),
                seeds_feature,
                no_docs,
                global@.len(),
            ),
            Err(e) => !resolvable(entries_of(*accounts), derefs(global@), global@.len()) && match e {
                ExtractError::UnresolvedAccountsReference(n) => find_struct(
                    derefs(global@),
                    n@,
                ) is None && missing_ref(entries_of(*accounts), derefs(global@), global@.len()),
                ExtractError::AccountsCycle(n) => find_struct(derefs(global@), n@) is Some,
                _ => false,
            },
        },
{
    let entries = match &accounts.entries {
        Some(v) => v,
        None => {
            proof {
                assert(false);
            }
            return Err(ExtractError::AccountsCycle(accounts.name.clone()));
        },
    };
    idl_accounts_rec(entries, global, seeds_feature, no_docs, global.len())
}


/// The resolved tree a well-formed entry list yields, built top down;
/// meaningful wherever the entries are resolvable within the depth.
pub open spec fn accounts_model_of(
    entries: Seq<AccountEntry>,
    global: Seq<StructDecl>,
    seeds_feature: bool,
    no_docs: bool,
    fuel: nat,
) -> Seq<AccountItemModel>
    decreases fuel,
{
    Seq::new(
        entries.len(),
        |i: int|
            if 0 <= i < entries.len() {
                match entries[i] {
                    AccountEntry::Leaf(l) => AccountItemModel::Leaf(
                        leaf_model_of(l, seeds_feature, no_docs),
                    ),
                    AccountEntry::Composite { name, symbol } => AccountItemModel::Group {
                        name: mixed_case_of(name@),
                        accounts: if fuel > 0 {
                            match find_struct(global, symbol@) {
                                Some(s) => accounts_model_of(
                                    entries_of(s),
                                    global,
                                    seeds_feature,
                                    no_docs,
                                    (fuel - 1) as nat,
                                ),
                                None => Seq::empty(),
                            }
                        } else {
                            Seq::empty()
                        },
                    },
                }
            } else {
                AccountItemModel::Group { name: Seq::empty(), accounts: Seq::empty() }
            },
    )
}

/// A tree matching the declared entries is exactly the resolved tree.
pub proof fn lemma_accounts_match_is_model(
    items: Seq<AccountItemModel>,
    entries: Seq<AccountEntry>,
    global: Seq<StructDecl>,
    seeds_feature: bool,
    no_docs: bool,
    fuel: nat,
)
    requires
        accounts_match(items, entries, global, seeds_feature, no_docs, fuel),
    ensures
        items == accounts_model_of(entries, global, seeds_feature, no_docs, fuel),
    decreases fuel,
{
    let m = accounts_model_of(entries, global, seeds_feature, no_docs, fuel);
    assert forall|i: int| 0 <= i < items.len() implies items[i] == m[i] by {
        match entries[i] {
            AccountEntry::Leaf(_) => {},
            AccountEntry::Composite { name, symbol } => {
                match find_struct(global, symbol@) {
                    Some(st) => {
                        match items[i] {
                            AccountItemModel::Group { name: gn, accounts: acc } => {
                                lemma_accounts_match_is_model(
                                    acc,
                                    entries_of(st),
                                    global,
                                    seeds_feature,
                                    no_docs,
                                    (fuel - 1) as nat,
                                );
                            },
                            AccountItemModel::Leaf(_) => {
                                assert(false);
                            },
                        }
                    },
                    None => {
                        assert(false);
                    },
                }
            },
        }
    }
    assert(items =~= m);
}

} // verus!

//! The declaration tree handed to the extractor: annotated structs, enums,
//! constants and modules, with structured capability tags. The tree provider,
//! the constraint reader, the documentation extractor and the seed resolver
//! run before extraction and record their answers in these records.

use vstd::prelude::*;
use crate::idl::IdlPda;

verus! {

/// One capability tag on a declaration: a name and an opaque token list.
pub struct Tag {
    pub name: String,
    pub args: Vec<String>,
}

/// Number of tags in `tags` carrying the name `name`.
pub open spec fn tag_count(tags: Seq<Tag>, name: Seq<char>) -> nat
    decreases tags.len(),
{
    if tags.len() == 0 {
        0
    } else {
        (if tags[0].name@ == name {
            1nat
        } else {
            0nat
        }) + tag_count(tags.skip(1), name)
    }
}

/// Some tag in `tags` carries the name `name`.
pub open spec fn has_tag(tags: Seq<Tag>, name: Seq<char>) -> bool {
    exists|i: int| 0 <= i < tags.len() && tags[i].name@ == name
}

/// The argument tokens of the first tag named `name`, if any.
pub open spec fn first_tag_args(tags: Seq<Tag>, name: Seq<char>) -> Option<Seq<Seq<char>>>
    decreases tags.len(),
{
    if tags.len() == 0 {
        None
    } else if tags[0].name@ == name {
        Some(tags[0].args@.map_values(|s: String| s@))
    } else {
        first_tag_args(tags.skip(1), name)
    }
}

/// Some tag in `tags` named `name` carries `arg` among its arguments.
pub open spec fn has_tag_arg(tags: Seq<Tag>, name: Seq<char>, arg: Seq<char>) -> bool {
    exists|i: int, j: int|
        0 <= i < tags.len() && tags[i].name@ == name && 0 <= j < tags[i].args@.len()
            && tags[i].args@[j]@ == arg
}

/// A named field of a struct or of a named-field enum variant.
pub struct FieldDecl {
    pub name: String,
    pub docs: Option<Vec<String>>,
    pub ty: String,
    pub tags: Vec<Tag>,
}

/// Field layout of a struct declaration.
pub enum FieldsKind {
    Named(Vec<FieldDecl>),
    Positional(Vec<String>),
    Unit,
}

/// One leaf field of an account-capability structure, with the constraint
/// flags the constraint reader derived and the seed resolver's answer.
pub struct AccountLeaf {
    pub name: String,
    pub docs: Option<Vec<String>>,
    pub is_mutable: bool,
    pub has_signer_constraint: bool,
    pub is_signer_type: bool,
    pub seed: Option<IdlPda>,
    pub tags: Vec<Tag>,
}

/// One field of an account-capability structure: a leaf account or a
/// by-name reference to another capability structure.
pub enum AccountEntry {
    Leaf(AccountLeaf),
    Composite { name: String, symbol: String },
}

/// A struct declaration of the source tree.
pub struct StructDecl {
    pub name: String,
    pub is_public: bool,
    pub tags: Vec<Tag>,
    pub docs: Option<Vec<String>>,
    pub fields: FieldsKind,
    /// The constraint reader's account-structure reading, for structs that
    /// derive the account-capability trait.
    pub entries: Option<Vec<AccountEntry>>,
}

/// Payload shape of one declared enum variant.
pub enum VariantFields {
    Unit,
    Tuple(Vec<String>),
    Named(Vec<FieldDecl>),
}

/// One declared enum variant; `msg` is its declared message text, if any.
pub struct VariantDecl {
    pub name: String,
    pub docs: Option<Vec<String>>,
    pub fields: VariantFields,
    pub msg: Option<String>,
}

/// An enum declaration of the source tree.
pub struct EnumDecl {
    pub name: String,
    pub is_public: bool,
    pub tags: Vec<Tag>,
    pub docs: Option<Vec<String>>,
    pub variants: Vec<VariantDecl>,
}

/// A constant declaration: declared type and unevaluated value text.
pub struct ConstDecl {
    pub name: String,
    pub tags: Vec<Tag>,
    pub ty: String,
    pub value: String,
}

/// One argument of a declared instruction.
pub struct ArgDecl {
    pub name: String,
    pub docs: Option<Vec<String>>,
    pub ty: String,
}

/// One instruction of the program module.
pub struct InstructionDecl {
    pub name: String,
    pub docs: Option<Vec<String>>,
    pub tags: Vec<Tag>,
    pub args: Vec<ArgDecl>,
    /// Name of the associated account-capability structure.
    pub accounts_name: String,
    /// Rendered return-type expression; a unit type renders as `()`.
    pub returns: String,
}

/// A module declaration of the source tree.
pub struct ModDecl {
    pub name: String,
    pub tags: Vec<Tag>,
    pub docs: Option<Vec<String>>,
    pub instructions: Vec<InstructionDecl>,
}

/// The whole declaration tree, as the tree provider hands it over.
pub struct CrateContext {
    pub mods: Vec<ModDecl>,
    pub structs: Vec<StructDecl>,
    pub enums: Vec<EnumDecl>,
    pub consts: Vec<ConstDecl>,
}

/// A named account-capability structure, entered in the global map.
pub struct AccountsStruct {
    pub name: String,
    pub fields: Vec<AccountEntry>,
}

/// Count the tags named `name`.
pub fn count_tag(tags: &Vec<Tag>, name: &str) -> (n: usize)
    ensures
        n == tag_count(tags@, name@),
{
    let mut n: usize = 0;
    let mut i: usize = 0;
    proof {
        assert(tags@.skip(0) =~= tags@);
    }
    while i < tags.len()
        invariant
            i <= tags@.len(),
            n <= i,
            tag_count(tags@, name@) == n + tag_count(tags@.skip(i as int), name@),
        decreases tags@.len() - i,
    {
        proof {
            assert(tags@.skip(i as int)[0] == tags@[i as int]);
            assert(tags@.skip(i as int).skip(1) =~= tags@.skip(i as int + 1));
        }
        if crate::text::str_eq(tags[i].name.as_str(), name) {
            n = n + 1;
        }
        i = i + 1;
    }
    proof {
        assert(tags@.skip(tags@.len() as int) =~= Seq::<Tag>::empty());
    }
    n
}

/// Find the first tag named `name`, returning its position.
pub fn find_tag(tags: &Vec<Tag>, name: &str) -> (r: Option<usize>)
    ensures
        match r {
            Some(i) => i < tags@.len() && tags@[i as int].name@ == name@ && first_tag_args(
                tags@,
                name@,
            ) == Some(tags@[i as int].args@.map_values(|s: String| s@)),
            None => first_tag_args(tags@, name@) is None && !has_tag(tags@, name@),
        },
{
    let mut i: usize = 0;
    proof {
        assert(tags@.skip(0) =~= tags@);
    }
    while i < tags.len()
        invariant
            i <= tags@.len(),
            first_tag_args(tags@, name@) == first_tag_args(tags@.skip(i as int), name@),
            forall|k: int| 0 <= k < i ==> tags@[k].name@ != name@,
        decreases tags@.len() - i,
    {
        proof {
            assert(tags@.skip(i as int)[0] == tags@[i as int]);
            assert(tags@.skip(i as int).skip(1) =~= tags@.skip(i as int + 1));
        }
        if crate::text::str_eq(tags[i].name.as_str(), name) {
            return Some(i);
        }
        i = i + 1;
    }
    proof {
        assert(tags@.skip(tags@.len() as int) =~= Seq::<Tag>::empty());
    }
    None
}

/// Whether some tag named `name` carries `arg` among its arguments.
pub fn tag_has_arg(tags: &Vec<Tag>, name: &str, arg: &str) -> (r: bool)
    ensures
        r == has_tag_arg(tags@, name@, arg@),
{
    let mut i: usize = 0;
    while i < tags.len()
        invariant
            i <= tags@.len(),
            forall|k: int, j: int|
                0 <= k < i && tags@[k].name@ == name@ && 0 <= j < tags@[k].args@.len()
                    ==> tags@[k].args@[j]@ != arg@,
        decreases tags@.len() - i,
    {
        if crate::text::str_eq(tags[i].name.as_str(), name) {
            let args = &tags[i].args;
            let mut j: usize = 0;
            while j < args.len()
                invariant
                    i < tags@.len(),
                    tags@[i as int].name@ == name@,
                    args@ == tags@[i as int].args@,
                    j <= args@.len(),
                    forall|k: int| 0 <= k < j ==> args@[k]@ != arg@,
                decreases args@.len() - j,
            {
                if crate::text::str_eq(args[j].as_str(), arg) {
                    proof {
                        let gi = i as int;
                        let gj = j as int;
                        assert(0 <= gi < tags@.len() && tags@[gi].name@ == name@ && 0 <= gj
                            < tags@[gi].args@.len() && tags@[gi].args@[gj]@ == arg@);
                    }
                    return true;
                }
                j = j + 1;
            }
        }
        i = i + 1;
    }
    false
}

} // verus!
